use koi::line::Line;

#[test]
fn test_line() {
    let mut line = Line::from("test_from");
    assert_eq!(line.content(), "test_from");
    assert_eq!(line.grapheme_count(), 9);
    assert_eq!(line.col_width(), 9);
    assert_eq!(line.grapheme_idx_to_col_idx(5), 5);
    assert_eq!(line.get_fragment_by_col_idx(4).map_or("", |f| f.grapheme()), "_");
    assert_eq!(line.get_fragment_by_col_idx(5).map_or("", |f| f.grapheme()), "f");
    assert_eq!(line.get_str_by_col_range(0..0), "");
    assert_eq!(line.get_str_by_col_range(2..6), "st_f");
    assert_eq!(line.get_str_by_col_range(1..5), "est_");
    line.insert(1, "ok");
    assert_eq!(line.content(), "tokest_from");
    assert_eq!(line.grapheme_count(), 11);
    assert_eq!(line.col_width(), 11);
    line.remove(1, 2);
    assert_eq!(line.content(), "test_from");
    assert_eq!(line.grapheme_count(), 9);
    assert_eq!(line.col_width(), 9);

    let mut line = Line::from("こんにちは");
    assert_eq!(line.content(), "こんにちは");
    assert_eq!(line.grapheme_count(), 5);
    assert_eq!(line.col_width(), 10);
    assert_eq!(line.grapheme_idx_to_col_idx(2), 4);
    assert_eq!(line.get_fragment_by_col_idx(4).map_or("", |f| f.grapheme()), "に");
    assert_eq!(line.get_fragment_by_col_idx(5).map_or("", |f| f.grapheme()), "に");
    assert_eq!(line.get_str_by_col_range(2..6), "んに");
    assert_eq!(line.get_str_by_col_range(1..5), "«ん»");
    line.insert(2, "ok");
    assert_eq!(line.content(), "こokんにちは");
    assert_eq!(line.grapheme_count(), 7);
    assert_eq!(line.col_width(), 12);
    line.remove(2, 2);
    assert_eq!(line.content(), "こoにちは");
    assert_eq!(line.grapheme_count(), 5);
    assert_eq!(line.col_width(), 9);

    let line2 = Line::from("test_from");
    line.append(&line2);
    assert_eq!(line.content(), "こoにちはtest_from");
}

#[test]
fn test_tab() {
    let mut line = Line::from("\t");
    assert_eq!(line.content(), "\t");
    assert_eq!(line.grapheme_count(), 1);
    assert_eq!(line.col_width(), 4);
    assert_eq!(line.get_str(), "→   ");
    line.insert(0, "ok");
    assert_eq!(line.content(), "ok\t");
    assert_eq!(line.grapheme_count(), 3);
    assert_eq!(line.col_width(), 4);
    assert_eq!(line.get_str(), "ok→ ");

    let mut line = Line::from("test_from");
    line.insert(1, "\t");
    assert_eq!(line.content(), "t\test_from");
    assert_eq!(line.col_width(), 12);
    assert_eq!(line.get_str(), "t→  est_from");
    line.insert(4, "\t");
    assert_eq!(line.get_str(), "t→  →   est_from");
    assert_eq!(line.content(), "t\t\test_from");
    line.insert(14, "\t");
    assert_eq!(line.get_str(), "t→  →   est_fr→ om");
    assert_eq!(line.content(), "t\t\test_fr\tom");

    let mut line = Line::from("qwert");
    line.insert(1, "\t");
    assert_eq!(line.content(), "q\twert");
    assert_eq!(line.get_str(), "q→  wert");
    line.insert(4, "a");
    assert_eq!(line.content(), "q\tawert");
    assert_eq!(line.get_str(), "q→  awert");
}

#[test]
fn test_idx_conversion() {
    let line = Line::from("qwert");
    assert_eq!(line.col_idx_to_grapheme_idx(0), 0);
    assert_eq!(line.col_idx_to_grapheme_idx(3), 3);
    assert_eq!(line.grapheme_idx_to_col_idx(0), 0);
    assert_eq!(line.grapheme_idx_to_col_idx(3), 3);
    let line = Line::from("こんにちは");
    assert_eq!(line.col_idx_to_grapheme_idx(0), 0);
    assert_eq!(line.col_idx_to_grapheme_idx(4), 2);
    assert_eq!(line.grapheme_idx_to_col_idx(0), 0);
    assert_eq!(line.grapheme_idx_to_col_idx(2), 4);
}

#[test]
fn test_split_off() {
    let mut line = Line::from("qwert");
    assert_eq!(line.content(), "qwert");
    let remainder = line.split_off(3);
    assert_eq!(line.content(), "qwe");
    assert_eq!(remainder.content(), "rt");
    let remainder = line.split_off(1);
    assert_eq!(line.content(), "q");
    assert_eq!(remainder.content(), "we");
    let remainder = line.split_off(1);
    assert_eq!(line.content(), "q");
    assert_eq!(remainder.content(), "");
    let remainder = line.split_off(0);
    assert_eq!(line.content(), "");
    assert_eq!(remainder.content(), "q");
}

#[test]
fn fragment_widths_add_up_to_line_width() {
    for text in ["", "test_from", "こんにちは", "a\tb\t\tc", "x\u{a0}y\x01z", "e\u{301}\tに"] {
        let line = Line::from(text);
        let sum: usize = line.fragments().iter().map(|f| f.width()).sum();
        assert_eq!(sum, line.col_width());
        let mut left = 0;
        for f in line.fragments() {
            assert_eq!(f.left_col_width(), left);
            left += f.width();
        }
    }
}

#[test]
fn insert_then_remove_restores_line() {
    let cases = [("test_from", 3, "ok"), ("こんにちは", 4, "緑x"), ("q\twert", 2, "\t"), ("abc", 9, "zz")];
    for (text, col, run) in cases {
        let mut line = Line::from(text);
        let k = line.col_idx_to_grapheme_idx(col);
        let n = Line::from(run).grapheme_count();
        line.insert(col, run);
        assert_ne!(line.content(), text);
        line.remove(k, n);
        assert_eq!(line.content(), text);
    }
}

#[test]
fn clusters_are_kept_whole() {
    let line = Line::from("e\u{301}x🇯🇵");
    assert_eq!(line.grapheme_count(), 3);
    assert_eq!(line.fragments()[0].grapheme(), "e\u{301}");
    assert_eq!(line.fragments()[2].grapheme(), "🇯🇵");
    assert_eq!(line.col_width(), 4);
}

#[test]
fn empty_line_and_empty_ranges() {
    let line = Line::from("");
    assert_eq!(line.grapheme_count(), 0);
    assert_eq!(line.col_width(), 0);
    assert_eq!(line.get_str(), "");
    assert!(line.get_fragment_by_col_idx(0).is_none());
    assert_eq!(line.col_idx_to_grapheme_idx(5), 0);
    let line = Line::from("abc");
    assert_eq!(line.get_str_by_col_range(2..2), "");
    assert_eq!(line.get_str_by_col_range(3..5), "");
}

#[test]
fn range_past_the_end_is_clamped() {
    let line = Line::from("abc");
    assert_eq!(line.get_str_by_col_range(0..5), "abc");
    assert_eq!(line.get_str_by_col_range(1..9), "bc");
}

#[test]
fn tab_straddling_a_range_edge_gives_markers() {
    let line = Line::from("a\tb");
    assert_eq!(line.get_str_by_col_range(2..5), "«b");
    assert_eq!(line.get_str_by_col_range(0..3), "a»");
    assert_eq!(line.get_str_by_col_range(0..4), "a→  ");
}

#[test]
fn insert_inside_wide_cluster_goes_after_it() {
    let mut line = Line::from("こんに");
    line.insert(3, "x");
    assert_eq!(line.content(), "こんxに");
    let mut line = Line::from("ab");
    line.insert(usize::MAX, "c");
    assert_eq!(line.content(), "abc");
}

#[test]
fn remove_past_end_changes_nothing() {
    let mut line = Line::from("abc");
    line.remove(3, 1);
    assert_eq!(line.content(), "abc");
    line.remove(1, usize::MAX);
    assert_eq!(line.content(), "a");
}

#[test]
fn split_inside_wide_cluster_keeps_it_left() {
    let mut line = Line::from("こんに");
    let rest = line.split_off(3);
    assert_eq!(line.content(), "こん");
    assert_eq!(rest.content(), "に");
    assert_eq!(rest.col_width(), 2);
}

#[test]
fn grapheme_at_col_finds_holding_cluster() {
    let line = Line::from("aこb");
    assert_eq!(line.grapheme_idx_at_col(0), 0);
    assert_eq!(line.grapheme_idx_at_col(1), 1);
    assert_eq!(line.grapheme_idx_at_col(2), 1);
    assert_eq!(line.grapheme_idx_at_col(3), 2);
    assert_eq!(line.grapheme_idx_at_col(4), 3);
}

#[test]
fn range_inside_one_wide_cluster_gives_markers() {
    assert_eq!(Line::from("\t").get_str_by_col_range(1..3), "«»");
    assert_eq!(Line::from("こ").get_str_by_col_range(1..2), "«");
    assert_eq!(Line::from("ここ").get_str_by_col_range(1..2), "«");
    assert_eq!(Line::from("ここ").get_str_by_col_range(1..3), "«»");
    assert_eq!(Line::from("こんにちは").get_str_by_col_range(1..2), "«");
    assert_eq!(Line::from("こんにちは").get_str_by_col_range(3..9), "«にち»");
    assert_eq!(Line::from("ab").get_str_by_col_range(2..1), "");
}
