use koi::text_fragment::TextFragment;

#[test]
fn test_new() {
    // normal character
    let f = TextFragment::new("a", 0);
    assert_eq!(f.grapheme(), "a");
    assert_eq!(f.width(), 1);
    assert_eq!(f.replacement(), None);

    // full-width character
    let f = TextFragment::new("緑", 0);
    assert_eq!(f.grapheme(), "緑");
    assert_eq!(f.width(), 2);
    assert_eq!(f.replacement(), None);

    // tab
    let f = TextFragment::new("\t", 0);
    assert_eq!(f.grapheme(), "\t");
    assert_eq!(f.width(), 4);
    assert_eq!(f.replacement(), Some("→   "));
    let f = TextFragment::new("\t", 1);
    assert_eq!(f.grapheme(), "\t");
    assert_eq!(f.width(), 3);
    assert_eq!(f.replacement(), Some("→  "));

    // ctrl character
    let f = TextFragment::new("\x01", 0);
    assert_eq!(f.grapheme(), "\x01");
    assert_eq!(f.width(), 2);
    assert_eq!(f.replacement(), Some("^A"));
}

#[test]
fn tab_reaches_next_stop() {
    for (left, width) in [(0, 4), (1, 3), (2, 2), (3, 1), (4, 4), (7, 1)] {
        let f = TextFragment::new("\t", left);
        assert_eq!(f.width(), width);
        assert_eq!(f.left_col_width(), left);
        assert_eq!(f.text().chars().count(), width);
    }
}

#[test]
fn space_has_no_replacement() {
    let f = TextFragment::new(" ", 3);
    assert_eq!(f.width(), 1);
    assert_eq!(f.replacement(), None);
    assert_eq!(f.text(), " ");
}

#[test]
fn no_break_spaces_get_a_placeholder() {
    for g in ["\u{a0}", "\u{202f}"] {
        let f = TextFragment::new(g, 0);
        assert_eq!(f.width(), 1);
        assert_eq!(f.replacement(), Some("␣"));
        assert_eq!(f.text(), "␣");
    }
}

#[test]
fn zero_width_cluster_gets_a_dot() {
    let f = TextFragment::new("\u{301}", 0);
    assert_eq!(f.width(), 1);
    assert_eq!(f.replacement(), Some("·"));
}

#[test]
fn control_codes_use_caret_notation() {
    let f = TextFragment::new("\x1b", 5);
    assert_eq!(f.replacement(), Some("^["));
    assert_eq!(f.width(), 2);
    assert_eq!(f.text(), "^[");
}

#[test]
fn wide_and_narrow_shown_as_themselves() {
    let f = TextFragment::new("é", 0);
    assert_eq!(f.width(), 1);
    assert_eq!(f.text(), "é");
    let f = TextFragment::new("に", 2);
    assert_eq!(f.width(), 2);
    assert_eq!(f.left_col_width(), 2);
    assert_eq!(f.text(), "に");
}
