use koi::position::Position;
use koi::size::Size;

#[test]
fn position_saturating_sub() {
    let p = Position::new(5, 2);
    assert_eq!(p.saturating_sub(&Position::new(1, 1)), Position::new(4, 1));
    assert_eq!(p.saturating_sub(&Position::new(9, 3)), Position::new(0, 0));
    assert_eq!(Position::default(), Position::new(0, 0));
    let s = Size::new(80, 24);
    assert_eq!((s.width, s.height), (80, 24));
}
