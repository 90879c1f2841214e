use chessagon::{Color, IVec2, Side};
use std::cmp::Ordering;

#[test]
fn colors_pick_direct_and_oppose() {
    assert_eq!(Color::White.pick(1, 2), 1);
    assert_eq!(Color::Black.pick(1, 2), 2);
    assert_eq!(Color::White.direction(), 1);
    assert_eq!(Color::Black.direction(), -1);
    assert_eq!(Color::White.other(), Color::Black);
    assert_eq!(Color::Black.other(), Color::White);
}

#[test]
fn colors_compare_towards_their_side() {
    assert_eq!(Color::White.compare_towards(3, 5), Ordering::Less);
    assert_eq!(Color::White.compare_towards(5, 3), Ordering::Greater);
    assert_eq!(Color::Black.compare_towards(3, 5), Ordering::Greater);
    assert_eq!(Color::Black.compare_towards(5, 3), Ordering::Less);
    assert_eq!(Color::Black.compare_towards(4, 4), Ordering::Equal);
}

#[test]
fn sides_pick_direct_and_step() {
    assert_eq!(Side::King.pick('k', 'q'), 'k');
    assert_eq!(Side::Queen.pick('k', 'q'), 'q');
    assert_eq!(Side::King.direction(), 1);
    assert_eq!(Side::Queen.direction(), -1);
    assert_eq!(Side::King.other(), Side::Queen);
    assert_eq!(Side::Queen.other(), Side::King);
    assert_eq!(Side::Queen.step_towards(1), IVec2::new_unchecked(1, 0));
    assert_eq!(Side::King.step_towards(1), IVec2::new_unchecked(0, 1));
    assert_eq!(Side::Queen.step_towards(-1), IVec2::new_unchecked(0, -1));
    assert_eq!(Side::King.step_towards(-1), IVec2::new_unchecked(-1, 0));
}
