use chessagon::diagrams::visualize_tile_property;
use chessagon::{IVec2, Vec2};
use std::collections::HashSet;

const FILES: &str = r#"
/---\
                     /---⟨  5  ⟩---\
                /---⟨  4  ⟩---⟨  6  ⟩---\
           /---⟨  3  ⟩---⟨  5  ⟩---⟨  7  ⟩---\
      /---⟨  2  ⟩---⟨  4  ⟩---⟨  6  ⟩---⟨  8  ⟩---\
 /---⟨  1  ⟩---⟨  3  ⟩---⟨  5  ⟩---⟨  7  ⟩---⟨  9  ⟩---\
⟨  0  ⟩---⟨  2  ⟩---⟨  4  ⟩---⟨  6  ⟩---⟨  8  ⟩---⟨  a  ⟩
 ⟩---⟨  1  ⟩---⟨  3  ⟩---⟨  5  ⟩---⟨  7  ⟩---⟨  9  ⟩---⟨
⟨  0  ⟩---⟨  2  ⟩---⟨  4  ⟩---⟨  6  ⟩---⟨  8  ⟩---⟨  a  ⟩
 ⟩---⟨  1  ⟩---⟨  3  ⟩---⟨  5  ⟩---⟨  7  ⟩---⟨  9  ⟩---⟨
⟨  0  ⟩---⟨  2  ⟩---⟨  4  ⟩---⟨  6  ⟩---⟨  8  ⟩---⟨  a  ⟩
 ⟩---⟨  1  ⟩---⟨  3  ⟩---⟨  5  ⟩---⟨  7  ⟩---⟨  9  ⟩---⟨
⟨  0  ⟩---⟨  2  ⟩---⟨  4  ⟩---⟨  6  ⟩---⟨  8  ⟩---⟨  a  ⟩
 ⟩---⟨  1  ⟩---⟨  3  ⟩---⟨  5  ⟩---⟨  7  ⟩---⟨  9  ⟩---⟨
⟨  0  ⟩---⟨  2  ⟩---⟨  4  ⟩---⟨  6  ⟩---⟨  8  ⟩---⟨  a  ⟩
 ⟩---⟨  1  ⟩---⟨  3  ⟩---⟨  5  ⟩---⟨  7  ⟩---⟨  9  ⟩---⟨
⟨  0  ⟩---⟨  2  ⟩---⟨  4  ⟩---⟨  6  ⟩---⟨  8  ⟩---⟨  a  ⟩
 \---⟨  1  ⟩---⟨  3  ⟩---⟨  5  ⟩---⟨  7  ⟩---⟨  9  ⟩---/
      \---⟨  2  ⟩---⟨  4  ⟩---⟨  6  ⟩---⟨  8  ⟩---/
           \---⟨  3  ⟩---⟨  5  ⟩---⟨  7  ⟩---/
                \---⟨  4  ⟩---⟨  6  ⟩---/
                     \---⟨  5  ⟩---/
                          \---/
"#;

const RANKS: &str = r#"
/---\
                     /---⟨  k  ⟩---\
                /---⟨  j  ⟩---⟨  j  ⟩---\
           /---⟨  i  ⟩---⟨  i  ⟩---⟨  i  ⟩---\
      /---⟨  h  ⟩---⟨  h  ⟩---⟨  h  ⟩---⟨  h  ⟩---\
 /---⟨  g  ⟩---⟨  g  ⟩---⟨  g  ⟩---⟨  g  ⟩---⟨  g  ⟩---\
⟨  f  ⟩---⟨  f  ⟩---⟨  f  ⟩---⟨  f  ⟩---⟨  f  ⟩---⟨  f  ⟩
 ⟩---⟨  e  ⟩---⟨  e  ⟩---⟨  e  ⟩---⟨  e  ⟩---⟨  e  ⟩---⟨
⟨  d  ⟩---⟨  d  ⟩---⟨  d  ⟩---⟨  d  ⟩---⟨  d  ⟩---⟨  d  ⟩
 ⟩---⟨  c  ⟩---⟨  c  ⟩---⟨  c  ⟩---⟨  c  ⟩---⟨  c  ⟩---⟨
⟨  b  ⟩---⟨  b  ⟩---⟨  b  ⟩---⟨  b  ⟩---⟨  b  ⟩---⟨  b  ⟩
 ⟩---⟨  a  ⟩---⟨  a  ⟩---⟨  a  ⟩---⟨  a  ⟩---⟨  a  ⟩---⟨
⟨  9  ⟩---⟨  9  ⟩---⟨  9  ⟩---⟨  9  ⟩---⟨  9  ⟩---⟨  9  ⟩
 ⟩---⟨  8  ⟩---⟨  8  ⟩---⟨  8  ⟩---⟨  8  ⟩---⟨  8  ⟩---⟨
⟨  7  ⟩---⟨  7  ⟩---⟨  7  ⟩---⟨  7  ⟩---⟨  7  ⟩---⟨  7  ⟩
 ⟩---⟨  6  ⟩---⟨  6  ⟩---⟨  6  ⟩---⟨  6  ⟩---⟨  6  ⟩---⟨
⟨  5  ⟩---⟨  5  ⟩---⟨  5  ⟩---⟨  5  ⟩---⟨  5  ⟩---⟨  5  ⟩
 \---⟨  4  ⟩---⟨  4  ⟩---⟨  4  ⟩---⟨  4  ⟩---⟨  4  ⟩---/
      \---⟨  3  ⟩---⟨  3  ⟩---⟨  3  ⟩---⟨  3  ⟩---/
           \---⟨  2  ⟩---⟨  2  ⟩---⟨  2  ⟩---/
                \---⟨  1  ⟩---⟨  1  ⟩---/
                     \---⟨  0  ⟩---/
                          \---/
"#;

const RANK_WIDTHS: &str = r#"
/---\
                     /---⟨  1  ⟩---\
                /---⟨  2  ⟩---⟨  2  ⟩---\
           /---⟨  3  ⟩---⟨  3  ⟩---⟨  3  ⟩---\
      /---⟨  4  ⟩---⟨  4  ⟩---⟨  4  ⟩---⟨  4  ⟩---\
 /---⟨  5  ⟩---⟨  5  ⟩---⟨  5  ⟩---⟨  5  ⟩---⟨  5  ⟩---\
⟨  6  ⟩---⟨  6  ⟩---⟨  6  ⟩---⟨  6  ⟩---⟨  6  ⟩---⟨  6  ⟩
 ⟩---⟨  5  ⟩---⟨  5  ⟩---⟨  5  ⟩---⟨  5  ⟩---⟨  5  ⟩---⟨
⟨  6  ⟩---⟨  6  ⟩---⟨  6  ⟩---⟨  6  ⟩---⟨  6  ⟩---⟨  6  ⟩
 ⟩---⟨  5  ⟩---⟨  5  ⟩---⟨  5  ⟩---⟨  5  ⟩---⟨  5  ⟩---⟨
⟨  6  ⟩---⟨  6  ⟩---⟨  6  ⟩---⟨  6  ⟩---⟨  6  ⟩---⟨  6  ⟩
 ⟩---⟨  5  ⟩---⟨  5  ⟩---⟨  5  ⟩---⟨  5  ⟩---⟨  5  ⟩---⟨
⟨  6  ⟩---⟨  6  ⟩---⟨  6  ⟩---⟨  6  ⟩---⟨  6  ⟩---⟨  6  ⟩
 ⟩---⟨  5  ⟩---⟨  5  ⟩---⟨  5  ⟩---⟨  5  ⟩---⟨  5  ⟩---⟨
⟨  6  ⟩---⟨  6  ⟩---⟨  6  ⟩---⟨  6  ⟩---⟨  6  ⟩---⟨  6  ⟩
 ⟩---⟨  5  ⟩---⟨  5  ⟩---⟨  5  ⟩---⟨  5  ⟩---⟨  5  ⟩---⟨
⟨  6  ⟩---⟨  6  ⟩---⟨  6  ⟩---⟨  6  ⟩---⟨  6  ⟩---⟨  6  ⟩
 \---⟨  5  ⟩---⟨  5  ⟩---⟨  5  ⟩---⟨  5  ⟩---⟨  5  ⟩---/
      \---⟨  4  ⟩---⟨  4  ⟩---⟨  4  ⟩---⟨  4  ⟩---/
           \---⟨  3  ⟩---⟨  3  ⟩---⟨  3  ⟩---/
                \---⟨  2  ⟩---⟨  2  ⟩---/
                     \---⟨  1  ⟩---/
                          \---/
"#;

const MIN_VALID_RANK_COORDINATES: &str = r#"
/---\
                     /---⟨  a  ⟩---\
                /---⟨  9  ⟩---⟨  9  ⟩---\
           /---⟨  8  ⟩---⟨  8  ⟩---⟨  8  ⟩---\
      /---⟨  7  ⟩---⟨  7  ⟩---⟨  7  ⟩---⟨  7  ⟩---\
 /---⟨  6  ⟩---⟨  6  ⟩---⟨  6  ⟩---⟨  6  ⟩---⟨  6  ⟩---\
⟨  5  ⟩---⟨  5  ⟩---⟨  5  ⟩---⟨  5  ⟩---⟨  5  ⟩---⟨  5  ⟩
 ⟩---⟨  5  ⟩---⟨  5  ⟩---⟨  5  ⟩---⟨  5  ⟩---⟨  5  ⟩---⟨
⟨  4  ⟩---⟨  4  ⟩---⟨  4  ⟩---⟨  4  ⟩---⟨  4  ⟩---⟨  4  ⟩
 ⟩---⟨  4  ⟩---⟨  4  ⟩---⟨  4  ⟩---⟨  4  ⟩---⟨  4  ⟩---⟨
⟨  3  ⟩---⟨  3  ⟩---⟨  3  ⟩---⟨  3  ⟩---⟨  3  ⟩---⟨  3  ⟩
 ⟩---⟨  3  ⟩---⟨  3  ⟩---⟨  3  ⟩---⟨  3  ⟩---⟨  3  ⟩---⟨
⟨  2  ⟩---⟨  2  ⟩---⟨  2  ⟩---⟨  2  ⟩---⟨  2  ⟩---⟨  2  ⟩
 ⟩---⟨  2  ⟩---⟨  2  ⟩---⟨  2  ⟩---⟨  2  ⟩---⟨  2  ⟩---⟨
⟨  1  ⟩---⟨  1  ⟩---⟨  1  ⟩---⟨  1  ⟩---⟨  1  ⟩---⟨  1  ⟩
 ⟩---⟨  1  ⟩---⟨  1  ⟩---⟨  1  ⟩---⟨  1  ⟩---⟨  1  ⟩---⟨
⟨  0  ⟩---⟨  0  ⟩---⟨  0  ⟩---⟨  0  ⟩---⟨  0  ⟩---⟨  0  ⟩
 \---⟨  0  ⟩---⟨  0  ⟩---⟨  0  ⟩---⟨  0  ⟩---⟨  0  ⟩---/
      \---⟨  0  ⟩---⟨  0  ⟩---⟨  0  ⟩---⟨  0  ⟩---/
           \---⟨  0  ⟩---⟨  0  ⟩---⟨  0  ⟩---/
                \---⟨  0  ⟩---⟨  0  ⟩---/
                     \---⟨  0  ⟩---/
                          \---/
"#;

#[test]
fn rank_is_between_0_and_max() {
    let mut ranks = (0..=Vec2::MAX_RANK).collect::<HashSet<_>>();
    for position in Vec2::iter() {
        ranks.remove(&position.rank());
    }

    assert!(ranks.is_empty())
}

#[test]
fn rank_width_matches_manual_impl() {
    let manual_rank = |rank| match rank {
        0 => 1,
        1 => 2,
        2 => 3,
        3 => 4,
        4 => 5,
        5 => 6,
        6 => 5,
        7 => 6,
        8 => 5,
        9 => 6,
        10 => 5,
        11 => 6,
        12 => 5,
        13 => 6,
        14 => 5,
        15 => 6,
        16 => 5,
        17 => 4,
        18 => 3,
        19 => 2,
        20 => 1,
        _ => panic!("Invalid rank {rank}"),
    };

    for rank in 0..=Vec2::MAX_RANK {
        assert_eq!(manual_rank(rank), Vec2::rank_width(rank));
    }
}

#[test]
fn file_is_between_0_and_10() {
    let mut ranks = (0..=10).collect::<HashSet<_>>();
    for position in Vec2::iter() {
        ranks.remove(&position.file());
    }

    assert!(ranks.is_empty())
}

#[test]
fn files_match_diagram() {
    let rendered = visualize_tile_property(
        |position| position.file(),
        |file| char::from_digit(*file as u32, 16).unwrap(),
    );

    assert_eq!(rendered.trim(), FILES.trim());
}

#[test]
fn ranks_match_diagram() {
    let rendered = visualize_tile_property(
        |position| position.rank(),
        |rank| char::from_digit(*rank as u32, 36).unwrap(),
    );

    assert_eq!(rendered.trim(), RANKS.trim());
}

#[test]
fn rank_widths_match_diagram() {
    let rendered = visualize_tile_property(
        |position| Vec2::rank_width(position.rank()),
        |width| char::from_digit(*width as u32, 16).unwrap(),
    );

    assert_eq!(rendered.trim(), RANK_WIDTHS.trim());
}

#[test]
fn min_valid_rank_coordinates_match_diagram() {
    let rendered = visualize_tile_property(
        |position| Vec2::min_valid_rank_coordinate(position.rank()),
        |width| char::from_digit(*width as u32, 16).unwrap(),
    );

    assert_eq!(rendered.trim(), MIN_VALID_RANK_COORDINATES.trim());
}

#[test]
fn fn_is_valid_in_ivec2_returns_valid_for_every_vec2_diff_and_invalid_otherwise() {
    let mut visited = HashSet::new();
    for a in Vec2::iter() {
        for b in Vec2::iter() {
            let diff = a - b;
            assert!(IVec2::is_valid(diff.x, diff.y));
            visited.insert(diff);
        }
    }

    for x in i8::MIN + 1..=i8::MAX {
        for y in i8::MIN + 1..=i8::MAX {
            assert_eq!(
                IVec2::is_valid(x, y),
                visited.contains(&IVec2::new_unchecked(x, y))
            )
        }
    }
}

#[test]
fn tiles_are_listed_by_x_then_y() {
    let tiles = Vec2::iter();
    assert_eq!(tiles.len(), 91);
    assert_eq!(tiles[0], Vec2::new(0, 0).unwrap());
    assert_eq!(tiles[5], Vec2::new(0, 5).unwrap());
    assert_eq!(tiles[6], Vec2::new(1, 0).unwrap());
    assert_eq!(tiles[90], Vec2::new(10, 10).unwrap());
    for pair in tiles.windows(2) {
        assert!((pair[0].x(), pair[0].y()) < (pair[1].x(), pair[1].y()));
    }
}

#[test]
fn new_rejects_what_lies_outside_of_the_board() {
    assert_eq!(Vec2::new(0, 0), Some(Vec2::new_unchecked(0, 0)));
    assert_eq!(Vec2::new(5, 10), Some(Vec2::new_unchecked(5, 10)));
    assert_eq!(Vec2::new(4, 10), None);
    assert_eq!(Vec2::new(11, 10), None);
    assert_eq!(Vec2::new(10, 11), None);
    assert_eq!(Vec2::new(6, 0), None);
    assert!(Vec2::is_valid(10, 5));
    assert!(!Vec2::is_valid(10, 4));
}

#[test]
fn rank_file_and_tile_color_follow_their_formulas() {
    let position = Vec2::new(3, 7).unwrap();
    assert_eq!(position.rank(), 10);
    assert_eq!(position.file(), 9);
    assert_eq!(position.index(), 1);
    assert_eq!(position.flipped(), Vec2::new(7, 3).unwrap());
    assert_eq!(Vec2::center().flipped(), Vec2::center());
    assert_eq!(Vec2::min_valid_rank_coordinate(0), 0);
    assert_eq!(Vec2::min_valid_rank_coordinate(6), 1);
    assert_eq!(Vec2::min_valid_rank_coordinate(15), 5);
    assert_eq!(Vec2::min_valid_rank_coordinate(20), 10);
}

#[test]
fn touching_tiles_differ_in_tile_color() {
    for a in Vec2::iter() {
        for b in Vec2::iter() {
            if a.distance(b) == 1 {
                assert_ne!(a.index(), b.index());
            }
        }
    }
}

#[test]
fn distance_is_the_number_of_steps() {
    let origin = Vec2::new(5, 5).unwrap();
    assert_eq!(origin.distance(origin), 0);
    assert_eq!(origin.distance(Vec2::new(7, 8).unwrap()), 3);
    assert_eq!(origin.distance(Vec2::new(3, 2).unwrap()), 3);
    assert_eq!(origin.distance(Vec2::new(7, 3).unwrap()), 4);
    assert_eq!(origin.distance(Vec2::new(5, 10).unwrap()), 5);
    assert_eq!(IVec2::new_unchecked(-2, 3).length(), 5);
    assert_eq!(IVec2::new_unchecked(-2, -3).length(), 3);
    assert_eq!(IVec2::new_unchecked(0, -3).length(), 3);
}

#[test]
fn differences_are_listed_once_and_all_valid() {
    let deltas = IVec2::iter();
    let mut expected = 0;
    for x in -10..=10_i8 {
        for y in -10..=10_i8 {
            if IVec2::is_valid(x, y) {
                expected += 1;
                assert!(deltas.contains(&IVec2::new_unchecked(x, y)));
            }
        }
    }
    assert_eq!(deltas.len(), expected);
    assert_eq!(deltas.len(), 331);
    assert_eq!(IVec2::strides().len(), 192);
    assert!(IVec2::strides().contains(&IVec2::new_unchecked(-3, 2)));
    assert!(!IVec2::strides().contains(&IVec2::new_unchecked(-4, 2)));
    assert!(!IVec2::strides().contains(&IVec2::zero()));
}

#[test]
fn vectors_add_wrapping_and_scale() {
    let origin = Vec2::new(5, 5).unwrap();
    assert_eq!(origin + IVec2::new_unchecked(-2, 3), Vec2::new(3, 8).unwrap());
    assert_eq!(
        Vec2::new_unchecked(1, 0) + IVec2::new_unchecked(-2, 0),
        Vec2::new_unchecked(255, 0)
    );
    assert_eq!(Vec2::new(7, 2).unwrap() - origin, IVec2::new_unchecked(2, -3));
    assert_eq!(IVec2::new_unchecked(-2, 1) * 3, IVec2::new_unchecked(-6, 3));
    assert_eq!(IVec2::new_unchecked(-7, 5) / 2, IVec2::new_unchecked(-3, 2));
    assert_eq!(Vec2::new_unchecked(2, 3) * 3, Vec2::new_unchecked(6, 9));
    assert_eq!(Vec2::new_unchecked(7, 9) / 2, Vec2::new_unchecked(3, 4));
}
