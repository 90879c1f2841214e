use chessagon::diagrams::visualize_tile_property;
use chessagon::{Board, Vec2};
use std::collections::HashSet;

#[test]
fn board_number_of_tiles_const_matches_computation() {
    assert_eq!(Vec2::iter().into_iter().count(), Board::NUMBER_OF_TILES as usize);
}

#[test]
fn number_of_files_const_matches_computation() {
    assert_eq!(
        Vec2::iter()
            .into_iter()
            .map(|pos| pos.file())
            .collect::<HashSet<_>>()
            .len(),
        Board::NUMBER_OF_FILES as usize
    );
}

#[test]
fn board_index_is_dense_and_unique() {
    let mut indices = (0..Board::NUMBER_OF_TILES as usize).collect::<HashSet<_>>();

    for position in Vec2::iter() {
        let index = Board::index(position);
        assert!(
            indices.remove(&index),
            "{index} is counted twice (by {position:?})"
        );
    }

    assert!(indices.is_empty(), "Leftover: {indices:?}");
}

#[test]
fn vec_to_index_to_vec_is_identity() {
    for position in Vec2::iter() {
        let index = Board::index(position);
        let new_position = Board::index_to_vec(index);

        assert_eq!(position, new_position);
    }
}

#[test]
fn index_to_vec_to_index_is_identity() {
    for index in 0..Board::NUMBER_OF_TILES as usize {
        let vec = Board::index_to_vec(index);
        let new_index = Board::index(vec);

        assert_eq!(index, new_index);
    }
}

const INDICES: &str = r#"
/---\
                     /---⟨  i  ⟩---\
                /---⟨  g  ⟩---⟨  h  ⟩---\
           /---⟨  d  ⟩---⟨  e  ⟩---⟨  f  ⟩---\
      /---⟨  9  ⟩---⟨  a  ⟩---⟨  b  ⟩---⟨  c  ⟩---\
 /---⟨  4  ⟩---⟨  5  ⟩---⟨  6  ⟩---⟨  7  ⟩---⟨  8  ⟩---\
⟨  y  ⟩---⟨  z  ⟩---⟨  0  ⟩---⟨  1  ⟩---⟨  2  ⟩---⟨  3  ⟩
 ⟩---⟨  t  ⟩---⟨  u  ⟩---⟨  v  ⟩---⟨  w  ⟩---⟨  x  ⟩---⟨
⟨  n  ⟩---⟨  o  ⟩---⟨  p  ⟩---⟨  q  ⟩---⟨  r  ⟩---⟨  s  ⟩
 ⟩---⟨  i  ⟩---⟨  j  ⟩---⟨  k  ⟩---⟨  l  ⟩---⟨  m  ⟩---⟨
⟨  c  ⟩---⟨  d  ⟩---⟨  e  ⟩---⟨  f  ⟩---⟨  g  ⟩---⟨  h  ⟩
 ⟩---⟨  7  ⟩---⟨  8  ⟩---⟨  9  ⟩---⟨  a  ⟩---⟨  b  ⟩---⟨
⟨  1  ⟩---⟨  2  ⟩---⟨  3  ⟩---⟨  4  ⟩---⟨  5  ⟩---⟨  6  ⟩
 ⟩---⟨  w  ⟩---⟨  x  ⟩---⟨  y  ⟩---⟨  z  ⟩---⟨  0  ⟩---⟨
⟨  q  ⟩---⟨  r  ⟩---⟨  s  ⟩---⟨  t  ⟩---⟨  u  ⟩---⟨  v  ⟩
 ⟩---⟨  l  ⟩---⟨  m  ⟩---⟨  n  ⟩---⟨  o  ⟩---⟨  p  ⟩---⟨
⟨  f  ⟩---⟨  g  ⟩---⟨  h  ⟩---⟨  i  ⟩---⟨  j  ⟩---⟨  k  ⟩
 \---⟨  a  ⟩---⟨  b  ⟩---⟨  c  ⟩---⟨  d  ⟩---⟨  e  ⟩---/
      \---⟨  6  ⟩---⟨  7  ⟩---⟨  8  ⟩---⟨  9  ⟩---/
           \---⟨  3  ⟩---⟨  4  ⟩---⟨  5  ⟩---/
                \---⟨  1  ⟩---⟨  2  ⟩---/
                     \---⟨  0  ⟩---/
                          \---/
"#;

const INITIAL_BOARD: &str = r#"
/---\
                     /---⟨  ♗  ⟩---\
                /---⟨  ♔  ⟩---⟨  ♕  ⟩---\
           /---⟨  ♘  ⟩---⟨  ♗  ⟩---⟨  ♘  ⟩---\
      /---⟨  ♖  ⟩---⟨     ⟩---⟨     ⟩---⟨  ♖  ⟩---\
 /---⟨  ♙  ⟩---⟨     ⟩---⟨     ⟩---⟨     ⟩---⟨  ♙  ⟩---\
⟨     ⟩---⟨  ♙  ⟩---⟨     ⟩---⟨     ⟩---⟨  ♙  ⟩---⟨     ⟩
 ⟩---⟨     ⟩---⟨  ♙  ⟩---⟨     ⟩---⟨  ♙  ⟩---⟨     ⟩---⟨
⟨     ⟩---⟨     ⟩---⟨  ♙  ⟩---⟨  ♙  ⟩---⟨     ⟩---⟨     ⟩
 ⟩---⟨     ⟩---⟨     ⟩---⟨  ♙  ⟩---⟨     ⟩---⟨     ⟩---⟨
⟨     ⟩---⟨     ⟩---⟨     ⟩---⟨     ⟩---⟨     ⟩---⟨     ⟩
 ⟩---⟨     ⟩---⟨     ⟩---⟨     ⟩---⟨     ⟩---⟨     ⟩---⟨
⟨     ⟩---⟨     ⟩---⟨     ⟩---⟨     ⟩---⟨     ⟩---⟨     ⟩
 ⟩---⟨     ⟩---⟨     ⟩---⟨  ♟  ⟩---⟨     ⟩---⟨     ⟩---⟨
⟨     ⟩---⟨     ⟩---⟨  ♟  ⟩---⟨  ♟  ⟩---⟨     ⟩---⟨     ⟩
 ⟩---⟨     ⟩---⟨  ♟  ⟩---⟨     ⟩---⟨  ♟  ⟩---⟨     ⟩---⟨
⟨     ⟩---⟨  ♟  ⟩---⟨     ⟩---⟨     ⟩---⟨  ♟  ⟩---⟨     ⟩
 \---⟨  ♟  ⟩---⟨     ⟩---⟨     ⟩---⟨     ⟩---⟨  ♟  ⟩---/
      \---⟨  ♜  ⟩---⟨     ⟩---⟨     ⟩---⟨  ♜  ⟩---/
           \---⟨  ♞  ⟩---⟨  ♝  ⟩---⟨  ♞  ⟩---/
                \---⟨  ♛  ⟩---⟨  ♚  ⟩---/
                     \---⟨  ♝  ⟩---/
                          \---/
"#;

#[test]
fn board_indices_match_diagram() {
    let rendered = visualize_tile_property(
        |position| Board::index(position),
        |width| char::from_digit(*width as u32 % 36, 36).unwrap(),
    );

    assert_eq!(rendered.trim(), INDICES.trim());
}

#[test]
fn intial_board_matches_diagram() {
    let rendered = Board::default().render();
    assert_eq!(rendered.trim(), INITIAL_BOARD.trim());
}

#[test]
fn minimal_board_holds_two_kings() {
    let white = Vec2::new(0, 0).unwrap();
    let black = Vec2::new(10, 10).unwrap();
    let board = Board::new_minimal(white, black);
    assert_eq!(
        board.all_piece_positions(),
        vec![
            (white, chessagon::piece::Piece::King, chessagon::Color::White),
            (black, chessagon::piece::Piece::King, chessagon::Color::Black),
        ]
    );
    assert!(board.is_consistent());
    assert_eq!(board.find_king(chessagon::Color::White), white);
    assert_eq!(board.find_king(chessagon::Color::Black), black);
}

#[test]
fn index_is_rank_major() {
    assert_eq!(Board::index(Vec2::new(0, 0).unwrap()), 0);
    assert_eq!(Board::index(Vec2::new(1, 0).unwrap()), 1);
    assert_eq!(Board::index(Vec2::new(0, 1).unwrap()), 2);
    assert_eq!(Board::index(Vec2::new(5, 5).unwrap()), 45);
    assert_eq!(Board::index(Vec2::new(10, 10).unwrap()), 90);
    assert_eq!(Board::index_to_vec(45), Vec2::new(5, 5).unwrap());
}

#[test]
fn number_of_tiles_const_matches_computation() {
    assert_eq!(Vec2::iter().len(), Board::NUMBER_OF_TILES as usize);
}

#[test]
fn index_is_dense_and_unique() {
    let mut indices = (0..Board::NUMBER_OF_TILES as usize).collect::<HashSet<_>>();

    for position in Vec2::iter() {
        let index = Board::index(position);
        assert!(
            indices.remove(&index),
            "{index} is counted twice (by {position:?})"
        );
    }

    assert!(indices.is_empty(), "Leftover: {indices:?}");
}

#[test]
fn indices_match_diagram() {
    let rendered = visualize_tile_property(
        |position| Board::index(position),
        |width| char::from_digit(*width as u32 % 36, 36).unwrap(),
    );

    assert_eq!(rendered.trim(), INDICES.trim());
}
