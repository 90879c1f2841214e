use chessagon::piece::movement::{self, BlockerError, StrideLengthError};
use chessagon::piece::{bishop, king, knight, pawn, queen, rook, MoveError, Piece};
use chessagon::{Board, Color, IVec2, Move, Vec2};

fn at(x: u8, y: u8) -> Vec2 {
    Vec2::new(x, y).unwrap()
}

fn regular(origin: Vec2, destination: Vec2, captures: bool) -> Move {
    Move::Regular {
        origin,
        destination,
        captures,
    }
}

/// Two kings far from the center, and the given pieces.
fn board_with(pieces: &[(Vec2, Piece, Color)]) -> Board {
    let mut board = Board::new_minimal(at(0, 0), at(10, 10));
    for &(position, piece, color) in pieces {
        *board.get_mut(position, color) = Some(piece);
    }
    board
}

#[test]
fn stride_is_delta_divided_by_the_greatest_common_divisor() {
    assert_eq!(
        movement::get_stride(IVec2::new_unchecked(-6, 3)),
        (IVec2::new_unchecked(-2, 1), 3)
    );
    assert_eq!(
        movement::get_stride(IVec2::new_unchecked(-6, 4)),
        (IVec2::new_unchecked(-3, 2), 2)
    );
    assert_eq!(
        movement::get_stride(IVec2::new_unchecked(0, -7)),
        (IVec2::new_unchecked(0, -1), 7)
    );
    assert_eq!(
        movement::get_stride(IVec2::new_unchecked(5, 3)),
        (IVec2::new_unchecked(5, 3), 1)
    );
    for delta in IVec2::iter() {
        if delta != IVec2::zero() {
            let (stride, length) = movement::get_stride(delta);
            assert_eq!(stride * length as i8, delta);
        }
    }
}

#[test]
fn stride_length_counts_the_strides_in_a_delta() {
    let stride = IVec2::new_unchecked(-2, 1);
    assert_eq!(
        movement::stride_length(stride, IVec2::new_unchecked(-6, 3)),
        Ok(3)
    );
    assert_eq!(
        movement::stride_length(stride, IVec2::new_unchecked(4, -2)),
        Ok(-2)
    );
    assert_eq!(movement::stride_length(stride, IVec2::zero()), Ok(0));
    assert_eq!(
        movement::stride_length(stride, IVec2::new_unchecked(-6, 4)),
        Err(StrideLengthError {
            stride,
            delta: IVec2::new_unchecked(-6, 4),
        })
    );
    assert_eq!(
        movement::stride_length(stride, IVec2::new_unchecked(-5, 3)),
        Err(StrideLengthError {
            stride,
            delta: IVec2::new_unchecked(-5, 3),
        })
    );
}

#[test]
fn blockers_are_found_in_the_order_of_the_path() {
    let board = board_with(&[
        (at(5, 7), Piece::Pawn, Color::Black),
        (at(5, 8), Piece::Rook, Color::White),
    ]);
    let up = IVec2::new_unchecked(0, 1);
    assert_eq!(movement::check_blockers(at(5, 5), up, 2, &board), Ok(()));
    assert_eq!(
        movement::check_blockers(at(5, 5), up, 5, &board),
        Err(BlockerError {
            position: at(5, 7),
            piece: Piece::Pawn,
            color: Color::Black,
        })
    );
    assert_eq!(
        movement::check_any_blocker(at(5, 8), &board),
        Err(BlockerError {
            position: at(5, 8),
            piece: Piece::Rook,
            color: Color::White,
        })
    );
    assert_eq!(
        movement::check_color_blocker(at(5, 8), &board, Color::Black),
        Ok(())
    );
    assert_eq!(
        movement::check_color_blocker(at(5, 8), &board, Color::White),
        Err(BlockerError {
            position: at(5, 8),
            piece: Piece::Rook,
            color: Color::White,
        })
    );
}

#[test]
fn default_board_holds_the_initial_setup() {
    let board = Board::default();
    for color in [Color::White, Color::Black] {
        let count = |kind: Piece| board.pieces(color).into_iter().filter(|p| *p == kind).count();
        assert_eq!(count(Piece::King), 1);
        assert_eq!(count(Piece::Queen), 1);
        assert_eq!(count(Piece::Rook), 2);
        assert_eq!(count(Piece::Bishop), 2);
        assert_eq!(count(Piece::Knight), 2);
        assert_eq!(count(Piece::Pawn), 9);
        assert_eq!(board.pieces(color).len(), 17);
        assert_eq!(board.total_piece_value(color), 9 + 2 * 5 + 2 * 3 + 2 * 3 + 9);
    }
    assert_eq!(board.get(at(0, 1), Color::White), Some(Piece::King));
    assert_eq!(board.get(at(1, 0), Color::White), Some(Piece::Queen));
    assert_eq!(board.get(at(0, 3), Color::White), Some(Piece::Rook));
    assert_eq!(board.get(at(3, 0), Color::White), Some(Piece::Rook));
    assert_eq!(board.get(at(0, 2), Color::White), Some(Piece::Knight));
    assert_eq!(board.get(at(2, 0), Color::White), Some(Piece::Knight));
    assert_eq!(board.get(at(0, 0), Color::White), Some(Piece::Bishop));
    assert_eq!(board.get(at(1, 1), Color::White), Some(Piece::Bishop));
    assert_eq!(board.get(at(2, 2), Color::White), None);
    assert_eq!(board.get(at(10, 10), Color::Black), Some(Piece::Bishop));
    assert_eq!(board.get(at(9, 9), Color::Black), Some(Piece::Bishop));
    assert_eq!(board.get(at(8, 8), Color::Black), None);
    assert_eq!(board.get(at(10, 9), Color::Black), Some(Piece::King));
    assert_eq!(board.get(at(9, 10), Color::Black), Some(Piece::Queen));
    assert_eq!(board.get(at(0, 1), Color::Black), None);
    assert_eq!(board.get_either(at(5, 5)), None);
    assert_eq!(
        board.get_either(at(6, 6)),
        Some((Piece::Pawn, Color::Black))
    );
    for tile in pawn::initial_white_tiles() {
        assert_eq!(board.get_white(tile), Some(Piece::Pawn));
        assert_eq!(board.get_black(tile.flipped()), Some(Piece::Pawn));
    }
    assert_eq!(Piece::initial_configuration().len(), 34);
    assert_eq!(board.all_piece_positions().len(), 34);
    assert!(board.is_consistent());
    assert!(board.can_play(Color::White));
    assert!(board.can_play(Color::Black));
}

#[test]
fn initial_setup_mirrors_itself() {
    let board = Board::default();
    for (position, piece, color) in board.all_piece_positions() {
        assert_eq!(
            board.get_either(position.flipped()),
            Some((piece, color.other()))
        );
    }
    let config = Piece::initial_configuration();
    for &(piece, position, color) in &config {
        assert!(position.x() <= 10 && position.y() <= 10);
        assert!(config.contains(&(piece, position.flipped(), color.other())));
        assert_eq!(
            config.iter().filter(|entry| entry.1 == position).count(),
            1
        );
    }
}

#[test]
fn piece_positions_follow_the_order_of_the_slots() {
    let board = Board::default();
    let white = board.piece_positions(Color::White);
    assert_eq!(white[0], (at(0, 0), Piece::Bishop));
    assert_eq!(white[1], (at(1, 0), Piece::Queen));
    assert_eq!(white[2], (at(0, 1), Piece::King));
    for pair in white.windows(2) {
        assert!(Board::index(pair[0].0) < Board::index(pair[1].0));
    }
    let all = board.all_piece_positions();
    assert_eq!(all[0], (at(0, 0), Piece::Bishop, Color::White));
    assert_eq!(all[16].2, Color::White);
    assert_eq!(all[17], (at(6, 6), Piece::Pawn, Color::Black));
}

#[test]
fn rook_on_an_empty_board_moves_along_its_six_rays() {
    for origin in Vec2::iter() {
        if origin == at(0, 0) || origin == at(10, 10) {
            continue;
        }
        let board = board_with(&[(origin, Piece::Rook, Color::White)]);
        for destination in Vec2::iter() {
            if destination == origin {
                continue;
            }
            let delta = destination - origin;
            let on_ray = delta.x() == 0 || delta.y() == 0 || delta.x() == delta.y();
            let stride = IVec2::new_unchecked(delta.x().signum(), delta.y().signum());
            let reach = delta.x().abs().max(delta.y().abs());
            let clear = on_ray
                && (1..reach).all(|i| board.get_either(origin + stride * i).is_none());
            let free = board.get(destination, Color::White).is_none();
            let moved = rook::get_move(origin, destination, &board, Color::White);
            assert_eq!(moved.is_ok(), on_ray && clear && free);
            if let Ok(mov) = moved {
                assert_eq!(
                    mov,
                    regular(
                        origin,
                        destination,
                        board.get(destination, Color::Black).is_some()
                    )
                );
            }
        }
    }
}

#[test]
fn rook_from_the_center_has_thirty_moves() {
    let board = board_with(&[(at(5, 5), Piece::Rook, Color::White)]);
    let moves: Vec<Move> = board
        .possible_moves(Color::White)
        .into_iter()
        .filter(|mov| mov.origin() == at(5, 5))
        .collect();
    // Five tiles along each ray, less the corner on which the white king stands.
    assert_eq!(moves.len(), 29);
    assert!(moves.contains(&regular(at(5, 5), at(10, 10), true)));
    assert!(moves.contains(&regular(at(5, 5), at(5, 0), false)));
    assert!(!moves.contains(&regular(at(5, 5), at(0, 0), false)));
}

#[test]
fn obstruction_truncates_a_rook_ray() {
    let origin = at(5, 2);
    let friend = board_with(&[
        (origin, Piece::Rook, Color::White),
        (at(5, 5), Piece::Pawn, Color::White),
    ]);
    let foe = board_with(&[
        (origin, Piece::Rook, Color::White),
        (at(5, 5), Piece::Pawn, Color::Black),
    ]);
    for board in [&friend, &foe] {
        assert!(rook::get_move(origin, at(5, 3), board, Color::White).is_ok());
        assert!(rook::get_move(origin, at(5, 4), board, Color::White).is_ok());
    }
    let blocker = |color| BlockerError {
        position: at(5, 5),
        piece: Piece::Pawn,
        color,
    };
    assert_eq!(
        rook::get_move(origin, at(5, 5), &friend, Color::White),
        Err(rook::MoveError::Blocked(blocker(Color::White)))
    );
    assert_eq!(
        rook::get_move(origin, at(5, 5), &foe, Color::White),
        Ok(regular(origin, at(5, 5), true))
    );
    for (board, color) in [(&friend, Color::White), (&foe, Color::Black)] {
        assert_eq!(
            rook::get_move(origin, at(5, 6), board, Color::White),
            Err(rook::MoveError::Blocked(blocker(color)))
        );
        assert_eq!(
            rook::get_move(origin, at(5, 7), board, Color::White),
            Err(rook::MoveError::Blocked(blocker(color)))
        );
    }
    assert_eq!(
        rook::get_move(origin, at(6, 4), &foe, Color::White),
        Err(rook::MoveError::InvalidDirection {
            stride: IVec2::new_unchecked(1, 2)
        })
    );
}

#[test]
fn move_that_exposes_the_king_is_rejected() {
    let king = at(5, 2);
    let blocker = at(5, 4);
    let attacker = at(5, 7);
    let pieces = [
        (king, Piece::King, Color::White),
        (blocker, Piece::Bishop, Color::White),
        (attacker, Piece::Rook, Color::Black),
    ];
    let mut pinned = Board::new_minimal(king, at(10, 10));
    *pinned.get_mut(blocker, Color::White) = Some(Piece::Bishop);
    *pinned.get_mut(attacker, Color::Black) = Some(Piece::Rook);
    assert_eq!(pinned.all_piece_positions().len(), pieces.len() + 1);
    assert_eq!(pinned.in_check(Color::White), None);
    assert_eq!(
        pinned.get_move(blocker, at(6, 6), Color::White),
        Err(MoveError::KingIsUnprotected {
            capturing_move: regular(attacker, king, true),
        })
    );
    assert!(!pinned
        .possible_moves(Color::White)
        .contains(&regular(blocker, at(6, 6), false)));

    let mut free = pinned.clone();
    *free.get_mut(attacker, Color::Black) = None;
    let (mov, meta) = free.get_move(blocker, at(6, 6), Color::White).unwrap();
    assert_eq!(mov, regular(blocker, at(6, 6), false));
    assert_eq!(meta.color, Color::White);
    assert!(free.possible_moves(Color::White).contains(&mov));

    // The raw movement is judged without the king.
    assert_eq!(
        Piece::Bishop
            .get_move_no_checks(blocker, at(6, 6), &pinned, Color::White)
            .map(|found| found.0),
        Ok(regular(blocker, at(6, 6), false))
    );
}

#[test]
fn king_in_check_is_reported_with_the_capturing_move() {
    let board = board_with(&[
        (at(3, 3), Piece::Rook, Color::Black),
        (at(2, 1), Piece::Bishop, Color::Black),
    ]);
    // Both reach the white king on (0, 0); the one that comes first by `x`, then `y`, is reported.
    assert_eq!(
        board.in_check(Color::White),
        Some(regular(at(2, 1), at(0, 0), true))
    );
    assert_eq!(board.in_check(Color::Black), None);
    assert!(!board.can_play(Color::Black));
    assert!(board.can_play(Color::White));
}

#[test]
fn no_legal_move_lands_on_a_piece_of_its_own_color() {
    let board = Board::default();
    for color in [Color::White, Color::Black] {
        let moves = board.possible_moves(color);
        assert!(!moves.is_empty());
        for mov in moves {
            assert_eq!(board.get(mov.destination(), color), None);
            assert!(board.get(mov.origin(), color).is_some());
        }
    }
    for (origin, piece, color) in board.all_piece_positions() {
        for (destination, _, other) in board.all_piece_positions() {
            if color == other {
                assert!(piece
                    .get_move_no_checks(origin, destination, &board, color)
                    .is_err());
            }
        }
    }
    assert_eq!(
        board.get_move(at(0, 3), at(0, 4), Color::White),
        Err(MoveError::Rook(rook::MoveError::Blocked(BlockerError {
            position: at(0, 4),
            piece: Piece::Pawn,
            color: Color::White,
        })))
    );
}

#[test]
fn possible_moves_are_the_legal_moves_in_order() {
    let board = Board::default();
    let moves = board.possible_moves(Color::White);
    let mut expected = Vec::new();
    for origin in Vec2::iter() {
        for destination in Vec2::iter() {
            if let Ok((mov, _)) = board.get_move(origin, destination, Color::White) {
                expected.push(mov);
            }
        }
    }
    assert_eq!(moves, expected);
    assert_eq!(moves[0], regular(at(0, 0), at(1, 2), false));
}

#[test]
fn pawns_advance_from_their_home_tiles() {
    let mut board = Board::default();
    // The pawns of the middle file face each other with one tile between them.
    let home = pawn::initial_position_of_file(5, Color::White).unwrap();
    assert_eq!(home, at(4, 4));
    assert_eq!(
        board.get_move(home, at(5, 5), Color::White).map(|found| found.0),
        Ok(regular(home, at(5, 5), false))
    );
    assert_eq!(
        board.get_move(home, at(6, 6), Color::White),
        Err(MoveError::Pawn(pawn::MoveError::Blocked(BlockerError {
            position: at(6, 6),
            piece: Piece::Pawn,
            color: Color::Black,
        })))
    );
    // On the other files two tiles are free.
    let white = pawn::initial_position_of_file(4, Color::White).unwrap();
    assert_eq!(white, at(4, 3));
    assert_eq!(
        board.get_move(white, at(6, 5), Color::White).map(|found| found.0),
        Ok(regular(white, at(6, 5), false))
    );
    let black = pawn::initial_position_of_file(4, Color::Black).unwrap();
    assert_eq!(black, at(7, 6));
    assert_eq!(
        board.get_move(black, at(5, 4), Color::Black).map(|found| found.0),
        Ok(regular(black, at(5, 4), false))
    );
    assert_eq!(white.flipped().file(), 6);
    assert_eq!(
        board
            .get_move(white.flipped(), at(4, 5), Color::Black)
            .map(|found| found.0),
        Ok(regular(white.flipped(), at(4, 5), false))
    );

    // A rook cannot slide past its own pawn, but follows it once it has advanced.
    let rook_tile = at(0, 3);
    let pawn_tile = at(1, 4);
    assert_eq!(
        board.get_move(rook_tile, at(2, 5), Color::White),
        Err(MoveError::Rook(rook::MoveError::Blocked(BlockerError {
            position: pawn_tile,
            piece: Piece::Pawn,
            color: Color::White,
        })))
    );
    assert_eq!(board.try_move(pawn_tile, at(3, 6), Color::White), Ok(()));
    assert_eq!(board.get(at(3, 6), Color::White), Some(Piece::Pawn));
    assert_eq!(board.get(pawn_tile, Color::White), None);
    assert_eq!(
        board.get_move(rook_tile, at(2, 5), Color::White).map(|found| found.0),
        Ok(regular(rook_tile, at(2, 5), false))
    );
    assert_eq!(
        board.get_move(rook_tile, at(3, 6), Color::White),
        Err(MoveError::Rook(rook::MoveError::Blocked(BlockerError {
            position: at(3, 6),
            piece: Piece::Pawn,
            color: Color::White,
        })))
    );
}

#[test]
fn pawn_rules_give_each_of_their_errors() {
    let origin = at(4, 4);
    let board = board_with(&[
        (origin, Piece::Pawn, Color::White),
        (at(5, 4), Piece::Knight, Color::Black),
        (at(3, 3), Piece::Pawn, Color::White),
    ]);
    let pawn_move = |destination| pawn::get_move(origin, destination, &board, Color::White);
    assert_eq!(pawn_move(at(5, 5)), Ok(regular(origin, at(5, 5), false)));
    assert_eq!(pawn_move(at(6, 6)), Ok(regular(origin, at(6, 6), false)));
    assert_eq!(
        pawn_move(at(7, 7)),
        Err(pawn::MoveError::TooFarAway {
            distance: 3,
            max_distance: 2
        })
    );
    assert_eq!(pawn_move(at(5, 4)), Ok(regular(origin, at(5, 4), true)));
    assert_eq!(
        pawn_move(at(4, 5)),
        Err(pawn::MoveError::NoPieceToCapture {
            position: at(4, 5)
        })
    );
    assert_eq!(
        pawn_move(at(4, 6)),
        Err(pawn::MoveError::CaptureTooFarAway { distance: 2 })
    );
    assert_eq!(
        pawn_move(at(3, 3)),
        Err(pawn::MoveError::InvalidMovementDirection {
            delta: IVec2::new_unchecked(-1, -1)
        })
    );
    assert_eq!(
        pawn::get_move(at(3, 3), at(5, 5), &board, Color::White),
        Err(pawn::MoveError::TooFarAway {
            distance: 2,
            max_distance: 1
        })
    );
    assert_eq!(
        pawn::get_move(at(3, 3), origin, &board, Color::White),
        Err(pawn::MoveError::Blocked(BlockerError {
            position: origin,
            piece: Piece::Pawn,
            color: Color::White,
        }))
    );
    // Black advances the other way.
    assert_eq!(
        pawn::get_move(at(6, 6), at(5, 5), &board, Color::Black),
        Ok(regular(at(6, 6), at(5, 5), false))
    );
    assert!(pawn::is_straight_stride(IVec2::new_unchecked(-1, -1), Color::Black));
    assert!(!pawn::is_straight_stride(IVec2::new_unchecked(1, 1), Color::Black));
    assert!(pawn::is_capture_stride(IVec2::new_unchecked(0, -1), Color::Black));
    assert!(pawn::is_capture_stride(IVec2::new_unchecked(1, 0), Color::White));
    assert!(!pawn::is_capture_stride(IVec2::new_unchecked(1, 1), Color::White));
    assert!(pawn::is_intial_tile(at(4, 0), Color::White));
    assert!(pawn::is_intial_tile(at(10, 6), Color::Black));
    assert!(!pawn::is_intial_tile(at(4, 0), Color::Black));
    assert_eq!(pawn::max_coordinate_of_initial_position(Color::White), 4);
    assert_eq!(pawn::max_coordinate_of_initial_position(Color::Black), 6);
    assert_eq!(pawn::initial_configuration().len(), 18);
    assert_eq!(pawn::initial_configuration()[9], (at(6, 10), Color::Black));
}

#[test]
fn initial_position_of_file_prefers_the_tile_nearer_to_the_color() {
    assert_eq!(pawn::initial_position_of_file(1, Color::White), Some(at(4, 0)));
    assert_eq!(pawn::initial_position_of_file(9, Color::White), Some(at(0, 4)));
    assert_eq!(pawn::initial_position_of_file(3, Color::Black), Some(at(8, 6)));
    assert_eq!(pawn::initial_position_of_file(7, Color::Black), Some(at(6, 8)));
    assert_eq!(pawn::initial_position_of_file(5, Color::Black), Some(at(6, 6)));
    assert_eq!(
        pawn::initial_position_of_file(0, Color::White),
        Some(Vec2::new_unchecked(9, 4))
    );
    assert_eq!(
        pawn::initial_position_of_file(12, Color::Black),
        Some(Vec2::new_unchecked(6, 13))
    );
}

#[test]
fn knight_rules_give_each_of_their_errors() {
    let origin = at(5, 5);
    let board = board_with(&[
        (origin, Piece::Knight, Color::White),
        (at(6, 8), Piece::Pawn, Color::White),
        (at(7, 8), Piece::Pawn, Color::Black),
    ]);
    let jump = |destination| knight::get_move(origin, destination, &board, Color::White);
    assert_eq!(jump(at(8, 7)), Ok(regular(origin, at(8, 7), false)));
    assert_eq!(jump(at(7, 8)), Ok(regular(origin, at(7, 8), true)));
    assert_eq!(
        jump(at(6, 8)),
        Err(knight::MoveError::Blocked(BlockerError {
            position: at(6, 8),
            piece: Piece::Pawn,
            color: Color::White,
        }))
    );
    assert_eq!(
        jump(at(9, 8)),
        Err(knight::MoveError::TooFarAway { distance: 4 })
    );
    assert_eq!(jump(at(6, 7)), Err(knight::MoveError::BishopLikeMovement));
    assert_eq!(jump(at(8, 5)), Err(knight::MoveError::BishopLikeMovement));
    assert_eq!(jump(at(7, 7)), Err(knight::MoveError::RookLikeMovement));
    assert_eq!(knight::valid_delta(IVec2::new_unchecked(3, 2)), Ok(()));
    assert_eq!(knight::valid_delta(IVec2::new_unchecked(-1, 2)), Ok(()));
    assert_eq!(
        knight::valid_delta(IVec2::new_unchecked(-2, 2)),
        Err(knight::MoveError::TooFarAway { distance: 4 })
    );
    assert_eq!(knight::initial_configuration().len(), 4);
}

#[test]
fn bishop_rules_give_each_of_their_errors() {
    let origin = at(5, 5);
    let board = board_with(&[
        (origin, Piece::Bishop, Color::White),
        (at(7, 6), Piece::Pawn, Color::Black),
        (at(3, 7), Piece::Pawn, Color::White),
    ]);
    let slide = |destination| bishop::get_move(origin, destination, &board, Color::White);
    assert_eq!(slide(at(6, 7)), Ok(regular(origin, at(6, 7), false)));
    assert_eq!(slide(at(7, 9)), Ok(regular(origin, at(7, 9), false)));
    assert_eq!(slide(at(7, 6)), Ok(regular(origin, at(7, 6), true)));
    assert_eq!(
        slide(at(9, 7)),
        Err(bishop::MoveError::Blocked(BlockerError {
            position: at(7, 6),
            piece: Piece::Pawn,
            color: Color::Black,
        }))
    );
    assert_eq!(
        slide(at(3, 7)),
        Err(bishop::MoveError::Blocked(BlockerError {
            position: at(3, 7),
            piece: Piece::Pawn,
            color: Color::White,
        }))
    );
    assert_eq!(
        slide(at(5, 8)),
        Err(bishop::MoveError::InvalidDirection {
            stride: IVec2::new_unchecked(0, 1)
        })
    );
    assert!(bishop::valid_stride(IVec2::new_unchecked(-2, -1)));
    assert!(!bishop::valid_stride(IVec2::new_unchecked(2, -1)));
    assert!(!bishop::valid_stride(IVec2::new_unchecked(1, 1)));
    // Two strides at once are no stride, and the stride of a movement never is one.
    assert!(bishop::valid_stride(IVec2::new_unchecked(2, -2)));
    assert!(!bishop::strides().contains(&IVec2::new_unchecked(2, -2)));
    assert_eq!(
        movement::get_stride(IVec2::new_unchecked(2, -2)),
        (IVec2::new_unchecked(1, -1), 2)
    );
    assert_eq!(bishop::initial_configuration().len(), 4);
    assert_eq!(bishop::initial_configuration()[3], (at(9, 9), Color::Black));
    assert_eq!(bishop::strides()[1], IVec2::new_unchecked(2, 1));
}

#[test]
fn rook_strides_are_the_straight_ones() {
    for stride in IVec2::strides() {
        assert_eq!(rook::valid_stride(stride), rook::strides().contains(&stride));
    }
    assert!(rook::valid_delta(IVec2::new_unchecked(0, 4)));
    assert!(rook::valid_delta(IVec2::new_unchecked(-3, -3)));
    assert!(!rook::valid_delta(IVec2::new_unchecked(3, -3)));
    assert_eq!(rook::initial_configuration()[2], (at(7, 10), Color::Black));
}

#[test]
fn queen_moves_as_rook_or_bishop() {
    let origin = at(5, 5);
    let board = board_with(&[
        (origin, Piece::Queen, Color::White),
        (at(5, 7), Piece::Pawn, Color::Black),
    ]);
    let go = |destination| queen::get_move(origin, destination, &board, Color::White);
    assert_eq!(go(at(5, 7)), Ok(regular(origin, at(5, 7), true)));
    assert_eq!(go(at(3, 4)), Ok(regular(origin, at(3, 4), false)));
    assert_eq!(
        go(at(5, 8)),
        Err(queen::MoveError {
            rook_err: rook::MoveError::Blocked(BlockerError {
                position: at(5, 7),
                piece: Piece::Pawn,
                color: Color::Black,
            }),
            bishop_err: bishop::MoveError::InvalidDirection {
                stride: IVec2::new_unchecked(0, 1)
            },
        })
    );
    assert_eq!(
        go(at(8, 7)),
        Err(queen::MoveError {
            rook_err: rook::MoveError::InvalidDirection {
                stride: IVec2::new_unchecked(3, 2)
            },
            bishop_err: bishop::MoveError::InvalidDirection {
                stride: IVec2::new_unchecked(3, 2)
            },
        })
    );
    assert_eq!(queen::initial_configuration()[0], (at(1, 0), Color::White));
    assert_eq!(queen::initial_configuration()[1], (at(9, 10), Color::Black));
}

#[test]
fn king_moves_one_stride_of_a_rook_or_a_bishop() {
    let origin = at(5, 5);
    let board = Board::new_minimal(origin, at(10, 10));
    for destination in Vec2::iter() {
        if destination == origin {
            continue;
        }
        let delta = destination - origin;
        assert_eq!(
            king::get_move(origin, destination, &board, Color::White).is_ok(),
            king::valid_deltas().contains(&delta)
        );
    }
    assert_eq!(
        king::get_move(origin, at(5, 7), &board, Color::White),
        Err(king::MoveError::TooFarAway { distance: 2 })
    );
    assert_eq!(
        king::get_move(origin, at(8, 7), &board, Color::White),
        Err(king::MoveError::IncorrectStride)
    );
    let crowded = board_with(&[
        (origin, Piece::King, Color::White),
        (at(5, 6), Piece::Pawn, Color::White),
    ]);
    assert_eq!(
        king::get_move(origin, at(5, 6), &crowded, Color::White),
        Err(king::MoveError::Blocked(BlockerError {
            position: at(5, 6),
            piece: Piece::Pawn,
            color: Color::White,
        }))
    );
    assert_eq!(king::initial_configuration()[1], (at(10, 9), Color::Black));
}

#[test]
fn addressing_errors_come_first() {
    let mut board = Board::default();
    assert_eq!(
        board.get_move(at(5, 5), at(5, 6), Color::White),
        Err(MoveError::PieceNotPresent {
            position: at(5, 5)
        })
    );
    assert_eq!(
        board.get_move(at(6, 6), at(5, 5), Color::White),
        Err(MoveError::NotYourPiece {
            position: at(6, 6),
            color: Color::Black
        })
    );
    assert_eq!(
        board.get_move(at(4, 4), at(4, 4), Color::White),
        Err(MoveError::NullMovement)
    );
    assert_eq!(
        board.get_move(at(0, 2), at(1, 4), Color::White),
        Err(MoveError::Knight(knight::MoveError::BishopLikeMovement))
    );
    assert_eq!(
        board.get_move(at(1, 1), at(1, 2), Color::White),
        Err(MoveError::Bishop(bishop::MoveError::InvalidDirection {
            stride: IVec2::new_unchecked(0, 1)
        }))
    );
    assert_eq!(
        board.get_move(at(1, 0), at(1, 2), Color::White),
        Err(MoveError::Queen(queen::MoveError {
            rook_err: rook::MoveError::Blocked(BlockerError {
                position: at(1, 1),
                piece: Piece::Bishop,
                color: Color::White,
            }),
            bishop_err: bishop::MoveError::InvalidDirection {
                stride: IVec2::new_unchecked(0, 1)
            },
        }))
    );
    assert_eq!(
        board.check_move(regular(at(4, 4), at(5, 5), false), Color::White),
        Ok(())
    );
    assert_eq!(
        board.check_move(regular(at(4, 4), at(7, 7), false), Color::White),
        Err(MoveError::Pawn(pawn::MoveError::TooFarAway {
            distance: 3,
            max_distance: 2
        }))
    );
    let before = board.all_piece_positions();
    assert_eq!(
        board.apply_move(regular(at(5, 5), at(5, 6), false), Color::White),
        Err(MoveError::PieceNotPresent {
            position: at(5, 5)
        })
    );
    assert_eq!(board.all_piece_positions(), before);
    assert_eq!(
        board.try_move(at(0, 1), at(0, 2), Color::White),
        Err(MoveError::King(king::MoveError::Blocked(BlockerError {
            position: at(0, 2),
            piece: Piece::Knight,
            color: Color::White,
        })))
    );
    assert_eq!(board.all_piece_positions(), before);
}

#[test]
fn applying_a_move_moves_and_captures() {
    let origin = at(5, 2);
    let target = at(5, 6);
    let mut board = board_with(&[
        (origin, Piece::Rook, Color::White),
        (target, Piece::Knight, Color::Black),
    ]);
    let before = board.all_piece_positions();
    let mov = regular(origin, target, true);
    assert_eq!(board.last_move(), None);
    assert_eq!(board.apply_move(mov, Color::White), Ok(Some(Piece::Knight)));
    assert_eq!(board.last_move(), Some(mov));
    assert_eq!(board.get(target, Color::White), Some(Piece::Rook));
    assert_eq!(board.get(target, Color::Black), None);
    assert_eq!(board.get(origin, Color::White), None);
    assert_eq!(board.pieces(Color::Black), vec![Piece::King]);

    // Taking the move back restores the pieces.
    assert_eq!(
        board.apply_move_unchecked(regular(target, origin, false), Color::White),
        None
    );
    *board.get_mut(target, Color::Black) = Some(Piece::Knight);
    assert_eq!(board.all_piece_positions(), before);

    let mut quiet = board.clone();
    assert_eq!(
        quiet.apply_move_unchecked(regular(origin, at(5, 3), false), Color::White),
        None
    );
    assert_eq!(quiet.get(at(5, 3), Color::White), Some(Piece::Rook));
    assert_eq!(board.get(at(5, 3), Color::White), None);
}

#[test]
fn pieces_have_names_letters_values_and_figurines() {
    let all = [
        (Piece::Pawn, "pawn", 'P', Some(1), '♟', '♙'),
        (Piece::Knight, "knight", 'N', Some(3), '♞', '♘'),
        (Piece::Bishop, "bishop", 'B', Some(3), '♝', '♗'),
        (Piece::Rook, "rook", 'R', Some(5), '♜', '♖'),
        (Piece::Queen, "queen", 'Q', Some(9), '♛', '♕'),
        (Piece::King, "king", 'K', None, '♚', '♔'),
    ];
    for (piece, name, letter, value, white, black) in all {
        assert_eq!(piece.name(), name);
        assert_eq!(piece.representing_letter(), letter);
        assert_eq!(piece.value(), value);
        assert_eq!(piece.emoji(Color::White), white);
        assert_eq!(piece.emoji(Color::Black), black);
    }
}

#[test]
fn pawn_helpers_tell_advances_and_captures() {
    let board = Board::default();
    assert!(pawn::can_move_unobstructed_no_capture(
        at(4, 3),
        at(5, 4),
        Color::White
    ));
    assert!(pawn::can_move_unobstructed_no_capture(
        at(4, 3),
        at(6, 5),
        Color::White
    ));
    assert!(!pawn::can_move_unobstructed_no_capture(
        at(4, 3),
        at(7, 6),
        Color::White
    ));
    assert!(!pawn::can_move_unobstructed_no_capture(
        at(5, 4),
        at(7, 6),
        Color::White
    ));
    assert!(!pawn::can_move_unobstructed_no_capture(
        at(4, 3),
        at(3, 2),
        Color::White
    ));
    assert!(pawn::can_move_unobstructed_no_capture(
        at(6, 7),
        at(4, 5),
        Color::Black
    ));
    assert!(!pawn::can_move_unobstructed_no_capture(
        at(4, 3),
        at(4, 4),
        Color::White
    ));
    assert!(pawn::can_capture(at(5, 6), at(6, 6), &board, Color::White));
    assert!(pawn::can_capture(at(6, 5), at(6, 6), &board, Color::White));
    assert!(!pawn::can_capture(at(5, 5), at(6, 6), &board, Color::White));
    assert!(!pawn::can_capture(at(4, 4), at(5, 4), &board, Color::White));
    assert!(pawn::can_capture(at(5, 4), at(4, 4), &board, Color::Black));
}

#[test]
fn pieces_enumerate_their_legal_moves() {
    let board = Board::default();
    let knight = Piece::Knight.enumerate_legal_moves(at(0, 2), &board, Color::White);
    let expected: Vec<Move> = board
        .possible_moves(Color::White)
        .into_iter()
        .filter(|mov| mov.origin() == at(0, 2))
        .collect();
    assert_eq!(
        knight.iter().map(|found| found.0).collect::<Vec<_>>(),
        expected
    );
    assert!(knight.iter().all(|found| found.1.color == Color::White));
    assert_eq!(
        expected,
        vec![
            regular(at(0, 2), at(1, 5), false),
            regular(at(0, 2), at(2, 1), false),
            regular(at(0, 2), at(2, 5), false),
            regular(at(0, 2), at(3, 3), false),
        ]
    );
    let king = Piece::King.enumerate_legal_moves(at(0, 1), &board, Color::White);
    assert_eq!(
        king.iter().map(|found| found.0).collect::<Vec<_>>(),
        vec![
            regular(at(0, 1), at(1, 2), false),
            regular(at(0, 1), at(1, 3), false),
            regular(at(0, 1), at(2, 2), false),
        ]
    );
}

#[test]
fn piece_next_to_a_rook_truncates_its_ray_among_the_possible_moves() {
    let origin = at(5, 5);
    let next = at(5, 6);
    let lone = board_with(&[(origin, Piece::Rook, Color::White)]);
    let from_rook = |board: &Board| -> Vec<Move> {
        board
            .possible_moves(Color::White)
            .into_iter()
            .filter(|mov| mov.origin() == origin)
            .collect()
    };
    let on_ray = |mov: &Move| {
        let delta = mov.destination() - origin;
        delta.x() == 0 && delta.y() > 0
    };
    let all = from_rook(&lone);
    let others: Vec<Move> = all.iter().copied().filter(|mov| !on_ray(mov)).collect();
    assert_eq!(all.len() - others.len(), 5);

    let friend = board_with(&[
        (origin, Piece::Rook, Color::White),
        (next, Piece::Knight, Color::White),
    ]);
    let moves: Vec<Move> = from_rook(&friend);
    assert_eq!(moves, others);

    let foe = board_with(&[
        (origin, Piece::Rook, Color::White),
        (next, Piece::Knight, Color::Black),
    ]);
    let moves = from_rook(&foe);
    let along: Vec<Move> = moves.iter().copied().filter(on_ray).collect();
    assert_eq!(along, vec![regular(origin, next, true)]);
    let rest: Vec<Move> = moves.iter().copied().filter(|mov| !on_ray(mov)).collect();
    assert_eq!(rest, others);
    for (i, a) in moves.iter().enumerate() {
        for b in &moves[i + 1..] {
            assert_ne!(a, b);
        }
    }
}
