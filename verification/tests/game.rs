use chessagon::game::{
    Action, ApplyActionError, Category, DrawReason, Duration, GameResult, TimeControl, Timestamp,
    WinReason,
};
use chessagon::piece::{pawn, MoveError, Piece};
use chessagon::{Board, Color, Game, Move, Vec2};

fn at(x: u8, y: u8) -> Vec2 {
    Vec2::new(x, y).unwrap()
}

fn regular(origin: Vec2, destination: Vec2, captures: bool) -> Move {
    Move::Regular {
        origin,
        destination,
        captures,
    }
}

fn instant(millis: i128) -> Timestamp {
    Timestamp {
        nanos: millis * 1_000_000,
    }
}

/// The black king in the corner, with every tile around it covered by a white rook.
fn cornered() -> Board {
    let mut board = Board::new_minimal(at(0, 0), at(10, 10));
    *board.get_mut(at(4, 9), Color::White) = Some(Piece::Rook);
    *board.get_mut(at(9, 4), Color::White) = Some(Piece::Rook);
    *board.get_mut(at(5, 8), Color::White) = Some(Piece::Rook);
    board
}

#[test]
fn fn_move_duration_returns_move_duration_for_moves_0_to_3() {
    let mut game = Game::new(TimeControl::rapid());
    let start = instant(1_000);

    assert_eq!(game.move_duration(0, start), None);

    let action = Action::Move(game.board().possible_moves(Color::White)[0]);
    game.apply_action(action, Color::White, start).unwrap();

    assert_eq!(game.move_duration(0, start), Some(Duration::zero()));

    let action = Action::Move(game.board().possible_moves(Color::Black)[0]);
    game.apply_action(action, Color::Black, instant(2_000)).unwrap();

    let move_duration = Duration::from_millis(10);
    let action = Action::Move(game.board().possible_moves(Color::White)[0]);
    game.apply_action(action, Color::White, instant(2_010)).unwrap();

    assert_eq!(game.move_duration(1, instant(2_010)), Some(Duration::zero()));
    assert!(
        game.move_duration(2, instant(2_010)).unwrap() - move_duration <= Duration::from_millis(5)
    );
    assert_eq!(game.move_duration(2, instant(2_010)), Some(move_duration));
    // The move that is awaited takes its time until now.
    assert_eq!(
        game.move_duration(3, instant(2_500)),
        Some(Duration::from_millis(490))
    );
    assert_eq!(game.move_duration(4, instant(2_500)), None);
}

#[test]
fn clock_charges_moves_and_grants_increments() {
    let mut game = Game::new(TimeControl::mps(1, 5));
    let pawn_w = regular(at(4, 3), at(5, 4), false);
    let pawn_b = regular(at(6, 7), at(5, 6), false);
    let second_w = regular(at(5, 4), at(6, 5), false);
    game.apply_action(Action::Move(pawn_w), Color::White, instant(0)).unwrap();
    game.apply_action(Action::Move(pawn_b), Color::Black, instant(3_000)).unwrap();
    game.apply_action(Action::Move(second_w), Color::White, instant(10_000)).unwrap();
    assert_eq!(game.turn(), Color::Black);
    // White: 60 s, the first move is free (+5), the second took 7 s (+5).
    assert_eq!(
        game.time_remaining(Color::White, instant(12_000)),
        Duration::from_secs(63)
    );
    // Black: 60 s, the first move is free (+5), the second is running for 2 s (+5).
    assert_eq!(
        game.time_remaining(Color::Black, instant(12_000)),
        Duration::from_secs(68)
    );
    assert_eq!(
        game.time_remaining(Color::Black, instant(10_000 + 66_000)),
        Duration::zero()
    );
    assert_eq!(game.moves_from(Color::White).len(), 2);
    assert_eq!(game.moves_from(Color::White)[1], (second_w, instant(10_000)));
    assert_eq!(game.moves_from(Color::Black), vec![(pawn_b, instant(3_000))]);
}

#[test]
fn actions_out_of_turn_are_refused() {
    let mut game = Game::new(TimeControl::blitz());
    assert_eq!(game.turn(), Color::White);
    assert_eq!(
        game.apply_action(Action::Resign, Color::Black, instant(0)),
        Err(ApplyActionError::NotYourTurn)
    );
    assert_eq!(game.result(), None);
    assert_eq!(game.winner(), None);
    assert!(!game.is_finished());
}

#[test]
fn illegal_move_is_reported_and_recorded() {
    let mut game = Game::new(TimeControl::blitz());
    let mov = regular(at(4, 4), at(7, 7), false);
    assert_eq!(
        game.apply_action(Action::Move(mov), Color::White, instant(0)),
        Err(ApplyActionError::MoveError(MoveError::Pawn(
            pawn::MoveError::TooFarAway {
                distance: 3,
                max_distance: 2
            }
        )))
    );
    assert_eq!(game.board().get(at(4, 4), Color::White), Some(Piece::Pawn));
    assert_eq!(game.moves_from(Color::White), vec![(mov, instant(0))]);
    assert_eq!(game.turn(), Color::Black);
}

#[test]
fn resignation_hands_the_win_to_the_opponent() {
    let mut game = Game::new(TimeControl::bullet());
    assert_eq!(
        game.apply_action(Action::Resign, Color::White, instant(0)),
        Ok(())
    );
    assert_eq!(
        game.result(),
        Some(GameResult::Win {
            winner: Color::Black,
            reason: WinReason::Resignation
        })
    );
    assert_eq!(game.winner(), Some(Some(Color::Black)));
    assert!(game.is_finished());
    assert_eq!(
        game.apply_action(
            Action::Move(regular(at(4, 4), at(5, 5), false)),
            Color::White,
            instant(1)
        ),
        Err(ApplyActionError::GameIsFinished)
    );
    assert_eq!(game.turn(), Color::White);
}

#[test]
fn draws_are_offered_retracted_and_accepted() {
    let mut game = Game::new(TimeControl::rapid());
    assert_eq!(game.draw_offer(), None);
    assert_eq!(
        game.accept_draw(Color::White),
        Err(ApplyActionError::DrawNotOffered)
    );
    assert_eq!(game.offer_draw(Color::White), Ok(()));
    assert_eq!(game.draw_offer(), Some(Color::White));
    assert_eq!(game.retract_draw(Color::Black), Ok(()));
    assert_eq!(game.draw_offer(), Some(Color::White));
    assert_eq!(game.retract_draw(Color::White), Ok(()));
    assert_eq!(game.draw_offer(), None);

    assert_eq!(
        game.apply_action(Action::OfferDraw, Color::White, instant(0)),
        Ok(())
    );
    // Accepting one's own offer fails, and takes the offer away.
    assert_eq!(
        game.accept_draw(Color::White),
        Err(ApplyActionError::DrawNotOffered)
    );
    assert_eq!(game.draw_offer(), None);

    assert_eq!(game.offer_draw(Color::Black), Ok(()));
    assert_eq!(
        game.apply_action(Action::AcceptDraw, Color::White, instant(0)),
        Ok(())
    );
    assert_eq!(
        game.result(),
        Some(GameResult::Draw {
            reason: DrawReason::Agreement {
                offered_by: Color::Black
            }
        })
    );
    assert_eq!(game.winner(), Some(None));
    assert!(game.is_finished());
    assert_eq!(
        game.apply_action(Action::RetractDraw, Color::White, instant(0)),
        Ok(())
    );
}

#[test]
fn checkmate_ends_the_game() {
    let mut game = Game::from_position(cornered(), TimeControl::rapid());
    assert!(game.board().can_play(Color::White));
    let mate = regular(at(5, 8), at(5, 10), false);
    assert_eq!(
        game.apply_action(Action::Move(mate), Color::White, instant(0)),
        Ok(())
    );
    assert_eq!(
        game.board().in_check(Color::Black),
        Some(regular(at(5, 10), at(10, 10), true))
    );
    assert!(game.board().possible_moves(Color::Black).is_empty());
    assert_eq!(
        game.result(),
        Some(GameResult::Win {
            winner: Color::White,
            reason: WinReason::Checkmate
        })
    );
}

#[test]
fn stalemate_ends_the_game_in_a_draw() {
    let mut game = Game::from_position(cornered(), TimeControl::rapid());
    let quiet = regular(at(0, 0), at(0, 1), false);
    assert_eq!(
        game.apply_action(Action::Move(quiet), Color::White, instant(0)),
        Ok(())
    );
    assert_eq!(game.board().in_check(Color::Black), None);
    assert_eq!(
        game.result(),
        Some(GameResult::Draw {
            reason: DrawReason::Stalemate
        })
    );
}

#[test]
fn time_controls_have_their_times() {
    let blitz = TimeControl::blitz();
    assert_eq!(blitz.base_time(), Some(Duration::from_secs(180)));
    assert_eq!(blitz.increment(), Some(Duration::from_secs(2)));
    assert_eq!(TimeControl::bullet().base_time, [Duration::from_secs(60); 2]);
    assert_eq!(TimeControl::bullet().increment, [Duration::zero(); 2]);
    assert_eq!(TimeControl::rapid(), TimeControl::mps(10, 5));
    assert_eq!(
        TimeControl::no_increment(Duration::from_secs(7)),
        TimeControl::new(Duration::from_secs(7), Duration::zero())
    );
    assert_eq!(TimeControl::max().base_time(), Some(Duration::max()));
    let uneven = TimeControl::new_asymetric(
        [Duration::from_secs(60), Duration::from_secs(30)],
        [Duration::from_secs(1), Duration::from_secs(1)],
    );
    assert_eq!(uneven.base_time(), None);
    assert_eq!(uneven.increment(), Some(Duration::from_secs(1)));
    // (60 + 40 + 30 + 40) / 2
    assert_eq!(uneven.canonical_duration(), Duration::from_secs(85));
    assert_eq!(blitz.canonical_duration(), Duration::from_secs(260));
    assert_eq!(Duration::max().nanos, 18_446_744_073_709_551_615_999_999_999);
    assert_eq!(Duration::from_millis(1_500).as_secs(), 1);
}

#[test]
fn time_controls_are_written_as_minutes_plus_seconds() {
    assert_eq!(TimeControl::blitz().formatted(), "3+2");
    assert_eq!(TimeControl::bullet().formatted(), "1+0");
    assert_eq!(TimeControl::mps(120, 45).formatted(), "120+45");
    assert_eq!(
        TimeControl::new(Duration::from_secs(119), Duration::from_millis(1_999)).formatted(),
        "1+1"
    );
    assert_eq!(chessagon::game::time_control::decimal(0), "0");
    assert_eq!(chessagon::game::time_control::decimal(9), "9");
    assert_eq!(chessagon::game::time_control::decimal(10), "10");
    assert_eq!(
        chessagon::game::time_control::decimal(u64::MAX),
        "18446744073709551615"
    );
}

#[test]
fn time_controls_fall_into_categories() {
    let classify = |secs| Category::classify(Duration::from_secs(secs));
    assert_eq!(classify(0), Category::UltraBullet);
    assert_eq!(classify(29), Category::UltraBullet);
    assert_eq!(classify(30), Category::Bullet);
    assert_eq!(classify(179), Category::Bullet);
    assert_eq!(classify(180), Category::Blitz);
    assert_eq!(classify(479), Category::Blitz);
    assert_eq!(classify(480), Category::Rapid);
    assert_eq!(classify(1499), Category::Rapid);
    assert_eq!(classify(1500), Category::Classical);
    assert_eq!(TimeControl::bullet().category(), Category::Bullet);
    assert_eq!(TimeControl::blitz().category(), Category::Blitz);
    assert_eq!(TimeControl::rapid().category(), Category::Rapid);
    assert_eq!(Category::UltraBullet.name(), "UltraBullet");
    assert_eq!(Category::Classical.name(), "Classical");
}
