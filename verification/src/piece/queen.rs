//! Queens.
//!
//! # Movement
//!
//! A queen moves as a rook or as a bishop.

use crate::board::{Board, BoardModel};
use crate::coordinate::Vec2;
use crate::mov::Move;
use crate::piece::{bishop, rook, Piece};
use crate::sides::Color;
use vstd::prelude::*;

verus! {

/// Why a queen cannot make a move: it can move neither as a rook nor as a
/// bishop.
#[derive(Debug, Clone, Copy, PartialEq, Eq, Structural)]
pub struct MoveError {
    pub rook_err: rook::MoveError,
    pub bishop_err: bishop::MoveError,
}

/// What a queen of the given color at `origin` can do towards
/// `destination`: the move of a rook if there is one, else the move of a
/// bishop, else both their reasons.
pub open spec fn spec_get_move(
    origin: Vec2,
    destination: Vec2,
    board: BoardModel,
    color: Color,
) -> Result<Move, MoveError> {
    match rook::spec_get_move(origin, destination, board, color) {
        Ok(mov) => Ok(mov),
        Err(rook_err) => match bishop::spec_get_move(origin, destination, board, color) {
            Ok(mov) => Ok(mov),
            Err(bishop_err) => Err(MoveError { rook_err, bishop_err }),
        },
    }
}

/// Gets a move from `origin` to `destination` if the movement is queen-like.
///
/// See the [module-level docs](self) for more info about how a queen moves.
pub fn get_move(origin: Vec2, destination: Vec2, board: &Board, color: Color) -> (r: Result<
    Move,
    MoveError,
>)
    requires
        origin.wf(),
        destination.wf(),
        origin != destination,
        board@.get(origin, color) == Some(Piece::Queen),
    ensures
        r == spec_get_move(origin, destination, board@, color),
{
    match rook::get_move(origin, destination, board, color) {
        Ok(mov) => Ok(mov),
        Err(rook_err) => match bishop::get_move(origin, destination, board, color) {
            Ok(mov) => Ok(mov),
            Err(bishop_err) => Err(MoveError { rook_err, bishop_err }),
        },
    }
}

/// The tiles where the queens are placed at the start of the game.
pub open spec fn spec_initial_configuration() -> Seq<(Vec2, Color)> {
    seq![(Vec2 { x: 1, y: 0 }, Color::White), (Vec2 { x: 9, y: 10 }, Color::Black)]
}

/// The tiles where the queens are placed at the start of the game.
pub fn initial_configuration() -> (r: Vec<(Vec2, Color)>)
    ensures
        r@ == spec_initial_configuration(),
{
    let r = vec![
        (Vec2::new_unchecked(1, 0), Color::White),
        (Vec2::new_unchecked(9, 10), Color::Black),
    ];
    assert(r@ =~= spec_initial_configuration());
    r
}

} // verus!
