//! Knights.
//!
//! # Movement
//!
//! Knights can move to every tile that is tied for nearest among those that
//! neither a bishop nor a rook could reach. Nothing stands in a knight's
//! way: it jumps.

use crate::board::{Board, BoardModel};
use crate::coordinate::{IVec2, Vec2};
use crate::mov::Move;
use crate::piece::movement;
use crate::piece::movement::BlockerError;
use crate::piece::rook;
use crate::sides::Color;
use vstd::prelude::*;

verus! {

/// Why a knight cannot make a move.
#[derive(Debug, Clone, Copy, PartialEq, Eq, Structural)]
pub enum MoveError {
    /// The destination is too far away.
    TooFarAway { distance: u8 },
    /// The movement keeps the color of the tile, as a bishop's does.
    BishopLikeMovement,
    /// The movement follows a straight line, as a rook's does.
    RookLikeMovement,
    /// A piece of the knight's own color stands on the destination.
    Blocked(BlockerError),
}

/// Whether a knight can jump by `delta`: no further than 3 tiles, not onto a
/// tile of the same color, and not along a straight line.
pub open spec fn spec_valid_delta(delta: IVec2) -> Result<(), MoveError> {
    if delta.spec_length() > 3 {
        Err(MoveError::TooFarAway { distance: delta.spec_length() as u8 })
    } else if (delta.x + delta.y) % 3 == 0 {
        Err(MoveError::BishopLikeMovement)
    } else if rook::spec_valid_delta(delta) {
        Err(MoveError::RookLikeMovement)
    } else {
        Ok(())
    }
}

/// What a knight of the given color at `origin` can do towards
/// `destination`: the jump has to be a knight's, and the destination free of
/// pieces of its own color.
pub open spec fn spec_get_move(
    origin: Vec2,
    destination: Vec2,
    board: BoardModel,
    color: Color,
) -> Result<Move, MoveError> {
    match spec_valid_delta(IVec2::between(origin, destination)) {
        Err(e) => Err(e),
        Ok(_) => match movement::spec_check_color_blocker(destination, board, color) {
            Err(e) => Err(MoveError::Blocked(e)),
            Ok(_) => Ok(
                Move::Regular {
                    origin,
                    destination,
                    captures: board.get(destination, color.spec_other()) is Some,
                },
            ),
        },
    }
}

/// Whether the delta is valid for a knight.
///
/// Knight deltas are valid if they're one of the smallest that are neither a
/// rook nor a bishop movement.
pub fn valid_delta(delta: IVec2) -> (r: Result<(), MoveError>)
    requires
        delta.wf(),
    ensures
        r == spec_valid_delta(delta),
{
    let distance: u8 = delta.length();
    if distance > 3 {
        return Err(MoveError::TooFarAway { distance });
    }
    // This is cheaper than asking for a bishop's stride, and it also rules
    // out movements like `(3, 0)`, which is no bishop movement either.
    let sum: i8 = delta.x() + delta.y();
    if sum == -6 || sum == -3 || sum == 0 || sum == 3 || sum == 6 {
        return Err(MoveError::BishopLikeMovement);
    }
    if rook::valid_delta(delta) {
        return Err(MoveError::RookLikeMovement);
    }
    Ok(())
}

/// Gets a move from `origin` to `destination` if the movement is
/// knight-like.
///
/// See the [module-level docs](self) for more info about how a knight moves.
pub fn get_move(origin: Vec2, destination: Vec2, board: &Board, color: Color) -> (r: Result<
    Move,
    MoveError,
>)
    requires
        origin.wf(),
        destination.wf(),
    ensures
        r == spec_get_move(origin, destination, board@, color),
{
    let delta = destination - origin;
    if let Err(e) = valid_delta(delta) {
        return Err(e);
    }
    if let Err(e) = movement::check_color_blocker(destination, board, color) {
        return Err(MoveError::Blocked(e));
    }
    let captures = board.get(destination, color.other()).is_some();

    Ok(Move::Regular { origin, destination, captures })
}

/// The tiles where the knights are placed at the start of the game.
pub open spec fn spec_initial_configuration() -> Seq<(Vec2, Color)> {
    seq![
        (Vec2 { x: 0, y: 2 }, Color::White),
        (Vec2 { x: 2, y: 0 }, Color::White),
        (Vec2 { x: 8, y: 10 }, Color::Black),
        (Vec2 { x: 10, y: 8 }, Color::Black),
    ]
}

/// The tiles where the knights are placed at the start of the game.
pub fn initial_configuration() -> (r: Vec<(Vec2, Color)>)
    ensures
        r@ == spec_initial_configuration(),
{
    let r = vec![
        (Vec2::new_unchecked(0, 2), Color::White),
        (Vec2::new_unchecked(2, 0), Color::White),
        (Vec2::new_unchecked(8, 10), Color::Black),
        (Vec2::new_unchecked(10, 8), Color::Black),
    ];
    assert(r@ =~= spec_initial_configuration());
    r
}

} // verus!
