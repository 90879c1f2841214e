//! Kings.
//!
//! # Movement
//!
//! Kings can move one stride which is either [rook](super::rook)-like or
//! [bishop](super::bishop)-like.
//!
//! This is a generalization of square chess, where the one rook stride
//! corresponds to adjacent squares and the one bishop stride corresponds to
//! diagonal squares.

use crate::board::{Board, BoardModel};
use crate::coordinate::{IVec2, Vec2};
use crate::mov::Move;
use crate::piece::movement;
use crate::piece::movement::BlockerError;
use crate::piece::{bishop, rook};
use crate::sides::Color;
use vstd::prelude::*;

verus! {

/// Why a king cannot make a move.
#[derive(Debug, Clone, Copy, PartialEq, Eq, Structural)]
pub enum MoveError {
    /// The destination is more than one stride away.
    TooFarAway { distance: u8 },
    /// The stride is neither bishop-like nor rook-like.
    IncorrectStride,
    /// A piece of the king's own color stands on the destination.
    Blocked(BlockerError),
}

/// The twelve movements of a king: the rook's strides, then the bishop's.
pub open spec fn spec_valid_deltas() -> Seq<IVec2> {
    seq![
        IVec2 { x: 1, y: 0 },
        IVec2 { x: 1, y: 1 },
        IVec2 { x: 0, y: 1 },
        IVec2 { x: 0, y: -1i8 },
        IVec2 { x: -1i8, y: -1i8 },
        IVec2 { x: -1i8, y: 0 },
        IVec2 { x: 2, y: 1 },
        IVec2 { x: 1, y: 2 },
        IVec2 { x: -1i8, y: 1 },
        IVec2 { x: -2i8, y: -1i8 },
        IVec2 { x: -1i8, y: -2i8 },
        IVec2 { x: 1, y: -1i8 },
    ]
}

/// What a king of the given color at `origin` can do towards `destination`:
/// the movement has to be one stride of a rook or of a bishop, and the
/// destination free of pieces of its own color.
pub open spec fn spec_get_move(
    origin: Vec2,
    destination: Vec2,
    board: BoardModel,
    color: Color,
) -> Result<Move, MoveError> {
    let (stride, distance) = movement::spec_get_stride(IVec2::between(origin, destination));
    if distance > 1 {
        Err(MoveError::TooFarAway { distance })
    } else if !(bishop::spec_valid_stride(stride) || rook::spec_valid_stride(stride)) {
        Err(MoveError::IncorrectStride)
    } else {
        match movement::spec_check_color_blocker(destination, board, color) {
            Err(e) => Err(MoveError::Blocked(e)),
            Ok(_) => Ok(
                Move::Regular {
                    origin,
                    destination,
                    captures: board.get(destination, color.spec_other()) is Some,
                },
            ),
        }
    }
}

/// A king moves exactly by one of its twelve movements, onto a tile that
/// holds no piece of its own color; the move captures exactly when the
/// destination holds an opposing piece.
pub proof fn lemma_king_moves(origin: Vec2, destination: Vec2, board: BoardModel, color: Color)
    requires
        origin.wf(),
        destination.wf(),
        origin != destination,
    ensures
        spec_get_move(origin, destination, board, color) is Ok <==> spec_valid_deltas().contains(
            IVec2::between(origin, destination),
        ) && board.get(destination, color) is None,
        spec_get_move(origin, destination, board, color) is Ok ==> spec_get_move(
            origin,
            destination,
            board,
            color,
        ) == Ok::<Move, MoveError>(
            Move::Regular {
                origin,
                destination,
                captures: board.get(destination, color.spec_other()) is Some,
            },
        ),
{
    let delta = IVec2::between(origin, destination);
    let (stride, distance) = movement::spec_get_stride(delta);
    movement::lemma_get_stride(delta);
    let deltas = spec_valid_deltas();
    assert(deltas.len() == 12);
    if deltas.contains(delta) {
        let at = choose|at: int| 0 <= at < deltas.len() && deltas[at] == delta;
        assert(bishop::spec_valid_stride(deltas[at]) || rook::spec_valid_stride(deltas[at]));
        movement::lemma_stride_of_multiple(delta, 1);
        assert(IVec2::at(delta.x * 1, delta.y * 1) == delta);
        assert(stride == delta && distance == 1);
    } else if distance <= 1 && (bishop::spec_valid_stride(stride) || rook::spec_valid_stride(
        stride,
    )) {
        assert(stride.x * 1 == stride.x && stride.y * 1 == stride.y);
        assert(stride == delta);
        if delta.x == -delta.y && (delta.x == 2 || delta.x == -2) {
            // Twice a stride of a bishop is two strides away.
            assert(movement::common_divisor(2, 2, 2));
            assert(false);
        }
        let at: int = if delta == deltas[0] {
            0
        } else if delta == deltas[1] {
            1
        } else if delta == deltas[2] {
            2
        } else if delta == deltas[3] {
            3
        } else if delta == deltas[4] {
            4
        } else if delta == deltas[5] {
            5
        } else if delta == deltas[6] {
            6
        } else if delta == deltas[7] {
            7
        } else if delta == deltas[8] {
            8
        } else if delta == deltas[9] {
            9
        } else if delta == deltas[10] {
            10
        } else {
            11
        };
        assert(deltas[at] == delta);
    }
}

/// Gets a move from `origin` to `destination` if the movement is king-like.
///
/// See the [module-level docs](self) for more info about how a king moves.
pub fn get_move(origin: Vec2, destination: Vec2, board: &Board, color: Color) -> (r: Result<
    Move,
    MoveError,
>)
    requires
        origin.wf(),
        destination.wf(),
        origin != destination,
    ensures
        r == spec_get_move(origin, destination, board@, color),
{
    let delta = destination - origin;
    let (stride, distance) = movement::get_stride(delta);

    if distance > 1 {
        return Err(MoveError::TooFarAway { distance });
    }
    if !(bishop::valid_stride(stride) || rook::valid_stride(stride)) {
        return Err(MoveError::IncorrectStride);
    }
    if let Err(e) = movement::check_color_blocker(destination, board, color) {
        return Err(MoveError::Blocked(e));
    }
    let captures = board.get(destination, color.other()).is_some();

    Ok(Move::Regular { origin, destination, captures })
}

/// The twelve movements of a king.
pub fn valid_deltas() -> (r: [IVec2; 12])
    ensures
        r@ == spec_valid_deltas(),
{
    let r = [
        // Rook-like
        IVec2::new_unchecked(1, 0),
        IVec2::new_unchecked(1, 1),
        IVec2::new_unchecked(0, 1),
        IVec2::new_unchecked(0, -1),
        IVec2::new_unchecked(-1, -1),
        IVec2::new_unchecked(-1, 0),
        // Bishop-like
        IVec2::new_unchecked(2, 1),
        IVec2::new_unchecked(1, 2),
        IVec2::new_unchecked(-1, 1),
        IVec2::new_unchecked(-2, -1),
        IVec2::new_unchecked(-1, -2),
        IVec2::new_unchecked(1, -1),
    ];
    assert(r@ =~= spec_valid_deltas());
    r
}

/// The tiles where the kings are placed at the start of the game.
pub open spec fn spec_initial_configuration() -> Seq<(Vec2, Color)> {
    seq![(Vec2 { x: 0, y: 1 }, Color::White), (Vec2 { x: 10, y: 9 }, Color::Black)]
}

/// The tiles where the kings are placed at the start of the game.
pub fn initial_configuration() -> (r: Vec<(Vec2, Color)>)
    ensures
        r@ == spec_initial_configuration(),
{
    let r = vec![
        (Vec2::new_unchecked(0, 1), Color::White),
        (Vec2::new_unchecked(10, 9), Color::Black),
    ];
    assert(r@ =~= spec_initial_configuration());
    r
}

} // verus!
