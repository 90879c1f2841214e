//! Rooks.
//!
//! # Movement
//!
//! A rook slides along one of the three straight lines through its tile, as
//! far as the tiles on its way are empty.

use crate::board::{Board, BoardModel};
use crate::coordinate::{IVec2, Vec2};
use crate::mov::Move;
use crate::piece::movement;
use crate::piece::movement::BlockerError;
use crate::sides::Color;
use vstd::prelude::*;

verus! {

/// Why a rook cannot make a move.
#[derive(Debug, Clone, Copy, PartialEq, Eq, Structural)]
pub enum MoveError {
    /// Rooks can only move on straight lines.
    InvalidDirection { stride: IVec2 },
    /// A piece stands in the way.
    Blocked(BlockerError),
}

/// The six strides of a rook.
pub open spec fn spec_strides() -> Seq<IVec2> {
    seq![
        IVec2 { x: 0, y: 1 },
        IVec2 { x: 1, y: 1 },
        IVec2 { x: 1, y: 0 },
        IVec2 { x: 0, y: -1i8 },
        IVec2 { x: -1i8, y: -1i8 },
        IVec2 { x: -1i8, y: 0 },
    ]
}

/// Whether the stride is one step along a straight line.
pub open spec fn spec_valid_stride(stride: IVec2) -> bool {
    ||| (stride.x == 0 && (stride.y == 1 || stride.y == -1))
    ||| ((stride.x == 1 || stride.x == -1) && stride.y == 0)
    ||| ((stride.x == 1 || stride.x == -1) && stride.x == stride.y)
}

/// Whether the delta lies on a straight line through the origin.
pub open spec fn spec_valid_delta(delta: IVec2) -> bool {
    delta.x == 0 || delta.y == 0 || delta.x == delta.y
}

/// What a rook of the given color at `origin` can do towards `destination`:
/// the stride of the movement has to be straight, the tiles on the way
/// empty, and the destination free of pieces of its own color.
pub open spec fn spec_get_move(
    origin: Vec2,
    destination: Vec2,
    board: BoardModel,
    color: Color,
) -> Result<Move, MoveError> {
    let (stride, distance) = movement::spec_get_stride(IVec2::between(origin, destination));
    if !spec_valid_stride(stride) {
        Err(MoveError::InvalidDirection { stride })
    } else {
        match movement::spec_check_blockers(origin, stride, distance as int, board) {
            Err(e) => Err(MoveError::Blocked(e)),
            Ok(_) => match movement::spec_check_color_blocker(destination, board, color) {
                Err(e) => Err(MoveError::Blocked(e)),
                Ok(_) => Ok(
                    Move::Regular {
                        origin,
                        destination,
                        captures: board.get(destination, color.spec_other()) is Some,
                    },
                ),
            },
        }
    }
}

/// The sign of a number: -1, 0 or 1.
pub open spec fn signum(v: int) -> int {
    if v < 0 {
        -1
    } else if v == 0 {
        0
    } else {
        1
    }
}

/// The unit step of a straight movement: the signs of its coordinates.
pub open spec fn unit_of(delta: IVec2) -> IVec2 {
    IVec2::at(signum(delta.x as int), signum(delta.y as int))
}

/// The number of tiles that a straight movement spans: the larger absolute
/// value of its coordinates.
pub open spec fn reach_of(delta: IVec2) -> int {
    let ax = crate::coordinate::spec_abs(delta.x as int);
    let ay = crate::coordinate::spec_abs(delta.y as int);
    if ax > ay {
        ax
    } else {
        ay
    }
}

/// A rook moves exactly along the six rays from its tile, as far as the
/// tiles are empty, and onto the first occupied tile of a ray if the piece
/// there is not its own: the movement to a destination is accepted if and
/// only if the destination lies on a straight line through the origin, all
/// tiles strictly between the two are empty, and the destination holds no
/// piece of the rook's color. The move captures exactly when the
/// destination holds an opposing piece.
pub proof fn lemma_rook_moves_along_rays(
    origin: Vec2,
    destination: Vec2,
    board: BoardModel,
    color: Color,
)
    requires
        origin.wf(),
        destination.wf(),
        origin != destination,
    ensures
        spec_get_move(origin, destination, board, color) is Ok <==> {
            &&& spec_valid_delta(IVec2::between(origin, destination))
            &&& movement::path_is_clear(
                origin,
                unit_of(IVec2::between(origin, destination)),
                reach_of(IVec2::between(origin, destination)),
                board,
            )
            &&& board.get(destination, color) is None
        },
        spec_get_move(origin, destination, board, color) is Ok ==> spec_get_move(
            origin,
            destination,
            board,
            color,
        ) == Ok::<Move, MoveError>(
            Move::Regular {
                origin,
                destination,
                captures: board.get(destination, color.spec_other()) is Some,
            },
        ),
{
    let delta = IVec2::between(origin, destination);
    let (stride, distance) = movement::spec_get_stride(delta);
    movement::lemma_get_stride(delta);
    if spec_valid_delta(delta) {
        let unit = unit_of(delta);
        let n = reach_of(delta);
        assert(unit.x * n == delta.x && unit.y * n == delta.y) by (nonlinear_arith)
            requires
                unit == unit_of(delta),
                n == reach_of(delta),
                spec_valid_delta(delta),
                -10 <= delta.x <= 10,
                -10 <= delta.y <= 10,
        ;
        movement::lemma_stride_of_straight(unit, n);
        assert(IVec2::at(unit.x * n, unit.y * n) == delta);
        assert(stride == unit && distance == n);
        assert(spec_valid_stride(stride));
        movement::lemma_check_blockers(origin, stride, distance as int, board);
    } else {
        if spec_valid_stride(stride) {
            let g = distance as int;
            assert(stride.x == 0 ==> stride.x * g == 0) by (nonlinear_arith);
            assert(stride.y == 0 ==> stride.y * g == 0) by (nonlinear_arith);
            assert(stride.x == stride.y ==> stride.x * g == stride.y * g) by (nonlinear_arith);
            assert(false);
        }
    }
}

/// A piece on a ray truncates it: a rook cannot move to a tile of the ray
/// beyond the piece. It can move onto the tile of the first piece of the
/// ray exactly when that piece is not of its own color.
pub proof fn lemma_rook_ray_is_truncated(
    origin: Vec2,
    unit: IVec2,
    k: int,
    n: int,
    board: BoardModel,
    color: Color,
)
    requires
        origin.wf(),
        spec_valid_stride(unit),
        1 <= k <= n,
        Vec2::spec_is_valid(origin.x + unit.x * n, origin.y + unit.y * n),
        board.get_either(movement::step(origin, unit, k)) is Some,
    ensures
        k < n ==> spec_get_move(origin, movement::step(origin, unit, n), board, color) is Err,
        k == n && movement::path_is_clear(origin, unit, k, board) ==> (spec_get_move(
            origin,
            movement::step(origin, unit, n),
            board,
            color,
        ) is Ok <==> board.get(movement::step(origin, unit, k), color) is None),
{
    let destination = movement::step(origin, unit, n);
    movement::lemma_steps_stay_on_board(origin, unit, n, n);
    let delta = IVec2::between(origin, destination);
    assert(unit.x * n == (if unit.x == 0 { 0 } else if unit.x == 1 { n } else { -n }))
        by (nonlinear_arith)
        requires
            -1 <= unit.x <= 1,
    ;
    assert(unit.y * n == (if unit.y == 0 { 0 } else if unit.y == 1 { n } else { -n }))
        by (nonlinear_arith)
        requires
            -1 <= unit.y <= 1,
    ;
    assert(delta.x == unit.x * n && delta.y == unit.y * n);
    assert(unit_of(delta) == unit);
    assert(reach_of(delta) == n);
    lemma_rook_moves_along_rays(origin, destination, board, color);
}

/// The six strides of a rook.
pub fn strides() -> (r: [IVec2; 6])
    ensures
        r@ == spec_strides(),
{
    let r = [
        IVec2::new_unchecked(0, 1),
        IVec2::new_unchecked(1, 1),
        IVec2::new_unchecked(1, 0),
        IVec2::new_unchecked(0, -1),
        IVec2::new_unchecked(-1, -1),
        IVec2::new_unchecked(-1, 0),
    ];
    assert(r@ =~= spec_strides());
    r
}

/// Whether the given stride is valid for a rook.
pub fn valid_stride(stride: IVec2) -> (r: bool)
    ensures
        r == spec_valid_stride(stride),
{
    (stride.x() == 0 && (stride.y() == 1 || stride.y() == -1)) || ((stride.x() == 1 || stride.x()
        == -1) && stride.y() == 0) || ((stride.x() == 1 || stride.x() == -1) && stride.x()
        == stride.y())
}

/// Whether the given delta is some number of rook strides.
pub fn valid_delta(delta: IVec2) -> (r: bool)
    ensures
        r == spec_valid_delta(delta),
{
    delta.x() == 0 || delta.y() == 0 || delta.x() == delta.y()
}

/// Gets a move from `origin` to `destination` if the movement is rook-like.
///
/// See the [module-level docs](self) for more info about how a rook moves.
pub fn get_move(origin: Vec2, destination: Vec2, board: &Board, color: Color) -> (r: Result<
    Move,
    MoveError,
>)
    requires
        origin.wf(),
        destination.wf(),
        origin != destination,
    ensures
        r == spec_get_move(origin, destination, board@, color),
{
    let delta = destination - origin;
    let (stride, distance) = movement::get_stride(delta);

    if !valid_stride(stride) {
        return Err(MoveError::InvalidDirection { stride });
    }
    if let Err(e) = movement::check_blockers(origin, stride, distance, board) {
        return Err(MoveError::Blocked(e));
    }
    if let Err(e) = movement::check_color_blocker(destination, board, color) {
        return Err(MoveError::Blocked(e));
    }
    // Check if it's capturing
    let captures = board.get(destination, color.other()).is_some();

    Ok(Move::Regular { origin, destination, captures })
}

/// The tiles where the rooks are placed at the start of the game.
pub open spec fn spec_initial_configuration() -> Seq<(Vec2, Color)> {
    seq![
        (Vec2 { x: 0, y: 3 }, Color::White),
        (Vec2 { x: 3, y: 0 }, Color::White),
        (Vec2 { x: 7, y: 10 }, Color::Black),
        (Vec2 { x: 10, y: 7 }, Color::Black),
    ]
}

/// The tiles where the rooks are placed at the start of the game.
pub fn initial_configuration() -> (r: Vec<(Vec2, Color)>)
    ensures
        r@ == spec_initial_configuration(),
{
    let r = vec![
        (Vec2::new_unchecked(0, 3), Color::White),
        (Vec2::new_unchecked(3, 0), Color::White),
        (Vec2::new_unchecked(7, 10), Color::Black),
        (Vec2::new_unchecked(10, 7), Color::Black),
    ];
    assert(r@ =~= spec_initial_configuration());
    r
}

} // verus!
