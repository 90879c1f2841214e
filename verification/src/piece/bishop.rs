//! Bishops.
//!
//! # Movement
//!
//! A bishop moves on the diagonals of hexagonal tiles. You can think of it as
//! sliding through the edges of neighbouring tiles.
//!
//! Just like in square chess, a bishop always stays on tiles of the same
//! color, which is the sum of the coordinates of the tile modulo 3.
//!
//! The possible strides of the bishop are enumerated in [`strides`].
//! Numerically, they are every combination where the coordinates' absolute
//! values are either 1 or 2 and their sum modulo 3 is zero.

use crate::board::{Board, BoardModel};
use crate::coordinate::{IVec2, Vec2};
use crate::mov::Move;
use crate::piece::movement;
use crate::piece::movement::BlockerError;
use crate::sides::Color;
use vstd::prelude::*;

verus! {

/// Why a bishop cannot make a move.
#[derive(Debug, Clone, Copy, PartialEq, Eq, Structural)]
pub enum MoveError {
    /// Bishops can only move on same-color tiles.
    ChangeOfIndex { origin_index: u8, destination_index: u8 },
    /// A piece stands in the way.
    Blocked(BlockerError),
    /// Bishops can only move in the diagonals of the hexagon.
    InvalidDirection { stride: IVec2 },
}

/// The six strides of a bishop.
pub open spec fn spec_strides() -> Seq<IVec2> {
    seq![
        IVec2 { x: 1, y: -1i8 },
        IVec2 { x: 2, y: 1 },
        IVec2 { x: 1, y: 2 },
        IVec2 { x: -1i8, y: 1 },
        IVec2 { x: -2i8, y: -1i8 },
        IVec2 { x: -1i8, y: -2i8 },
    ]
}

/// Whether the stride is one step along a diagonal: both coordinates are 1
/// or 2 in absolute value, and their sum is a multiple of 3.
pub open spec fn spec_valid_stride(stride: IVec2) -> bool {
    &&& (stride.x == 1 || stride.x == -1 || stride.x == 2 || stride.x == -2)
    &&& (stride.y == 1 || stride.y == -1 || stride.y == 2 || stride.y == -2)
    &&& (stride.x + stride.y) % 3 == 0
}

/// What a bishop of the given color at `origin` can do towards
/// `destination`: the stride of the movement has to be diagonal, the tiles
/// on the way empty, and the destination free of pieces of its own color.
pub open spec fn spec_get_move(
    origin: Vec2,
    destination: Vec2,
    board: BoardModel,
    color: Color,
) -> Result<Move, MoveError> {
    let (stride, distance) = movement::spec_get_stride(IVec2::between(origin, destination));
    if !spec_valid_stride(stride) {
        Err(MoveError::InvalidDirection { stride })
    } else {
        match movement::spec_check_blockers(origin, stride, distance as int, board) {
            Err(e) => Err(MoveError::Blocked(e)),
            Ok(_) => match movement::spec_check_color_blocker(destination, board, color) {
                Err(e) => Err(MoveError::Blocked(e)),
                Ok(_) => Ok(
                    Move::Regular {
                        origin,
                        destination,
                        captures: board.get(destination, color.spec_other()) is Some,
                    },
                ),
            },
        }
    }
}

/// The stride of a movement is valid for a bishop exactly when it is one of
/// the six strides of a bishop.
pub proof fn lemma_valid_strides(delta: IVec2)
    requires
        delta.wf(),
        delta != (IVec2 { x: 0, y: 0 }),
    ensures
        spec_valid_stride(movement::spec_get_stride(delta).0) <==> spec_strides().contains(
            movement::spec_get_stride(delta).0,
        ),
{
    let (stride, distance) = movement::spec_get_stride(delta);
    movement::lemma_get_stride(delta);
    let strides = spec_strides();
    assert(strides.len() == 6);
    if strides.contains(stride) {
        let at = choose|at: int| 0 <= at < strides.len() && strides[at] == stride;
        assert(spec_valid_stride(strides[at]));
    }
    if spec_valid_stride(stride) {
        let g = distance as int;
        if stride.x == -stride.y && (stride.x == 2 || stride.x == -2) {
            // Twice a stride is no stride.
            assert(stride.x * g == 2 * g || stride.x * g == -2 * g) by (nonlinear_arith)
                requires
                    stride.x == 2 || stride.x == -2,
            ;
            assert(stride.y * g == 2 * g || stride.y * g == -2 * g) by (nonlinear_arith)
                requires
                    stride.y == 2 || stride.y == -2,
            ;
            vstd::arithmetic::div_mod::lemma_mod_self_0(2 * g);
            assert(movement::common_divisor(2 * g, 2 * g, 2 * g));
            assert(false);
        }
        let at: int = if stride == strides[0] {
            0
        } else if stride == strides[1] {
            1
        } else if stride == strides[2] {
            2
        } else if stride == strides[3] {
            3
        } else if stride == strides[4] {
            4
        } else {
            5
        };
        assert(strides[at] == stride);
    }
}

/// A bishop moves exactly along the six diagonals from its tile, as far as
/// the tiles are empty, and onto the first occupied tile of a diagonal if
/// the piece there is not its own: the movement to a destination is accepted
/// if and only if a whole number of one of the six strides leads there, all
/// tiles that the strides pass on the way are empty, and the destination
/// holds no piece of the bishop's color. The move captures exactly when the
/// destination holds an opposing piece.
pub proof fn lemma_bishop_moves_along_diagonals(
    origin: Vec2,
    destination: Vec2,
    board: BoardModel,
    color: Color,
)
    requires
        origin.wf(),
        destination.wf(),
        origin != destination,
    ensures
        spec_get_move(origin, destination, board, color) is Ok <==> exists|stride: IVec2, n: int|
            {
                &&& spec_strides().contains(stride)
                &&& n >= 1
                &&& #[trigger] movement::spans(stride, n, IVec2::between(origin, destination))
                &&& movement::path_is_clear(origin, stride, n, board)
                &&& board.get(destination, color) is None
            },
        spec_get_move(origin, destination, board, color) is Ok ==> spec_get_move(
            origin,
            destination,
            board,
            color,
        ) == Ok::<Move, MoveError>(
            Move::Regular {
                origin,
                destination,
                captures: board.get(destination, color.spec_other()) is Some,
            },
        ),
{
    let delta = IVec2::between(origin, destination);
    let (found, distance) = movement::spec_get_stride(delta);
    movement::lemma_get_stride(delta);
    movement::lemma_check_blockers(origin, found, distance as int, board);
    lemma_valid_strides(delta);
    if spec_get_move(origin, destination, board, color) is Ok {
        assert(movement::spans(found, distance as int, delta)) by (nonlinear_arith)
            requires
                found.x * distance == delta.x,
                found.y * distance == delta.y,
        ;
    }
    if exists|stride: IVec2, n: int|
        {
            &&& spec_strides().contains(stride)
            &&& n >= 1
            &&& #[trigger] movement::spans(stride, n, delta)
            &&& movement::path_is_clear(origin, stride, n, board)
            &&& board.get(destination, color) is None
        } {
        let (stride, n) = choose|stride: IVec2, n: int|
            {
                &&& spec_strides().contains(stride)
                &&& n >= 1
                &&& #[trigger] movement::spans(stride, n, delta)
                &&& movement::path_is_clear(origin, stride, n, board)
                &&& board.get(destination, color) is None
            };
        let strides = spec_strides();
        let at = choose|at: int| 0 <= at < strides.len() && strides[at] == stride;
        assert(strides.len() == 6);
        assert(spec_valid_stride(strides[at]));
        assert(stride.x * n == delta.x && stride.y * n == delta.y) by (nonlinear_arith)
            requires
                n * stride.x == delta.x,
                n * stride.y == delta.y,
        ;
        assert(n <= 10) by (nonlinear_arith)
            requires
                n >= 1,
                stride.x * n == delta.x,
                stride.x >= 1 || stride.x <= -1,
                -10 <= delta.x <= 10,
        ;
        movement::lemma_stride_of_multiple(stride, n);
        assert(IVec2::at(stride.x * n, stride.y * n) == delta);
        assert(movement::spec_get_stride(delta) == (stride, n as u8));
        assert(found == stride && distance == n);
    }
}

/// A bishop stays on tiles of one color.
pub proof fn lemma_bishop_keeps_tile_color(
    origin: Vec2,
    destination: Vec2,
    board: BoardModel,
    color: Color,
)
    requires
        origin.wf(),
        destination.wf(),
        origin != destination,
        spec_get_move(origin, destination, board, color) is Ok,
    ensures
        origin.tile_class() == destination.tile_class(),
{
    let delta = IVec2::between(origin, destination);
    let (stride, distance) = movement::spec_get_stride(delta);
    movement::lemma_get_stride(delta);
    let g = distance as int;
    let sum = stride.x + stride.y;
    assert(sum * g == delta.x + delta.y) by (nonlinear_arith)
        requires
            sum == stride.x + stride.y,
            stride.x * g == delta.x,
            stride.y * g == delta.y,
    ;
    assert(sum == -3 || sum == 0 || sum == 3);
    assert(sum * g == (if sum == 0 { 0 } else if sum == 3 { 3 * g } else { -3 * g }))
        by (nonlinear_arith)
        requires
            sum == -3 || sum == 0 || sum == 3,
    ;
}

/// Possible strides of a bishop.
pub fn strides() -> (r: [IVec2; 6])
    ensures
        r@ == spec_strides(),
{
    let r = [
        IVec2::new_unchecked(1, -1),
        IVec2::new_unchecked(2, 1),
        IVec2::new_unchecked(1, 2),
        IVec2::new_unchecked(-1, 1),
        IVec2::new_unchecked(-2, -1),
        IVec2::new_unchecked(-1, -2),
    ];
    assert(r@ =~= spec_strides());
    r
}

/// Whether the given stride is valid for a bishop.
pub fn valid_stride(stride: IVec2) -> (r: bool)
    ensures
        r == spec_valid_stride(stride),
{
    let x: i8 = stride.x();
    let y: i8 = stride.y();
    if !(x == 1 || x == -1 || x == 2 || x == -2) {
        return false;
    }
    if !(y == 1 || y == -1 || y == 2 || y == -2) {
        return false;
    }
    let sum: i8 = x + y;
    sum == 3 || sum == 0 || sum == -3
}

/// Gets a move from `origin` to `destination` if the movement is
/// bishop-like.
///
/// See the [module-level docs](self) for more info about how a bishop moves.
pub fn get_move(origin: Vec2, destination: Vec2, board: &Board, color: Color) -> (r: Result<
    Move,
    MoveError,
>)
    requires
        origin.wf(),
        destination.wf(),
        origin != destination,
    ensures
        r == spec_get_move(origin, destination, board@, color),
{
    let delta = destination - origin;
    let (stride, distance) = movement::get_stride(delta);

    if !valid_stride(stride) {
        return Err(MoveError::InvalidDirection { stride });
    }
    if let Err(e) = movement::check_blockers(origin, stride, distance, board) {
        return Err(MoveError::Blocked(e));
    }
    if let Err(e) = movement::check_color_blocker(destination, board, color) {
        return Err(MoveError::Blocked(e));
    }
    // Check if it's capturing
    let captures = board.get(destination, color.other()).is_some();

    Ok(Move::Regular { origin, destination, captures })
}

/// The tiles where the bishops are placed at the start of the game: two of
/// each color, on the middle file, black's across the board from white's.
pub open spec fn spec_initial_configuration() -> Seq<(Vec2, Color)> {
    seq![
        (Vec2 { x: 0, y: 0 }, Color::White),
        (Vec2 { x: 1, y: 1 }, Color::White),
        (Vec2 { x: 10, y: 10 }, Color::Black),
        (Vec2 { x: 9, y: 9 }, Color::Black),
    ]
}

/// The tiles where the bishops are placed at the start of the game.
pub fn initial_configuration() -> (r: Vec<(Vec2, Color)>)
    ensures
        r@ == spec_initial_configuration(),
{
    let r = vec![
        (Vec2::new_unchecked(0, 0), Color::White),
        (Vec2::new_unchecked(1, 1), Color::White),
        (Vec2::new_unchecked(10, 10), Color::Black),
        (Vec2::new_unchecked(9, 9), Color::Black),
    ];
    assert(r@ =~= spec_initial_configuration());
    r
}

} // verus!
