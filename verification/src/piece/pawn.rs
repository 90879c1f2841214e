//! Pawns.
//!
//! # Movement
//!
//! A pawn advances straight towards the opponent, one tile at a time, or two
//! from the tile it starts the game on, and only onto empty tiles. It
//! captures one tile ahead to either side, and moves there only to capture.

use crate::board::{Board, BoardModel};
use crate::coordinate::{IVec2, Vec2};
use crate::mov::Move;
use crate::piece::movement;
use crate::piece::movement::BlockerError;
use crate::sides::Color;
use vstd::prelude::*;

verus! {

/// Why a pawn cannot make a move.
#[derive(Debug, Clone, Copy, PartialEq, Eq, Structural)]
pub enum MoveError {
    /// The target is further away than the pawn can advance from its tile.
    TooFarAway { distance: u8, max_distance: u8 },
    /// A piece stands in the way.
    Blocked(BlockerError),
    /// The capture target is no neighbor.
    CaptureTooFarAway { distance: u8 },
    /// There is no opposing piece to capture at the position.
    NoPieceToCapture { position: Vec2 },
    /// Pawns can only move forward or capture to the side ahead.
    InvalidMovementDirection { delta: IVec2 },
}

/// Whether the stride leads straight ahead for the color.
pub open spec fn spec_is_straight_stride(stride: IVec2, color: Color) -> bool {
    stride.x == stride.y && stride.y == color.spec_direction()
}

/// Whether the stride leads one tile ahead to either side for the color.
pub open spec fn spec_is_capture_stride(stride: IVec2, color: Color) -> bool {
    (stride.x == 0 && stride.y == color.spec_direction()) || (stride.x == color.spec_direction()
        && stride.y == 0)
}

/// Whether a white pawn starts the game on the tile.
pub open spec fn spec_is_initial_white_tile(position: Vec2) -> bool {
    (position.x == 4 && position.y <= 4) || (position.x <= 4 && position.y == 4)
}

/// Whether a black pawn starts the game on the tile.
pub open spec fn spec_is_initial_black_tile(position: Vec2) -> bool {
    (position.x == 6 && position.y >= 6) || (position.x >= 6 && position.y == 6)
}

/// Whether a pawn of the color starts the game on the tile.
pub open spec fn spec_is_initial_tile(position: Vec2, color: Color) -> bool {
    match color {
        Color::White => spec_is_initial_white_tile(position),
        Color::Black => spec_is_initial_black_tile(position),
    }
}

/// The tiles on which the white pawns start the game.
pub open spec fn spec_initial_white_tiles() -> Seq<Vec2> {
    seq![
        Vec2 { x: 4, y: 0 },
        Vec2 { x: 4, y: 1 },
        Vec2 { x: 4, y: 2 },
        Vec2 { x: 4, y: 3 },
        Vec2 { x: 4, y: 4 },
        Vec2 { x: 3, y: 4 },
        Vec2 { x: 2, y: 4 },
        Vec2 { x: 1, y: 4 },
        Vec2 { x: 0, y: 4 },
    ]
}

/// The tiles on which the black pawns start the game: those of the white
/// pawns, seen from the other side of the board.
pub open spec fn spec_initial_black_tiles() -> Seq<Vec2> {
    Seq::new(9, |i: int| spec_initial_white_tiles()[i].spec_flipped())
}

/// The tiles on which the pawns start the game: white's, then black's.
pub open spec fn spec_initial_configuration() -> Seq<(Vec2, Color)> {
    Seq::new(
        18,
        |i: int|
            if i < 9 {
                (spec_initial_white_tiles()[i], Color::White)
            } else {
                (spec_initial_black_tiles()[i - 9], Color::Black)
            },
    )
}

/// The coordinate that the color's pawns share in pairs at the start.
pub open spec fn spec_max_coordinate_of_initial_position(color: Color) -> int {
    match color {
        Color::White => 4,
        Color::Black => 6,
    }
}

/// The candidate for the file among the vectors with `x` on the color's
/// initial line, and the one among those with `y` on it; of two candidates
/// the one nearer to the color's side, the second if they are as near.
pub open spec fn spec_initial_position_of_file(file: int, color: Color) -> Option<Vec2> {
    let m = spec_max_coordinate_of_initial_position(color);
    let a = Vec2::at(m, file + m - 5);
    let b = Vec2::at(m + 5 - file, m);
    let a_is_nearer = match color {
        Color::White => a.spec_rank() < b.spec_rank(),
        Color::Black => b.spec_rank() < a.spec_rank(),
    };
    if file + m >= 5 && m + 5 >= file {
        if a_is_nearer {
            Some(a)
        } else {
            Some(b)
        }
    } else if file + m >= 5 {
        Some(a)
    } else if m + 5 >= file {
        Some(b)
    } else {
        None
    }
}

/// What a pawn of the given color at `origin` can do towards `destination`.
///
/// Straight ahead it advances without capturing: one stride, or two from its
/// initial tile, over empty tiles onto an empty tile. Ahead to either side
/// it captures: one stride, onto an opposing piece.
pub open spec fn spec_get_move(
    origin: Vec2,
    destination: Vec2,
    board: BoardModel,
    color: Color,
) -> Result<Move, MoveError> {
    let delta = IVec2::between(origin, destination);
    let (stride, distance) = movement::spec_get_stride(delta);
    if spec_is_straight_stride(stride, color) {
        let max_distance = if spec_is_initial_tile(origin, color) {
            2u8
        } else {
            1u8
        };
        if distance > max_distance {
            Err(MoveError::TooFarAway { distance, max_distance })
        } else {
            match movement::spec_check_blockers(origin, stride, distance as int, board) {
                Err(e) => Err(MoveError::Blocked(e)),
                Ok(_) => match movement::spec_check_any_blocker(destination, board) {
                    Err(e) => Err(MoveError::Blocked(e)),
                    Ok(_) => Ok(Move::Regular { origin, destination, captures: false }),
                },
            }
        }
    } else if spec_is_capture_stride(stride, color) {
        if distance > 1 {
            Err(MoveError::CaptureTooFarAway { distance })
        } else if board.get(destination, color.spec_other()) is None {
            Err(MoveError::NoPieceToCapture { position: destination })
        } else {
            Ok(Move::Regular { origin, destination, captures: true })
        }
    } else {
        Err(MoveError::InvalidMovementDirection { delta })
    }
}

/// Whether the stride leads straight ahead for the color.
pub fn is_straight_stride(stride: IVec2, color: Color) -> (r: bool)
    ensures
        r == spec_is_straight_stride(stride, color),
{
    stride.x() == stride.y() && stride.y() == color.direction()
}

/// Whether the stride leads one tile ahead to either side for the color.
pub fn is_capture_stride(stride: IVec2, color: Color) -> (r: bool)
    ensures
        r == spec_is_capture_stride(stride, color),
{
    (stride.x() == 0 && stride.y() == color.direction()) || (stride.x() == color.direction()
        && stride.y() == 0)
}

/// How far ahead the first coordinate of `delta` leads for the color.
pub open spec fn spec_ahead(delta: IVec2, color: Color) -> int {
    match color {
        Color::White => delta.x as int,
        Color::Black => -(delta.x as int),
    }
}

/// Whether a pawn of the color at `origin` could advance to `destination`
/// if nothing stood in its way: straight ahead by one tile, or by two from
/// its initial tile.
pub open spec fn spec_can_move_unobstructed_no_capture(
    origin: Vec2,
    destination: Vec2,
    color: Color,
) -> bool {
    let delta = IVec2::between(origin, destination);
    let ahead = spec_ahead(delta, color);
    &&& delta.x == delta.y
    &&& 1 <= ahead
    &&& ahead <= (if spec_is_initial_tile(origin, color) {
        2int
    } else {
        1int
    })
}

/// Whether a pawn of the color at `origin` could capture on `destination`:
/// the tile is one step ahead to either side and holds an opposing piece.
pub open spec fn spec_can_capture(
    origin: Vec2,
    destination: Vec2,
    board: BoardModel,
    color: Color,
) -> bool {
    spec_is_capture_stride(IVec2::between(origin, destination), color) && board.get(
        destination,
        color.spec_other(),
    ) is Some
}

/// Whether a pawn of the color at `origin` could advance to `destination`
/// if nothing stood in its way.
pub fn can_move_unobstructed_no_capture(origin: Vec2, destination: Vec2, color: Color) -> (r: bool)
    requires
        origin.wf(),
        destination.wf(),
    ensures
        r == spec_can_move_unobstructed_no_capture(origin, destination, color),
{
    let delta = destination - origin;
    if delta.x() != delta.y() {
        return false;
    }
    let ahead: i8 = match color {
        Color::White => delta.x(),
        Color::Black => -delta.x(),
    };
    if ahead < 1 {
        return false;
    }
    let max_distance: i8 = if is_intial_tile(origin, color) { 2 } else { 1 };
    ahead <= max_distance
}

/// Whether a pawn of the color at `origin` could capture on `destination`.
pub fn can_capture(origin: Vec2, destination: Vec2, board: &Board, color: Color) -> (r: bool)
    requires
        origin.wf(),
        destination.wf(),
    ensures
        r == spec_can_capture(origin, destination, board@, color),
{
    let delta = destination - origin;
    if !is_capture_stride(delta, color) {
        return false;
    }
    board.get(destination, color.other()).is_some()
}

/// A pawn moves without capturing exactly where it can advance and nothing
/// stands on its way or on its destination, and it captures exactly where it
/// can capture.
pub proof fn lemma_pawn_moves(origin: Vec2, destination: Vec2, board: BoardModel, color: Color)
    requires
        origin.wf(),
        destination.wf(),
        origin != destination,
    ensures
        spec_get_move(origin, destination, board, color) == Ok::<Move, MoveError>(
            Move::Regular { origin, destination, captures: false },
        ) <==> {
            &&& spec_can_move_unobstructed_no_capture(origin, destination, color)
            &&& movement::path_is_clear(
                origin,
                IVec2 { x: color.spec_direction(), y: color.spec_direction() },
                spec_ahead(IVec2::between(origin, destination), color) + 1,
                board,
            )
        },
        spec_get_move(origin, destination, board, color) == Ok::<Move, MoveError>(
            Move::Regular { origin, destination, captures: true },
        ) <==> spec_can_capture(origin, destination, board, color),
        spec_get_move(origin, destination, board, color) is Ok ==> spec_get_move(
            origin,
            destination,
            board,
            color,
        ).unwrap() is Regular,
{
    let delta = IVec2::between(origin, destination);
    let direction = color.spec_direction();
    let unit = IVec2 { x: direction, y: direction };
    let (stride, distance) = movement::spec_get_stride(delta);
    movement::lemma_get_stride(delta);
    let g = distance as int;
    if delta.x == delta.y && spec_ahead(delta, color) >= 1 {
        let n = spec_ahead(delta, color);
        assert(unit.x * n == delta.x && unit.y * n == delta.y) by (nonlinear_arith)
            requires
                (direction == 1 && n == delta.x) || (direction == -1 && n == -delta.x),
                unit.x == direction,
                unit.y == direction,
                delta.x == delta.y,
        ;
        movement::lemma_stride_of_straight(unit, n);
        assert(IVec2::at(unit.x * n, unit.y * n) == delta);
        assert(stride == unit && g == n);
        movement::lemma_first_blocker(origin, unit, 1, n, board);
        assert(destination == movement::step(origin, unit, n));
        if movement::path_is_clear(origin, unit, n + 1, board) {
            assert(board.get_either(movement::step(origin, unit, n)) is None);
            assert forall|i: int| 1 <= i < n implies board.get_either(
                #[trigger] movement::step(origin, unit, i),
            ) is None by {}
        }
        if movement::spec_check_blockers(origin, unit, n, board) is Ok
            && movement::spec_check_any_blocker(destination, board) is Ok {
            assert forall|i: int| 1 <= i < n + 1 implies board.get_either(
                #[trigger] movement::step(origin, unit, i),
            ) is None by {
                if i == n {
                }
            }
        }
    } else if spec_is_straight_stride(stride, color) {
        assert(stride.x * g == stride.y * g) by (nonlinear_arith)
            requires
                stride.x == stride.y,
        ;
        assert(spec_ahead(delta, color) == g) by (nonlinear_arith)
            requires
                stride.x * g == delta.x,
                stride.x == direction,
                (direction == 1 && spec_ahead(delta, color) == delta.x) || (direction == -1
                    && spec_ahead(delta, color) == -delta.x),
        ;
        assert(false);
    }
    if spec_is_capture_stride(delta, color) {
        let single = delta;
        movement::lemma_stride_of_straight(single, 1);
        assert(single.x * 1 == delta.x && single.y * 1 == delta.y);
        assert(IVec2::at(single.x * 1, single.y * 1) == delta);
        assert(stride == delta && g == 1);
    } else if spec_is_capture_stride(stride, color) && g <= 1 {
        assert(stride.x * 1 == stride.x && stride.y * 1 == stride.y);
        assert(stride == delta);
        assert(false);
    }
}

/// Gets a move from `origin` to `destination` if the movement is pawn-like.
///
/// See the [module-level docs](self) for more info about how a pawn moves.
pub fn get_move(origin: Vec2, destination: Vec2, board: &Board, color: Color) -> (r: Result<
    Move,
    MoveError,
>)
    requires
        origin.wf(),
        destination.wf(),
        origin != destination,
    ensures
        r == spec_get_move(origin, destination, board@, color),
{
    let delta = destination - origin;
    let (stride, distance) = movement::get_stride(delta);

    let captures = if is_straight_stride(stride, color) {
        let max_distance: u8 = if is_intial_tile(origin, color) { 2 } else { 1 };
        if distance > max_distance {
            return Err(MoveError::TooFarAway { distance, max_distance });
        }
        if let Err(e) = movement::check_blockers(origin, stride, distance, board) {
            return Err(MoveError::Blocked(e));
        }
        if let Err(e) = movement::check_any_blocker(destination, board) {
            return Err(MoveError::Blocked(e));
        }
        false
    } else if is_capture_stride(stride, color) {
        if distance > 1 {
            return Err(MoveError::CaptureTooFarAway { distance });
        }
        if board.get(destination, color.other()).is_none() {
            return Err(MoveError::NoPieceToCapture { position: destination });
        }
        true
    } else {
        return Err(MoveError::InvalidMovementDirection { delta });
    };

    Ok(Move::Regular { origin, destination, captures })
}

/// The tiles on which the white pawns start the game.
pub fn initial_white_tiles() -> (r: [Vec2; 9])
    ensures
        r@ == spec_initial_white_tiles(),
{
    let r = [
        Vec2::new_unchecked(4, 0),
        Vec2::new_unchecked(4, 1),
        Vec2::new_unchecked(4, 2),
        Vec2::new_unchecked(4, 3),
        Vec2::new_unchecked(4, 4),
        Vec2::new_unchecked(3, 4),
        Vec2::new_unchecked(2, 4),
        Vec2::new_unchecked(1, 4),
        Vec2::new_unchecked(0, 4),
    ];
    assert(r@ =~= spec_initial_white_tiles());
    r
}

/// The tiles on which the black pawns start the game.
pub fn initial_black_tiles() -> (r: [Vec2; 9])
    ensures
        r@ == spec_initial_black_tiles(),
{
    let w = initial_white_tiles();
    let r = [
        w[0].flipped(),
        w[1].flipped(),
        w[2].flipped(),
        w[3].flipped(),
        w[4].flipped(),
        w[5].flipped(),
        w[6].flipped(),
        w[7].flipped(),
        w[8].flipped(),
    ];
    assert(r@ =~= spec_initial_black_tiles());
    r
}

/// The coordinate that the color's pawns share in pairs at the start.
pub fn max_coordinate_of_initial_position(color: Color) -> (r: u8)
    ensures
        r == spec_max_coordinate_of_initial_position(color),
{
    color.pick(4, 6)
}

/// Whether a white pawn starts the game on the tile.
pub fn is_initial_white_tile(position: Vec2) -> (r: bool)
    ensures
        r == spec_is_initial_white_tile(position),
{
    (position.x() == 4 && position.y() <= 4) || (position.x() <= 4 && position.y() == 4)
}

/// Whether a black pawn starts the game on the tile.
pub fn is_initial_black_tile(position: Vec2) -> (r: bool)
    ensures
        r == spec_is_initial_black_tile(position),
{
    (position.x() == 6 && position.y() >= 6) || (position.x() >= 6 && position.y() == 6)
}

/// Whether a pawn of the color starts the game on the tile.
pub fn is_intial_tile(position: Vec2, color: Color) -> (r: bool)
    ensures
        r == spec_is_initial_tile(position, color),
{
    match color {
        Color::White => is_initial_white_tile(position),
        Color::Black => is_initial_black_tile(position),
    }
}

/// The tile on which the pawn of the given file starts the game.
///
/// A file holds a pawn of each color when it is between 1 and 9.
pub fn initial_position_of_file(file: u8, color: Color) -> (r: Option<Vec2>)
    requires
        file + spec_max_coordinate_of_initial_position(color) <= u8::MAX,
    ensures
        r == spec_initial_position_of_file(file as int, color),
{
    let m: u8 = max_coordinate_of_initial_position(color);
    // We have two conditions:
    // - `file == pos.y - pos.x + 5`
    // - `pos.x == m || pos.y == m` (either one of 4 or 6)
    //
    // Then, the solutions are either
    // `pos.x = m` and `pos.y = file + m - 5`, or
    // `pos.y = m` and `pos.x = m - file + 5`.
    //
    // Coordinates can't be negative, so a solution that would be is left
    // out. Both of them could be valid, and then the one that is closer to
    // the given color is chosen.
    let has_a: bool = file + m >= 5;
    let has_b: bool = m + 5 >= file;  // Subtraction has to go at the end, otherwise it underflows
    if has_a && has_b {
        let a = Vec2::new_unchecked(m, file + m - 5);
        let b = Vec2::new_unchecked(m + 5 - file, m);
        let rank_a: u8 = a.x() + a.y();
        let rank_b: u8 = b.x() + b.y();
        let a_is_nearer: bool = match color {
            Color::White => rank_a < rank_b,
            Color::Black => rank_b < rank_a,
        };
        if a_is_nearer {
            Some(a)
        } else {
            Some(b)
        }
    } else if has_a {
        Some(Vec2::new_unchecked(m, file + m - 5))
    } else if has_b {
        Some(Vec2::new_unchecked(m + 5 - file, m))
    } else {
        None
    }
}

/// On each file from 1 to 9, the initial position of the file is the one
/// tile of the file on which a pawn of the color starts the game.
pub proof fn lemma_initial_position_of_file(file: int, color: Color, position: Vec2)
    requires
        1 <= file <= 9,
    ensures
        spec_initial_position_of_file(file, color) is Some,
        spec_initial_position_of_file(file, color).unwrap().wf(),
        spec_initial_position_of_file(file, color).unwrap().spec_file() == file,
        spec_is_initial_tile(spec_initial_position_of_file(file, color).unwrap(), color),
        position.wf() && position.spec_file() == file && spec_is_initial_tile(position, color)
            ==> spec_initial_position_of_file(file, color) == Some(position),
{
}

/// The tiles on which the pawns start the game, with their colors.
pub fn initial_configuration() -> (r: Vec<(Vec2, Color)>)
    ensures
        r@ == spec_initial_configuration(),
{
    let white = initial_white_tiles();
    let black = initial_black_tiles();
    let mut out: Vec<(Vec2, Color)> = Vec::new();
    let mut i: usize = 0;
    while i < 9
        invariant
            i <= 9,
            white@ == spec_initial_white_tiles(),
            out@.len() == i,
            forall|k: int| 0 <= k < i ==> out@[k] == spec_initial_configuration()[k],
        decreases 9 - i,
    {
        out.push((white[i], Color::White));
        i += 1;
    }
    let mut j: usize = 0;
    while j < 9
        invariant
            j <= 9,
            black@ == spec_initial_black_tiles(),
            out@.len() == 9 + j,
            forall|k: int| 0 <= k < 9 + j ==> out@[k] == spec_initial_configuration()[k],
        decreases 9 - j,
    {
        out.push((black[j], Color::Black));
        j += 1;
    }
    assert(out@ =~= spec_initial_configuration());
    out
}

} // verus!
