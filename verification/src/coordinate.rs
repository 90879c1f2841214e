//! Hexagonal coordinates.
//!
//! A tile is named by two coordinates `(x, y)`. From a tile, the neighbour up
//! and to the left is at `(1, 0)`, the one up and to the right at `(0, 1)`,
//! and the one straight up at `(1, 1)`. The board is the hexagon of the 91
//! tiles with both coordinates at most 10 and at most 5 apart.

use crate::piece::movement;
use vstd::prelude::*;
use vstd::std_specs::ops::{AddSpecImpl, DivSpecImpl, MulSpecImpl, SubSpecImpl};

verus! {

/// A tile of the board, in hexagonal coordinates.
#[derive(Debug, Clone, Copy, PartialEq, Eq, Structural, Hash)]
pub struct Vec2 {
    pub x: u8,
    pub y: u8,
}

/// The difference of two tiles.
#[derive(Debug, Clone, Copy, PartialEq, Eq, Structural, Hash)]
pub struct IVec2 {
    pub x: i8,
    pub y: i8,
}

/// The absolute value of a small signed number.
pub open spec fn spec_abs(v: int) -> int {
    if v < 0 { -v } else { v }
}

/// The value that eight unsigned bits hold after `v` was computed with
/// wrap-around, for `v` no further than 256 outside their range.
pub open spec fn wrap_u8(v: int) -> int {
    if v < 0 { v + 256 } else if v > 255 { v - 256 } else { v }
}

/// The quotient of `a` by `b`, rounded towards zero.
pub open spec fn div_towards_zero(a: int, b: int) -> int {
    if a >= 0 && b > 0 {
        a / b
    } else if a < 0 && b > 0 {
        -((-a) / b)
    } else if a >= 0 && b < 0 {
        -(a / (-b))
    } else {
        (-a) / (-b)
    }
}

fn abs_i8(v: i8) -> (r: u8)
    requires
        v > i8::MIN,
    ensures
        r == spec_abs(v as int),
{
    if v < 0 { (-v) as u8 } else { v as u8 }
}

fn div_i8(a: i8, b: i8) -> (r: i8)
    requires
        b != 0,
        a > i8::MIN,
        b > i8::MIN,
    ensures
        r == div_towards_zero(a as int, b as int),
{
    let ua: u8 = abs_i8(a);
    let ub: u8 = abs_i8(b);
    let q: u8 = ua / ub;
    assert(q <= ua) by (nonlinear_arith)
        requires
            q == ua as int / ub as int,
            ub > 0,
    ;
    if (a < 0) == (b < 0) { q as i8 } else { -(q as i8) }
}

///////////////////////////////////////////////////////////////////////////////
// The board's shape
///////////////////////////////////////////////////////////////////////////////

impl Vec2 {
    /// The maximum value that a coordinate can have.
    pub const MAX: u8 = 10;

    /// The maximum allowed absolute difference of two coordinates.
    pub const WIDTH: u8 = 5;

    /// The maximum value for the rank of a tile.
    pub const MAX_RANK: u8 = 20;

    /// The maximum value for the file of a tile.
    pub const MAX_FILE: u8 = 10;

    /// The tile in the middle of the board.
    pub fn center() -> (r: Vec2)
        ensures
            r == (Vec2 { x: 5, y: 5 }),
    {
        Vec2 { x: 5, y: 5 }
    }

    /// The tile at the corner of the board nearest to white.
    pub fn zero() -> (r: Vec2)
        ensures
            r == (Vec2 { x: 0, y: 0 }),
    {
        Vec2 { x: 0, y: 0 }
    }

    /// Whether `(x, y)` names a tile of the board: both coordinates are
    /// between 0 and 10, and they are at most 5 apart.
    pub open spec fn spec_is_valid(x: int, y: int) -> bool {
        0 <= x <= 10 && 0 <= y <= 10 && -5 <= x - y <= 5
    }

    /// Whether the vector is a tile of the board.
    pub open spec fn wf(self) -> bool {
        Self::spec_is_valid(self.x as int, self.y as int)
    }

    /// The tile with the given coordinates.
    pub open spec fn at(x: int, y: int) -> Vec2 {
        Vec2 { x: x as u8, y: y as u8 }
    }

    /// The sum of the coordinates.
    pub open spec fn spec_rank(self) -> int {
        self.x + self.y
    }

    /// The difference of the coordinates, plus 5.
    pub open spec fn spec_file(self) -> int {
        5 + self.y - self.x
    }

    /// The sum of the coordinates, modulo 3.
    pub open spec fn tile_class(self) -> int {
        (self.x + self.y) % 3
    }

    /// The tile that a half turn of the board brings here.
    pub open spec fn spec_flipped(self) -> Vec2 {
        Vec2::at(10 - self.x, 10 - self.y)
    }

    /// How many tiles the rank holds: ranks widen by one tile up to rank 4,
    /// alternate between 6 and 5 tiles in the middle band, and narrow again
    /// from rank 16.
    pub open spec fn spec_rank_width(rank: int) -> int {
        if rank <= 4 {
            rank + 1
        } else if rank >= 16 {
            21 - rank
        } else {
            5 + rank % 2
        }
    }

    /// The lowest `y` among the tiles of the rank.
    pub open spec fn spec_min_valid_rank_coordinate(rank: int) -> int {
        if rank <= 4 {
            0
        } else if rank <= 15 {
            (rank - 4) / 2
        } else {
            rank - 10
        }
    }

    /// The lowest `y` among the tiles with the given `x`.
    pub open spec fn column_start(x: int) -> int {
        if x <= 5 { 0 } else { x - 5 }
    }

    /// The highest `y` among the tiles with the given `x`.
    pub open spec fn column_end(x: int) -> int {
        if x >= 5 { 10 } else { x + 5 }
    }

    /// How many tiles have a first coordinate below `x`: the columns hold 6,
    /// 7, 8, 9, 10, 11, 10, 9, 8, 7 and 6 tiles.
    pub open spec fn tiles_before_column(x: int) -> int {
        if x <= 0 {
            0
        } else if x == 1 {
            6
        } else if x == 2 {
            13
        } else if x == 3 {
            21
        } else if x == 4 {
            30
        } else if x == 5 {
            40
        } else if x == 6 {
            51
        } else if x == 7 {
            61
        } else if x == 8 {
            70
        } else if x == 9 {
            78
        } else if x == 10 {
            85
        } else {
            91
        }
    }

    /// The place of the tile when the tiles are listed by `x`, then by `y`.
    pub open spec fn order(self) -> int {
        Self::tiles_before_column(self.x as int) + self.y - Self::column_start(self.x as int)
    }

    /// Whether `self` comes before `other` when the tiles are listed by `x`,
    /// then by `y`.
    pub open spec fn precedes(self, other: Vec2) -> bool {
        self.x < other.x || (self.x == other.x && self.y < other.y)
    }

    /// The first coordinate of the tile at place `i` of the list by `x`, then
    /// by `y`.
    pub open spec fn column_of(i: int) -> int {
        if i < 6 {
            0
        } else if i < 13 {
            1
        } else if i < 21 {
            2
        } else if i < 30 {
            3
        } else if i < 40 {
            4
        } else if i < 51 {
            5
        } else if i < 61 {
            6
        } else if i < 70 {
            7
        } else if i < 78 {
            8
        } else if i < 85 {
            9
        } else {
            10
        }
    }

    /// The tile at place `i` of the list by `x`, then by `y`.
    pub open spec fn tile_at(i: int) -> Vec2 {
        let x = Self::column_of(i);
        Vec2::at(x, Self::column_start(x) + i - Self::tiles_before_column(x))
    }

    /// All 91 tiles, listed by `x`, then by `y`.
    pub open spec fn tiles() -> Seq<Vec2> {
        Seq::new(91, |i: int| Self::tile_at(i))
    }

    /// The list of tiles holds tiles of the board, each at the place that its
    /// coordinates give it.
    pub proof fn lemma_tiles(i: int)
        requires
            0 <= i < 91,
        ensures
            Self::tiles().len() == 91,
            Self::tiles()[i] == Self::tile_at(i),
            Self::tile_at(i).wf(),
            Self::tile_at(i).order() == i,
    {
    }

    /// Every tile of the board stands in the list of tiles, at the place
    /// that its coordinates give it.
    pub proof fn lemma_tile_order(position: Vec2)
        requires
            position.wf(),
        ensures
            0 <= position.order() < 91,
            Self::tile_at(position.order()) == position,
    {
    }

    /// The list of tiles goes by `x`, then by `y`.
    pub proof fn lemma_tiles_are_sorted(i: int, j: int)
        requires
            0 <= i < j < 91,
        ensures
            Self::tile_at(i).precedes(Self::tile_at(j)),
    {
    }

    /// The tiles of a rank are those whose `y` runs from the lowest valid
    /// coordinate of the rank over as many values as the rank is wide.
    pub proof fn lemma_rank(rank: int, y: int)
        requires
            0 <= rank <= 20,
        ensures
            Self::spec_is_valid(rank - y, y) <==> Self::spec_min_valid_rank_coordinate(rank) <= y
                < Self::spec_min_valid_rank_coordinate(rank) + Self::spec_rank_width(rank),
    {
    }

    /// Rank, file and tile color of a tile stay within their bounds.
    pub proof fn lemma_rank_and_file(self)
        requires
            self.wf(),
        ensures
            0 <= self.spec_rank() <= 20,
            0 <= self.spec_file() <= 10,
            0 <= self.tile_class() <= 2,
    {
    }

    /// Two tiles that touch never have the same tile color.
    pub proof fn lemma_neighbours_differ(self, other: Vec2)
        requires
            self.wf(),
            other.wf(),
            IVec2::between(self, other).spec_length() == 1,
        ensures
            self.tile_class() != other.tile_class(),
    {
    }

    /// A half turn of the board maps tiles to tiles, and two of them lead
    /// back.
    pub proof fn lemma_flipped(self)
        requires
            self.wf(),
        ensures
            self.spec_flipped().wf(),
            self.spec_flipped().spec_flipped() == self,
            self.spec_flipped().spec_rank() == 20 - self.spec_rank(),
            self.spec_flipped().spec_file() == 10 - self.spec_file(),
    {
    }

    /// Whether these coordinates are possible on the board.
    ///
    /// For the coordinates to be valid, the following conditions must be met:
    /// - `|x - y| <= WIDTH`
    /// - `x <= MAX` and `y <= MAX`
    pub fn is_valid(x: u8, y: u8) -> (r: bool)
        ensures
            r == Self::spec_is_valid(x as int, y as int),
    {
        let diff: u8 = if x < y { y - x } else { x - y };
        diff <= Self::WIDTH && x <= Self::MAX && y <= Self::MAX
    }

    /// Creates a new vector, or `None` if it lies outside of the board.
    pub fn new(x: u8, y: u8) -> (r: Option<Vec2>)
        ensures
            r == (if Self::spec_is_valid(x as int, y as int) {
                Some(Vec2 { x, y })
            } else {
                None
            }),
    {
        if !Self::is_valid(x, y) {
            return None;
        }
        Some(Self::new_unchecked(x, y))
    }

    /// Creates a vector from coordinates that the caller knows to be valid.
    #[inline(always)]
    pub fn new_unchecked(x: u8, y: u8) -> (r: Vec2)
        ensures
            r == (Vec2 { x, y }),
    {
        Vec2 { x, y }
    }

    /// The first coordinate.
    #[inline(always)]
    pub fn x(&self) -> (r: u8)
        ensures
            r == self.x,
    {
        self.x
    }

    /// The second coordinate.
    #[inline(always)]
    pub fn y(&self) -> (r: u8)
        ensures
            r == self.y,
    {
        self.y
    }

    /// All tiles of the board, listed by `x`, then by `y`.
    pub fn iter() -> (r: Vec<Vec2>)
        ensures
            r@ == Self::tiles(),
    {
        let mut out: Vec<Vec2> = Vec::new();
        let mut x: u8 = 0;
        while x <= Self::MAX
            invariant
                x <= 11,
                out@.len() == Self::tiles_before_column(x as int),
                forall|i: int| 0 <= i < out@.len() ==> out@[i] == Self::tile_at(i),
            decreases 11 - x,
        {
            // There are two conditions for `y`:
            // 1. `0 <= y <= MAX`
            // 2. `|x - y| <= WIDTH`
            let lower: u8 = x.saturating_sub(Self::WIDTH);
            let upper: u8 = if x + Self::WIDTH < Self::MAX { x + Self::WIDTH } else { Self::MAX };
            let mut y: u8 = lower;
            while y <= upper
                invariant
                    x <= 10,
                    lower == Self::column_start(x as int),
                    upper == Self::column_end(x as int),
                    lower <= y <= upper + 1,
                    out@.len() == Self::tiles_before_column(x as int) + y - lower,
                    forall|i: int| 0 <= i < out@.len() ==> out@[i] == Self::tile_at(i),
                decreases upper + 1 - y,
            {
                out.push(Self::new_unchecked(x, y));
                y += 1;
            }
            x += 1;
        }
        assert(out@ =~= Self::tiles());
        out
    }

    /// The "color" of the tile. Always one of 0, 1 or 2.
    ///
    /// Two touching tiles never have the same index, and bishops only travel
    /// between tiles of the same index.
    pub fn index(&self) -> (r: u8)
        requires
            self.wf(),
        ensures
            r == self.tile_class(),
    {
        (self.x + self.y) % 3
    }

    /// The hexagonal analogue of a row: the sum of the coordinates.
    #[inline]
    pub fn rank(&self) -> (r: u8)
        requires
            self.wf(),
        ensures
            r == self.spec_rank(),
    {
        self.x + self.y
    }

    /// The hexagonal analogue of a column: the difference of the coordinates,
    /// plus 5.
    #[inline]
    pub fn file(&self) -> (r: u8)
        requires
            self.wf(),
        ensures
            r == self.spec_file(),
    {
        // The 5 has to be at the start to avoid an underflow.
        5 + self.y - self.x
    }

    /// The corresponding vector from the other side of the board.
    #[inline]
    pub fn flipped(self) -> (r: Vec2)
        requires
            self.wf(),
        ensures
            r == self.spec_flipped(),
            r.wf(),
    {
        Vec2::new_unchecked(Self::MAX - self.x, Self::MAX - self.y)
    }

    /// Number of tiles with a given rank.
    pub fn rank_width(rank: u8) -> (r: u8)
        requires
            rank <= 20,
        ensures
            r == Self::spec_rank_width(rank as int),
    {
        let from_edge: u8 = if rank < Self::MAX_RANK - rank { rank } else { Self::MAX_RANK - rank };
        let half: u8 = if from_edge / 2 < 2 { from_edge / 2 } else { 2 };
        half * 2 + 1 + rank % 2
    }

    /// The lowest value that the coordinate `y` can have on a given rank.
    pub fn min_valid_rank_coordinate(rank: u8) -> (r: u8)
        requires
            rank <= 20,
        ensures
            r == Self::spec_min_valid_rank_coordinate(rank as int),
    {
        // With `rank = x + y`, `x <= MAX` gives `y >= rank - MAX`, and
        // `x - y <= WIDTH` gives `2y >= rank - WIDTH`.
        let h: u8 = rank.saturating_sub(Self::MAX);
        // The +1 rounds up.
        let w: u8 = (rank + 1).saturating_sub(Self::WIDTH) / 2;
        if h < w { w } else { h }
    }

    /// The smallest number of adjacent tiles one has to traverse in order to
    /// go from `self` to `other`.
    #[inline]
    pub fn distance(self, other: Vec2) -> (r: u8)
        requires
            self.wf(),
            other.wf(),
        ensures
            r == (IVec2::between(self, other)).spec_length(),
    {
        (other - self).length()
    }
}

///////////////////////////////////////////////////////////////////////////////
// Differences
///////////////////////////////////////////////////////////////////////////////

impl IVec2 {
    /// No movement at all.
    pub fn zero() -> (r: IVec2)
        ensures
            r == (IVec2 { x: 0, y: 0 }),
    {
        IVec2 { x: 0, y: 0 }
    }

    /// Whether `(dx, dy)` is the difference of two tiles of the board.
    pub open spec fn spec_is_valid(dx: int, dy: int) -> bool {
        -10 <= dx <= 10 && -10 <= dy <= 10 && -10 <= dx - dy <= 10
    }

    /// Whether the vector is the difference of two tiles of the board.
    pub open spec fn wf(self) -> bool {
        Self::spec_is_valid(self.x as int, self.y as int)
    }

    /// The difference with the given coordinates.
    pub open spec fn at(dx: int, dy: int) -> IVec2 {
        IVec2 { x: dx as i8, y: dy as i8 }
    }

    /// The step that leads from `origin` to `destination`.
    pub open spec fn between(origin: Vec2, destination: Vec2) -> IVec2 {
        IVec2::at(destination.x - origin.x, destination.y - origin.y)
    }

    /// The number of adjacent tiles that the difference spans: when both
    /// coordinates point the same way, the larger of the two; otherwise their
    /// sum.
    pub open spec fn spec_length(self) -> int {
        let ax = spec_abs(self.x as int);
        let ay = spec_abs(self.y as int);
        if (self.x > 0 && self.y > 0) || (self.x < 0 && self.y < 0) {
            if ax > ay { ax } else { ay }
        } else {
            ax + ay
        }
    }

    /// The lowest `dy` among the valid differences with the given `dx`.
    pub open spec fn column_start(dx: int) -> int {
        if dx <= 0 { -10 } else { dx - 10 }
    }

    /// The highest `dy` among the valid differences with the given `dx`.
    pub open spec fn column_end(dx: int) -> int {
        if dx >= 0 { 10 } else { dx + 10 }
    }

    /// Whether `self` comes before `other` when differences are listed by
    /// `x`, then by `y`.
    pub open spec fn precedes(self, other: IVec2) -> bool {
        self.x < other.x || (self.x == other.x && self.y < other.y)
    }

    /// Whether the sequence lists each valid difference once, by `x`, then by
    /// `y`.
    pub open spec fn lists_all(s: Seq<IVec2>) -> bool {
        &&& forall|i: int| 0 <= i < s.len() ==> (#[trigger] s[i]).wf()
        &&& forall|i: int, j: int| 0 <= i < j < s.len() ==> (#[trigger] s[i]).precedes(#[trigger] s[j])
        &&& forall|d: IVec2| d.wf() ==> #[trigger] s.contains(d)
    }

    /// The difference of two tiles is valid.
    pub proof fn lemma_difference_is_valid(origin: Vec2, destination: Vec2)
        requires
            origin.wf(),
            destination.wf(),
        ensures
            Self::between(origin, destination).wf(),
            Self::between(origin, destination).x == destination.x - origin.x,
            Self::between(origin, destination).y == destination.y - origin.y,
    {
    }

    /// A tile from which the valid difference `self` leads to a tile.
    pub open spec fn some_origin(self) -> Vec2 {
        let lean = -((self.x - self.y) / 2);
        let lowest_y = if self.y < 0 { -self.y } else { 0 };
        let lowest_x = if self.x < 0 { -self.x } else { 0 };
        let y = if lowest_y > lowest_x - lean { lowest_y } else { lowest_x - lean };
        Vec2::at(y + lean, y)
    }

    /// Every valid difference is the difference of two tiles.
    pub proof fn lemma_valid_is_difference(self)
        requires
            self.wf(),
        ensures
            self.some_origin().wf(),
            Vec2::spec_is_valid(self.some_origin().x + self.x, self.some_origin().y + self.y),
            Self::between(
                self.some_origin(),
                Vec2::at(self.some_origin().x + self.x, self.some_origin().y + self.y),
            ) == self,
    {
    }

    /// Whether the difference is a stride: not zero, and no multiple of a
    /// shorter difference.
    pub open spec fn is_stride(self) -> bool {
        self != (IVec2 { x: 0, y: 0 }) && movement::spec_get_stride(self).1 == 1
    }

    /// Whether the sequence lists each valid stride once, by `x`, then by
    /// `y`.
    pub open spec fn lists_strides(s: Seq<IVec2>) -> bool {
        &&& forall|i: int| 0 <= i < s.len() ==> (#[trigger] s[i]).wf() && s[i].is_stride()
        &&& forall|i: int, j: int|
            0 <= i < j < s.len() ==> (#[trigger] s[i]).precedes(#[trigger] s[j])
        &&& forall|d: IVec2| d.wf() && d.is_stride() ==> #[trigger] s.contains(d)
    }

    /// All possible strides, that is, the values that the stride of a valid
    /// difference can have, listed by `x`, then by `y`.
    pub fn strides() -> (r: Vec<IVec2>)
        ensures
            Self::lists_strides(r@),
    {
        let deltas = Self::iter();
        let mut out: Vec<IVec2> = Vec::new();
        let mut i: usize = 0;
        while i < deltas.len()
            invariant
                i <= deltas@.len(),
                Self::lists_all(deltas@),
                forall|k: int| 0 <= k < out@.len() ==> (#[trigger] out@[k]).wf() && out@[k].is_stride(),
                forall|k: int, j: int|
                    0 <= k < out@.len() && i <= j < deltas@.len() ==> (#[trigger] out@[k]).precedes(
                        #[trigger] deltas@[j],
                    ),
                forall|k: int, j: int|
                    0 <= k < j < out@.len() ==> (#[trigger] out@[k]).precedes(#[trigger] out@[j]),
                forall|j: int|
                    0 <= j < i && (#[trigger] deltas@[j]).is_stride() ==> out@.contains(deltas@[j]),
            decreases deltas@.len() - i,
        {
            let delta = deltas[i];
            let ghost before = out@;
            if !(delta.x() == 0 && delta.y() == 0) {
                let (stride, length) = movement::get_stride(delta);
                if length == 1 {
                    out.push(stride);
                    proof {
                        assert(stride == delta);
                        assert(out@[before.len() as int] == delta);
                    }
                }
            }
            proof {
                assert forall|j: int|
                    0 <= j < i + 1 && (#[trigger] deltas@[j]).is_stride() implies out@.contains(
                    deltas@[j],
                ) by {
                    if j < i {
                        assert(before.contains(deltas@[j]));
                        let k = choose|k: int| 0 <= k < before.len() && before[k] == deltas@[j];
                        assert(out@[k] == deltas@[j]);
                    } else {
                        assert(out@[before.len() as int] == delta);
                    }
                }
                assert forall|k: int, j: int|
                    0 <= k < out@.len() && i + 1 <= j < deltas@.len() implies (#[trigger] out@[k]).precedes(
                    #[trigger] deltas@[j],
                ) by {
                    if k < before.len() {
                        assert(out@[k] == before[k]);
                    } else {
                        assert(deltas@[i as int].precedes(deltas@[j]));
                    }
                }
            }
            i += 1;
        }
        proof {
            assert forall|d: IVec2| d.wf() && d.is_stride() implies #[trigger] out@.contains(d) by {
                assert(deltas@.contains(d));
                let j = choose|j: int| 0 <= j < deltas@.len() && deltas@[j] == d;
                assert(deltas@[j].is_stride());
            }
        }
        out
    }

    /// Whether these coordinates are the difference of two tiles.
    ///
    /// The conditions are:
    /// - `|dx| <= MAX` and `|dy| <= MAX`
    /// - `|dx - dy| <= 2 * WIDTH`
    pub fn is_valid(dx: i8, dy: i8) -> (r: bool)
        ensures
            r == Self::spec_is_valid(dx as int, dy as int),
    {
        let diff: i16 = dx as i16 - dy as i16;
        -10 <= dx && dx <= 10 && -10 <= dy && dy <= 10 && -10 <= diff && diff <= 10
    }

    /// Creates a difference from coordinates that the caller knows to be
    /// valid.
    #[inline(always)]
    pub fn new_unchecked(x: i8, y: i8) -> (r: IVec2)
        ensures
            r == (IVec2 { x, y }),
    {
        IVec2 { x, y }
    }

    /// The first coordinate.
    #[inline(always)]
    pub fn x(&self) -> (r: i8)
        ensures
            r == self.x,
    {
        self.x
    }

    /// The second coordinate.
    #[inline(always)]
    pub fn y(&self) -> (r: i8)
        ensures
            r == self.y,
    {
        self.y
    }

    /// The smallest number of adjacent tiles one has to traverse in order to
    /// cover the difference.
    pub fn length(&self) -> (r: u8)
        requires
            self.wf(),
        ensures
            r == self.spec_length(),
    {
        // Adjacent moves are (1, 0), (0, 1) or (1, 1) and their opposites.
        // When the coordinates point the same way, the steps along (1, 1)
        // serve both, so the larger coordinate decides. Otherwise no such
        // step helps, and each coordinate is covered on its own.
        let ax: u8 = abs_i8(self.x);
        let ay: u8 = abs_i8(self.y);
        if (self.x > 0 && self.y > 0) || (self.x < 0 && self.y < 0) {
            if ax > ay { ax } else { ay }
        } else {
            ax + ay
        }
    }

    /// All valid differences, listed by `x`, then by `y`.
    pub fn iter() -> (r: Vec<IVec2>)
        ensures
            Self::lists_all(r@),
    {
        let mut out: Vec<IVec2> = Vec::new();
        let mut dx: i8 = -10;
        while dx <= 10
            invariant
                -10 <= dx <= 11,
                forall|i: int| 0 <= i < out@.len() ==> (#[trigger] out@[i]).wf(),
                forall|i: int| 0 <= i < out@.len() ==> (#[trigger] out@[i]).x < dx,
                forall|i: int, j: int|
                    0 <= i < j < out@.len() ==> (#[trigger] out@[i]).precedes(#[trigger] out@[j]),
                forall|d: IVec2| d.wf() && d.x < dx ==> #[trigger] out@.contains(d),
            decreases 11 - dx,
        {
            let lower: i8 = if dx <= 0 { -10 } else { dx - 10 };
            let upper: i8 = if dx >= 0 { 10 } else { dx + 10 };
            let mut dy: i8 = lower;
            while dy <= upper
                invariant
                    -10 <= dx <= 10,
                    lower == Self::column_start(dx as int),
                    upper == Self::column_end(dx as int),
                    lower <= dy <= upper + 1,
                    forall|i: int| 0 <= i < out@.len() ==> (#[trigger] out@[i]).wf(),
                    forall|i: int|
                        0 <= i < out@.len() ==> (#[trigger] out@[i]).precedes(
                            IVec2::at(dx as int, dy as int),
                        ),
                    forall|i: int, j: int|
                        0 <= i < j < out@.len() ==> (#[trigger] out@[i]).precedes(
                            #[trigger] out@[j],
                        ),
                    forall|d: IVec2|
                        d.wf() && d.precedes(IVec2::at(dx as int, dy as int))
                            ==> #[trigger] out@.contains(d),
                decreases upper + 1 - dy,
            {
                let ghost before = out@;
                let item = IVec2::new_unchecked(dx, dy);
                out.push(item);
                proof {
                    assert(out@[before.len() as int] == item);
                    assert forall|d: IVec2|
                        d.wf() && d.precedes(IVec2::at(dx as int, dy + 1)) implies #[trigger] out@.contains(
                        d,
                    ) by {
                        if d == item {
                        } else {
                            assert(d.precedes(item));
                            assert(before.contains(d));
                            let k = choose|k: int| 0 <= k < before.len() && before[k] == d;
                            assert(out@[k] == d);
                        }
                    }
                }
                dy += 1;
            }
            dx += 1;
        }
        out
    }
}

///////////////////////////////////////////////////////////////////////////////
// Arithmetic
///////////////////////////////////////////////////////////////////////////////

impl SubSpecImpl<Vec2> for Vec2 {
    open spec fn obeys_sub_spec() -> bool {
        true
    }

    open spec fn sub_req(self, rhs: Vec2) -> bool {
        self.wf() && rhs.wf()
    }

    open spec fn sub_spec(self, rhs: Vec2) -> IVec2 {
        IVec2::between(rhs, self)
    }
}

impl core::ops::Sub<Vec2> for Vec2 {
    type Output = IVec2;

    /// The step that leads from `rhs` to `self`.
    fn sub(self, rhs: Vec2) -> (r: IVec2) {
        IVec2 { x: self.x as i8 - rhs.x as i8, y: self.y as i8 - rhs.y as i8 }
    }
}

impl AddSpecImpl<IVec2> for Vec2 {
    open spec fn obeys_add_spec() -> bool {
        true
    }

    open spec fn add_req(self, rhs: IVec2) -> bool {
        true
    }

    open spec fn add_spec(self, rhs: IVec2) -> Vec2 {
        Vec2::at(wrap_u8(self.x + rhs.x), wrap_u8(self.y + rhs.y))
    }
}

fn wrapping_offset(a: u8, d: i8) -> (r: u8)
    ensures
        r == wrap_u8(a + d),
{
    let s: i16 = a as i16 + d as i16;
    if s < 0 {
        (s + 256) as u8
    } else if s > 255 {
        (s - 256) as u8
    } else {
        s as u8
    }
}

impl core::ops::Add<IVec2> for Vec2 {
    type Output = Vec2;

    /// The vector that the step `rhs` leads to, each coordinate computed with
    /// wrap-around.
    fn add(self, rhs: IVec2) -> (r: Vec2) {
        Vec2 { x: wrapping_offset(self.x, rhs.x), y: wrapping_offset(self.y, rhs.y) }
    }
}

impl MulSpecImpl<u8> for Vec2 {
    open spec fn obeys_mul_spec() -> bool {
        true
    }

    open spec fn mul_req(self, rhs: u8) -> bool {
        self.x * rhs <= u8::MAX && self.y * rhs <= u8::MAX
    }

    open spec fn mul_spec(self, rhs: u8) -> Vec2 {
        Vec2::at(self.x * rhs, self.y * rhs)
    }
}

impl core::ops::Mul<u8> for Vec2 {
    type Output = Vec2;

    fn mul(self, rhs: u8) -> (r: Vec2) {
        Vec2::new_unchecked(self.x * rhs, self.y * rhs)
    }
}

impl DivSpecImpl<u8> for Vec2 {
    open spec fn obeys_div_spec() -> bool {
        true
    }

    open spec fn div_req(self, rhs: u8) -> bool {
        rhs != 0
    }

    open spec fn div_spec(self, rhs: u8) -> Vec2 {
        Vec2::at(self.x as int / rhs as int, self.y as int / rhs as int)
    }
}

impl core::ops::Div<u8> for Vec2 {
    type Output = Vec2;

    fn div(self, rhs: u8) -> (r: Vec2) {
        Vec2::new_unchecked(self.x / rhs, self.y / rhs)
    }
}

impl MulSpecImpl<i8> for IVec2 {
    open spec fn obeys_mul_spec() -> bool {
        true
    }

    open spec fn mul_req(self, rhs: i8) -> bool {
        i8::MIN <= self.x * rhs <= i8::MAX && i8::MIN <= self.y * rhs <= i8::MAX
    }

    open spec fn mul_spec(self, rhs: i8) -> IVec2 {
        IVec2::at(self.x * rhs, self.y * rhs)
    }
}

impl core::ops::Mul<i8> for IVec2 {
    type Output = IVec2;

    fn mul(self, rhs: i8) -> (r: IVec2) {
        IVec2::new_unchecked(self.x * rhs, self.y * rhs)
    }
}

impl DivSpecImpl<i8> for IVec2 {
    open spec fn obeys_div_spec() -> bool {
        true
    }

    open spec fn div_req(self, rhs: i8) -> bool {
        rhs != 0 && rhs > i8::MIN && self.x > i8::MIN && self.y > i8::MIN
    }

    open spec fn div_spec(self, rhs: i8) -> IVec2 {
        IVec2::at(
            div_towards_zero(self.x as int, rhs as int),
            div_towards_zero(self.y as int, rhs as int),
        )
    }
}

impl core::ops::Div<i8> for IVec2 {
    type Output = IVec2;

    fn div(self, rhs: i8) -> (r: IVec2) {
        IVec2::new_unchecked(div_i8(self.x, rhs), div_i8(self.y, rhs))
    }
}

} // verus!
