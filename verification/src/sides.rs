//! The two players, and the two wings of the board.

use crate::coordinate::IVec2;
use std::cmp::Ordering;
use vstd::prelude::*;

verus! {

/// One of the two players.
#[derive(Debug, Clone, Copy, PartialEq, Eq, Structural, Hash)]
pub enum Color {
    White,
    Black,
}

impl Color {
    /// Picks `white` or `black` according to the color.
    #[inline]
    pub fn pick<T>(self, white: T, black: T) -> (r: T)
        ensures
            r == (if self == Color::White { white } else { black }),
    {
        match self {
            Color::White => white,
            Color::Black => black,
        }
    }

    /// The direction in which the color's pawns advance.
    pub open spec fn spec_direction(self) -> i8 {
        if self == Color::White { 1i8 } else { -1i8 }
    }

    /// The direction towards the center from the given color: `1` for white,
    /// `-1` for black.
    #[inline]
    #[verifier::when_used_as_spec(spec_direction)]
    pub fn direction(self) -> (r: i8)
        ensures
            r == self.spec_direction(),
    {
        match self {
            Color::White => 1,
            Color::Black => -1,
        }
    }

    /// The opponent of the color.
    pub open spec fn spec_other(self) -> Color {
        if self == Color::White { Color::Black } else { Color::White }
    }

    /// The opponent of the color.
    #[inline]
    #[verifier::when_used_as_spec(spec_other)]
    pub fn other(self) -> (r: Color)
        ensures
            r == self.spec_other(),
    {
        match self {
            Color::White => Color::Black,
            Color::Black => Color::White,
        }
    }

    /// Compares whether `a` is closer to the color's side than `b`: for
    /// white the order of `a` and `b`, for black the order of `b` and `a`.
    #[inline]
    pub fn compare_towards(&self, a: u8, b: u8) -> (r: Ordering)
        ensures
            r is Equal <==> a == b,
            r is Less <==> (if *self == Color::White { a < b } else { b < a }),
            r is Greater <==> (if *self == Color::White { a > b } else { b > a }),
    {
        let (first, second) = match self {
            Color::White => (a, b),
            Color::Black => (b, a),
        };
        if first < second {
            Ordering::Less
        } else if first == second {
            Ordering::Equal
        } else {
            Ordering::Greater
        }
    }
}

/// One of the two wings of the board, named after the piece that starts on
/// it.
#[derive(Debug, Clone, Copy, PartialEq, Eq, Structural, Hash)]
pub enum Side {
    King,
    Queen,
}

impl Side {
    /// Picks `king` or `queen` according to the side.
    #[inline]
    pub fn pick<T>(self, king: T, queen: T) -> (r: T)
        ensures
            r == (if self == Side::King { king } else { queen }),
    {
        match self {
            Side::King => king,
            Side::Queen => queen,
        }
    }

    /// `1` for the king's side, `-1` for the queen's.
    pub fn direction(self) -> (r: i8)
        ensures
            r == (if self == Side::King { 1i8 } else { -1i8 }),
    {
        match self {
            Side::King => 1,
            Side::Queen => -1,
        }
    }

    /// The opposite wing.
    pub fn other(self) -> (r: Side)
        ensures
            r == (if self == Side::King { Side::Queen } else { Side::King }),
    {
        match self {
            Side::King => Side::Queen,
            Side::Queen => Side::King,
        }
    }

    /// The step of size `step_size` towards the given side: along `x`
    /// towards the queen's side when stepping forwards and towards the
    /// king's side when stepping backwards, along `y` otherwise.
    pub fn step_towards(&self, step_size: i8) -> (r: IVec2)
        ensures
            r == (if (*self == Side::Queen) != (step_size < 0) {
                IVec2 { x: step_size, y: 0 }
            } else {
                IVec2 { x: 0, y: step_size }
            }),
    {
        let queen: bool = match self {
            Side::Queen => true,
            Side::King => false,
        };
        let x_axis: bool = queen != (step_size < 0);
        if x_axis {
            IVec2::new_unchecked(step_size, 0)
        } else {
            IVec2::new_unchecked(0, step_size)
        }
    }
}

} // verus!
