//! Moves.

use crate::coordinate::Vec2;
use crate::piece::Piece;
use crate::sides::{Color, Side};
use vstd::prelude::*;

verus! {

/// Movements of pieces, with optional captures.
#[allow(inconsistent_fields)]
#[derive(Debug, Copy, Clone, PartialEq, Eq, Structural, Hash)]
pub enum Move {
    /// Usual kind of move, where a piece moves from a tile to another tile,
    /// optionally capturing the piece in the destination tile. There are no
    /// other side-effects.
    Regular {
        /// Where the piece was at the start.
        origin: Vec2,
        /// Where the piece is at the end.
        destination: Vec2,
        /// Whether the move captures a piece.
        captures: bool,
    },
    /// A capture of a pawn in passing, next to a pawn that has just advanced
    /// two tiles. The file is between 1 and 9.
    EnPassant {
        /// The file on which the pawn started.
        file: u8,
        /// The side it captured towards.
        direction: Side,
    },
    /// A pawn has reached the opposite end of the board, and is converted to
    /// a new piece, which is neither a pawn nor a king.
    Promotion {
        /// The file on which the pawn started.
        file: u8,
        /// If the promotion captured a piece, to which side.
        captures: Option<Side>,
        /// Piece that the pawn gets promoted to.
        promoting_to: Piece,
    },
}

impl Move {
    /// The tile where the piece was at before the move.
    pub open spec fn spec_origin(self) -> Vec2 {
        self->Regular_origin
    }

    /// The tile where the piece went to after the move.
    pub open spec fn spec_destination(self) -> Vec2 {
        self->Regular_destination
    }

    /// The tile where the piece was at before a regular move.
    #[verifier::when_used_as_spec(spec_origin)]
    pub fn origin(self) -> (r: Vec2)
        requires
            self is Regular,
        ensures
            r == self.spec_origin(),
    {
        match self {
            Move::Regular { origin, .. } => origin,
            _ => Vec2::zero(),
        }
    }

    /// The tile where the piece went to after a regular move.
    #[verifier::when_used_as_spec(spec_destination)]
    pub fn destination(self) -> (r: Vec2)
        requires
            self is Regular,
        ensures
            r == self.spec_destination(),
    {
        match self {
            Move::Regular { destination, .. } => destination,
            _ => Vec2::zero(),
        }
    }
}

/// What is known of a move beside the move itself.
#[derive(Debug, Copy, Clone, PartialEq, Eq, Structural)]
pub struct MoveMeta {
    /// The color of the player that moves.
    pub color: Color,
}

} // verus!
