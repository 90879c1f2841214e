//! Actors of the game, and how each of them moves.

pub mod bishop;
pub mod king;
pub mod knight;
pub mod movement;
pub mod pawn;
pub mod queen;
pub mod rook;

use crate::board::{Board, BoardModel};
use crate::coordinate::Vec2;
use crate::mov::{Move, MoveMeta};
use crate::sides::Color;
use vstd::prelude::*;

verus! {

/// A piece.
#[derive(Debug, Clone, Copy, PartialEq, Eq, Structural, Hash)]
pub enum Piece {
    Pawn,
    Knight,
    Bishop,
    Rook,
    Queen,
    King,
}

/// Why a move cannot be made.
#[derive(Debug, Clone, Copy, PartialEq, Eq, Structural)]
pub enum MoveError {
    /// There is no piece to move at the position.
    PieceNotPresent { position: Vec2 },
    /// The piece at the position is of the given color, which is not the
    /// mover's.
    NotYourPiece { position: Vec2, color: Color },
    /// The origin and the destination can't be the same tile.
    NullMovement,
    /// The piece is a pawn, and pawns do not move so.
    Pawn(pawn::MoveError),
    /// The piece is a bishop, and bishops do not move so.
    Bishop(bishop::MoveError),
    /// The piece is a knight, and knights do not move so.
    Knight(knight::MoveError),
    /// The piece is a rook, and rooks do not move so.
    Rook(rook::MoveError),
    /// The piece is a queen, and queens do not move so.
    Queen(queen::MoveError),
    /// The piece is a king, and kings do not move so.
    King(king::MoveError),
    /// The move leaves the mover's king unprotected: the opponent could
    /// capture it by the given move.
    KingIsUnprotected { capturing_move: Move },
}

/// The tiles of `tiles`, each with `piece` as the piece that stands on it.
pub open spec fn tagged(piece: Piece, tiles: Seq<(Vec2, Color)>) -> Seq<(Piece, Vec2, Color)> {
    Seq::new(tiles.len(), |i: int| (piece, tiles[i].0, tiles[i].1))
}

/// Adds the given tiles to the list, each with `piece` as the piece that
/// stands on it.
fn append_tagged(out: &mut Vec<(Piece, Vec2, Color)>, piece: Piece, tiles: Vec<(Vec2, Color)>)
    ensures
        final(out)@ == old(out)@ + tagged(piece, tiles@),
{
    let mut i: usize = 0;
    while i < tiles.len()
        invariant
            i <= tiles@.len(),
            out@ == old(out)@ + tagged(piece, tiles@).take(i as int),
        decreases tiles@.len() - i,
    {
        let (position, color) = tiles[i];
        out.push((piece, position, color));
        assert(out@ =~= old(out)@ + tagged(piece, tiles@).take(i + 1));
        i += 1;
    }
    assert(tagged(piece, tiles@).take(i as int) =~= tagged(piece, tiles@));
}

impl Piece {
    /// Where each piece stands at the start of the game: the pawns, the
    /// knights, the bishops, the rooks, the queens and the kings, of each
    /// kind white's first. Each color has one king, one queen, two rooks,
    /// two bishops, two knights and nine pawns, and black's stand across the
    /// board from white's.
    pub open spec fn spec_initial_configuration() -> Seq<(Piece, Vec2, Color)> {
        tagged(Piece::Pawn, pawn::spec_initial_configuration()) + tagged(
            Piece::Knight,
            knight::spec_initial_configuration(),
        ) + tagged(Piece::Bishop, bishop::spec_initial_configuration()) + tagged(
            Piece::Rook,
            rook::spec_initial_configuration(),
        ) + tagged(Piece::Queen, queen::spec_initial_configuration()) + tagged(
            Piece::King,
            king::spec_initial_configuration(),
        )
    }

    /// At the start of the game 34 pieces stand on the board, each on a
    /// tile of it.
    pub proof fn lemma_initial_configuration_is_on_board(i: int)
        requires
            0 <= i < Self::spec_initial_configuration().len(),
        ensures
            Self::spec_initial_configuration().len() == 34,
            Self::spec_initial_configuration()[i].1.wf(),
    {
        Self::lemma_initial_configuration_entries();
    }

    /// The 34 entries of the initial configuration, one by one.
    pub proof fn lemma_initial_configuration_entries()
        ensures
            Self::spec_initial_configuration().len() == 34,
            Self::spec_initial_configuration() =~= seq![
                (Piece::Pawn, Vec2 { x: 4, y: 0 }, Color::White),
                (Piece::Pawn, Vec2 { x: 4, y: 1 }, Color::White),
                (Piece::Pawn, Vec2 { x: 4, y: 2 }, Color::White),
                (Piece::Pawn, Vec2 { x: 4, y: 3 }, Color::White),
                (Piece::Pawn, Vec2 { x: 4, y: 4 }, Color::White),
                (Piece::Pawn, Vec2 { x: 3, y: 4 }, Color::White),
                (Piece::Pawn, Vec2 { x: 2, y: 4 }, Color::White),
                (Piece::Pawn, Vec2 { x: 1, y: 4 }, Color::White),
                (Piece::Pawn, Vec2 { x: 0, y: 4 }, Color::White),
                (Piece::Pawn, Vec2 { x: 6, y: 10 }, Color::Black),
                (Piece::Pawn, Vec2 { x: 6, y: 9 }, Color::Black),
                (Piece::Pawn, Vec2 { x: 6, y: 8 }, Color::Black),
                (Piece::Pawn, Vec2 { x: 6, y: 7 }, Color::Black),
                (Piece::Pawn, Vec2 { x: 6, y: 6 }, Color::Black),
                (Piece::Pawn, Vec2 { x: 7, y: 6 }, Color::Black),
                (Piece::Pawn, Vec2 { x: 8, y: 6 }, Color::Black),
                (Piece::Pawn, Vec2 { x: 9, y: 6 }, Color::Black),
                (Piece::Pawn, Vec2 { x: 10, y: 6 }, Color::Black),
                (Piece::Knight, Vec2 { x: 0, y: 2 }, Color::White),
                (Piece::Knight, Vec2 { x: 2, y: 0 }, Color::White),
                (Piece::Knight, Vec2 { x: 8, y: 10 }, Color::Black),
                (Piece::Knight, Vec2 { x: 10, y: 8 }, Color::Black),
                (Piece::Bishop, Vec2 { x: 0, y: 0 }, Color::White),
                (Piece::Bishop, Vec2 { x: 1, y: 1 }, Color::White),
                (Piece::Bishop, Vec2 { x: 10, y: 10 }, Color::Black),
                (Piece::Bishop, Vec2 { x: 9, y: 9 }, Color::Black),
                (Piece::Rook, Vec2 { x: 0, y: 3 }, Color::White),
                (Piece::Rook, Vec2 { x: 3, y: 0 }, Color::White),
                (Piece::Rook, Vec2 { x: 7, y: 10 }, Color::Black),
                (Piece::Rook, Vec2 { x: 10, y: 7 }, Color::Black),
                (Piece::Queen, Vec2 { x: 1, y: 0 }, Color::White),
                (Piece::Queen, Vec2 { x: 9, y: 10 }, Color::Black),
                (Piece::King, Vec2 { x: 0, y: 1 }, Color::White),
                (Piece::King, Vec2 { x: 10, y: 9 }, Color::Black),
            ],
    {
        let pawns = tagged(Piece::Pawn, pawn::spec_initial_configuration());
        let knights = tagged(Piece::Knight, knight::spec_initial_configuration());
        let bishops = tagged(Piece::Bishop, bishop::spec_initial_configuration());
        let rooks = tagged(Piece::Rook, rook::spec_initial_configuration());
        let queens = tagged(Piece::Queen, queen::spec_initial_configuration());
        let kings = tagged(Piece::King, king::spec_initial_configuration());
        assert(pawns.len() == 18);
        assert(knights.len() == 4);
        assert(bishops.len() == 4);
        assert(rooks.len() == 4);
        assert(queens.len() == 2);
        assert(kings.len() == 2);
    }

    /// The place of the entry that faces the `i`-th entry of the initial
    /// configuration across the board.
    pub open spec fn facing_entry(i: int) -> int {
        if i < 9 {
            i + 9
        } else if i < 18 {
            i - 9
        } else if i < 22 {
            39 - i
        } else if i < 24 {
            i + 2
        } else if i < 26 {
            i - 2
        } else if i < 30 {
            55 - i
        } else if i < 32 {
            61 - i
        } else {
            65 - i
        }
    }

    /// At the start of the game the two sides mirror each other: each piece
    /// on a tile has a piece of its kind and of the other color on the tile
    /// across the board. So black's pieces are white's, tile by flipped tile,
    /// and there are no others.
    pub proof fn lemma_initial_configuration_is_mirrored(i: int)
        requires
            0 <= i < 34,
        ensures
            0 <= Self::facing_entry(i) < 34,
            Self::facing_entry(Self::facing_entry(i)) == i,
            Self::spec_initial_configuration()[Self::facing_entry(i)] == (
                Self::spec_initial_configuration()[i].0,
                Self::spec_initial_configuration()[i].1.spec_flipped(),
                Self::spec_initial_configuration()[i].2.spec_other(),
            ),
    {
        Self::lemma_initial_configuration_entries();
    }

    /// At the start of the game no two pieces stand on the same tile.
    pub proof fn lemma_initial_positions_are_distinct(i: int, j: int)
        requires
            0 <= i < j < 34,
        ensures
            Self::spec_initial_configuration()[i].1 != Self::spec_initial_configuration()[j].1,
    {
        Self::lemma_initial_configuration_entries();
    }

    /// How many of the first `n` entries of `config` are pieces of the kind
    /// and the color.
    pub open spec fn count_in(
        config: Seq<(Piece, Vec2, Color)>,
        piece: Piece,
        color: Color,
        n: int,
    ) -> int
        decreases n,
    {
        if n <= 0 {
            0
        } else {
            Self::count_in(config, piece, color, n - 1) + (if config[n - 1].0 == piece
                && config[n - 1].2 == color {
                1int
            } else {
                0int
            })
        }
    }

    /// How many pieces of a kind each color has at the start of the game.
    pub open spec fn initial_count(piece: Piece) -> int {
        match piece {
            Piece::King => 1,
            Piece::Queen => 1,
            Piece::Rook => 2,
            Piece::Bishop => 2,
            Piece::Knight => 2,
            Piece::Pawn => 9,
        }
    }

    /// Counting goes entry by entry.
    proof fn lemma_count_step(
        config: Seq<(Piece, Vec2, Color)>,
        piece: Piece,
        color: Color,
        n: int,
        entry: (Piece, Vec2, Color),
    )
        requires
            n >= 1,
            config[n - 1] == entry,
        ensures
            Self::count_in(config, piece, color, n) == Self::count_in(config, piece, color, n - 1)
                + (if entry.0 == piece && entry.2 == color {
                1int
            } else {
                0int
            }),
    {
    }

    /// Among the first `n` entries of a sequence in which the entries from
    /// `from` on are all of one kind and one color, the pieces of a kind and
    /// a color are those before `from`, and the `n - from` others if they
    /// are of that kind and color.
    proof fn lemma_count_block(
        config: Seq<(Piece, Vec2, Color)>,
        piece: Piece,
        color: Color,
        from: int,
        n: int,
        kind: Piece,
        side: Color,
    )
        requires
            0 <= from <= n <= config.len(),
            forall|i: int| from <= i < n ==> (#[trigger] config[i]).0 == kind && config[i].2 == side,
        ensures
            Self::count_in(config, piece, color, n) == Self::count_in(config, piece, color, from)
                + (if kind == piece && side == color {
                n - from
            } else {
                0int
            }),
        decreases n - from,
    {
        if n > from {
            Self::lemma_count_block(config, piece, color, from, n - 1, kind, side);
            Self::lemma_count_step(config, piece, color, n, config[n - 1]);
        }
    }

    /// How many pieces of a kind and a color the initial configuration
    /// holds.
    proof fn lemma_count_by_blocks(piece: Piece, color: Color)
        ensures
            Self::count_in(Self::spec_initial_configuration(), piece, color, 34)
                == Self::initial_count(piece),
    {
        let config = Self::spec_initial_configuration();
        Self::lemma_initial_configuration_entries();
        Self::lemma_count_block(config, piece, color, 0, 9, Piece::Pawn, Color::White);
        Self::lemma_count_block(config, piece, color, 9, 18, Piece::Pawn, Color::Black);
        Self::lemma_count_block(config, piece, color, 18, 20, Piece::Knight, Color::White);
        Self::lemma_count_block(config, piece, color, 20, 22, Piece::Knight, Color::Black);
        Self::lemma_count_block(config, piece, color, 22, 24, Piece::Bishop, Color::White);
        Self::lemma_count_block(config, piece, color, 24, 26, Piece::Bishop, Color::Black);
        Self::lemma_count_block(config, piece, color, 26, 28, Piece::Rook, Color::White);
        Self::lemma_count_block(config, piece, color, 28, 30, Piece::Rook, Color::Black);
        Self::lemma_count_block(config, piece, color, 30, 31, Piece::Queen, Color::White);
        Self::lemma_count_block(config, piece, color, 31, 32, Piece::Queen, Color::Black);
        Self::lemma_count_block(config, piece, color, 32, 33, Piece::King, Color::White);
        Self::lemma_count_block(config, piece, color, 33, 34, Piece::King, Color::Black);
    }

    /// At the start of the game each color has one king, one queen, two
    /// rooks, two bishops, two knights and nine pawns.
    pub proof fn lemma_initial_counts(color: Color)
        ensures
            Self::count_in(Self::spec_initial_configuration(), Piece::King, color, 34) == 1,
            Self::count_in(Self::spec_initial_configuration(), Piece::Queen, color, 34) == 1,
            Self::count_in(Self::spec_initial_configuration(), Piece::Rook, color, 34) == 2,
            Self::count_in(Self::spec_initial_configuration(), Piece::Bishop, color, 34) == 2,
            Self::count_in(Self::spec_initial_configuration(), Piece::Knight, color, 34) == 2,
            Self::count_in(Self::spec_initial_configuration(), Piece::Pawn, color, 34) == 9,
    {
        Self::lemma_count_by_blocks(Piece::King, color);
        Self::lemma_count_by_blocks(Piece::Queen, color);
        Self::lemma_count_by_blocks(Piece::Rook, color);
        Self::lemma_count_by_blocks(Piece::Bishop, color);
        Self::lemma_count_by_blocks(Piece::Knight, color);
        Self::lemma_count_by_blocks(Piece::Pawn, color);
    }

    /// Where each piece stands at the start of the game.
    pub fn initial_configuration() -> (r: Vec<(Piece, Vec2, Color)>)
        ensures
            r@ == Self::spec_initial_configuration(),
    {
        let mut out: Vec<(Piece, Vec2, Color)> = Vec::new();
        append_tagged(&mut out, Piece::Pawn, pawn::initial_configuration());
        append_tagged(&mut out, Piece::Knight, knight::initial_configuration());
        append_tagged(&mut out, Piece::Bishop, bishop::initial_configuration());
        append_tagged(&mut out, Piece::Rook, rook::initial_configuration());
        append_tagged(&mut out, Piece::Queen, queen::initial_configuration());
        append_tagged(&mut out, Piece::King, king::initial_configuration());
        assert(out@ =~= Self::spec_initial_configuration());
        out
    }

    /// The movement of the piece from `origin` to `destination`, by the rule
    /// of its kind alone: whether the move would expose the mover's king is
    /// not looked at.
    pub open spec fn spec_get_move_no_checks(
        self,
        origin: Vec2,
        destination: Vec2,
        board: BoardModel,
        color: Color,
    ) -> Result<(Move, MoveMeta), MoveError> {
        if origin == destination {
            Err(MoveError::NullMovement)
        } else {
            let meta = MoveMeta { color };
            match self {
                Piece::Pawn => match pawn::spec_get_move(origin, destination, board, color) {
                    Ok(mov) => Ok((mov, meta)),
                    Err(e) => Err(MoveError::Pawn(e)),
                },
                Piece::Bishop => match bishop::spec_get_move(origin, destination, board, color) {
                    Ok(mov) => Ok((mov, meta)),
                    Err(e) => Err(MoveError::Bishop(e)),
                },
                Piece::Knight => match knight::spec_get_move(origin, destination, board, color) {
                    Ok(mov) => Ok((mov, meta)),
                    Err(e) => Err(MoveError::Knight(e)),
                },
                Piece::Rook => match rook::spec_get_move(origin, destination, board, color) {
                    Ok(mov) => Ok((mov, meta)),
                    Err(e) => Err(MoveError::Rook(e)),
                },
                Piece::Queen => match queen::spec_get_move(origin, destination, board, color) {
                    Ok(mov) => Ok((mov, meta)),
                    Err(e) => Err(MoveError::Queen(e)),
                },
                Piece::King => match king::spec_get_move(origin, destination, board, color) {
                    Ok(mov) => Ok((mov, meta)),
                    Err(e) => Err(MoveError::King(e)),
                },
            }
        }
    }

    /// The legal move of the piece from `origin` to `destination`: the
    /// movement by the rule of its kind, rejected if after it the opponent
    /// could capture the mover's king.
    pub open spec fn spec_get_move(
        self,
        origin: Vec2,
        destination: Vec2,
        board: BoardModel,
        color: Color,
    ) -> Result<(Move, MoveMeta), MoveError> {
        match self.spec_get_move_no_checks(origin, destination, board, color) {
            Err(e) => Err(e),
            Ok((mov, meta)) => match board.after(mov, color).in_check(color) {
                Some(capturing_move) => Err(MoveError::KingIsUnprotected { capturing_move }),
                None => Ok((mov, meta)),
            },
        }
    }

    /// A movement that the rule of a piece accepts is a regular move between
    /// the two tiles, and it captures exactly where an opposing piece
    /// stands.
    pub proof fn lemma_movement_is_regular(
        self,
        origin: Vec2,
        destination: Vec2,
        board: BoardModel,
        color: Color,
    )
        requires
            self.spec_get_move_no_checks(origin, destination, board, color) is Ok,
        ensures
            origin != destination,
            self.spec_get_move_no_checks(origin, destination, board, color).unwrap().1 == (MoveMeta {
                color,
            }),
            self.spec_get_move_no_checks(origin, destination, board, color).unwrap().0 is Regular,
            self.spec_get_move_no_checks(origin, destination, board, color).unwrap().0.spec_origin()
                == origin,
            self.spec_get_move_no_checks(
                origin,
                destination,
                board,
                color,
            ).unwrap().0.spec_destination() == destination,
            self.spec_get_move_no_checks(
                origin,
                destination,
                board,
                color,
            ).unwrap().0->Regular_captures <==> board.get(destination, color.spec_other()) is Some,
    {
    }

    /// No piece but a pawn that captures moves onto a tile that holds a piece
    /// of its own color; a pawn captures only where an opposing piece stands.
    pub proof fn lemma_no_self_capture(
        self,
        origin: Vec2,
        destination: Vec2,
        board: BoardModel,
        color: Color,
    )
        requires
            self.spec_get_move_no_checks(origin, destination, board, color) is Ok,
            board.no_overlap(),
        ensures
            board.get(destination, color) is None,
    {
        assert(!(board.white.dom().contains(destination) && board.black.dom().contains(
            destination,
        )));
    }

    /// Gets the move from `origin` to `destination`, if it is legal, assuming
    /// the given piece is at `origin`.
    ///
    /// The movement itself is judged by the rule of the piece. It is then
    /// tried on a copy of the board, and refused if it leaves the king of
    /// the mover where the opponent could capture it.
    pub fn get_move(&self, origin: Vec2, destination: Vec2, board: &Board, color: Color) -> (r:
        Result<(Move, MoveMeta), MoveError>)
        requires
            origin.wf(),
            destination.wf(),
            board@.get(origin, color) == Some(*self),
            board@.has_king(color),
            board@.spares(origin, destination, color),
        ensures
            r == self.spec_get_move(origin, destination, board@, color),
    {
        let (mov, meta) = match self.get_move_no_checks(origin, destination, board, color) {
            Ok(found) => found,
            Err(e) => {
                return Err(e);
            },
        };
        proof {
            self.lemma_movement_is_regular(origin, destination, board@, color);
            board@.lemma_after_keeps_king(origin, destination, mov->Regular_captures, color);
        }
        let mut test_board = board.clone();
        test_board.apply_move_unchecked(mov, color);

        if let Some(capturing_move) = test_board.in_check(color) {
            return Err(MoveError::KingIsUnprotected { capturing_move });
        }
        Ok((mov, meta))
    }

    /// The legal moves of the piece from `origin` to the first `n` tiles,
    /// the tiles taken by `x`, then by `y`.
    pub open spec fn legal_moves_before(
        self,
        origin: Vec2,
        board: BoardModel,
        color: Color,
        n: int,
    ) -> Seq<(Move, MoveMeta)>
        decreases n,
    {
        if n <= 0 {
            Seq::empty()
        } else {
            let rest = self.legal_moves_before(origin, board, color, n - 1);
            match self.spec_get_move(origin, Vec2::tile_at(n - 1), board, color) {
                Ok(found) => rest.push(found),
                Err(_) => rest,
            }
        }
    }

    /// All legal moves of the piece of `color` that stands on `origin`, by
    /// destination.
    pub fn enumerate_legal_moves(&self, origin: Vec2, board: &Board, color: Color) -> (r: Vec<
        (Move, MoveMeta),
    >)
        requires
            origin.wf(),
            board@.get(origin, color) == Some(*self),
            board@.playable(color),
        ensures
            r@ == self.legal_moves_before(origin, board@, color, 91),
    {
        let tiles = Vec2::iter();
        let mut out: Vec<(Move, MoveMeta)> = Vec::new();
        let mut i: usize = 0;
        while i < 91
            invariant
                i <= 91,
                origin.wf(),
                tiles@ == Vec2::tiles(),
                board@.get(origin, color) == Some(*self),
                board@.playable(color),
                out@ == self.legal_moves_before(origin, board@, color, i as int),
            decreases 91 - i,
        {
            let destination = tiles[i];
            proof {
                Vec2::lemma_tiles(i as int);
                assert(board@.spares(origin, destination, color));
            }
            if let Ok(found) = self.get_move(origin, destination, board, color) {
                out.push(found);
            }
            i += 1;
        }
        out
    }

    /// Gets the move from `origin` to `destination` if it is legal, except
    /// for verifying whether it leaves the king in check.
    pub fn get_move_no_checks(
        self,
        origin: Vec2,
        destination: Vec2,
        board: &Board,
        color: Color,
    ) -> (r: Result<(Move, MoveMeta), MoveError>)
        requires
            origin.wf(),
            destination.wf(),
            board@.get(origin, color) == Some(self),
        ensures
            r == self.spec_get_move_no_checks(origin, destination, board@, color),
    {
        if origin == destination {
            return Err(MoveError::NullMovement);
        }
        let mov = match self {
            Piece::Pawn => match pawn::get_move(origin, destination, board, color) {
                Ok(mov) => mov,
                Err(e) => {
                    return Err(MoveError::Pawn(e));
                },
            },
            Piece::Bishop => match bishop::get_move(origin, destination, board, color) {
                Ok(mov) => mov,
                Err(e) => {
                    return Err(MoveError::Bishop(e));
                },
            },
            Piece::Knight => match knight::get_move(origin, destination, board, color) {
                Ok(mov) => mov,
                Err(e) => {
                    return Err(MoveError::Knight(e));
                },
            },
            Piece::Rook => match rook::get_move(origin, destination, board, color) {
                Ok(mov) => mov,
                Err(e) => {
                    return Err(MoveError::Rook(e));
                },
            },
            Piece::Queen => match queen::get_move(origin, destination, board, color) {
                Ok(mov) => mov,
                Err(e) => {
                    return Err(MoveError::Queen(e));
                },
            },
            Piece::King => match king::get_move(origin, destination, board, color) {
                Ok(mov) => mov,
                Err(e) => {
                    return Err(MoveError::King(e));
                },
            },
        };
        let meta = MoveMeta { color };

        Ok((mov, meta))
    }

    /// The material worth of the piece; the king has none.
    pub open spec fn spec_value(self) -> Option<u8> {
        match self {
            Piece::Pawn => Some(1u8),
            Piece::Knight => Some(3u8),
            Piece::Bishop => Some(3u8),
            Piece::Rook => Some(5u8),
            Piece::Queen => Some(9u8),
            Piece::King => None,
        }
    }

    /// The figurine that stands for the piece in the given color.
    pub open spec fn spec_emoji(self, color: Color) -> char {
        match (color, self) {
            (Color::White, Piece::Pawn) => '♟',
            (Color::White, Piece::Knight) => '♞',
            (Color::White, Piece::Bishop) => '♝',
            (Color::White, Piece::Rook) => '♜',
            (Color::White, Piece::Queen) => '♛',
            (Color::White, Piece::King) => '♚',
            (Color::Black, Piece::Pawn) => '♙',
            (Color::Black, Piece::Knight) => '♘',
            (Color::Black, Piece::Bishop) => '♗',
            (Color::Black, Piece::Rook) => '♖',
            (Color::Black, Piece::Queen) => '♕',
            (Color::Black, Piece::King) => '♔',
        }
    }

    /// The name of the piece, in lower case.
    #[must_use]
    pub fn name(self) -> (r: &'static str)
        ensures
            r@ == (match self {
                Piece::Pawn => "pawn"@,
                Piece::Knight => "knight"@,
                Piece::Bishop => "bishop"@,
                Piece::Rook => "rook"@,
                Piece::Queen => "queen"@,
                Piece::King => "king"@,
            }),
    {
        match self {
            Piece::Pawn => "pawn",
            Piece::Knight => "knight",
            Piece::Bishop => "bishop",
            Piece::Rook => "rook",
            Piece::Queen => "queen",
            Piece::King => "king",
        }
    }

    /// The letter that stands for the piece in notation.
    #[must_use]
    pub fn representing_letter(self) -> (r: char)
        ensures
            r == (match self {
                Piece::Pawn => 'P',
                Piece::Knight => 'N',
                Piece::Bishop => 'B',
                Piece::Rook => 'R',
                Piece::Queen => 'Q',
                Piece::King => 'K',
            }),
    {
        match self {
            Piece::Pawn => 'P',
            Piece::Knight => 'N',
            Piece::Bishop => 'B',
            Piece::Rook => 'R',
            Piece::Queen => 'Q',
            Piece::King => 'K',
        }
    }

    /// The numeric value of the piece.
    ///
    /// - Pawns are 1
    /// - Knights and bishops are 3
    /// - Rooks are 5
    /// - The queen is 9
    /// - The king is invaluable: `None`
    #[must_use]
    #[verifier::when_used_as_spec(spec_value)]
    pub fn value(self) -> (r: Option<u8>)
        ensures
            r == self.spec_value(),
    {
        match self {
            Piece::Pawn => Some(1),
            Piece::Knight | Piece::Bishop => Some(3),
            Piece::Rook => Some(5),
            Piece::Queen => Some(9),
            Piece::King => None,
        }
    }

    /// The figurine that stands for the piece in the given color.
    #[must_use]
    #[verifier::when_used_as_spec(spec_emoji)]
    pub fn emoji(self, color: Color) -> (r: char)
        ensures
            r == self.spec_emoji(color),
    {
        color.pick(
            match self {
                Piece::Pawn => '♟',
                Piece::Knight => '♞',
                Piece::Bishop => '♝',
                Piece::Rook => '♜',
                Piece::Queen => '♛',
                Piece::King => '♚',
            },
            match self {
                Piece::Pawn => '♙',
                Piece::Knight => '♘',
                Piece::Bishop => '♗',
                Piece::Rook => '♖',
                Piece::Queen => '♕',
                Piece::King => '♔',
            },
        )
    }
}

} // verus!
