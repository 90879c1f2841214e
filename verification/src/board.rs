//! The board: which piece stands on which tile.

pub mod model;

pub use model::{lookup, put, BoardModel};

use crate::coordinate::Vec2;
use crate::diagrams::{spec_hexagons_text, tile_cells, visualize_tiles};
use crate::mov::{Move, MoveMeta};
use crate::piece::{MoveError, Piece};
use crate::sides::Color;
use vstd::prelude::*;

verus! {

/// The pieces that a table of 91 slots holds, by the tile of each slot.
pub open spec fn table_model(slots: Seq<Option<Piece>>) -> Map<Vec2, Piece> {
    Map::new(
        |p: Vec2| p.wf() && slots[Board::spec_index(p)] is Some,
        |p: Vec2| slots[Board::spec_index(p)]->Some_0,
    )
}

/// Writing a slot of a table changes what its tile holds, and nothing else.
proof fn lemma_table_update(slots: Seq<Option<Piece>>, position: Vec2, piece: Option<Piece>)
    requires
        slots.len() == 91,
        position.wf(),
    ensures
        table_model(slots.update(Board::spec_index(position), piece)) == put(
            table_model(slots),
            position,
            piece,
        ),
{
    let i = Board::spec_index(position);
    Board::lemma_index_in_range(position);
    let a = table_model(slots.update(i, piece));
    let b = put(table_model(slots), position, piece);
    assert forall|p: Vec2| #[trigger] a.dom().contains(p) == b.dom().contains(p) by {
        if p.wf() && p != position {
            Board::lemma_index_in_range(p);
            if Board::spec_index(p) == i {
                Board::lemma_index_injective(p, position);
            }
        }
    }
    assert forall|p: Vec2| #[trigger] a.dom().contains(p) implies a[p] == b[p] by {
        if p.wf() && p != position {
            Board::lemma_index_in_range(p);
            if Board::spec_index(p) == i {
                Board::lemma_index_injective(p, position);
            }
        }
    }
    assert(a.dom() =~= b.dom());
    assert(a =~= b);
}

/// How many tiles lie on the ranks below `rank`.
pub open spec fn tiles_before_rank(rank: int) -> int
    decreases rank,
{
    if rank <= 0 {
        0
    } else {
        tiles_before_rank(rank - 1) + Vec2::spec_rank_width(rank - 1)
    }
}

/// The rank of the tile that is stored at `index`.
pub open spec fn rank_of_index(index: int) -> int {
    if index < 1 {
        0
    } else if index < 3 {
        1
    } else if index < 6 {
        2
    } else if index < 10 {
        3
    } else if index < 15 {
        4
    } else if index < 21 {
        5
    } else if index < 26 {
        6
    } else if index < 32 {
        7
    } else if index < 37 {
        8
    } else if index < 43 {
        9
    } else if index < 48 {
        10
    } else if index < 54 {
        11
    } else if index < 59 {
        12
    } else if index < 65 {
        13
    } else if index < 70 {
        14
    } else if index < 76 {
        15
    } else if index < 81 {
        16
    } else if index < 85 {
        17
    } else if index < 88 {
        18
    } else if index < 90 {
        19
    } else {
        20
    }
}

/// The number of tiles below each rank, rank by rank.
pub proof fn lemma_tiles_before_rank()
    ensures
        tiles_before_rank(0) == 0,
        tiles_before_rank(1) == 1,
        tiles_before_rank(2) == 3,
        tiles_before_rank(3) == 6,
        tiles_before_rank(4) == 10,
        tiles_before_rank(5) == 15,
        tiles_before_rank(6) == 21,
        tiles_before_rank(7) == 26,
        tiles_before_rank(8) == 32,
        tiles_before_rank(9) == 37,
        tiles_before_rank(10) == 43,
        tiles_before_rank(11) == 48,
        tiles_before_rank(12) == 54,
        tiles_before_rank(13) == 59,
        tiles_before_rank(14) == 65,
        tiles_before_rank(15) == 70,
        tiles_before_rank(16) == 76,
        tiles_before_rank(17) == 81,
        tiles_before_rank(18) == 85,
        tiles_before_rank(19) == 88,
        tiles_before_rank(20) == 90,
        tiles_before_rank(21) == 91,
{
    reveal_with_fuel(tiles_before_rank, 23);
}

/// A hexagonal chess board.
///
/// The pieces of each color are stored in a table of 91 slots, one per tile,
/// rank by rank.
#[derive(Debug)]
pub struct Board {
    white: [Option<Piece>; 91],
    black: [Option<Piece>; 91],
    last_move: Option<Move>,
}

impl View for Board {
    type V = BoardModel;

    closed spec fn view(&self) -> BoardModel {
        BoardModel {
            white: table_model(self.white@),
            black: table_model(self.black@),
            last_move: self.last_move,
        }
    }
}

impl Default for Board {
    /// The board at the start of a game.
    fn default() -> (r: Board)
        ensures
            r@ == BoardModel::initial(),
    {
        let mut output = Board::empty();
        let config = Piece::initial_configuration();
        let mut i: usize = 0;
        while i < config.len()
            invariant
                i <= config@.len(),
                config@ == Piece::spec_initial_configuration(),
                output@ == BoardModel::placed(config@, i as int),
            decreases config@.len() - i,
        {
            let (piece, position, color) = config[i];
            proof {
                Piece::lemma_initial_configuration_is_on_board(i as int);
            }
            output.set(position, color, Some(piece));
            i += 1;
        }
        output
    }
}

impl Clone for Board {
    fn clone(&self) -> (r: Board)
        ensures
            r@ == self@,
    {
        Board { white: self.white, black: self.black, last_move: self.last_move }
    }
}

impl Board {
    /// The maximum absolute value difference that a set of coordinates can
    /// have.
    pub const SIZE: u8 = 5;

    /// The total number of tiles.
    pub const NUMBER_OF_TILES: u8 = 91;

    /// The total number of files.
    pub const NUMBER_OF_FILES: u8 = 11;

    /// The total number of ranks that a file crosses.
    pub const NUMBER_OF_RANKS: u8 = 11;

    /// The slot of the position in a table: the tiles of the lower ranks come
    /// first, and within a rank the tiles with the lower `y`.
    pub open spec fn spec_index(position: Vec2) -> int {
        tiles_before_rank(position.spec_rank()) + position.y
            - Vec2::spec_min_valid_rank_coordinate(position.spec_rank())
    }

    /// The position that is stored in the given slot.
    pub open spec fn spec_index_to_vec(index: int) -> Vec2 {
        let rank = rank_of_index(index);
        let y = index - tiles_before_rank(rank) + Vec2::spec_min_valid_rank_coordinate(rank);
        Vec2::at(rank - y, y)
    }

    /// Every tile has a slot below 91.
    pub proof fn lemma_index_in_range(position: Vec2)
        requires
            position.wf(),
        ensures
            0 <= Self::spec_index(position) < 91,
    {
        lemma_tiles_before_rank();
    }

    /// The slot of a tile leads back to the tile.
    pub proof fn lemma_vec_to_index_to_vec(position: Vec2)
        requires
            position.wf(),
        ensures
            Self::spec_index_to_vec(Self::spec_index(position)) == position,
    {
        lemma_tiles_before_rank();
    }

    /// Every slot below 91 holds a tile, and that tile leads back to the
    /// slot.
    pub proof fn lemma_index_to_vec_to_index(index: int)
        requires
            0 <= index < 91,
        ensures
            Self::spec_index_to_vec(index).wf(),
            Self::spec_index(Self::spec_index_to_vec(index)) == index,
    {
        lemma_tiles_before_rank();
    }

    /// Two different tiles never share a slot.
    pub proof fn lemma_index_injective(a: Vec2, b: Vec2)
        requires
            a.wf(),
            b.wf(),
            Self::spec_index(a) == Self::spec_index(b),
        ensures
            a == b,
    {
        Self::lemma_vec_to_index_to_vec(a);
        Self::lemma_vec_to_index_to_vec(b);
    }

    /// Creates a new board with the minimal number of pieces, that is, two
    /// kings.
    pub fn new_minimal(white_king_position: Vec2, black_king_position: Vec2) -> (r: Board)
        requires
            white_king_position.wf(),
            black_king_position.wf(),
        ensures
            r@ == (BoardModel {
                white: Map::empty().insert(white_king_position, Piece::King),
                black: Map::empty().insert(black_king_position, Piece::King),
                last_move: None,
            }),
    {
        let mut output = Board::empty();
        output.set(white_king_position, Color::White, Some(Piece::King));
        output.set(black_king_position, Color::Black, Some(Piece::King));
        output
    }

    /// Gets the piece at the specified position, if it's white.
    #[inline]
    pub fn get_white(&self, position: Vec2) -> (r: Option<Piece>)
        requires
            position.wf(),
        ensures
            r == self@.get(position, Color::White),
    {
        self.white[Board::index(position)]
    }

    /// Gets the piece at the specified position, if it's black.
    #[inline]
    pub fn get_black(&self, position: Vec2) -> (r: Option<Piece>)
        requires
            position.wf(),
        ensures
            r == self@.get(position, Color::Black),
    {
        self.black[Board::index(position)]
    }

    /// Gets the piece at the specified position, if it's of the given color.
    #[inline]
    pub fn get(&self, position: Vec2, color: Color) -> (r: Option<Piece>)
        requires
            position.wf(),
        ensures
            r == self@.get(position, color),
    {
        match color {
            Color::White => self.get_white(position),
            Color::Black => self.get_black(position),
        }
    }

    /// Gets a mutable reference to the piece at the specified position, if
    /// it's of the given color.
    #[inline]
    pub fn get_mut(&mut self, position: Vec2, color: Color) -> (r: &mut Option<Piece>)
        requires
            position.wf(),
        ensures
            *r == old(self)@.get(position, color),
            final(self)@.table(color) == put(old(self)@.table(color), position, *final(r)),
            final(self)@.table(color.spec_other()) == old(self)@.table(color.spec_other()),
            final(self)@.last_move == old(self)@.last_move,
    {
        let i: usize = Board::index(position);
        proof {
            assert forall|piece: Option<Piece>|
                table_model(#[trigger] self.white@.update(i as int, piece)) == put(
                    table_model(self.white@),
                    position,
                    piece,
                ) by {
                lemma_table_update(self.white@, position, piece);
            }
            assert forall|piece: Option<Piece>|
                table_model(#[trigger] self.black@.update(i as int, piece)) == put(
                    table_model(self.black@),
                    position,
                    piece,
                ) by {
                lemma_table_update(self.black@, position, piece);
            }
        }
        match color {
            Color::White => &mut self.white[i],
            Color::Black => &mut self.black[i],
        }
    }

    /// Gets the piece with its color at the specified position.
    #[inline]
    pub fn get_either(&self, position: Vec2) -> (r: Option<(Piece, Color)>)
        requires
            position.wf(),
        ensures
            r == self@.get_either(position),
    {
        match self.get_white(position) {
            Some(piece) => Some((piece, Color::White)),
            None => match self.get_black(position) {
                Some(piece) => Some((piece, Color::Black)),
                None => None,
            },
        }
    }

    /// A board with nothing on it.
    fn empty() -> (r: Board)
        ensures
            r@ == BoardModel::empty(),
    {
        let nothing: Option<Piece> = None;
        let output = Board { white: [nothing; 91], black: [nothing; 91], last_move: None };
        proof {
            let filled = vstd::array::spec_array_fill_for_copy_type::<Option<Piece>, 91>(nothing);
            assert forall|p: Vec2| !(#[trigger] table_model(output.white@).dom().contains(p)) by {
                if p.wf() {
                    Self::lemma_index_in_range(p);
                    assert(filled@[Self::spec_index(p)] == nothing);
                }
            }
            assert forall|p: Vec2| !(#[trigger] table_model(output.black@).dom().contains(p)) by {
                if p.wf() {
                    Self::lemma_index_in_range(p);
                    assert(filled@[Self::spec_index(p)] == nothing);
                }
            }
            assert(table_model(output.white@) =~= Map::empty());
            assert(table_model(output.black@) =~= Map::empty());
        }
        output
    }

    /// Adds to `out` the legal move of `color` from `origin` to
    /// `destination`, if there is one.
    fn collect_move(&self, origin: Vec2, destination: Vec2, color: Color, out: &mut Vec<Move>)
        requires
            origin.wf(),
            destination.wf(),
            self@.has_king(color),
            self@.spares(origin, destination, color),
        ensures
            final(out)@ == (match self@.get_move(origin, destination, color) {
                Ok((mov, _)) => old(out)@.push(mov),
                Err(_) => old(out)@,
            }),
    {
        if let Ok((mov, _)) = self.get_move(origin, destination, color) {
            out.push(mov);
        }
    }

    /// Adds to the moves before the pair of the `i`-th origin and the `j`-th
    /// destination the legal move of the pair, if there is one.
    fn collect_pair(&self, tiles: &Vec<Vec2>, i: usize, j: usize, color: Color, out: &mut Vec<Move>)
        requires
            i < 91,
            j < 91,
            tiles@ == Vec2::tiles(),
            self@.playable(color),
            old(out)@ == self@.moves_before(color, i * 91 + j),
        ensures
            final(out)@ == self@.moves_before(color, i * 91 + j + 1),
    {
        let origin = tiles[i];
        let destination = tiles[j];
        proof {
            Vec2::lemma_tiles(i as int);
            Vec2::lemma_tiles(j as int);
            assert(self@.spares(origin, destination, color));
            self@.lemma_moves_step(color, i as int, j as int);
        }
        self.collect_move(origin, destination, color, out);
    }

    /// Writes what the tile holds of the given color.
    fn set(&mut self, position: Vec2, color: Color, piece: Option<Piece>)
        requires
            position.wf(),
        ensures
            final(self)@.table(color) == put(old(self)@.table(color), position, piece),
            final(self)@.table(color.spec_other()) == old(self)@.table(color.spec_other()),
            final(self)@.last_move == old(self)@.last_move,
    {
        let i: usize = Board::index(position);
        proof {
            lemma_table_update(self.white@, position, piece);
            lemma_table_update(self.black@, position, piece);
        }
        match color {
            Color::White => {
                self.white[i] = piece;
            },
            Color::Black => {
                self.black[i] = piece;
            },
        }
    }

    /// Makes the specified move. Doesn't check for any legality, and may
    /// leave the board in an inconsistent state.
    ///
    /// Returns the captured piece, if any.
    ///
    /// This method is for a move that was obtained from an enumeration of
    /// moves, or that [`Self::check_move`] has accepted. To apply a move
    /// that was not checked, see [`Self::apply_move`].
    pub fn apply_move_unchecked(&mut self, mov: Move, color: Color) -> (r: Option<Piece>)
        requires
            mov is Regular,
            mov.spec_origin().wf(),
            mov.spec_destination().wf(),
            mov->Regular_captures ==> old(self)@.get(mov.spec_destination(), color.spec_other())
                is Some,
        ensures
            final(self)@ == old(self)@.after(mov, color),
            r == (if mov->Regular_captures {
                old(self)@.get(mov.spec_destination(), color.spec_other())
            } else {
                None
            }),
    {
        let origin = mov.origin();
        let destination = mov.destination();
        let captures: bool = match mov {
            Move::Regular { captures, .. } => captures,
            _ => false,
        };
        let capture = if captures {
            let taken = self.get(destination, color.other());
            self.set(destination, color.other(), None);
            taken
        } else {
            None
        };
        let moving = self.get(origin, color);
        let displaced = self.get(destination, color);
        self.set(origin, color, displaced);
        self.set(destination, color, moving);
        self.last_move = Some(mov);
        proof {
            let expected = old(self)@.after(mov, color);
            assert(self@.white == expected.white);
            assert(self@.black == expected.black);
        }
        capture
    }

    /// Returns the position of the king of the given color.
    pub fn find_king(&self, color: Color) -> (r: Vec2)
        requires
            self@.has_king(color),
        ensures
            r == self@.find_king(color),
            r.wf(),
            self@.get(r, color) == Some(Piece::King),
    {
        let mut index: usize = 0;
        proof {
            let p = choose|p: Vec2| p.wf() && #[trigger] self@.get(p, color) == Some(Piece::King);
            Self::lemma_index_in_range(p);
            Self::lemma_vec_to_index_to_vec(p);
        }
        loop
            invariant
                index <= 90,
                self@.find_king(color) == self@.king_from(color, index as int),
                exists|k: int|
                    index <= k < 91 && self@.get(#[trigger] Self::spec_index_to_vec(k), color)
                        == Some(Piece::King),
            decreases 91 - index,
        {
            let position = Self::index_to_vec(index);
            if let Some(Piece::King) = self.get(position, color) {
                return position;
            }
            index += 1;
        }
    }

    /// Verifies whether the king of the given color could be captured next
    /// move.
    ///
    /// If it could, returns a move that would capture the king.
    pub fn in_check(&self, color: Color) -> (r: Option<Move>)
        requires
            self@.has_king(color),
        ensures
            r == self@.in_check(color),
    {
        let king_position = self.find_king(color);
        let tiles = Vec2::iter();
        let mut i: usize = 0;
        while i < tiles.len()
            invariant
                i <= 91,
                tiles@ == Vec2::tiles(),
                king_position.wf(),
                king_position == self@.find_king(color),
                self@.in_check(color) == self@.first_attack(
                    king_position,
                    color.spec_other(),
                    i as int,
                ),
            decreases 91 - i,
        {
            let origin = tiles[i];
            proof {
                Vec2::lemma_tiles(i as int);
            }
            if let Some(piece) = self.get(origin, color.other()) {
                if let Ok((mov, _)) = piece.get_move_no_checks(
                    origin,
                    king_position,
                    self,
                    color.other(),
                ) {
                    return Some(mov);
                }
            }
            i += 1;
        }
        None
    }

    /// Gets the move from `origin` to `destination`, if it is legal.
    ///
    /// Most of it is delegated to [`Piece::get_move`].
    pub fn get_move(&self, origin: Vec2, destination: Vec2, color: Color) -> (r: Result<
        (Move, MoveMeta),
        MoveError,
    >)
        requires
            origin.wf(),
            destination.wf(),
            self@.has_king(color),
            self@.spares(origin, destination, color),
        ensures
            r == self@.get_move(origin, destination, color),
    {
        let (piece, board_piece_color) = match self.get_either(origin) {
            Some(found) => found,
            None => {
                return Err(MoveError::PieceNotPresent { position: origin });
            },
        };
        if board_piece_color != color {
            return Err(MoveError::NotYourPiece { position: origin, color: board_piece_color });
        }
        piece.get_move(origin, destination, self, color)
    }

    /// Enumerates all pieces of the given color, without their positions.
    ///
    /// See also [`Self::piece_positions`].
    pub fn pieces(&self, color: Color) -> (r: Vec<Piece>)
        ensures
            r@ == self@.pieces(color),
    {
        let pairs = self.piece_positions(color);
        let mut out: Vec<Piece> = Vec::new();
        let mut i: usize = 0;
        while i < pairs.len()
            invariant
                i <= pairs@.len(),
                pairs@ == self@.piece_positions(color),
                out@.len() == i,
                forall|k: int| 0 <= k < i ==> out@[k] == pairs@[k].1,
            decreases pairs@.len() - i,
        {
            out.push(pairs[i].1);
            i += 1;
        }
        assert(out@ =~= self@.pieces(color));
        out
    }

    /// Enumerates all `(position, piece)` pairs of the given color.
    ///
    /// See also [`Self::all_piece_positions`] and [`Self::pieces`].
    pub fn piece_positions(&self, color: Color) -> (r: Vec<(Vec2, Piece)>)
        ensures
            r@ == self@.piece_positions(color),
    {
        let mut out: Vec<(Vec2, Piece)> = Vec::new();
        let mut i: usize = 0;
        while i < 91
            invariant
                i <= 91,
                out@ == self@.piece_positions_below(color, i as int),
            decreases 91 - i,
        {
            let position = Board::index_to_vec(i);
            if let Some(piece) = self.get(position, color) {
                out.push((position, piece));
            }
            i += 1;
        }
        out
    }

    /// Enumerates the positions of all pieces as a `(position, piece,
    /// color)` triplet.
    ///
    /// See also [`Self::piece_positions`].
    pub fn all_piece_positions(&self) -> (r: Vec<(Vec2, Piece, Color)>)
        ensures
            r@ == self@.all_piece_positions(),
    {
        let white = self.piece_positions(Color::White);
        let black = self.piece_positions(Color::Black);
        let mut out: Vec<(Vec2, Piece, Color)> = Vec::new();
        let mut i: usize = 0;
        while i < white.len()
            invariant
                i <= white@.len(),
                out@.len() == i,
                forall|k: int|
                    0 <= k < i ==> out@[k] == (white@[k].0, white@[k].1, Color::White),
            decreases white@.len() - i,
        {
            let (position, piece) = white[i];
            out.push((position, piece, Color::White));
            i += 1;
        }
        let mut j: usize = 0;
        while j < black.len()
            invariant
                j <= black@.len(),
                out@.len() == white@.len() + j,
                forall|k: int|
                    0 <= k < white@.len() ==> out@[k] == (white@[k].0, white@[k].1, Color::White),
                forall|k: int|
                    0 <= k < j ==> out@[white@.len() + k] == (
                        black@[k].0,
                        black@[k].1,
                        Color::Black,
                    ),
            decreases black@.len() - j,
        {
            let (position, piece) = black[j];
            out.push((position, piece, Color::Black));
            j += 1;
        }
        assert(out@ =~= self@.all_piece_positions());
        out
    }

    /// Verifies whether the given move is legal or not.
    pub fn check_move(&self, mov: Move, color: Color) -> (r: Result<(), MoveError>)
        requires
            mov is Regular,
            mov.spec_origin().wf(),
            mov.spec_destination().wf(),
            self@.has_king(color),
            self@.spares(mov.spec_origin(), mov.spec_destination(), color),
        ensures
            r == (match self@.get_move(mov.spec_origin(), mov.spec_destination(), color) {
                Ok(_) => Ok(()),
                Err(e) => Err(e),
            }),
    {
        match self.get_move(mov.origin(), mov.destination(), color) {
            Ok(_) => Ok(()),
            Err(e) => Err(e),
        }
    }

    /// Applies the given move, if the movement between its two tiles is
    /// legal.
    ///
    /// See also [`Self::apply_move_unchecked`] to skip verifying if the move
    /// is legal if it is known to be from construction (i.e., from
    /// [`Self::possible_moves`]).
    pub fn apply_move(&mut self, mov: Move, color: Color) -> (r: Result<Option<Piece>, MoveError>)
        requires
            mov is Regular,
            mov.spec_origin().wf(),
            mov.spec_destination().wf(),
            old(self)@.has_king(color),
            old(self)@.spares(mov.spec_origin(), mov.spec_destination(), color),
            old(self)@.get_move(mov.spec_origin(), mov.spec_destination(), color) is Ok
                && mov->Regular_captures ==> old(self)@.get(
                mov.spec_destination(),
                color.spec_other(),
            ) is Some,
        ensures
            match old(self)@.get_move(mov.spec_origin(), mov.spec_destination(), color) {
                Ok(_) => final(self)@ == old(self)@.after(mov, color) && r == Ok::<
                    Option<Piece>,
                    MoveError,
                >(
                    if mov->Regular_captures {
                        old(self)@.get(mov.spec_destination(), color.spec_other())
                    } else {
                        None
                    },
                ),
                Err(e) => final(self)@ == old(self)@ && r == Err::<Option<Piece>, MoveError>(e),
            },
    {
        if let Err(e) = self.check_move(mov, color) {
            return Err(e);
        }
        Ok(self.apply_move_unchecked(mov, color))
    }

    /// Tries to apply a move from `origin` to `destination`.
    pub fn try_move(&mut self, origin: Vec2, destination: Vec2, color: Color) -> (r: Result<
        (),
        MoveError,
    >)
        requires
            origin.wf(),
            destination.wf(),
            old(self)@.has_king(color),
            old(self)@.spares(origin, destination, color),
        ensures
            match old(self)@.get_move(origin, destination, color) {
                Ok((mov, _)) => final(self)@ == old(self)@.after(mov, color) && r == Ok::<
                    (),
                    MoveError,
                >(()),
                Err(e) => final(self)@ == old(self)@ && r == Err::<(), MoveError>(e),
            },
    {
        let (mov, meta) = match self.get_move(origin, destination, color) {
            Ok(found) => found,
            Err(e) => {
                return Err(e);
            },
        };
        proof {
            let piece = self@.get(origin, color).unwrap();
            piece.lemma_movement_is_regular(origin, destination, self@, color);
        }
        self.apply_move_unchecked(mov, meta.color);
        Ok(())
    }

    /// All legal moves in the current position that the player of the given
    /// color can do, by origin, then by destination.
    pub fn possible_moves(&self, color: Color) -> (r: Vec<Move>)
        requires
            self@.playable(color),
        ensures
            r@ == self@.possible_moves(color),
    {
        let tiles = Vec2::iter();
        let mut out: Vec<Move> = Vec::new();
        proof {
            self@.lemma_moves_start(color);
        }
        let mut i: usize = 0;
        while i < 91
            invariant
                i <= 91,
                tiles@ == Vec2::tiles(),
                self@.playable(color),
                out@ == self@.moves_before(color, i * 91),
            decreases 91 - i,
        {
            let mut j: usize = 0;
            while j < 91
                invariant
                    i < 91,
                    j <= 91,
                    tiles@ == Vec2::tiles(),
                    self@.playable(color),
                    out@ == self@.moves_before(color, i * 91 + j),
                decreases 91 - j,
            {
                self.collect_pair(&tiles, i, j, color, &mut out);
                j += 1;
            }
            i += 1;
        }
        out
    }

    /// The sum of the [`Piece::value`]s of the pieces of the given color.
    pub fn total_piece_value(&self, color: Color) -> (r: u16)
        ensures
            r == self@.total_piece_value(color),
    {
        let mut total: u16 = 0;
        let mut i: usize = 0;
        while i < 91
            invariant
                i <= 91,
                total == self@.piece_value_below(color, i as int),
                total <= 9 * i,
            decreases 91 - i,
        {
            let position = Board::index_to_vec(i);
            let worth: u16 = match self.get(position, color) {
                Some(piece) => match piece.value() {
                    Some(value) => value as u16,
                    None => 0,
                },
                None => 0,
            };
            total += worth;
            i += 1;
        }
        total
    }

    /// The diagram of the board, as text: a hexagon for each tile, with the
    /// figurine of the piece that stands on it.
    pub fn render(&self) -> (text: String)
        ensures
            text@ == spec_hexagons_text(tile_cells(self@.glyphs())),
    {
        let tiles = Vec2::iter();
        let mut glyphs: Vec<char> = Vec::new();
        let mut i: usize = 0;
        while i < 91
            invariant
                i <= 91,
                tiles@ == Vec2::tiles(),
                glyphs@.len() == i,
                forall|k: int| 0 <= k < i ==> glyphs@[k] == self@.glyphs()[k],
            decreases 91 - i,
        {
            proof {
                Vec2::lemma_tiles(i as int);
            }
            let glyph: char = match self.get_either(tiles[i]) {
                Some((piece, color)) => piece.emoji(color),
                None => ' ',
            };
            glyphs.push(glyph);
            i += 1;
        }
        assert(glyphs@ =~= self@.glyphs());
        visualize_tiles(&glyphs)
    }

    /// Whether the board meets the standing invariant of a game: each
    /// color has exactly one king, and no tile holds a piece of both
    /// colors.
    pub fn is_consistent(&self) -> (r: bool)
        ensures
            r == self@.wf(),
    {
        let mut white_kings: u8 = 0;
        let mut black_kings: u8 = 0;
        let ghost mut white_king = Vec2 { x: 0, y: 0 };
        let ghost mut black_king = Vec2 { x: 0, y: 0 };
        let mut i: usize = 0;
        while i < 91
            invariant
                i <= 91,
                white_kings <= 1,
                black_kings <= 1,
                forall|k: int|
                    0 <= k < i ==> !(self@.white.dom().contains(#[trigger] Self::spec_index_to_vec(k))
                        && self@.black.dom().contains(Self::spec_index_to_vec(k))),
                forall|k: int|
                    0 <= k < i && self@.get(#[trigger] Self::spec_index_to_vec(k), Color::White)
                        == Some(Piece::King) ==> white_kings == 1 && white_king
                        == Self::spec_index_to_vec(k),
                forall|k: int|
                    0 <= k < i && self@.get(#[trigger] Self::spec_index_to_vec(k), Color::Black)
                        == Some(Piece::King) ==> black_kings == 1 && black_king
                        == Self::spec_index_to_vec(k),
                white_kings == 1 ==> white_king.wf() && self@.get(white_king, Color::White) == Some(
                    Piece::King,
                ) && Self::spec_index(white_king) < i,
                black_kings == 1 ==> black_king.wf() && self@.get(black_king, Color::Black) == Some(
                    Piece::King,
                ) && Self::spec_index(black_king) < i,
            decreases 91 - i,
        {
            let position = Self::index_to_vec(i);
            let white = self.get_white(position);
            let black = self.get_black(position);
            if white.is_some() && black.is_some() {
                return false;
            }
            if let Some(Piece::King) = white {
                if white_kings == 1 {
                    proof {
                        assert(self@.get(white_king, Color::White) == Some(Piece::King));
                        assert(self@.get(position, Color::White) == Some(Piece::King));
                        assert(white_king != position);
                        assert(!self@.one_king(Color::White));
                    }
                    return false;
                }
                white_kings = 1;
                proof {
                    white_king = position;
                }
            }
            if let Some(Piece::King) = black {
                if black_kings == 1 {
                    proof {
                        assert(self@.get(black_king, Color::Black) == Some(Piece::King));
                        assert(self@.get(position, Color::Black) == Some(Piece::King));
                        assert(black_king != position);
                        assert(!self@.one_king(Color::Black));
                    }
                    return false;
                }
                black_kings = 1;
                proof {
                    black_king = position;
                }
            }
            i += 1;
        }
        proof {
            assert forall|p: Vec2| !(self@.white.dom().contains(p) && self@.black.dom().contains(
                p,
            )) by {
                if p.wf() {
                    Self::lemma_index_in_range(p);
                    Self::lemma_vec_to_index_to_vec(p);
                }
            }
            assert forall|p: Vec2|
                self@.get(p, Color::White) == Some(Piece::King) implies white_kings == 1 && p
                == white_king by {
                Self::lemma_index_in_range(p);
                Self::lemma_vec_to_index_to_vec(p);
            }
            assert forall|p: Vec2|
                self@.get(p, Color::Black) == Some(Piece::King) implies black_kings == 1 && p
                == black_king by {
                Self::lemma_index_in_range(p);
                Self::lemma_vec_to_index_to_vec(p);
            }
        }
        white_kings == 1 && black_kings == 1
    }

    /// Whether the given color can be asked for its moves: the board meets
    /// the standing invariant, and the king of the opponent is not in
    /// check.
    pub fn can_play(&self, color: Color) -> (r: bool)
        ensures
            r == (self@.wf() && self@.in_check(color.spec_other()) is None),
            r ==> self@.playable(color),
    {
        if !self.is_consistent() {
            return false;
        }
        let safe = self.in_check(color.other()).is_none();
        proof {
            if safe {
                self@.lemma_playable(color);
            }
        }
        safe
    }

    /// The last move that was applied to the board, if any.
    pub fn last_move(&self) -> (r: Option<Move>)
        ensures
            r == self@.last_move,
    {
        self.last_move
    }

    /// Returns the index where the position is stored in the tables.
    ///
    /// See also [`Self::index_to_vec`].
    pub fn index(position: Vec2) -> (r: usize)
        requires
            position.wf(),
        ensures
            r == Self::spec_index(position),
            r < 91,
    {
        let rank: u8 = position.rank();
        let mut tiles_before: u8 = 0;
        let mut below: u8 = 0;
        while below < rank
            invariant
                below <= rank <= 20,
                tiles_before == tiles_before_rank(below as int),
                tiles_before <= 90,
            decreases rank - below,
        {
            proof {
                lemma_tiles_before_rank();
            }
            tiles_before += Vec2::rank_width(below);
            below += 1;
        }
        proof {
            lemma_tiles_before_rank();
        }
        // Tiles on the same rank are told apart by `y`, counted from the
        // first valid `y` of the rank.
        let first_valid_y: u8 = Vec2::min_valid_rank_coordinate(rank);
        let index_on_rank: u8 = position.y() - first_valid_y;
        (tiles_before + index_on_rank) as usize
    }

    /// Returns the position that is stored at the given index.
    ///
    /// See also [`Self::index`].
    pub fn index_to_vec(index: usize) -> (r: Vec2)
        requires
            index < 91,
        ensures
            r == Self::spec_index_to_vec(index as int),
            r.wf(),
            Self::spec_index(r) == index,
    {
        let target: u8 = index as u8;
        let mut rank: u8 = 0;
        let mut tiles_before: u8 = 0;
        proof {
            lemma_tiles_before_rank();
        }
        while tiles_before + Vec2::rank_width(rank) <= target
            invariant
                target < 91,
                rank <= 20,
                tiles_before == tiles_before_rank(rank as int),
                tiles_before <= target,
            decreases 20 - rank,
        {
            proof {
                lemma_tiles_before_rank();
            }
            tiles_before += Vec2::rank_width(rank);
            rank += 1;
        }
        proof {
            lemma_tiles_before_rank();
            Self::lemma_index_to_vec_to_index(index as int);
        }
        let rank_position: u8 = target - tiles_before;
        let y: u8 = rank_position + Vec2::min_valid_rank_coordinate(rank);
        // `rank == x + y`, so:
        let x: u8 = rank - y;
        Vec2::new_unchecked(x, y)
    }
}

} // verus!
