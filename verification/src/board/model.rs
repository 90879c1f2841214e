//! What a board holds, as a mathematical value, and what holds of it.

use crate::board::Board;
use crate::coordinate::{IVec2, Vec2};
use crate::mov::{Move, MoveMeta};
use crate::piece::{movement, rook, MoveError, Piece};
use crate::sides::Color;
use vstd::prelude::*;

verus! {

/// What a board holds: for each color the pieces by the tile they stand on,
/// and the last move that was played.
pub struct BoardModel {
    pub white: Map<Vec2, Piece>,
    pub black: Map<Vec2, Piece>,
    pub last_move: Option<Move>,
}

/// The map `m`, with `position` holding `piece`, or nothing where `piece` is
/// `None`.
pub open spec fn put(m: Map<Vec2, Piece>, position: Vec2, piece: Option<Piece>) -> Map<
    Vec2,
    Piece,
> {
    match piece {
        Some(p) => m.insert(position, p),
        None => m.remove(position),
    }
}

/// The piece that `m` holds at `position`, if any.
pub open spec fn lookup(m: Map<Vec2, Piece>, position: Vec2) -> Option<Piece> {
    if m.dom().contains(position) {
        Some(m[position])
    } else {
        None
    }
}

impl BoardModel {
    /// The pieces of one color.
    pub open spec fn table(self, color: Color) -> Map<Vec2, Piece> {
        if color == Color::White {
            self.white
        } else {
            self.black
        }
    }

    /// The piece of the given color at the position, if there is one.
    pub open spec fn get(self, position: Vec2, color: Color) -> Option<Piece> {
        lookup(self.table(color), position)
    }

    /// The piece at the position with its color, white taking precedence.
    pub open spec fn get_either(self, position: Vec2) -> Option<(Piece, Color)> {
        match self.get(position, Color::White) {
            Some(piece) => Some((piece, Color::White)),
            None => match self.get(position, Color::Black) {
                Some(piece) => Some((piece, Color::Black)),
                None => None,
            },
        }
    }

    /// Whether no tile holds a piece of both colors.
    pub open spec fn no_overlap(self) -> bool {
        forall|p: Vec2| !(self.white.dom().contains(p) && self.black.dom().contains(p))
    }

    /// Whether the color has a king on the board.
    pub open spec fn has_king(self, color: Color) -> bool {
        exists|p: Vec2| p.wf() && #[trigger] self.get(p, color) == Some(Piece::King)
    }

    /// Whether the color has exactly one king on the board.
    pub open spec fn one_king(self, color: Color) -> bool {
        &&& self.has_king(color)
        &&& forall|p: Vec2, q: Vec2|
            #[trigger] self.get(p, color) == Some(Piece::King) && #[trigger] self.get(q, color)
                == Some(Piece::King) ==> p == q
    }

    /// The standing invariant of a game: one king per color, and no tile
    /// with a piece of both colors.
    pub open spec fn wf(self) -> bool {
        &&& self.one_king(Color::White)
        &&& self.one_king(Color::Black)
        &&& self.no_overlap()
    }

    /// The board after the pieces of `color` at `origin` and `destination`
    /// changed places, once the opposing piece at `destination` was taken
    /// away if `captures` says so.
    pub open spec fn after_regular(
        self,
        origin: Vec2,
        destination: Vec2,
        captures: bool,
        color: Color,
    ) -> BoardModel {
        let own = self.table(color);
        let theirs = self.table(color.spec_other());
        let own_after = put(
            put(own, origin, lookup(own, destination)),
            destination,
            lookup(own, origin),
        );
        let theirs_after = if captures {
            theirs.remove(destination)
        } else {
            theirs
        };
        let last_move = Some(Move::Regular { origin, destination, captures });
        if color == Color::White {
            BoardModel { white: own_after, black: theirs_after, last_move }
        } else {
            BoardModel { white: theirs_after, black: own_after, last_move }
        }
    }

    /// The tile of the king of the color that is stored first, looking from
    /// the slot `from` on.
    pub open spec fn king_from(self, color: Color, from: int) -> Vec2
        decreases 91 - from,
    {
        if from >= 91 {
            Board::spec_index_to_vec(90)
        } else if self.get(Board::spec_index_to_vec(from), color) == Some(Piece::King) {
            Board::spec_index_to_vec(from)
        } else {
            self.king_from(color, from + 1)
        }
    }

    /// The tile of the king of the color: of several kings, the one that is
    /// stored first.
    pub open spec fn find_king(self, color: Color) -> Vec2 {
        self.king_from(color, 0)
    }

    /// The movement by which the piece of `color` at `origin`, if there is
    /// one, reaches `target` by the rule of its kind.
    pub open spec fn attack(self, origin: Vec2, target: Vec2, color: Color) -> Option<Move> {
        match self.get(origin, color) {
            Some(piece) => match piece.spec_get_move_no_checks(origin, target, self, color) {
                Ok((mov, _)) => Some(mov),
                Err(_) => None,
            },
            None => None,
        }
    }

    /// The first movement by which a piece of `color` reaches `target`, the
    /// tiles taken by `x`, then by `y`, from the place `from` on.
    pub open spec fn first_attack(self, target: Vec2, color: Color, from: int) -> Option<Move>
        decreases 91 - from,
    {
        if from >= 91 {
            None
        } else {
            match self.attack(Vec2::tile_at(from), target, color) {
                Some(mov) => Some(mov),
                None => self.first_attack(target, color, from + 1),
            }
        }
    }

    /// A move by which the opponent of `color` could capture the king of
    /// `color`, if there is one: the first, the opponent's pieces taken by
    /// `x`, then by `y`.
    pub open spec fn in_check(self, color: Color) -> Option<Move> {
        self.first_attack(self.find_king(color), color.spec_other(), 0)
    }

    /// Whether the movement from `origin` to `destination`, if the rule of
    /// the piece of `color` at `origin` accepts it, lands on no piece of its
    /// own color and does not capture the opposing king.
    pub open spec fn spares(self, origin: Vec2, destination: Vec2, color: Color) -> bool {
        match self.get(origin, color) {
            Some(piece) => piece.spec_get_move_no_checks(origin, destination, self, color) is Ok
                ==> self.get(destination, color) is None && self.get(
                destination,
                color.spec_other(),
            ) != Some(Piece::King),
            None => true,
        }
    }

    /// Whether `color` can be asked for its moves: it has a king, and none
    /// of its movements lands on its own piece or captures the opposing
    /// king.
    pub open spec fn playable(self, color: Color) -> bool {
        &&& self.has_king(color)
        &&& forall|origin: Vec2, destination: Vec2|
            origin.wf() && destination.wf() ==> #[trigger] self.spares(origin, destination, color)
    }

    /// The legal move of `color` from `origin` to `destination`.
    pub open spec fn get_move(self, origin: Vec2, destination: Vec2, color: Color) -> Result<
        (Move, MoveMeta),
        MoveError,
    > {
        match self.get_either(origin) {
            None => Err(MoveError::PieceNotPresent { position: origin }),
            Some((piece, piece_color)) => if piece_color != color {
                Err(MoveError::NotYourPiece { position: origin, color: piece_color })
            } else {
                piece.spec_get_move(origin, destination, self, color)
            },
        }
    }

    /// From a slot that has a king of the color at or behind it, the search
    /// for the king ends on a tile that holds one.
    pub proof fn lemma_king_from(self, color: Color, from: int, at: int)
        requires
            0 <= from <= at < 91,
            self.get(Board::spec_index_to_vec(at), color) == Some(Piece::King),
        ensures
            self.king_from(color, from).wf(),
            self.get(self.king_from(color, from), color) == Some(Piece::King),
        decreases 91 - from,
    {
        Board::lemma_index_to_vec_to_index(from);
        if self.get(Board::spec_index_to_vec(from), color) != Some(Piece::King) {
            self.lemma_king_from(color, from + 1, at);
        }
    }

    /// Where a color has a king, the king's tile holds it; where it has one
    /// king only, no other tile does.
    pub proof fn lemma_find_king(self, color: Color)
        requires
            self.has_king(color),
        ensures
            self.find_king(color).wf(),
            self.get(self.find_king(color), color) == Some(Piece::King),
            self.one_king(color) ==> forall|p: Vec2|
                #[trigger] self.get(p, color) == Some(Piece::King) ==> p == self.find_king(color),
    {
        let p = choose|p: Vec2| p.wf() && #[trigger] self.get(p, color) == Some(Piece::King);
        Board::lemma_index_in_range(p);
        Board::lemma_vec_to_index_to_vec(p);
        self.lemma_king_from(color, 0, Board::spec_index(p));
    }

    /// Where the search for an attack finds none, no piece on a tile that it
    /// looked at reaches the target.
    pub proof fn lemma_first_attack_none(self, target: Vec2, color: Color, from: int, at: int)
        requires
            0 <= from <= at < 91,
            self.first_attack(target, color, from) is None,
        ensures
            self.attack(Vec2::tile_at(at), target, color) is None,
        decreases 91 - from,
    {
        if from < at {
            self.lemma_first_attack_none(target, color, from + 1, at);
        }
    }

    /// Where the search for an attack finds a move, it is the movement of a
    /// piece on the board onto the target.
    pub proof fn lemma_first_attack_some(self, target: Vec2, color: Color, from: int)
        requires
            0 <= from,
            self.first_attack(target, color, from) is Some,
        ensures
            exists|at: int|
                from <= at < 91 && #[trigger] self.attack(Vec2::tile_at(at), target, color)
                    == self.first_attack(target, color, from),
        decreases 91 - from,
    {
        if self.attack(Vec2::tile_at(from), target, color) is Some {
            assert(self.attack(Vec2::tile_at(from), target, color) == self.first_attack(
                target,
                color,
                from,
            ));
        } else {
            self.lemma_first_attack_some(target, color, from + 1);
            let at = choose|at: int|
                from + 1 <= at < 91 && #[trigger] self.attack(Vec2::tile_at(at), target, color)
                    == self.first_attack(target, color, from + 1);
            assert(self.attack(Vec2::tile_at(at), target, color) == self.first_attack(
                target,
                color,
                from,
            ));
        }
    }

    /// A king is in check exactly when a piece of the opponent can move onto
    /// its tile by the rule of its kind.
    pub proof fn lemma_in_check(self, color: Color)
        ensures
            self.in_check(color) is Some <==> exists|origin: Vec2|
                origin.wf() && #[trigger] self.attack(
                    origin,
                    self.find_king(color),
                    color.spec_other(),
                ) is Some,
    {
        let king = self.find_king(color);
        let other = color.spec_other();
        if self.in_check(color) is Some {
            self.lemma_first_attack_some(king, other, 0);
            let at = choose|at: int|
                0 <= at < 91 && #[trigger] self.attack(Vec2::tile_at(at), king, other)
                    == self.first_attack(king, other, 0);
            Vec2::lemma_tiles(at);
            assert(Vec2::tile_at(at).wf() && self.attack(Vec2::tile_at(at), king, other) is Some);
        } else {
            assert forall|origin: Vec2| origin.wf() implies !(#[trigger] self.attack(
                origin,
                king,
                other,
            ) is Some) by {
                Vec2::lemma_tile_order(origin);
                self.lemma_first_attack_none(king, other, 0, origin.order());
            }
        }
    }

    /// On a board that meets the standing invariant, a color whose opponent
    /// is not in check can be asked for its moves: none of its movements
    /// lands on its own piece or captures the opposing king.
    pub proof fn lemma_playable(self, color: Color)
        requires
            self.wf(),
            self.in_check(color.spec_other()) is None,
        ensures
            self.playable(color),
    {
        let other = color.spec_other();
        self.lemma_find_king(other);
        self.lemma_in_check(other);
        assert(other.spec_other() == color);
        assert forall|origin: Vec2, destination: Vec2|
            origin.wf() && destination.wf() implies #[trigger] self.spares(
            origin,
            destination,
            color,
        ) by {
            if self.get(origin, color) is Some {
                let piece = self.get(origin, color).unwrap();
                if piece.spec_get_move_no_checks(origin, destination, self, color) is Ok {
                    piece.lemma_no_self_capture(origin, destination, self, color);
                    if self.get(destination, other) == Some(Piece::King) {
                        assert(destination == self.find_king(other));
                        assert(self.attack(origin, self.find_king(other), color) is Some);
                    }
                }
            }
        }
    }

    /// A regular move of the mover's pieces keeps the mover's king on the
    /// board.
    pub proof fn lemma_after_keeps_king(
        self,
        origin: Vec2,
        destination: Vec2,
        captures: bool,
        color: Color,
    )
        requires
            self.has_king(color),
            origin.wf(),
            destination.wf(),
        ensures
            self.after_regular(origin, destination, captures, color).has_king(color),
    {
        let p = choose|p: Vec2| p.wf() && #[trigger] self.get(p, color) == Some(Piece::King);
        let next = self.after_regular(origin, destination, captures, color);
        if p == origin {
            assert(next.get(destination, color) == Some(Piece::King));
        } else if p == destination {
            assert(next.get(origin, color) == Some(Piece::King));
        } else {
            assert(next.get(p, color) == Some(Piece::King));
        }
    }

    /// The board with nothing on it.
    pub open spec fn empty() -> BoardModel {
        BoardModel { white: Map::empty(), black: Map::empty(), last_move: None }
    }

    /// The board with `piece` of `color` on the tile `position`, whatever
    /// stood there of that color.
    pub open spec fn with(self, position: Vec2, color: Color, piece: Option<Piece>) -> BoardModel {
        if color == Color::White {
            BoardModel { white: put(self.white, position, piece), ..self }
        } else {
            BoardModel { black: put(self.black, position, piece), ..self }
        }
    }

    /// The empty board after the first `n` entries of `config` were put on
    /// it, one after the other.
    pub open spec fn placed(config: Seq<(Piece, Vec2, Color)>, n: int) -> BoardModel
        decreases n,
    {
        if n <= 0 {
            Self::empty()
        } else {
            let (piece, position, color) = config[n - 1];
            Self::placed(config, n - 1).with(position, color, Some(piece))
        }
    }

    /// The board at the start of a game.
    pub open spec fn initial() -> BoardModel {
        Self::placed(
            Piece::spec_initial_configuration(),
            Piece::spec_initial_configuration().len() as int,
        )
    }

    /// The piece of the last of the first `n` entries of `config` that name
    /// the tile and the color.
    pub open spec fn last_entry(
        config: Seq<(Piece, Vec2, Color)>,
        n: int,
        position: Vec2,
        color: Color,
    ) -> Option<Piece>
        decreases n,
    {
        if n <= 0 {
            None
        } else if config[n - 1].1 == position && config[n - 1].2 == color {
            Some(config[n - 1].0)
        } else {
            Self::last_entry(config, n - 1, position, color)
        }
    }

    /// After entries were put on the empty board, a tile holds what the last
    /// entry that names it says.
    pub proof fn lemma_placed(
        config: Seq<(Piece, Vec2, Color)>,
        n: int,
        position: Vec2,
        color: Color,
    )
        ensures
            Self::placed(config, n).get(position, color) == Self::last_entry(
                config,
                n,
                position,
                color,
            ),
            Self::placed(config, n).last_move is None,
        decreases n,
    {
        if n > 0 {
            Self::lemma_placed(config, n - 1, position, color);
        }
    }

    /// The piece that stands on the tile at the start of a game, for each
    /// color: seen from the color's side, the pawns on the two lines that
    /// meet in front of the center, and behind them two bishops on the
    /// middle file, flanked by the king and the queen, the knights and the
    /// rooks.
    pub open spec fn initial_piece(position: Vec2, color: Color) -> Option<Piece> {
        let p = if color == Color::White {
            position
        } else {
            position.spec_flipped()
        };
        if !position.wf() {
            None
        } else if (p.x == 4 && p.y <= 4) || (p.x <= 4 && p.y == 4) {
            Some(Piece::Pawn)
        } else if (p.x == 0 && p.y == 2) || (p.x == 2 && p.y == 0) {
            Some(Piece::Knight)
        } else if p.x == p.y && p.x <= 1 {
            Some(Piece::Bishop)
        } else if (p.x == 0 && p.y == 3) || (p.x == 3 && p.y == 0) {
            Some(Piece::Rook)
        } else if p.x == 1 && p.y == 0 {
            Some(Piece::Queen)
        } else if p.x == 0 && p.y == 1 {
            Some(Piece::King)
        } else {
            None
        }
    }

    /// At the start of a game each tile holds the piece that the initial
    /// setup names for it, and no move has been played.
    pub proof fn lemma_initial_board(position: Vec2, color: Color)
        ensures
            Self::initial().get(position, color) == Self::initial_piece(position, color),
            Self::initial().last_move is None,
    {
        let config = Piece::spec_initial_configuration();
        Piece::lemma_initial_configuration_entries();
        Self::lemma_placed(config, 34, position, color);
        reveal_with_fuel(BoardModel::last_entry, 35);
        assert(Self::last_entry(config, 34, position, color) == Self::initial_piece(
            position,
            color,
        ));
    }

    /// At the start of a game the two sides mirror each other: the tile
    /// across the board holds the same piece of the other color, or is
    /// empty as well.
    pub proof fn lemma_initial_symmetry(position: Vec2, color: Color)
        requires
            position.wf(),
        ensures
            Self::initial().get(position.spec_flipped(), color.spec_other())
                == Self::initial().get(position, color),
    {
        Self::lemma_initial_board(position, color);
        Self::lemma_initial_board(position.spec_flipped(), color.spec_other());
    }

    /// At the start of a game, where a tile holds a piece, the tile across
    /// the board holds the same piece of the other color, and where a tile
    /// is empty, so is the tile across the board.
    pub proof fn lemma_initial_symmetry_of_tiles(position: Vec2)
        requires
            position.wf(),
        ensures
            Self::initial().get_either(position.spec_flipped()) == (match Self::initial().get_either(
                position,
            ) {
                Some((piece, color)) => Some((piece, color.spec_other())),
                None => None,
            }),
    {
        Self::lemma_initial_board(position, Color::White);
        Self::lemma_initial_board(position, Color::Black);
        Self::lemma_initial_board(position.spec_flipped(), Color::White);
        Self::lemma_initial_board(position.spec_flipped(), Color::Black);
    }

    /// The pieces of each color at the start of a game, in the order of the
    /// slots: 17 of them, one king, one queen, two rooks, two bishops, two
    /// knights and nine pawns.
    pub proof fn lemma_initial_pieces()
        ensures
            Self::initial().piece_positions(Color::White) =~= seq![
                (Vec2 { x: 0, y: 0 }, Piece::Bishop),
                (Vec2 { x: 1, y: 0 }, Piece::Queen),
                (Vec2 { x: 0, y: 1 }, Piece::King),
                (Vec2 { x: 2, y: 0 }, Piece::Knight),
                (Vec2 { x: 1, y: 1 }, Piece::Bishop),
                (Vec2 { x: 0, y: 2 }, Piece::Knight),
                (Vec2 { x: 3, y: 0 }, Piece::Rook),
                (Vec2 { x: 0, y: 3 }, Piece::Rook),
                (Vec2 { x: 4, y: 0 }, Piece::Pawn),
                (Vec2 { x: 0, y: 4 }, Piece::Pawn),
                (Vec2 { x: 4, y: 1 }, Piece::Pawn),
                (Vec2 { x: 1, y: 4 }, Piece::Pawn),
                (Vec2 { x: 4, y: 2 }, Piece::Pawn),
                (Vec2 { x: 2, y: 4 }, Piece::Pawn),
                (Vec2 { x: 4, y: 3 }, Piece::Pawn),
                (Vec2 { x: 3, y: 4 }, Piece::Pawn),
                (Vec2 { x: 4, y: 4 }, Piece::Pawn),
            ],
            Self::initial().piece_positions(Color::Black) =~= seq![
                (Vec2 { x: 6, y: 6 }, Piece::Pawn),
                (Vec2 { x: 7, y: 6 }, Piece::Pawn),
                (Vec2 { x: 6, y: 7 }, Piece::Pawn),
                (Vec2 { x: 8, y: 6 }, Piece::Pawn),
                (Vec2 { x: 6, y: 8 }, Piece::Pawn),
                (Vec2 { x: 9, y: 6 }, Piece::Pawn),
                (Vec2 { x: 6, y: 9 }, Piece::Pawn),
                (Vec2 { x: 10, y: 6 }, Piece::Pawn),
                (Vec2 { x: 6, y: 10 }, Piece::Pawn),
                (Vec2 { x: 10, y: 7 }, Piece::Rook),
                (Vec2 { x: 7, y: 10 }, Piece::Rook),
                (Vec2 { x: 10, y: 8 }, Piece::Knight),
                (Vec2 { x: 9, y: 9 }, Piece::Bishop),
                (Vec2 { x: 8, y: 10 }, Piece::Knight),
                (Vec2 { x: 10, y: 9 }, Piece::King),
                (Vec2 { x: 9, y: 10 }, Piece::Queen),
                (Vec2 { x: 10, y: 10 }, Piece::Bishop),
            ],
            Self::initial().pieces(Color::White) =~= seq![
                Piece::Bishop,
                Piece::Queen,
                Piece::King,
                Piece::Knight,
                Piece::Bishop,
                Piece::Knight,
                Piece::Rook,
                Piece::Rook,
                Piece::Pawn,
                Piece::Pawn,
                Piece::Pawn,
                Piece::Pawn,
                Piece::Pawn,
                Piece::Pawn,
                Piece::Pawn,
                Piece::Pawn,
                Piece::Pawn,
            ],
            Self::initial().pieces(Color::Black) =~= seq![
                Piece::Pawn,
                Piece::Pawn,
                Piece::Pawn,
                Piece::Pawn,
                Piece::Pawn,
                Piece::Pawn,
                Piece::Pawn,
                Piece::Pawn,
                Piece::Pawn,
                Piece::Rook,
                Piece::Rook,
                Piece::Knight,
                Piece::Bishop,
                Piece::Knight,
                Piece::King,
                Piece::Queen,
                Piece::Bishop,
            ],
    {
        let board = Self::initial();
        crate::board::lemma_tiles_before_rank();
        assert forall|p: Vec2, color: Color| #[trigger]
            board.get(p, color) == Self::initial_piece(p, color) by {
            Self::lemma_initial_board(p, color);
        }
        reveal_with_fuel(BoardModel::piece_positions_below, 92);
    }

    /// The board at the start of a game meets the standing invariant: each
    /// color has one king, and no tile holds a piece of both colors.
    pub proof fn lemma_initial_wf()
        ensures
            Self::initial().wf(),
    {
        let b = Self::initial();
        assert forall|p: Vec2| !(b.white.dom().contains(p) && b.black.dom().contains(p)) by {
            Self::lemma_initial_board(p, Color::White);
            Self::lemma_initial_board(p, Color::Black);
        }
        let white_king = Vec2 { x: 0, y: 1 };
        let black_king = Vec2 { x: 10, y: 9 };
        Self::lemma_initial_board(white_king, Color::White);
        Self::lemma_initial_board(black_king, Color::Black);
        assert(white_king.wf() && b.get(white_king, Color::White) == Some(Piece::King));
        assert(black_king.wf() && b.get(black_king, Color::Black) == Some(Piece::King));
        assert forall|p: Vec2, q: Vec2, color: Color|
            #[trigger] b.get(p, color) == Some(Piece::King) && #[trigger] b.get(q, color) == Some(
                Piece::King,
            ) implies p == q by {
            Self::lemma_initial_board(p, color);
            Self::lemma_initial_board(q, color);
        }
    }

    /// The board before `color` played the regular move `mov`, given the
    /// board after it, the piece that the move captured and the move that
    /// was played before it.
    pub open spec fn reverted(
        self,
        mov: Move,
        color: Color,
        captured: Option<Piece>,
        last_move: Option<Move>,
    ) -> BoardModel {
        let origin = mov->Regular_origin;
        let destination = mov->Regular_destination;
        let back = self.after_regular(destination, origin, false, color);
        let restored = if mov->Regular_captures {
            back.with(destination, color.spec_other(), captured)
        } else {
            back
        };
        BoardModel { last_move, ..restored }
    }

    /// Taking a regular move back restores the board as it was: the pieces
    /// of both colors and the last move.
    pub proof fn lemma_move_can_be_reverted(self, mov: Move, color: Color)
        requires
            mov is Regular,
        ensures
            self.after(mov, color).reverted(
                mov,
                color,
                self.get(mov->Regular_destination, color.spec_other()),
                self.last_move,
            ) == self,
    {
        let after = self.after(mov, color);
        let back = after.reverted(
            mov,
            color,
            self.get(mov->Regular_destination, color.spec_other()),
            self.last_move,
        );
        assert(back.white =~= self.white);
        assert(back.black =~= self.black);
    }

    /// The legal moves of a rook are those along its six rays, as far as the
    /// tiles are empty and onto the first occupied tile if the piece there
    /// is not its own, that do not leave its king in check.
    pub proof fn lemma_rook_legal_moves(self, origin: Vec2, destination: Vec2, color: Color)
        requires
            origin.wf(),
            destination.wf(),
            self.get_either(origin) == Some((Piece::Rook, color)),
        ensures
            self.get_move(origin, destination, color) is Ok <==> {
                &&& origin != destination
                &&& rook::spec_valid_delta(IVec2::between(origin, destination))
                &&& movement::path_is_clear(
                    origin,
                    rook::unit_of(IVec2::between(origin, destination)),
                    rook::reach_of(IVec2::between(origin, destination)),
                    self,
                )
                &&& self.get(destination, color) is None
                &&& self.after_regular(
                    origin,
                    destination,
                    self.get(destination, color.spec_other()) is Some,
                    color,
                ).in_check(color) is None
            },
    {
        if origin != destination {
            rook::lemma_rook_moves_along_rays(origin, destination, self, color);
        }
    }

    /// Whether the move of the piece of `color` from `origin` to
    /// `destination`, capturing what stands there of the other color, leaves
    /// the king of `color` out of check.
    pub open spec fn keeps_king_safe(self, origin: Vec2, destination: Vec2, color: Color) -> bool {
        self.after_regular(
            origin,
            destination,
            self.get(destination, color.spec_other()) is Some,
            color,
        ).in_check(color) is None
    }

    /// Among the possible moves of a color, the moves of a rook to a
    /// destination that leaves its king out of check are these: the move
    /// to each tile on a straight line through its tile, with only empty
    /// tiles in between and no piece of its own color on it, capturing
    /// exactly if a piece of the other color stands there. No other move
    /// from the rook's tile to the destination is possible.
    pub proof fn lemma_rook_possible_moves(
        self,
        origin: Vec2,
        destination: Vec2,
        color: Color,
        captures: bool,
    )
        requires
            origin.wf(),
            destination.wf(),
            self.get_either(origin) == Some((Piece::Rook, color)),
            self.keeps_king_safe(origin, destination, color),
        ensures
            self.possible_moves(color).contains(Move::Regular { origin, destination, captures })
                <==> {
                &&& origin != destination
                &&& rook::spec_valid_delta(IVec2::between(origin, destination))
                &&& movement::path_is_clear(
                    origin,
                    rook::unit_of(IVec2::between(origin, destination)),
                    rook::reach_of(IVec2::between(origin, destination)),
                    self,
                )
                &&& self.get(destination, color) is None
                &&& captures == (self.get(destination, color.spec_other()) is Some)
            },
    {
        let mov = Move::Regular { origin, destination, captures };
        self.lemma_possible_moves(color, mov);
        self.lemma_rook_legal_moves(origin, destination, color);
        if origin != destination {
            rook::lemma_rook_moves_along_rays(origin, destination, self, color);
        }
        if self.possible_moves(color).contains(mov) {
            let (from, to) = choose|from: Vec2, to: Vec2|
                from.wf() && to.wf() && #[trigger] self.get_move(from, to, color) is Ok
                    && self.get_move(from, to, color).unwrap().0 == mov;
            let piece = self.get_either(from).unwrap().0;
            piece.lemma_movement_is_regular(from, to, self, color);
            assert(from == origin && to == destination);
        }
        if self.get_move(origin, destination, color) is Ok && self.get_move(
            origin,
            destination,
            color,
        ).unwrap().0 == mov {
            assert(origin.wf() && destination.wf() && self.get_move(origin, destination, color)
                is Ok);
        }
    }

    /// Along a ray from its tile, a rook moves to the tile `n` steps away
    /// exactly if the tiles before it are empty and it holds no piece of the
    /// rook's color, capturing exactly if it holds a piece of the other
    /// color; provided that the move leaves the rook's king out of check.
    pub proof fn lemma_rook_ray(
        self,
        origin: Vec2,
        unit: IVec2,
        n: int,
        color: Color,
        captures: bool,
    )
        requires
            origin.wf(),
            self.get_either(origin) == Some((Piece::Rook, color)),
            rook::spec_valid_stride(unit),
            n >= 1,
            Vec2::spec_is_valid(origin.x + unit.x * n, origin.y + unit.y * n),
            self.keeps_king_safe(origin, movement::step(origin, unit, n), color),
        ensures
            movement::step(origin, unit, n).wf(),
            self.possible_moves(color).contains(
                Move::Regular { origin, destination: movement::step(origin, unit, n), captures },
            ) <==> {
                &&& movement::path_is_clear(origin, unit, n, self)
                &&& self.get(movement::step(origin, unit, n), color) is None
                &&& captures == (self.get(movement::step(origin, unit, n), color.spec_other())
                    is Some)
            },
    {
        let destination = movement::step(origin, unit, n);
        movement::lemma_steps_stay_on_board(origin, unit, n, n);
        let delta = IVec2::between(origin, destination);
        assert(unit.x * n == (if unit.x == 0 { 0 } else if unit.x == 1 { n } else { -n }))
            by (nonlinear_arith)
            requires
                -1 <= unit.x <= 1,
        ;
        assert(unit.y * n == (if unit.y == 0 { 0 } else if unit.y == 1 { n } else { -n }))
            by (nonlinear_arith)
            requires
                -1 <= unit.y <= 1,
        ;
        assert(delta.x == unit.x * n && delta.y == unit.y * n);
        assert(rook::unit_of(delta) == unit);
        assert(rook::reach_of(delta) == n);
        assert(rook::spec_valid_delta(delta));
        assert(origin != destination);
        self.lemma_rook_possible_moves(origin, destination, color, captures);
    }

    /// The first piece on a ray truncates the ray: with the first piece `k`
    /// steps away, a rook moves along the ray to each tile before the
    /// piece, without capturing; onto the tile of the piece exactly if the
    /// piece is not of its own color, and then it captures; and to no tile
    /// beyond. This holds for each move that leaves the rook's king out of
    /// check.
    pub proof fn lemma_rook_stops_at_first_piece(
        self,
        origin: Vec2,
        unit: IVec2,
        k: int,
        n: int,
        color: Color,
        captures: bool,
    )
        requires
            origin.wf(),
            self.get_either(origin) == Some((Piece::Rook, color)),
            rook::spec_valid_stride(unit),
            k >= 1,
            n >= 1,
            Vec2::spec_is_valid(origin.x + unit.x * n, origin.y + unit.y * n),
            movement::path_is_clear(origin, unit, k, self),
            self.get_either(movement::step(origin, unit, k)) is Some,
            self.keeps_king_safe(origin, movement::step(origin, unit, n), color),
        ensures
            self.possible_moves(color).contains(
                Move::Regular { origin, destination: movement::step(origin, unit, n), captures },
            ) <==> (n < k && !captures) || (n == k && captures && self.get(
                movement::step(origin, unit, k),
                color,
            ) is None),
    {
        self.lemma_rook_ray(origin, unit, n, color, captures);
        let destination = movement::step(origin, unit, n);
        if n < k {
            assert(self.get_either(movement::step(origin, unit, n)) is None);
            assert forall|i: int| 1 <= i < n implies self.get_either(
                #[trigger] movement::step(origin, unit, i),
            ) is None by {}
        } else if n == k {
        } else {
            assert(!(self.get_either(movement::step(origin, unit, k)) is None));
            assert(!movement::path_is_clear(origin, unit, n, self));
        }
    }

    /// The place of a regular move among the pairs of an origin and a
    /// destination.
    pub open spec fn pair_of(mov: Move) -> int {
        mov.spec_origin().order() * 91 + mov.spec_destination().order()
    }

    /// The moves before the `n`-th pair are regular moves between tiles,
    /// each the move of a pair before the `n`-th, in the order of the
    /// pairs.
    pub proof fn lemma_moves_before_are_sorted(self, color: Color, n: int, i: int, j: int)
        requires
            0 <= n <= 8281,
            0 <= i <= j < self.moves_before(color, n).len(),
        ensures
            self.moves_before(color, n)[j] is Regular,
            0 <= Self::pair_of(self.moves_before(color, n)[j]) < n,
            i < j ==> Self::pair_of(self.moves_before(color, n)[i]) < Self::pair_of(
                self.moves_before(color, n)[j],
            ),
        decreases n,
    {
        reveal(BoardModel::moves_before);
        let rest = self.moves_before(color, n - 1);
        let origin = Vec2::tile_at((n - 1) / 91);
        let destination = Vec2::tile_at((n - 1) % 91);
        let legal = self.get_move(origin, destination, color);
        if legal is Ok && j == rest.len() {
            let piece = self.get_either(origin).unwrap().0;
            piece.lemma_movement_is_regular(origin, destination, self, color);
            Vec2::lemma_tiles((n - 1) / 91);
            Vec2::lemma_tiles((n - 1) % 91);
            assert(Self::pair_of(legal.unwrap().0) == n - 1);
            if i < j {
                self.lemma_moves_before_are_sorted(color, n - 1, i, i);
            }
        } else {
            self.lemma_moves_before_are_sorted(color, n - 1, i, j);
        }
    }

    /// No move stands twice among the possible moves of a color.
    pub proof fn lemma_possible_moves_are_distinct(self, color: Color, i: int, j: int)
        requires
            0 <= i < j < self.possible_moves(color).len(),
        ensures
            self.possible_moves(color)[i] != self.possible_moves(color)[j],
    {
        self.lemma_moves_before_are_sorted(color, 8281, i, j);
    }

    /// A legal move keeps the standing invariant of the board, provided that
    /// it does not capture a king, and after it the mover's king is not in
    /// check.
    pub proof fn lemma_legal_move_keeps_wf(self, origin: Vec2, destination: Vec2, color: Color)
        requires
            self.wf(),
            origin.wf(),
            destination.wf(),
            self.get_move(origin, destination, color) is Ok,
            self.get(destination, color.spec_other()) != Some(Piece::King),
        ensures
            self.after(self.get_move(origin, destination, color).unwrap().0, color).wf(),
            self.after(self.get_move(origin, destination, color).unwrap().0, color).in_check(color)
                is None,
    {
        let other = color.spec_other();
        let (piece, _) = self.get_either(origin).unwrap();
        let mov = self.get_move(origin, destination, color).unwrap().0;
        piece.lemma_no_self_capture(origin, destination, self, color);
        piece.lemma_movement_is_regular(origin, destination, self, color);
        let next = self.after(mov, color);
        assert(self.get(origin, color) == Some(piece));
        assert(!(self.white.dom().contains(origin) && self.black.dom().contains(origin)));
        assert forall|p: Vec2| !(next.white.dom().contains(p) && next.black.dom().contains(p)) by {
            assert(!(self.white.dom().contains(p) && self.black.dom().contains(p)));
        }
        assert forall|p: Vec2| #[trigger]
            next.get(p, color) == self.get(
                if p == destination {
                    origin
                } else if p == origin {
                    destination
                } else {
                    p
                },
                color,
            ) by {}
        assert forall|p: Vec2| #[trigger]
            next.get(p, other) == (if p == destination {
                None
            } else {
                self.get(p, other)
            }) by {}
        let own_king = choose|p: Vec2| p.wf() && #[trigger] self.get(p, color) == Some(Piece::King);
        let their_king = choose|p: Vec2|
            p.wf() && #[trigger] self.get(p, other) == Some(Piece::King);
        let own_king_next = if own_king == origin {
            destination
        } else {
            own_king
        };
        assert(own_king_next.wf() && next.get(own_king_next, color) == Some(Piece::King));
        assert(their_king.wf() && next.get(their_king, other) == Some(Piece::King));
        assert forall|p: Vec2, q: Vec2|
            #[trigger] next.get(p, color) == Some(Piece::King) && #[trigger] next.get(q, color)
                == Some(Piece::King) implies p == q by {
            let before_p = if p == destination {
                origin
            } else if p == origin {
                destination
            } else {
                p
            };
            let before_q = if q == destination {
                origin
            } else if q == origin {
                destination
            } else {
                q
            };
            assert(self.get(before_p, color) == Some(Piece::King));
            assert(self.get(before_q, color) == Some(Piece::King));
        }
        assert forall|p: Vec2, q: Vec2|
            #[trigger] next.get(p, other) == Some(Piece::King) && #[trigger] next.get(q, other)
                == Some(Piece::King) implies p == q by {
            assert(self.get(p, other) == Some(Piece::King));
            assert(self.get(q, other) == Some(Piece::King));
        }
        assert(next.one_king(color));
        assert(next.one_king(other));
    }

    /// A legal move never lands on a piece of the mover's color, on a board
    /// where no tile holds a piece of both colors.
    pub proof fn lemma_legal_move_spares_own_pieces(
        self,
        origin: Vec2,
        destination: Vec2,
        color: Color,
    )
        requires
            self.no_overlap(),
            self.get_move(origin, destination, color) is Ok,
        ensures
            self.get(destination, color) is None,
            self.get_move(origin, destination, color).unwrap().0 is Regular,
            self.get_move(origin, destination, color).unwrap().0.spec_origin() == origin,
            self.get_move(origin, destination, color).unwrap().0.spec_destination()
                == destination,
            self.get(origin, color) is Some,
    {
        let (piece, piece_color) = self.get_either(origin).unwrap();
        piece.lemma_no_self_capture(origin, destination, self, color);
        piece.lemma_movement_is_regular(origin, destination, self, color);
    }

    /// Each of the moves before the `n`-th pair is the legal move of a pair
    /// of tiles before it.
    pub proof fn lemma_moves_before_are_legal(self, color: Color, n: int, k: int)
        requires
            0 <= n <= 8281,
            0 <= k < self.moves_before(color, n).len(),
        ensures
            exists|pair: int|
                0 <= pair < n && #[trigger] self.get_move(
                    Vec2::tile_at(pair / 91),
                    Vec2::tile_at(pair % 91),
                    color,
                ) is Ok && self.get_move(
                    Vec2::tile_at(pair / 91),
                    Vec2::tile_at(pair % 91),
                    color,
                ).unwrap().0 == self.moves_before(color, n)[k],
        decreases n,
    {
        reveal(BoardModel::moves_before);
        let legal = self.get_move(Vec2::tile_at((n - 1) / 91), Vec2::tile_at((n - 1) % 91), color);
        if legal is Ok && k == self.moves_before(color, n - 1).len() {
            assert(self.get_move(Vec2::tile_at((n - 1) / 91), Vec2::tile_at((n - 1) % 91), color)
                is Ok);
        } else {
            self.lemma_moves_before_are_legal(color, n - 1, k);
        }
    }

    /// The legal move of each pair of tiles before the `n`-th stands among
    /// the moves before the `n`-th pair.
    pub proof fn lemma_moves_before_are_complete(self, color: Color, n: int, pair: int)
        requires
            0 <= pair < n <= 8281,
            self.get_move(Vec2::tile_at(pair / 91), Vec2::tile_at(pair % 91), color) is Ok,
        ensures
            self.moves_before(color, n).contains(
                self.get_move(
                    Vec2::tile_at(pair / 91),
                    Vec2::tile_at(pair % 91),
                    color,
                ).unwrap().0,
            ),
        decreases n,
    {
        let mov = self.get_move(
            Vec2::tile_at(pair / 91),
            Vec2::tile_at(pair % 91),
            color,
        ).unwrap().0;
        reveal(BoardModel::moves_before);
        let rest = self.moves_before(color, n - 1);
        if pair == n - 1 {
            assert(self.moves_before(color, n) == rest.push(mov));
            assert(rest.push(mov)[rest.len() as int] == mov);
        } else {
            self.lemma_moves_before_are_complete(color, n - 1, pair);
            let at = choose|at: int| 0 <= at < rest.len() && rest[at] == mov;
            assert(self.moves_before(color, n)[at] == mov);
        }
    }

    /// The possible moves of a color are exactly its legal moves between
    /// two tiles of the board: each of them is the legal move from its
    /// origin to its destination, and every legal move between two tiles
    /// is among them. None of them lands on a piece of the color, on a
    /// board where no tile holds a piece of both colors.
    pub proof fn lemma_possible_moves(self, color: Color, mov: Move)
        ensures
            self.possible_moves(color).contains(mov) <==> exists|
                origin: Vec2,
                destination: Vec2,
            |
                origin.wf() && destination.wf() && #[trigger] self.get_move(
                    origin,
                    destination,
                    color,
                ) is Ok && self.get_move(origin, destination, color).unwrap().0 == mov,
            self.possible_moves(color).contains(mov) && self.no_overlap() ==> mov is Regular
                && self.get(mov.spec_destination(), color) is None && self.get(
                mov.spec_origin(),
                color,
            ) is Some,
    {
        let moves = self.possible_moves(color);
        if moves.contains(mov) {
            let k = choose|k: int| 0 <= k < moves.len() && moves[k] == mov;
            self.lemma_moves_before_are_legal(color, 8281, k);
            let pair = choose|pair: int|
                0 <= pair < 8281 && #[trigger] self.get_move(
                    Vec2::tile_at(pair / 91),
                    Vec2::tile_at(pair % 91),
                    color,
                ) is Ok && self.get_move(
                    Vec2::tile_at(pair / 91),
                    Vec2::tile_at(pair % 91),
                    color,
                ).unwrap().0 == moves[k];
            let origin = Vec2::tile_at(pair / 91);
            let destination = Vec2::tile_at(pair % 91);
            Vec2::lemma_tiles(pair / 91);
            Vec2::lemma_tiles(pair % 91);
            assert(origin.wf() && destination.wf() && self.get_move(origin, destination, color)
                is Ok);
            if self.no_overlap() {
                self.lemma_legal_move_spares_own_pieces(origin, destination, color);
            }
        }
        if exists|origin: Vec2, destination: Vec2|
            origin.wf() && destination.wf() && #[trigger] self.get_move(
                origin,
                destination,
                color,
            ) is Ok && self.get_move(origin, destination, color).unwrap().0 == mov {
            let (origin, destination) = choose|origin: Vec2, destination: Vec2|
                origin.wf() && destination.wf() && #[trigger] self.get_move(
                    origin,
                    destination,
                    color,
                ) is Ok && self.get_move(origin, destination, color).unwrap().0 == mov;
            Vec2::lemma_tile_order(origin);
            Vec2::lemma_tile_order(destination);
            let pair = origin.order() * 91 + destination.order();
            assert(pair / 91 == origin.order() && pair % 91 == destination.order());
            self.lemma_moves_before_are_complete(color, 8281, pair);
        }
    }

    /// The pieces of `color` in the first `n` slots with their tiles, in
    /// the order of the slots.
    pub open spec fn piece_positions_below(self, color: Color, n: int) -> Seq<(Vec2, Piece)>
        decreases n,
    {
        if n <= 0 {
            Seq::empty()
        } else {
            let rest = self.piece_positions_below(color, n - 1);
            let position = Board::spec_index_to_vec(n - 1);
            match self.get(position, color) {
                Some(piece) => rest.push((position, piece)),
                None => rest,
            }
        }
    }

    /// The pieces of `color` with their tiles, in the order of the slots.
    pub open spec fn piece_positions(self, color: Color) -> Seq<(Vec2, Piece)> {
        self.piece_positions_below(color, 91)
    }

    /// The pieces of `color`, in the order of the slots.
    pub open spec fn pieces(self, color: Color) -> Seq<Piece> {
        Seq::new(self.piece_positions(color).len(), |i: int| self.piece_positions(color)[i].1)
    }

    /// The pieces of both colors with their tiles and colors: white's in the
    /// order of the slots, then black's.
    pub open spec fn all_piece_positions(self) -> Seq<(Vec2, Piece, Color)> {
        let white = self.piece_positions(Color::White);
        let black = self.piece_positions(Color::Black);
        Seq::new(white.len(), |i: int| (white[i].0, white[i].1, Color::White)) + Seq::new(
            black.len(),
            |i: int| (black[i].0, black[i].1, Color::Black),
        )
    }

    /// The worth of a piece in a sum of material: its value, and nothing for
    /// a king.
    pub open spec fn worth(piece: Option<Piece>) -> int {
        match piece {
            Some(piece) => match piece.spec_value() {
                Some(value) => value as int,
                None => 0,
            },
            None => 0,
        }
    }

    /// The summed worth of the pieces of `color` in the first `n` slots.
    pub open spec fn piece_value_below(self, color: Color, n: int) -> int
        decreases n,
    {
        if n <= 0 {
            0
        } else {
            self.piece_value_below(color, n - 1) + Self::worth(
                self.get(Board::spec_index_to_vec(n - 1), color),
            )
        }
    }

    /// The summed worth of the pieces of `color`.
    pub open spec fn total_piece_value(self, color: Color) -> int {
        self.piece_value_below(color, 91)
    }

    /// The legal moves of `color` among the first `n` pairs of an origin and
    /// a destination, the pairs taken by origin, then by destination, and
    /// the tiles by `x`, then by `y`.
    #[verifier::opaque]
    pub open spec fn moves_before(self, color: Color, n: int) -> Seq<Move>
        decreases n,
    {
        if n <= 0 {
            Seq::empty()
        } else {
            let rest = self.moves_before(color, n - 1);
            let origin = Vec2::tile_at((n - 1) / 91);
            let destination = Vec2::tile_at((n - 1) % 91);
            match self.get_move(origin, destination, color) {
                Ok((mov, _)) => rest.push(mov),
                Err(_) => rest,
            }
        }
    }

    /// Before the first pair there are no moves.
    pub proof fn lemma_moves_start(self, color: Color)
        ensures
            self.moves_before(color, 0) == Seq::<Move>::empty(),
    {
        reveal(BoardModel::moves_before);
    }

    /// What the pair of the `i`-th origin and the `j`-th destination adds to
    /// the moves before it.
    pub proof fn lemma_moves_step(self, color: Color, i: int, j: int)
        requires
            0 <= i < 91,
            0 <= j < 91,
        ensures
            self.moves_before(color, i * 91 + j + 1) == (match self.get_move(
                Vec2::tile_at(i),
                Vec2::tile_at(j),
                color,
            ) {
                Ok((mov, _)) => self.moves_before(color, i * 91 + j).push(mov),
                Err(_) => self.moves_before(color, i * 91 + j),
            }),
    {
        reveal(BoardModel::moves_before);
        let n = i * 91 + j + 1;
        assert((n - 1) / 91 == i && (n - 1) % 91 == j);
    }

    /// The character that stands on a tile in a diagram: the figurine of
    /// the piece on it, or a blank.
    pub open spec fn glyph(piece: Option<(Piece, Color)>) -> char {
        match piece {
            Some((piece, color)) => piece.spec_emoji(color),
            None => ' ',
        }
    }

    /// The characters of all tiles in a diagram of the board, the tiles
    /// taken by `x`, then by `y`.
    pub open spec fn glyphs(self) -> Seq<char> {
        Seq::new(91, |i: int| Self::glyph(self.get_either(Vec2::tile_at(i))))
    }

    /// All legal moves of `color`, by origin, then by destination.
    pub open spec fn possible_moves(self, color: Color) -> Seq<Move> {
        self.moves_before(color, 8281)
    }

    /// The board after `color` played the regular move `mov`.
    pub open spec fn after(self, mov: Move, color: Color) -> BoardModel {
        self.after_regular(
            mov->Regular_origin,
            mov->Regular_destination,
            mov->Regular_captures,
            color,
        )
    }
}

} // verus!
