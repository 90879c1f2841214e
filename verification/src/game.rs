//! Utilities for fuller game implementations, that go beyond the rules of
//! the pieces.
//!
//! See [`Game`].

pub mod time_control;

pub use time_control::{Category, Duration, TimeControl};

use crate::board::{Board, BoardModel};
use crate::coordinate::Vec2;
use crate::game::time_control::{slot, spec_slot, MAX_NANOS};
use crate::mov::Move;
use crate::piece::MoveError;
use crate::sides::Color;
use vstd::prelude::*;

verus! {

/// An instant, as the number of nanoseconds since the start of 1970.
#[derive(Debug, Clone, Copy, PartialEq, Eq, Structural, Hash)]
pub struct Timestamp {
    pub nanos: i128,
}

/// The earliest instant that a game reckons with.
pub const MIN_TIMESTAMP_NANOS: i128 = -377_705_023_201_000_000_000;

/// The latest instant that a game reckons with.
pub const MAX_TIMESTAMP_NANOS: i128 = 253_402_207_200_999_999_999;

impl Timestamp {
    /// Whether the instant lies in the years that a game reckons with.
    pub open spec fn wf(self) -> bool {
        MIN_TIMESTAMP_NANOS <= self.nanos <= MAX_TIMESTAMP_NANOS
    }

    /// The time between two instants, whichever comes first.
    pub open spec fn spec_distance(self, other: Timestamp) -> Duration {
        Duration {
            nanos: (if self.nanos < other.nanos {
                other.nanos - self.nanos
            } else {
                self.nanos - other.nanos
            }) as u128,
        }
    }

    /// The time between two instants, whichever comes first.
    pub fn distance(self, other: Timestamp) -> (r: Duration)
        requires
            self.wf(),
            other.wf(),
        ensures
            r == self.spec_distance(other),
            r.wf(),
    {
        if self.nanos < other.nanos {
            Duration { nanos: (other.nanos - self.nanos) as u128 }
        } else {
            Duration { nanos: (self.nanos - other.nanos) as u128 }
        }
    }
}

/// A possible action a player can take in a game.
#[derive(Debug, Clone, Copy, PartialEq, Eq, Structural)]
pub enum Action {
    /// Make a move.
    Move(Move),
    /// Concede the win to the opponent.
    Resign,
    /// Make a draw offer, which makes the game end in a draw if the
    /// opponent accepts it. An offer of the opponent is replaced.
    OfferDraw,
    /// Retract an offered draw.
    RetractDraw,
    /// Accept a draw that the opponent offered.
    AcceptDraw,
}

/// The result of a [`Game`].
#[allow(inconsistent_fields)]
#[derive(Debug, Clone, Copy, PartialEq, Eq, Structural)]
pub enum GameResult {
    Win { winner: Color, reason: WinReason },
    Draw { reason: DrawReason },
}

/// The way the player won a game.
#[derive(Debug, Clone, Copy, PartialEq, Eq, Structural)]
pub enum WinReason {
    /// The opponent was in check and had no legal moves remaining.
    Checkmate,
    /// The opponent resigned.
    Resignation,
    /// The opponent ran out of time.
    Timeout,
}

/// The way a game resulted in a draw.
#[derive(Debug, Clone, Copy, PartialEq, Eq, Structural)]
pub enum DrawReason {
    /// The opponent had no legal moves remaining, but it wasn't in check.
    Stalemate,
    /// There were fifty moves played after the last pawn move.
    FiftyMoves,
    /// Both players agreed to a draw.
    Agreement {
        /// The color of the player that offered the draw.
        offered_by: Color,
    },
}

/// Why an action cannot be applied.
#[derive(Debug, Clone, Copy, PartialEq, Eq, Structural)]
pub enum ApplyActionError {
    /// The move is invalid.
    MoveError(MoveError),
    /// The game is finished, no more moves can be made.
    GameIsFinished,
    /// The opponent has not offered a draw.
    DrawNotOffered,
    /// It is the opponent's turn.
    NotYourTurn,
}

/// What a game holds.
pub struct GameModel {
    /// The current state of the board.
    pub board: BoardModel,
    /// The time control of the game.
    pub time_control: TimeControl,
    /// The moves that were recorded, each with the instant it was played
    /// on.
    pub moves: Seq<(Move, Timestamp)>,
    /// The result of the game, if it has concluded.
    pub result: Option<GameResult>,
    /// Whether a draw has been offered, and by whom.
    pub draw_offer: Option<Color>,
}

impl GameModel {
    /// The color of the player that has to make a move: white after an even
    /// number of recorded moves.
    pub open spec fn turn(self) -> Color {
        if self.moves.len() % 2 == 0 {
            Color::White
        } else {
            Color::Black
        }
    }

    /// The winner of the game, if it has concluded; of a drawn game, no
    /// one.
    pub open spec fn winner(self) -> Option<Option<Color>> {
        match self.result {
            Some(GameResult::Win { winner, .. }) => Some(Some(winner)),
            Some(GameResult::Draw { .. }) => Some(None),
            None => None,
        }
    }

    /// The recorded moves of a color: every second one, from the first for
    /// white and from the second for black.
    pub open spec fn moves_from(self, color: Color) -> Seq<(Move, Timestamp)> {
        Seq::new(
            ((self.moves.len() + 1 - spec_slot(color)) / 2) as nat,
            |k: int| self.moves[2 * k + spec_slot(color)],
        )
    }

    /// How long the `i`-th recorded move took: nothing for the first move
    /// of each color, else the time since the move before it; for the move
    /// that is awaited, the time that has passed until `now`. `None` for a
    /// move further ahead.
    pub open spec fn move_duration(self, i: int, now: Timestamp) -> Option<Duration> {
        if i < 2 {
            if i < self.moves.len() {
                Some(Duration { nanos: 0 })
            } else {
                None
            }
        } else if i - 1 >= self.moves.len() {
            None
        } else {
            let start = self.moves[i - 1].1;
            let end = if i < self.moves.len() {
                self.moves[i].1
            } else {
                now
            };
            Some(end.spec_distance(start))
        }
    }

    /// The nanoseconds left to the color that has `remaining` of them
    /// before its move `i`: each move costs its duration and earns the
    /// increment, and once a move costs more than is left, nothing is
    /// left.
    pub open spec fn remaining_from(self, color: Color, i: int, remaining: int, now: Timestamp) -> int
        decreases self.moves.len() + 2 - i,
    {
        if i < 0 || i > self.moves.len() {
            remaining
        } else {
            match self.move_duration(i, now) {
                None => remaining,
                Some(spent) => if remaining < spent.nanos {
                    0
                } else {
                    self.remaining_from(
                        color,
                        i + 2,
                        remaining - spent.nanos + self.time_control.increment@[spec_slot(
                            color,
                        )].nanos,
                        now,
                    )
                },
            }
        }
    }

    /// Whether the reckoning of `remaining_from` stays within the longest
    /// span of time.
    pub open spec fn clock_fits(self, color: Color, i: int, remaining: int, now: Timestamp) -> bool
        decreases self.moves.len() + 2 - i,
    {
        if i < 0 || i > self.moves.len() {
            true
        } else {
            match self.move_duration(i, now) {
                None => true,
                Some(spent) => remaining < spent.nanos || {
                    let next = remaining - spent.nanos + self.time_control.increment@[spec_slot(
                        color,
                    )].nanos;
                    next <= MAX_NANOS && self.clock_fits(color, i + 2, next, now)
                },
            }
        }
    }

    /// The time that the color has left at the instant `now`.
    pub open spec fn time_remaining(self, color: Color, now: Timestamp) -> int {
        self.remaining_from(
            color,
            spec_slot(color),
            self.time_control.base_time@[spec_slot(color)].nanos as int,
            now,
        )
    }

    /// Whether the instants of the recorded moves lie in the years that a
    /// game reckons with.
    pub open spec fn wf(self) -> bool {
        forall|i: int| 0 <= i < self.moves.len() ==> (#[trigger] self.moves[i]).1.wf()
    }

    /// The game after the player of `color` resigned.
    pub open spec fn resigned(self, color: Color) -> GameModel {
        GameModel {
            result: Some(
                GameResult::Win { winner: color.spec_other(), reason: WinReason::Resignation },
            ),
            ..self
        }
    }

    /// The game after the player of `color` retracted its draw offer, if it
    /// had made one.
    pub open spec fn retracted(self, color: Color) -> GameModel {
        if self.draw_offer == Some(color) {
            GameModel { draw_offer: None, ..self }
        } else {
            self
        }
    }

    /// The game after the player of `color` tried to accept a draw, and
    /// whether there was an offer of the opponent to accept. The offer is
    /// gone either way.
    pub open spec fn accepted(self, color: Color) -> (GameModel, Result<(), ApplyActionError>) {
        match self.draw_offer {
            None => (self, Err(ApplyActionError::DrawNotOffered)),
            Some(offered_by) => if offered_by == color {
                (GameModel { draw_offer: None, ..self }, Err(ApplyActionError::DrawNotOffered))
            } else {
                (
                    GameModel {
                        draw_offer: None,
                        result: Some(
                            GameResult::Draw { reason: DrawReason::Agreement { offered_by } },
                        ),
                        ..self
                    },
                    Ok(()),
                )
            },
        }
    }

    /// The result of the game once `color` has moved and the board is
    /// `board`: a win by checkmate if the opponent has no legal move and is
    /// in check, a draw by stalemate if it has none and is not, and the
    /// result as it was otherwise.
    pub open spec fn result_after_move(self, board: BoardModel, color: Color) -> Option<
        GameResult,
    > {
        if board.possible_moves(color.spec_other()).len() == 0 {
            if board.in_check(color.spec_other()) is Some {
                Some(GameResult::Win { winner: color, reason: WinReason::Checkmate })
            } else {
                Some(GameResult::Draw { reason: DrawReason::Stalemate })
            }
        } else {
            self.result
        }
    }

    /// The game after the player of `color` tried to play the regular move
    /// `mov` at the instant `now`, in a game that is not finished. The move
    /// is recorded with its instant whether or not it is legal; a legal
    /// move is played on the board.
    pub open spec fn moved(self, mov: Move, color: Color, now: Timestamp) -> (
        GameModel,
        Result<(), ApplyActionError>,
    ) {
        let recorded = GameModel { moves: self.moves.push((mov, now)), ..self };
        match self.board.get_move(mov.spec_origin(), mov.spec_destination(), color) {
            Err(e) => (recorded, Err(ApplyActionError::MoveError(e))),
            Ok(_) => {
                let board = self.board.after(mov, color);
                (
                    GameModel {
                        board,
                        result: self.result_after_move(board, color),
                        ..recorded
                    },
                    Ok(()),
                )
            },
        }
    }

    /// The game after the player of `color` took the action at the instant
    /// `now`, and whether the action was accepted. Out of turn nothing is
    /// accepted, and the game stays as it is.
    pub open spec fn after_action(self, action: Action, color: Color, now: Timestamp) -> (
        GameModel,
        Result<(), ApplyActionError>,
    ) {
        if color != self.turn() {
            (self, Err(ApplyActionError::NotYourTurn))
        } else {
            match action {
                Action::Move(mov) => if self.winner() is Some {
                    (self, Err(ApplyActionError::GameIsFinished))
                } else {
                    self.moved(mov, color, now)
                },
                Action::Resign => (self.resigned(color), Ok(())),
                Action::OfferDraw => (GameModel { draw_offer: Some(color), ..self }, Ok(())),
                Action::RetractDraw => (self.retracted(color), Ok(())),
                Action::AcceptDraw => self.accepted(color),
            }
        }
    }

    /// Whether the player of `color` can be allowed to try the move: the
    /// move is regular and between two tiles, the board meets its standing
    /// invariant, the opponent's king is not in check, and if the movement
    /// between the two tiles is legal, `mov` is that legal move.
    pub open spec fn admits(self, mov: Move, color: Color) -> bool {
        &&& mov is Regular
        &&& mov.spec_origin().wf()
        &&& mov.spec_destination().wf()
        &&& self.board.wf()
        &&& self.board.in_check(color.spec_other()) is None
        &&& self.board.get_move(mov.spec_origin(), mov.spec_destination(), color) is Ok
            ==> self.board.get_move(mov.spec_origin(), mov.spec_destination(), color).unwrap().0
            == mov
    }
}

/// A game.
///
/// This type includes management of:
/// - the current [`Board`] state
/// - the [`Move`] history
/// - time controls ([`TimeControl`])
/// - whether the game has finished ([`GameResult`])
///
/// The game does not read a clock: whoever calls it hands it the instant.
#[derive(Debug)]
pub struct Game {
    board: Board,
    time_control: TimeControl,
    moves: Vec<(Move, Timestamp)>,
    result: Option<GameResult>,
    draw_offer: Option<Color>,
}

impl View for Game {
    type V = GameModel;

    closed spec fn view(&self) -> GameModel {
        GameModel {
            board: self.board@,
            time_control: self.time_control,
            moves: self.moves@,
            result: self.result,
            draw_offer: self.draw_offer,
        }
    }
}

impl Game {
    /// Creates a new game from the default position with the given
    /// [`TimeControl`].
    ///
    /// See also [`Self::from_position`].
    pub fn new(time_control: TimeControl) -> (r: Game)
        ensures
            r@ == (GameModel {
                board: BoardModel::initial(),
                time_control,
                moves: Seq::empty(),
                result: None,
                draw_offer: None,
            }),
    {
        Self::from_position(Board::default(), time_control)
    }

    /// Creates a new game from a specific [`Board`] state with
    /// [`TimeControl`].
    ///
    /// See also [`Self::new`].
    pub fn from_position(board: Board, time_control: TimeControl) -> (r: Game)
        ensures
            r@ == (GameModel {
                board: board@,
                time_control,
                moves: Seq::empty(),
                result: None,
                draw_offer: None,
            }),
    {
        Game { board, time_control, moves: Vec::new(), result: None, draw_offer: None }
    }

    /// The color of the player that has to make a move.
    pub fn turn(&self) -> (r: Color)
        ensures
            r == self@.turn(),
    {
        if self.moves.len() % 2 == 0 {
            Color::White
        } else {
            Color::Black
        }
    }

    /// The current board state of the game.
    pub fn board(&self) -> (r: &Board)
        ensures
            r@ == self@.board,
    {
        &self.board
    }

    /// The time control of the game.
    pub fn time_control(&self) -> (r: TimeControl)
        ensures
            r == self@.time_control,
    {
        self.time_control
    }

    /// The [`GameResult`] of the game, if it has concluded.
    pub fn result(&self) -> (r: Option<GameResult>)
        ensures
            r == self@.result,
    {
        self.result
    }

    /// The move history from a player's side.
    pub fn moves_from(&self, color: Color) -> (r: Vec<(Move, Timestamp)>)
        ensures
            r@ == self@.moves_from(color),
    {
        let first: usize = slot(color);
        let len: usize = self.moves.len();
        let count: usize = if len >= first {
            (len - first) / 2 + (len - first) % 2
        } else {
            0
        };
        let mut out: Vec<(Move, Timestamp)> = Vec::new();
        let mut k: usize = 0;
        while k < count
            invariant
                k <= count,
                len == self.moves@.len(),
                first == spec_slot(color),
                count == self@.moves_from(color).len(),
                out@.len() == k,
                forall|j: int| 0 <= j < k ==> out@[j] == self@.moves_from(color)[j],
            decreases count - k,
        {
            out.push(self.moves[2 * k + first]);
            k += 1;
        }
        assert(out@ =~= self@.moves_from(color));
        out
    }

    /// How long it took or is taking to play the `i`th move of the game.
    ///
    /// Note that this is the `i`th move in general, for both colors. In
    /// other words, if `i` is even, it is a white move; if `i` is odd, it
    /// is a black move.
    ///
    /// If `i` is the move that is awaited, the result is the amount of time
    /// that has passed until `now`.
    ///
    /// For the first move of each color the result is no time at all,
    /// since first moves don't spend time; but if the move hasn't been
    /// played yet, it is `None`.
    ///
    /// Returns `None` if the move is further ahead.
    pub fn move_duration(&self, i: usize, now: Timestamp) -> (r: Option<Duration>)
        requires
            self@.wf(),
            now.wf(),
        ensures
            r == self@.move_duration(i as int, now),
            r is Some ==> r.unwrap().wf(),
    {
        if i < 2 {
            return if i < self.moves.len() {
                Some(Duration::zero())
            } else {
                None
            };
        }
        if i - 1 >= self.moves.len() {
            return None;
        }
        let start = self.moves[i - 1].1;
        let end = if i < self.moves.len() {
            self.moves[i].1
        } else {
            now
        };
        Some(end.distance(start))
    }

    /// The amount of time the player of the given color has to make a move
    /// when it's their turn, at the instant `now`.
    ///
    /// Returns no time at all if the player has run out of time.
    pub fn time_remaining(&self, color: Color, now: Timestamp) -> (r: Duration)
        requires
            self@.wf(),
            now.wf(),
            self@.time_control.wf(),
            self@.moves.len() + 2 <= usize::MAX,
            self@.clock_fits(
                color,
                spec_slot(color),
                self@.time_control.base_time@[spec_slot(color)].nanos as int,
                now,
            ),
        ensures
            r.nanos == self@.time_remaining(color, now),
    {
        let mut i: usize = slot(color);
        let mut time_remaining = self.time_control.base_time[slot(color)];
        loop
            invariant
                self@.wf(),
                now.wf(),
                i <= self.moves@.len() + 2,
                self.moves@.len() + 2 <= usize::MAX,
                time_remaining.wf(),
                self@.clock_fits(color, i as int, time_remaining.nanos as int, now),
                self@.time_remaining(color, now) == self@.remaining_from(
                    color,
                    i as int,
                    time_remaining.nanos as int,
                    now,
                ),
            decreases self.moves@.len() + 2 - i,
        {
            let move_duration = match self.move_duration(i, now) {
                Some(found) => found,
                None => {
                    return time_remaining;
                },
            };
            // The time is taken before the increment is given: the other
            // order would underflow where the move took longer than what
            // was left with the increment.
            if time_remaining.nanos < move_duration.nanos {
                return Duration::zero();
            }
            time_remaining = time_remaining - move_duration;
            time_remaining = time_remaining + self.time_control.increment[slot(color)];
            i += 2;
        }
    }

    /// The winner of the game, if it has concluded. It is a nested option
    /// because it:
    /// - returns `None` if the game hasn't finished.
    /// - returns `Some(None)` if the game resulted in a draw
    /// - returns `Some(color)` if `color` has won the game
    pub fn winner(&self) -> (r: Option<Option<Color>>)
        ensures
            r == self@.winner(),
    {
        match self.result {
            Some(GameResult::Win { winner, .. }) => Some(Some(winner)),
            Some(GameResult::Draw { .. }) => Some(None),
            None => None,
        }
    }

    /// Whether the game has finished.
    #[inline]
    pub fn is_finished(&self) -> (r: bool)
        ensures
            r == self@.winner() is Some,
    {
        self.winner().is_some()
    }

    /// Make a resignation from the player with the given color.
    ///
    /// Makes the player of the opposite color win.
    #[inline]
    pub fn resign(&mut self, color: Color)
        ensures
            final(self)@ == old(self)@.resigned(color),
    {
        self.result = Some(
            GameResult::Win { winner: color.other(), reason: WinReason::Resignation },
        );
    }

    /// Offer a draw from the player of the given color.
    #[inline]
    pub fn offer_draw(&mut self, color: Color) -> (r: Result<(), ApplyActionError>)
        ensures
            r == Ok::<(), ApplyActionError>(()),
            final(self)@ == (GameModel { draw_offer: Some(color), ..old(self)@ }),
    {
        self.draw_offer = Some(color);
        Ok(())
    }

    /// Retract the draw offer of the player of the given color, if there is
    /// one.
    #[inline]
    pub fn retract_draw(&mut self, color: Color) -> (r: Result<(), ApplyActionError>)
        ensures
            r == Ok::<(), ApplyActionError>(()),
            final(self)@ == old(self)@.retracted(color),
    {
        let offered_by = match self.draw_offer {
            Some(color) => color,
            None => {
                return Ok(());
            },
        };
        if offered_by != color {
            return Ok(());
        }
        self.draw_offer = None;
        Ok(())
    }

    /// Whether the player of the given color can be allowed to try the
    /// move with [`Self::apply_action`]: the move is regular and between two
    /// tiles, the board is consistent, the opponent's king is not in check,
    /// and if the movement between the two tiles is legal, `mov` is that
    /// legal move.
    pub fn admits(&self, mov: Move, color: Color) -> (r: bool)
        ensures
            r == self@.admits(mov, color),
    {
        let (origin, destination) = match mov {
            Move::Regular { origin, destination, .. } => (origin, destination),
            _ => {
                return false;
            },
        };
        if !Vec2::is_valid(origin.x(), origin.y()) || !Vec2::is_valid(
            destination.x(),
            destination.y(),
        ) {
            return false;
        }
        if !self.board.can_play(color) {
            return false;
        }
        match self.board.get_move(origin, destination, color) {
            Ok((legal, _)) => legal == mov,
            Err(_) => true,
        }
    }

    /// Tries to apply an [`Action`] from the given [`Color`], at the
    /// instant `now`.
    ///
    /// Returns an [`ApplyActionError`] if the action is not possible.
    pub fn apply_action(&mut self, action: Action, color: Color, now: Timestamp) -> (r: Result<
        (),
        ApplyActionError,
    >)
        requires
            action is Move && color == old(self)@.turn() && old(self)@.winner() is None ==> old(
                self,
            )@.admits(action->Move_0, color),
        ensures
            (final(self)@, r) == old(self)@.after_action(action, color, now),
    {
        if color != self.turn() {
            return Err(ApplyActionError::NotYourTurn);
        }
        match action {
            Action::Move(mov) => {
                if self.is_finished() {
                    return Err(ApplyActionError::GameIsFinished);
                }
                let ghost origin = mov.spec_origin();
                let ghost destination = mov.spec_destination();
                let ghost before = self.board@;
                proof {
                    before.lemma_playable(color);
                    assert(before.spares(origin, destination, color));
                    if before.get_move(origin, destination, color) is Ok {
                        let piece = before.get(origin, color).unwrap();
                        piece.lemma_movement_is_regular(origin, destination, before, color);
                        before.lemma_legal_move_keeps_wf(origin, destination, color);
                    }
                }
                self.moves.push((mov, now));
                if let Err(e) = self.board.apply_move(mov, color) {
                    return Err(ApplyActionError::MoveError(e));
                }
                proof {
                    self.board@.lemma_playable(color.spec_other());
                }
                if self.board.possible_moves(color.other()).len() == 0 {
                    if self.board.in_check(color.other()).is_some() {
                        self.result = Some(
                            GameResult::Win { winner: color, reason: WinReason::Checkmate },
                        );
                    } else {
                        self.result = Some(GameResult::Draw { reason: DrawReason::Stalemate });
                    }
                }
                Ok(())
            },
            Action::Resign => {
                self.resign(color);
                Ok(())
            },
            Action::OfferDraw => self.offer_draw(color),
            Action::RetractDraw => self.retract_draw(color),
            Action::AcceptDraw => self.accept_draw(color),
        }
    }

    /// Accept the draw that the opponent of the given color has offered.
    pub fn accept_draw(&mut self, color: Color) -> (r: Result<(), ApplyActionError>)
        ensures
            (final(self)@, r) == old(self)@.accepted(color),
    {
        let offered_by = match self.draw_offer {
            Some(color) => color,
            None => {
                return Err(ApplyActionError::DrawNotOffered);
            },
        };
        self.draw_offer = None;
        if offered_by == color {
            return Err(ApplyActionError::DrawNotOffered);
        }
        self.result = Some(GameResult::Draw { reason: DrawReason::Agreement { offered_by } });
        Ok(())
    }

    /// Who has offered a draw, if anyone.
    #[inline]
    pub fn draw_offer(&self) -> (r: Option<Color>)
        ensures
            r == self@.draw_offer,
    {
        self.draw_offer
    }
}

} // verus!
