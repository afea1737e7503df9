use vstd::prelude::*;

use crate::board::{init_board, moves_valid, spec_process, spec_replay, Table};
use crate::piece::PlayerColor;
use crate::position::Move;

verus! {

/// The lifecycle of one game session.
#[derive(Copy, Clone, PartialEq, Eq, Structural, Debug)]
pub enum SessionState {
    Unassigned,
    ToMove,
    WaitingOpponent,
    Ended,
}

/// The status tag of an incremental state event; any tag other than
/// `Started`, the five named terminal ones included, is treated as
/// terminal.
#[derive(Copy, Clone, PartialEq, Eq, Structural, Debug)]
pub enum GameStatus {
    Started,
    Mate,
    Draw,
    Resign,
    Stalemate,
    OutOfTime,
    Other,
}

/// One game owned by the bot: its id, assigned color, board, history and
/// lifecycle state.
pub struct Game {
    pub id: String,
    pub my_color: PlayerColor,
    pub table: Table,
    pub moves: Vec<Move>,
    pub state: SessionState,
}

impl Game {
    pub open spec fn wf(&self) -> bool {
        self.table.wf() && moves_valid(self.moves@)
    }

    /// A fresh session for a newly started game: empty history, initial
    /// board, color unresolved.
    pub fn new(id: String) -> (g: Game)
        ensures
            g.wf(),
            g.my_color == PlayerColor::Unknown,
            g.moves@.len() == 0,
            g.table@ == init_board(),
            g.state == SessionState::Unassigned,
            g.id@ == id@,
    {
        Game {
            id,
            my_color: PlayerColor::Unknown,
            table: Table::default(),
            moves: Vec::new(),
            state: SessionState::Unassigned,
        }
    }

    /// Move-count parity decides whose turn it is: White moves on even
    /// counts, Black on odd ones.
    pub fn is_my_turn(&self) -> (r: bool)
        ensures
            r == ((self.moves@.len() % 2 == 0 && self.my_color == PlayerColor::White) || (
            self.moves@.len() % 2 == 1 && self.my_color == PlayerColor::Black)),
    {
        self.moves.len() % 2 == 0 && self.my_color == PlayerColor::White || self.moves.len() % 2
            == 1 && self.my_color == PlayerColor::Black
    }

    /// The first full-state event of a game resolves the bot's color by
    /// matching the reported white player's name against the bot's own
    /// account name; the session leaves `Unassigned`, and the bot moves
    /// first exactly when it plays White.
    pub fn on_full_event(&mut self, white_name: &String, my_name: &String) -> (to_move: bool)
        requires
            old(self).wf(),
        ensures
            final(self).wf(),
            final(self).my_color == (if white_name@ == my_name@ {
                PlayerColor::White
            } else {
                PlayerColor::Black
            }),
            to_move == (final(self).my_color == PlayerColor::White),
            final(self).state == (if to_move {
                SessionState::ToMove
            } else {
                SessionState::WaitingOpponent
            }),
            final(self).table@ == old(self).table@,
            final(self).moves@ == old(self).moves@,
    {
        self.my_color = if white_name.eq(my_name) {
            PlayerColor::White
        } else {
            PlayerColor::Black
        };
        if self.my_color == PlayerColor::White {
            self.state = SessionState::ToMove;
            true
        } else {
            self.state = SessionState::WaitingOpponent;
            false
        }
    }

    /// An incremental state event: the board is resynchronized against the
    /// authoritative move list, never diffed. On active play the parity
    /// decides whether it is the bot's turn; any other tag — the five named
    /// terminal ones or an unrecognized one — ends the session with no
    /// further action.
    pub fn on_state_event(&mut self, moves: Vec<Move>, status: GameStatus) -> (to_move: bool)
        requires
            old(self).wf(),
            moves_valid(moves@),
        ensures
            final(self).wf(),
            final(self).moves@ == moves@,
            final(self).my_color == old(self).my_color,
            to_move == (status == GameStatus::Started && ((moves@.len() % 2 == 0 && old(
                self,
            ).my_color == PlayerColor::White) || (moves@.len() % 2 == 1 && old(self).my_color
                == PlayerColor::Black))),
            status != GameStatus::Started ==> final(self).state == SessionState::Ended,
            status == GameStatus::Started ==> final(self).state == (if to_move {
                SessionState::ToMove
            } else {
                SessionState::WaitingOpponent
            }),
            (exists|i: int|
                0 <= i <= moves@.len() && #[trigger] spec_replay(moves@, i) == old(self).table@)
                ==> final(self).table@ == spec_replay(moves@, moves@.len() as int),
            !(exists|i: int|
                0 <= i <= moves@.len() && #[trigger] spec_replay(moves@, i) == old(self).table@)
                ==> final(self).table@ == old(self).table@,
    {
        self.table.sync(&moves);
        self.moves = moves;
        match status {
            GameStatus::Started => {
                if self.is_my_turn() {
                    self.state = SessionState::ToMove;
                    true
                } else {
                    self.state = SessionState::WaitingOpponent;
                    false
                }
            },
            _ => {
                self.end();
                false
            },
        }
    }

    /// Marks the session ended; terminal statuses carry no further action.
    pub fn end(&mut self)
        requires
            old(self).wf(),
        ensures
            final(self).wf(),
            final(self).state == SessionState::Ended,
            final(self).table@ == old(self).table@,
            final(self).moves@ == old(self).moves@,
            final(self).my_color == old(self).my_color,
    {
        self.state = SessionState::Ended;
    }

    /// Applies an accepted move to the board and appends it to the history.
    pub fn apply_move(&mut self, m: Move)
        requires
            old(self).wf(),
            m.spec_valid(),
        ensures
            final(self).wf(),
            final(self).table@ == spec_process(old(self).table@, m),
            final(self).moves@ == old(self).moves@.push(m),
            final(self).my_color == old(self).my_color,
            final(self).state == old(self).state,
    {
        self.table.process_move(m);
        self.moves.push(m);
    }
}

} // verus!
