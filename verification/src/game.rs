//! The game aggregate: two players, a board, a turn indicator, and
//! the single `apply_move` operation that drives the state machine.

use vstd::prelude::*;
use vstd::string::StrSliceExecFns;

use crate::board::Board;
use crate::board::BoardView;
use crate::board::MoveError;
use crate::board::board_full;
use crate::board::empty_board;
use crate::board::marks_preserved;
use crate::board::render_spec;
use crate::board::winner_of;

verus! {

/// A player: a stable display name used for registry lookup, and the
/// mark placed on the board on that player's turns.
pub struct Player {
    pub name: String,
    pub mark: String,
}

impl Player {
    pub fn new(name: String, mark: String) -> (p: Player)
        ensures
            p.name == name,
            p.mark == mark,
    {
        Player { name, mark }
    }
}

/// The lifecycle of a game. `AwaitingPlayer1Move` is the initial
/// state; `Player1Won`, `Player2Won` and `Draw` are terminal.
#[derive(Clone, Copy, Debug, PartialEq, Eq, Structural)]
pub enum GameState {
    AwaitingPlayer1Move,
    AwaitingPlayer2Move,
    Player1Won,
    Player2Won,
    Draw,
}

impl GameState {
    /// No transition leaves a terminal state.
    pub open spec fn is_terminal(self) -> bool {
        self is Player1Won || self is Player2Won || self is Draw
    }
}

/// True if `c` is a decimal digit.
pub open spec fn is_digit(c: char) -> bool {
    48 <= c as u32 <= 57
}

/// The value of a decimal digit.
pub open spec fn digit_val(c: char) -> nat {
    (c as u32 - 48) as nat
}

/// True if every character of `s` is a decimal digit.
pub open spec fn all_digits(s: Seq<char>) -> bool {
    forall|i: int| 0 <= i < s.len() ==> is_digit(s[i])
}

/// The value of `s` read as a decimal numeral.
pub open spec fn dec_value(s: Seq<char>) -> nat
    decreases s.len(),
{
    if s.len() == 0 {
        0
    } else {
        dec_value(s.drop_last()) * 10 + digit_val(s.last())
    }
}

/// True if `s` names a board position: a non-empty string of decimal
/// digits whose value is at most 8.
pub open spec fn valid_position_token(s: Seq<char>) -> bool {
    s.len() > 0 && all_digits(s) && dec_value(s) <= 8
}

/// Reading one more digit multiplies the value by ten and adds it.
proof fn lemma_dec_value_step(s: Seq<char>, i: int)
    requires
        0 <= i < s.len(),
    ensures
        dec_value(s.subrange(0, i + 1)) == dec_value(s.subrange(0, i)) * 10 + digit_val(s[i]),
{
    let t = s.subrange(0, i + 1);
    assert(t.drop_last() =~= s.subrange(0, i));
    assert(t.last() == s[i]);
}

/// Resolve a move token to a board position: the token must be a
/// non-empty string of decimal digits with value at most 8.
pub fn parse_position(token: &str) -> (r: Option<u8>)
    ensures
        match r {
            Some(p) => valid_position_token(token@) && p == dec_value(token@) && p <= 8,
            None => !valid_position_token(token@),
        },
{
    let len = token.unicode_len();
    if len == 0 {
        return None;
    }
    let mut i: usize = 0;
    let mut value: u32 = 0;
    let mut too_big = false;
    while i < len
        invariant
            len == token@.len(),
            i <= len,
            forall|j: int| 0 <= j < i ==> is_digit(token@[j]),
            !too_big ==> value == dec_value(token@.subrange(0, i as int)) && value <= 8,
            too_big ==> dec_value(token@.subrange(0, i as int)) > 8,
        decreases len - i,
    {
        let c = token.get_char(i);
        let d = c as u32;
        if d < 48 || d > 57 {
            return None;
        }
        proof {
            lemma_dec_value_step(token@, i as int);
        }
        if !too_big {
            let next = value * 10 + (d - 48);
            if next > 8 {
                too_big = true;
            } else {
                value = next;
            }
        }
        i = i + 1;
    }
    proof {
        assert(token@.subrange(0, len as int) =~= token@);
    }
    if too_big {
        None
    } else {
        Some(value as u8)
    }
}

/// A game: a board, the two players, and the lifecycle state.
pub struct Game {
    pub board: Board,
    pub player1: Player,
    pub player2: Player,
    pub state: GameState,
}

/// What a game looks like right after `start`: the given players, an
/// empty board, and player 1 to move.
pub open spec fn initial_game(g: Game, player1: Player, player2: Player) -> bool {
    &&& g.wf()
    &&& g.board@ == empty_board()
    &&& g.player1 == player1
    &&& g.player2 == player2
    &&& g.state is AwaitingPlayer1Move
}

/// The mark the acting player would place, given the turn indicator.
pub open spec fn acting_mark(g: Game) -> Seq<char> {
    if g.state is AwaitingPlayer1Move {
        g.player1.mark@
    } else {
        g.player2.mark@
    }
}

/// The state a game enters after a successful placement left the
/// board at `b`: the acting player wins if and only if the board now
/// shows a complete line of their mark; otherwise the game is a draw
/// if and only if the board is full; otherwise the turn alternates.
pub open spec fn step_state(b: BoardView, g: Game) -> GameState {
    match g.state {
        GameState::AwaitingPlayer1Move => {
            if winner_of(b) == Some(g.player1.mark@) {
                GameState::Player1Won
            } else if board_full(b) {
                GameState::Draw
            } else {
                GameState::AwaitingPlayer2Move
            }
        },
        GameState::AwaitingPlayer2Move => {
            if winner_of(b) == Some(g.player2.mark@) {
                GameState::Player2Won
            } else if board_full(b) {
                GameState::Draw
            } else {
                GameState::AwaitingPlayer1Move
            }
        },
        _ => g.state,
    }
}

impl Game {
    pub open spec fn wf(&self) -> bool {
        self.board.wf()
    }

    /// A fresh game between the two players, in the initial state.
    pub fn new(player1: Player, player2: Player) -> (g: Game)
        ensures
            initial_game(g, player1, player2),
    {
        Game { board: Board::new(), player1, player2, state: GameState::AwaitingPlayer1Move }
    }

    /// True if `name` is the display name of either player
    /// (case-sensitive exact match).
    pub fn has_player(&self, name: &String) -> (r: bool)
        ensures
            r == spec_has_player(*self, name@),
    {
        self.player1.name == *name || self.player2.name == *name
    }

    /// The player whose turn it is. Meaningless in a terminal state,
    /// which callers must rule out.
    pub fn current_player(&self) -> (r: &Player)
        requires
            !self.state.is_terminal(),
        ensures
            *r == (if self.state is AwaitingPlayer1Move {
                self.player1
            } else {
                self.player2
            }),
    {
        if matches!(self.state, GameState::AwaitingPlayer1Move) {
            &self.player1
        } else {
            &self.player2
        }
    }

    /// The rendering of the current board.
    pub fn render_table(&self) -> (r: String)
        requires
            self.wf(),
        ensures
            r@ == render_spec(self.board@),
    {
        self.board.render()
    }

    /// Apply one move. The token is resolved to a position 0..=8
    /// (`InvalidPosition` otherwise); a move against a finished game
    /// fails with `GameAlreadyOver`; a move onto an occupied cell
    /// fails with `CellOccupied`. On success the acting player's mark
    /// is placed and the state advances as `step_state` says; on any
    /// failure the game is left exactly as it was, and the turn does
    /// not pass. Occupied cells are never cleared or reassigned.
    pub fn apply_move(&mut self, position_token: &str) -> (r: Result<GameState, MoveError>)
        requires
            old(self).wf(),
        ensures
            final(self).wf(),
            final(self).player1 == old(self).player1,
            final(self).player2 == old(self).player2,
            marks_preserved(old(self).board@, final(self).board@),
            match r {
                Ok(st) => {
                    &&& valid_position_token(position_token@)
                    &&& !old(self).state.is_terminal()
                    &&& old(self).board@[dec_value(position_token@) as int] is None
                    &&& final(self).board@ == old(self).board@.update(
                        dec_value(position_token@) as int,
                        Some(acting_mark(*old(self))),
                    )
                    &&& final(self).state == step_state(final(self).board@, *old(self))
                    &&& st == final(self).state
                },
                Err(e) => {
                    &&& *final(self) == *old(self)
                    &&& (!valid_position_token(position_token@) || old(self).state.is_terminal()
                        || old(self).board@[dec_value(position_token@) as int] is Some)
                    &&& e == (if !valid_position_token(position_token@) {
                        MoveError::InvalidPosition
                    } else if old(self).state.is_terminal() {
                        MoveError::GameAlreadyOver
                    } else {
                        MoveError::CellOccupied
                    })
                },
            },
    {
        let position = match parse_position(position_token) {
            Some(p) => p,
            None => {
                return Err(MoveError::InvalidPosition);
            },
        };
        let player1_acting = match self.state {
            GameState::AwaitingPlayer1Move => true,
            GameState::AwaitingPlayer2Move => false,
            _ => {
                return Err(MoveError::GameAlreadyOver);
            },
        };
        let mark = if player1_acting {
            self.player1.mark.clone()
        } else {
            self.player2.mark.clone()
        };
        match self.board.place(position as usize, mark) {
            Ok(()) => {},
            Err(e) => {
                return Err(e);
            },
        }
        let won = match self.board.winner() {
            Some(w) => {
                if player1_acting {
                    *w == self.player1.mark
                } else {
                    *w == self.player2.mark
                }
            },
            None => false,
        };
        let next = if won {
            if player1_acting {
                GameState::Player1Won
            } else {
                GameState::Player2Won
            }
        } else if self.board.is_full() {
            GameState::Draw
        } else {
            if player1_acting {
                GameState::AwaitingPlayer2Move
            } else {
                GameState::AwaitingPlayer1Move
            }
        };
        self.state = next;
        Ok(next)
    }
}

/// True if `name` is the display name of either player of `g`.
pub open spec fn spec_has_player(g: Game, name: Seq<char>) -> bool {
    g.player1.name@ == name || g.player2.name@ == name
}

/// A game enters `Player1Won` or `Player2Won` if and only if the
/// board right after the move shows a complete line of the acting
/// player's mark, and it enters `Draw` if and only if the board is
/// full with no such line.
pub proof fn lemma_outcome_iff(b: BoardView, g: Game)
    requires
        !g.state.is_terminal(),
    ensures
        step_state(b, g) is Player1Won <==> (g.state is AwaitingPlayer1Move && winner_of(b)
            == Some(g.player1.mark@)),
        step_state(b, g) is Player2Won <==> (g.state is AwaitingPlayer2Move && winner_of(b)
            == Some(g.player2.mark@)),
        step_state(b, g) is Draw <==> (board_full(b) && winner_of(b) != Some(acting_mark(g))),
{
}

/// Occupied cells only grow, move after move: preservation of marks
/// composes across any sequence of board states.
pub proof fn lemma_marks_preserved_trans(b1: BoardView, b2: BoardView, b3: BoardView)
    requires
        b1.len() == b2.len(),
        marks_preserved(b1, b2),
        marks_preserved(b2, b3),
    ensures
        marks_preserved(b1, b3),
{
}

/// Rendering is deterministic: two renderings of the same board are
/// identical.
pub proof fn lemma_render_deterministic(b: BoardView, r1: Seq<char>, r2: Seq<char>)
    requires
        r1 == render_spec(b),
        r2 == render_spec(b),
    ensures
        r1 == r2,
{
}

} // verus!
