use vstd::prelude::*;

use crate::game_core::game::{GameView, game_error_message, play};
use crate::game_core::game_logic::{get_all_valid_moves_for_player, stalemate, valid_moves_for_player, winner, Move};
use crate::game_core::piece::{Color, opposite_color};
use crate::interface::input::Key;
use crate::state::ai_state::AIView;
use crate::state::game_session::{GameSession, SessionView};
use crate::state::machine::AnyState;
use crate::state::states::{game_over_view, GameOverState, PlayingState};
use crate::state::transition::StateTransition;

use crate::state::view_data::{ViewData, base_view, plain_view, hint_of, hint_text, opt_text, welcome_texts, move_view, last_move_of};

verus! {

/// The computer's turn (it plays black).
#[derive(Debug, Clone, Copy, PartialEq, Eq, Structural)]
pub struct AITurnState {
    pub move_requested: bool,
}

/// The session with the computer thinking.
pub open spec fn thinking(s: SessionView) -> SessionView {
    SessionView { ai: AIView { thinking: true, error: None }, ..s }
}

/// The game with the turn passed to the other side.
pub open spec fn switched(g: GameView) -> GameView {
    GameView { player: opposite_color(g.player), ..g }
}

/// The session after the computer's move gave game `g`: the error is
/// cleared, and the game ends if one side is left alone or the side to move
/// is stuck (the other side then wins).
pub open spec fn after_computer_move(s1: SessionView, g: GameView) -> (SessionView, StateTransition) {
    let s2 = SessionView { game: g, ai: AIView { thinking: s1.ai.thinking, error: None }, ..s1 };
    if winner(g.board) is Some {
        (game_over_view(s2), StateTransition::To(AnyState::GameOver(GameOverState { winner: winner(g.board) })))
    } else if stalemate(g.board, g.player) {
        (game_over_view(s2), StateTransition::To(AnyState::GameOver(GameOverState { winner: Some(opposite_color(g.player)) })))
    } else {
        (s2, StateTransition::To(AnyState::Playing(PlayingState)))
    }
}

/// The session with the computer stopped on error `e`.
pub open spec fn failed(s1: SessionView, e: Seq<char>, switch_turn: bool) -> SessionView {
    SessionView {
        game: if switch_turn { switched(s1.game) } else { s1.game },
        ai: AIView { thinking: false, error: Some(e) },
        ..s1
    }
}

/// The first capture among the first `k` moves, if any.
pub open spec fn first_capture(moves: Seq<Move>, k: int) -> Option<Move>
    decreases k,
{
    if k <= 0 {
        None
    } else {
        match first_capture(moves, k - 1) {
            Some(m) => Some(m),
            None => if moves[k - 1].2 { Some(moves[k - 1]) } else { None },
        }
    }
}

/// The move the simple computer player picks: its first capture if it has
/// one, else its first move.
pub open spec fn simple_choice(moves: Seq<Move>) -> Move {
    match first_capture(moves, moves.len() as int) {
        Some(m) => m,
        None => moves[0],
    }
}

impl AITurnState {
    pub fn new() -> (s: AITurnState)
        ensures
            !s.move_requested,
    {
        AITurnState { move_requested: false }
    }

    /// The turn of the simple computer player (used when no model answers):
    /// with no move it loses; else it plays its first capture, or its first
    /// move if it cannot capture.
    pub open spec fn step(self, s: SessionView) -> (SessionView, StateTransition) {
        if self.move_requested {
            (s, StateTransition::Stay)
        } else {
            let s1 = thinking(s);
            let moves = valid_moves_for_player(s.game.board, Color::Black);
            if moves.len() == 0 {
                (game_over_view(s1), StateTransition::To(AnyState::GameOver(GameOverState { winner: Some(Color::White) })))
            } else {
                let m = simple_choice(moves);
                match play(s1.game, m.0.0, m.0.1, m.1.0, m.1.1) {
                    Ok((g, _)) => after_computer_move(s1, g),
                    Err(e) => (failed(s1, "AI error: "@ + game_error_message(e), false), StateTransition::To(AnyState::Playing(PlayingState))),
                }
            }
        }
    }

    /// The turn when a model was asked for a move and gave `result` (the
    /// move, or the text of the error): the move is played if the rules
    /// allow; otherwise the error is shown and the turn passes.
    pub open spec fn step_with_result(self, s: SessionView, result: Result<((usize, usize), (usize, usize)), Seq<char>>) -> (SessionView, StateTransition) {
        if self.move_requested {
            (s, StateTransition::Stay)
        } else {
            let s1 = thinking(s);
            match result {
                Ok((f, t)) => match play(s1.game, f.0, f.1, t.0, t.1) {
                    Ok((g, _)) => after_computer_move(s1, g),
                    Err(e) => (failed(s1, "AI failed to move: "@ + game_error_message(e), true), StateTransition::To(AnyState::Playing(PlayingState))),
                },
                Err(m) => (failed(s1, "AI Error: "@ + m, true), StateTransition::To(AnyState::Playing(PlayingState))),
            }
        }
    }

    pub fn handle_input(&self, session: &GameSession, _key: Key) -> (res: (GameSession, StateTransition))
        requires
            session.wf(),
        ensures
            (res.0@, res.1) == self.step(session@),
            res.0.wf(),
    {
        if self.move_requested {
            return (session.clone(), StateTransition::Stay);
        }
        let mut new_session = session.clone();
        new_session.ai_state = new_session.ai_state.start_thinking();
        let all_moves = get_all_valid_moves_for_player(&new_session.game.board, Color::Black);
        if all_moves.len() == 0 {
            new_session.game.is_game_over = true;
            return (new_session, StateTransition::To(AnyState::GameOver(GameOverState::new(Some(Color::White)))));
        }
        let chosen = choose_simple_move(&all_moves);
        let ghost s1 = new_session@;
        let ((from_row, from_col), (to_row, to_col), _) = chosen;
        match new_session.game.make_move(from_row, from_col, to_row, to_col) {
            Ok((updated_game, _)) => {
                new_session.game = updated_game;
                new_session.ai_state = new_session.ai_state.clear_error();
                Self::end_if_over(new_session)
            },
            Err(e) => {
                let mut msg = String::from_str("AI error: ");
                let text = e.message();
                msg.append(text.as_str());
                new_session.ai_state = new_session.ai_state.set_error(msg);
                (new_session, StateTransition::To(AnyState::Playing(PlayingState::new())))
            },
        }
    }

    /// Plays the move `ai_result` a model gave, or shows its error.
    pub fn handle_ai_result(
        &self,
        session: &GameSession,
        ai_result: Result<((usize, usize), (usize, usize)), String>,
    ) -> (res: (GameSession, StateTransition))
        requires
            session.wf(),
        ensures
            (res.0@, res.1) == self.step_with_result(session@, match ai_result {
                Ok(m) => Ok(m),
                Err(e) => Err(e@),
            }),
            res.0.wf(),
    {
        if self.move_requested {
            return (session.clone(), StateTransition::Stay);
        }
        let mut new_session = session.clone();
        new_session.ai_state = new_session.ai_state.start_thinking();
        match ai_result {
            Ok(((from_row, from_col), (to_row, to_col))) => {
                match new_session.game.make_move(from_row, from_col, to_row, to_col) {
                    Ok((updated_game, _)) => {
                        new_session.game = updated_game;
                        new_session.ai_state = new_session.ai_state.clear_error();
                        Self::end_if_over(new_session)
                    },
                    Err(e) => {
                        let mut msg = String::from_str("AI failed to move: ");
                        let text = e.message();
                        msg.append(text.as_str());
                        new_session.ai_state = new_session.ai_state.set_error(msg);
                        new_session.game = new_session.game.with_switched_player();
                        (new_session, StateTransition::To(AnyState::Playing(PlayingState::new())))
                    },
                }
            },
            Err(e) => {
                let mut msg = String::from_str("AI Error: ");
                msg.append(e.as_str());
                new_session.ai_state = new_session.ai_state.set_error(msg);
                new_session.game = new_session.game.with_switched_player();
                (new_session, StateTransition::To(AnyState::Playing(PlayingState::new())))
            },
        }
    }

    /// Whether a hint for white is asked for once the model's move `result`
    /// is handled: the move is played (the turn was not already taken and the
    /// rules allow it), a hint provider is set, and before the move it was
    /// white's turn in a game not over.
    pub open spec fn wants_hint(self, s: SessionView, result: Result<((usize, usize), (usize, usize)), Seq<char>>) -> bool {
        &&& !self.move_requested
        &&& s.provider is Some
        &&& s.game.player == Color::White
        &&& !s.game.over
        &&& match result {
            Ok((f, t)) => play(s.game, f.0, f.1, t.0, t.1) is Ok,
            Err(_) => false,
        }
    }

    pub fn hint_after_ai_move(
        &self,
        session: &GameSession,
        ai_result: &Result<((usize, usize), (usize, usize)), String>,
    ) -> (res: bool)
        requires
            session.wf(),
        ensures
            res == self.wants_hint(session@, match ai_result {
                Ok(m) => Ok(*m),
                Err(e) => Err(e@),
            }),
    {
        if self.move_requested || session.hint_provider.is_none() || session.game.is_game_over {
            return false;
        }
        match session.game.current_player {
            Color::Black => false,
            Color::White => match ai_result {
                Ok(((from_row, from_col), (to_row, to_col))) => {
                    session.game.make_move(*from_row, *from_col, *to_row, *to_col).is_ok()
                },
                Err(_) => false,
            },
        }
    }

    /// Ends the game after the computer's move if it is over.
    fn end_if_over(session: GameSession) -> (res: (GameSession, StateTransition))
        requires
            session.wf(),
        ensures
            res.0.wf(),
            res.1 == (if winner(session@.game.board) is Some {
                StateTransition::To(AnyState::GameOver(GameOverState { winner: winner(session@.game.board) }))
            } else if stalemate(session@.game.board, session@.game.player) {
                StateTransition::To(AnyState::GameOver(GameOverState { winner: Some(opposite_color(session@.game.player)) }))
            } else {
                StateTransition::To(AnyState::Playing(PlayingState))
            }),
            res.0@ == (if winner(session@.game.board) is Some || stalemate(session@.game.board, session@.game.player) {
                game_over_view(session@)
            } else {
                session@
            }),
    {
        let mut session = session;
        let winner = session.game.check_winner();
        if winner.is_some() {
            session.game.is_game_over = true;
            return (session, StateTransition::To(AnyState::GameOver(GameOverState::new(winner))));
        }
        if session.game.is_stalemate() {
            let w = Some(session.game.current_player.opposite());
            session.game.is_game_over = true;
            return (session, StateTransition::To(AnyState::GameOver(GameOverState::new(w))));
        }
        (session, StateTransition::To(AnyState::Playing(PlayingState::new())))
    }
}

/// The simple computer player's pick among `moves`.
fn choose_simple_move(moves: &Vec<Move>) -> (m: Move)
    requires
        moves@.len() > 0,
    ensures
        m == simple_choice(moves@),
{
    let mut i: usize = 0;
    while i < moves.len()
        invariant
            i <= moves@.len(),
            first_capture(moves@, i as int) is None,
        decreases moves@.len() - i,
    {
        if moves[i].2 {
            proof {
                assert(first_capture(moves@, i + 1) == Some(moves@[i as int]));
                lemma_first_capture_stable(moves@, i + 1, moves@.len() as int);
            }
            return moves[i];
        }
        i = i + 1;
    }
    moves[0]
}

proof fn lemma_first_capture_stable(moves: Seq<Move>, k: int, k2: int)
    requires
        k <= k2,
        first_capture(moves, k) is Some,
    ensures
        first_capture(moves, k2) == first_capture(moves, k),
    decreases k2 - k,
{
    if k < k2 {
        lemma_first_capture_stable(moves, k, k2 - 1);
    }
}

impl Default for AITurnState {
    fn default() -> (s: Self)
        ensures
            !s.move_requested,
    {
        Self::new()
    }
}


impl AITurnState {
    /// What the screen shows of `session`.
    pub open spec fn shows(&self, v: &ViewData, session: &GameSession, simple_ai: bool) -> bool {
        &&& base_view(v, session, "AI is thinking..."@, simple_ai)
        &&& v.selected_piece is None
        &&& v.possible_moves@ == Seq::<(usize, usize)>::empty()
        &&& v.show_ai_thinking
        &&& opt_text(v.error_message) == session@.ai.error
        &&& v.last_move is None
        &&& hint_text(v.hint) == session@.hint
        &&& !v.is_game_over
        &&& v.welcome_content is None
    }

    /// The computer thinking, with its last error and the hint.
    pub fn get_view_data<'a>(&self, session: &'a GameSession, simple_ai: bool) -> (v: ViewData<'a>)
        ensures
            self.shows(&v, session, simple_ai),
    {
        let mut v = plain_view(session, String::from_str("AI is thinking..."), simple_ai);
        v.show_ai_thinking = true;
        v.error_message = match &session.ai_state.last_error {
            Some(e) => Some(e.as_str()),
            None => None,
        };
        v.hint = hint_of(session);
        v
    }
}

} // verus!
