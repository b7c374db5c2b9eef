use vstd::prelude::*;

use crate::ai::hint::HintProvider;
use crate::ai::Hint;
use crate::board::{at, Grid};
use crate::game_core::game::{play, CheckersGame, GameError, GameView, selection_error};
use crate::game_core::game_logic::{can_capture_from, capture_path_to, find_capture_path, has_more_captures_for_piece};
use crate::state::ai_state::{AIState, AIView};
use crate::state::states::WelcomeContent;
use crate::state::ui_state::{cleared, selecting, UIState, UIView};

verus! {

/// A game as it is being played: the game, what the player sees, the state
/// of the computer player, the hint, and the texts of the welcome screen.
pub struct GameSession {
    pub game: CheckersGame,
    pub ui_state: UIState,
    pub ai_state: AIState,
    pub hint: Option<Hint>,
    pub hint_provider: Option<HintProvider>,
    pub welcome_content: Option<WelcomeContent>,
}

/// What a `GameSession` holds.
pub struct SessionView {
    pub game: GameView,
    pub ui: UIView,
    pub ai: AIView,
    pub hint: Option<Seq<char>>,
    pub provider: Option<(Seq<char>, Seq<char>)>,
    pub welcome: Option<(Seq<char>, Seq<char>, Seq<char>)>,
}

impl View for GameSession {
    type V = SessionView;

    open spec fn view(&self) -> SessionView {
        SessionView {
            game: self.game@,
            ui: self.ui_state@,
            ai: self.ai_state@,
            hint: match self.hint {
                Some(h) => Some(h@),
                None => None,
            },
            provider: match self.hint_provider {
                Some(p) => Some(p@),
                None => None,
            },
            welcome: match self.welcome_content {
                Some(w) => Some(w@),
                None => None,
            },
        }
    }
}

/// `s` with another view of the screen.
pub open spec fn with_ui(s: SessionView, ui: UIView) -> SessionView {
    SessionView { ui, ..s }
}

/// `s` with another game and view of the screen.
pub open spec fn with_game_ui(s: SessionView, game: GameView, ui: UIView) -> SessionView {
    SessionView { game, ui, ..s }
}

/// What selecting `(row, col)` does: selecting the selected piece again
/// drops the selection; otherwise the piece is selected if the rules allow.
pub open spec fn select_outcome(s: SessionView, row: usize, col: usize) -> Result<SessionView, GameError> {
    if s.ui.selected == Some((row, col)) {
        Ok(with_ui(s, cleared(s.ui)))
    } else {
        match selection_error(s.game.board, s.game.player, row as int, col as int) {
            Some(e) => Err(e),
            None => Ok(with_ui(s, selecting(s.ui, (row, col), s.game.board))),
        }
    }
}

/// After a move to `to`: the piece stays selected if it must go on capturing.
pub open spec fn ui_after_move(ui: UIView, cont: bool, to: (usize, usize), g: Grid) -> UIView {
    if cont {
        selecting(ui, to, g)
    } else {
        cleared(ui)
    }
}

/// What moving the selected piece to `(to_row, to_col)` does.
pub open spec fn move_outcome(s: SessionView, to_row: usize, to_col: usize) -> Result<(SessionView, bool), GameError> {
    match s.ui.selected {
        None => Err(GameError::NoPieceSelected),
        Some(from) => match play(s.game, from.0, from.1, to_row, to_col) {
            Err(e) => Err(e),
            Ok((g, cont)) => Ok((with_game_ui(s, g, ui_after_move(s.ui, cont, (to_row, to_col), g.board)), cont)),
        },
    }
}

/// Playing the jumps of `path` from index `i` on, the piece standing on
/// `cur`; a jump that ends the capture before `target` is reached is refused.
pub open spec fn play_path(
    v: GameView,
    cur: (usize, usize),
    path: Seq<(usize, usize)>,
    target: (usize, usize),
    i: int,
) -> Result<GameView, GameError>
    decreases path.len() - i,
{
    if i < 0 || i >= path.len() {
        Ok(v)
    } else {
        match play(v, cur.0, cur.1, path[i].0, path[i].1) {
            Err(e) => Err(e),
            Ok((v2, cont)) => if !cont && path[i] != target {
                Err(GameError::InvalidMove)
            } else {
                play_path(v2, path[i], path, target, i + 1)
            },
        }
    }
}

/// What moving the selected piece to `(to_row, to_col)` does when the move
/// may be a whole capture sequence: if a capture sequence of the piece ends
/// there, all its jumps are played; otherwise it is one ordinary move. Also
/// gives whether the piece must go on capturing and the squares it passed.
pub open spec fn multicapture_outcome(s: SessionView, to_row: usize, to_col: usize) -> Result<(SessionView, bool, Seq<(usize, usize)>), GameError> {
    match s.ui.selected {
        None => Err(GameError::NoPieceSelected),
        Some(from) => match capture_path_to(s.game.board, from.0 as int, from.1 as int, to_row, to_col) {
            Some(path) => match play_path(s.game, from, path, (to_row, to_col), 0) {
                Err(e) => Err(e),
                Ok(g) => {
                    let cont = at(g.board, to_row as int, to_col as int) is Some && can_capture_from(g.board, to_row as int, to_col as int);
                    Ok((with_game_ui(s, g, ui_after_move(s.ui, cont, (to_row, to_col), g.board)), cont, path))
                },
            },
            None => match move_outcome(s, to_row, to_col) {
                Err(e) => Err(e),
                Ok((s2, cont)) => Ok((s2, cont, seq![(to_row, to_col)])),
            },
        },
    }
}

impl GameSession {
    /// The game's board is well formed.
    pub open spec fn wf(&self) -> bool {
        self.game.wf()
    }

    pub fn new() -> (s: GameSession)
        ensures
            s.wf(),
            s.game.board.size == 8,
            s.game@ == CheckersGame::new_spec(),
            s.ui_state@ == (UIView { selected: None, moves: Seq::empty(), cursor: (0, 0) }),
            s.ai_state@ == (AIView { thinking: false, error: None }),
            s.hint is None,
            s.hint_provider is None,
            s.welcome_content is None,
    {
        GameSession {
            game: CheckersGame::new(),
            ui_state: UIState::new(),
            ai_state: AIState::new(),
            hint: None,
            hint_provider: None,
            welcome_content: None,
        }
    }

    pub fn with_ui_state(&self, ui_state: UIState) -> (s: GameSession)
        ensures
            s@ == with_ui(self@, ui_state@),
            self.wf() ==> s.wf(),
    {
        let mut new_session = self.clone();
        new_session.ui_state = ui_state;
        new_session
    }

    pub fn select_piece(&self, row: usize, col: usize) -> (res: Result<GameSession, GameError>)
        requires
            self.wf(),
        ensures
            match res {
                Ok(s) => select_outcome(self@, row, col) == Ok::<SessionView, GameError>(s@) && s.wf(),
                Err(e) => select_outcome(self@, row, col) == Err::<SessionView, GameError>(e),
            },
    {
        let mut new_session = self.clone();
        if new_session.ui_state.selected_piece == Some((row, col)) {
            new_session.ui_state = new_session.ui_state.clear_selection();
            return Ok(new_session);
        }
        match new_session.game.validate_piece_selection(row, col) {
            Err(e) => return Err(e),
            Ok(()) => {},
        }
        new_session.ui_state = new_session.ui_state.select_piece((row, col), &new_session.game.board);
        Ok(new_session)
    }

    pub fn deselect_piece(&self) -> (s: GameSession)
        ensures
            s@ == with_ui(self@, cleared(self.ui_state@)),
            self.wf() ==> s.wf(),
    {
        let mut new_session = self.clone();
        new_session.ui_state = new_session.ui_state.clear_selection();
        new_session
    }

    pub fn make_move(&self, to_row: usize, to_col: usize) -> (res: Result<(GameSession, bool), GameError>)
        requires
            self.wf(),
        ensures
            match res {
                Ok((s, cont)) => move_outcome(self@, to_row, to_col) == Ok::<(SessionView, bool), GameError>((s@, cont)) && s.wf(),
                Err(e) => move_outcome(self@, to_row, to_col) == Err::<(SessionView, bool), GameError>(e),
            },
    {
        let mut new_session = self.clone();
        let (from_row, from_col) = match new_session.ui_state.selected_piece {
            Some(p) => p,
            None => return Err(GameError::NoPieceSelected),
        };
        let (new_game, continue_capture) = match new_session.game.make_move(from_row, from_col, to_row, to_col) {
            Ok(r) => r,
            Err(e) => return Err(e),
        };
        new_session.game = new_game;
        if continue_capture {
            new_session.ui_state = new_session.ui_state.select_piece((to_row, to_col), &new_session.game.board);
        } else {
            new_session.ui_state = new_session.ui_state.clear_selection();
        }
        Ok((new_session, continue_capture))
    }

    pub fn try_multicapture_move(&self, to_row: usize, to_col: usize) -> (res: Result<(GameSession, bool, Vec<(usize, usize)>), GameError>)
        requires
            self.wf(),
        ensures
            match res {
                Ok((s, cont, positions)) => multicapture_outcome(self@, to_row, to_col)
                    == Ok::<(SessionView, bool, Seq<(usize, usize)>), GameError>((s@, cont, positions@)) && s.wf(),
                Err(e) => multicapture_outcome(self@, to_row, to_col)
                    == Err::<(SessionView, bool, Seq<(usize, usize)>), GameError>(e),
            },
    {
        let mut new_session = self.clone();
        let (from_row, from_col) = match new_session.ui_state.selected_piece {
            Some(p) => p,
            None => return Err(GameError::NoPieceSelected),
        };
        match find_capture_path(&new_session.game.board, from_row, from_col, to_row, to_col) {
            Some(path) => {
                let ghost start = new_session.game@;
                let mut current_pos = (from_row, from_col);
                let mut intermediate_positions: Vec<(usize, usize)> = Vec::new();
                let mut i: usize = 0;
                while i < path.len()
                    invariant
                        new_session.wf(),
                        self.wf(),
                        start == self.game@,
                        self.ui_state.selected_piece == Some((from_row, from_col)),
                        capture_path_to(self.game.board@, from_row as int, from_col as int, to_row, to_col) == Some(path@),
                        i <= path@.len(),
                        intermediate_positions@ == path@.subrange(0, i as int),
                        play_path(start, (from_row, from_col), path@, (to_row, to_col), 0)
                            == play_path(new_session.game@, current_pos, path@, (to_row, to_col), i as int),
                        new_session@ == with_game_ui(self@, new_session.game@, self.ui_state@),
                    decreases path@.len() - i,
                {
                    let next_pos = path[i];
                    let ghost before = new_session.game@;
                    let ghost cur0 = current_pos;
                    let (updated_game, continue_capture) = match new_session.game.make_move(
                        current_pos.0, current_pos.1, next_pos.0, next_pos.1,
                    ) {
                        Ok(r) => r,
                        Err(e) => {
                            assert(play_path(before, current_pos, path@, (to_row, to_col), i as int) == Err::<GameView, GameError>(e));
                            return Err(e);
                        },
                    };
                    new_session.game = updated_game;
                    intermediate_positions.push(next_pos);
                    current_pos = next_pos;
                    if !continue_capture && !(next_pos.0 == to_row && next_pos.1 == to_col) {
                        assert(play_path(before, cur0, path@, (to_row, to_col), i as int) == Err::<GameView, GameError>(GameError::InvalidMove));
                        return Err(GameError::InvalidMove);
                    }
                    i = i + 1;
                    assert(intermediate_positions@ =~= path@.subrange(0, i as int));
                }
                assert(intermediate_positions@ =~= path@);
                let final_continue = new_session.game.board.get_piece(to_row, to_col).is_some()
                    && has_more_captures_for_piece(&new_session.game.board, to_row, to_col);
                if final_continue {
                    new_session.ui_state = new_session.ui_state.select_piece((to_row, to_col), &new_session.game.board);
                } else {
                    new_session.ui_state = new_session.ui_state.clear_selection();
                }
                Ok((new_session, final_continue, intermediate_positions))
            },
            None => {
                let (updated_session, continue_capture) = match new_session.make_move(to_row, to_col) {
                    Ok(r) => r,
                    Err(e) => return Err(e),
                };
                let mut positions: Vec<(usize, usize)> = Vec::new();
                positions.push((to_row, to_col));
                assert(positions@ =~= seq![(to_row, to_col)]);
                Ok((updated_session, continue_capture, positions))
            },
        }
    }
}

impl Clone for GameSession {
    fn clone(&self) -> (res: Self)
        ensures
            res@ == self@,
            self.wf() ==> res.wf(),
    {
        GameSession {
            game: self.game.clone(),
            ui_state: self.ui_state.clone(),
            ai_state: self.ai_state.clone(),
            hint: match &self.hint {
                Some(h) => Some(h.clone()),
                None => None,
            },
            hint_provider: match &self.hint_provider {
                Some(p) => Some(p.clone()),
                None => None,
            },
            welcome_content: match &self.welcome_content {
                Some(w) => Some(w.clone()),
                None => None,
            },
        }
    }
}

impl Default for GameSession {
    fn default() -> (s: Self)
        ensures
            s.wf(),
            s.game@ == CheckersGame::new_spec(),
            s.ui_state@ == (UIView { selected: None, moves: Seq::empty(), cursor: (0, 0) }),
            s.ai_state@ == (AIView { thinking: false, error: None }),
            s.hint is None,
            s.hint_provider is None,
            s.welcome_content is None,
    {
        Self::new()
    }
}

} // verus!
