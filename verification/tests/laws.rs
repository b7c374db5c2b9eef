use checkers::ai::genai_client::{ai_candidate_moves, parse_ai_move};
use checkers::board::Board;
use checkers::game::CheckersGame as PlainGame;
use checkers::game_core::game::{CheckersGame, GameError};
use checkers::game_core::game_logic::{
    check_winner, get_all_valid_moves_for_player, has_captures_available, is_stalemate,
};
use checkers::game_core::piece::{Color, Piece};
use checkers::game_core::{GameMove, Position};
use checkers::interface::input::Key;
use checkers::markdown::style::StyleWriter;
use checkers::markdown::Link;
use checkers::state::game_session::GameSession;
use checkers::state::machine::{AnyState, StateMachine};
use checkers::state::states::{move_cursor, PlayingState, WelcomeState};
use checkers::state::transition::StateTransition;
use checkers::state::ui_state::UIState;
use checkers::state::StateType;

fn count(board: &Board) -> usize {
    let mut n = 0;
    for r in 0..board.size {
        for c in 0..board.size {
            if board.get_piece(r, c).is_some() {
                n += 1;
            }
        }
    }
    n
}

fn man(color: Color) -> Option<Piece> {
    Some(Piece::new(color))
}

#[test]
fn read_after_write_on_a_board() {
    let mut b = Board::new(8);
    assert!(b.set_piece(3, 2, man(Color::Black)));
    assert_eq!(b.get_piece(3, 2), man(Color::Black));
    assert_eq!(b.get_piece(3, 3), None);
    assert!(!b.set_piece(8, 0, man(Color::Black)));
}

#[test]
fn a_jump_takes_one_piece_a_step_none() {
    let game = CheckersGame::new();
    let before = count(&game.board);
    let (g, cont) = game.make_move(5, 0, 4, 1).unwrap();
    assert!(!cont);
    assert_eq!(count(&g.board), before);
    let mut b = Board::new(8);
    b.set_piece(5, 0, man(Color::White));
    b.set_piece(4, 1, man(Color::Black));
    b.set_piece(0, 7, man(Color::Black));
    let game = CheckersGame { board: b, current_player: Color::White, is_game_over: false, move_history: Default::default() };
    let (g, _) = game.make_move(5, 0, 3, 2).unwrap();
    assert_eq!(count(&g.board), 2);
}

#[test]
fn capture_is_forced() {
    let mut b = Board::new(8);
    b.set_piece(5, 0, man(Color::White));
    b.set_piece(4, 1, man(Color::Black));
    b.set_piece(5, 6, man(Color::White));
    let game = CheckersGame { board: b, current_player: Color::White, is_game_over: false, move_history: Default::default() };
    assert!(has_captures_available(&game.board, Color::White));
    assert_eq!(game.make_move(5, 6, 4, 7).err(), Some(GameError::ForcedCaptureAvailable));
    let moves = get_all_valid_moves_for_player(&game.board, Color::White);
    assert_eq!(moves, vec![((5, 0), (3, 2), true)]);
}

#[test]
fn turn_passes_after_a_step() {
    let game = CheckersGame::new();
    let (g, cont) = game.make_move(5, 2, 4, 3).unwrap();
    assert!(!cont);
    assert_eq!(g.current_player, Color::Black);
    assert_eq!(g.move_history.len(), 1);
}

#[test]
fn turn_stays_while_capturing() {
    let mut b = Board::new(8);
    b.set_piece(5, 0, man(Color::White));
    b.set_piece(4, 1, man(Color::Black));
    b.set_piece(2, 3, man(Color::Black));
    let game = CheckersGame { board: b, current_player: Color::White, is_game_over: false, move_history: Default::default() };
    let (g, cont) = game.make_move(5, 0, 3, 2).unwrap();
    assert!(cont);
    assert_eq!(g.current_player, Color::White);
}

#[test]
fn stalemate_and_winner() {
    let mut b = Board::new(8);
    b.set_piece(7, 0, man(Color::Black));
    b.set_piece(0, 1, man(Color::White));
    assert!(is_stalemate(&b, Color::Black));
    assert!(!has_captures_available(&b, Color::Black));
    assert_eq!(check_winner(&b), None);
    b.set_piece(7, 0, None);
    assert_eq!(check_winner(&b), Some(Color::White));
}

#[test]
fn offered_moves_stay_on_the_board() {
    let game = CheckersGame::new();
    for color in [Color::White, Color::Black] {
        for ((fr, fc), (tr, tc), cap) in get_all_valid_moves_for_player(&game.board, color) {
            assert!(fr < 8 && fc < 8 && tr < 8 && tc < 8);
            assert!(!cap);
            assert_eq!(fr.abs_diff(tr), 1);
            assert_eq!(fc.abs_diff(tc), 1);
        }
    }
}

#[test]
fn cursor_stays_on_the_board() {
    let session = GameSession::new();
    let s = move_cursor(&session, Key::Up);
    assert_eq!(s.ui_state.cursor_pos, (0, 0));
    let s = move_cursor(&session, Key::Left);
    assert_eq!(s.ui_state.cursor_pos, (0, 0));
    let mut ui = UIState::new();
    ui.cursor_pos = (7, 7);
    let corner = session.with_ui_state(ui);
    assert_eq!(move_cursor(&corner, Key::Down).ui_state.cursor_pos, (7, 7));
    assert_eq!(move_cursor(&corner, Key::Right).ui_state.cursor_pos, (7, 7));
    assert_eq!(move_cursor(&corner, Key::Up).ui_state.cursor_pos, (6, 7));
}

#[test]
fn clearing_undoes_selecting() {
    let game = CheckersGame::new();
    let mut ui = UIState::new();
    ui.cursor_pos = (2, 2);
    let selected = ui.select_piece((5, 0), &game.board);
    assert_eq!(selected.selected_piece, Some((5, 0)));
    assert_eq!(selected.possible_moves, vec![(4, 1)]);
    let cleared = selected.clear_selection();
    assert_eq!(cleared.selected_piece, None);
    assert!(cleared.possible_moves.is_empty());
    assert_eq!(cleared.cursor_pos, (2, 2));
}

#[test]
fn computer_choice_is_offered() {
    let game = CheckersGame::new().with_switched_player();
    let moves = ai_candidate_moves(&game).ok().unwrap();
    for reply in ["1", "4", "7"] {
        let (from, to) = parse_ai_move(&moves, Some(reply)).ok().unwrap();
        assert!(moves.iter().any(|m| m.0 == from && m.1 == to));
    }
}

#[test]
fn link_address_is_not_written() {
    let a = Link::new("text".to_string(), "one".to_string());
    let b = Link::new("text".to_string(), "two".to_string());
    let mut wa = StyleWriter::new();
    let mut wb = StyleWriter::new();
    a.render(&mut wa);
    b.render(&mut wb);
    assert_eq!(wa.into_string(), wb.into_string());
}

#[test]
fn positions_and_moves() {
    let p = Position::new(2, 3);
    assert_eq!(p, Position::from((2, 3)));
    let pair: (usize, usize) = p.into();
    assert_eq!(pair, (2, 3));
    let m = GameMove::from_tuples((5, 0), (4, 1));
    assert_eq!(m.from, Position::new(5, 0));
    assert_eq!(m.to, Position::new(4, 1));
}

#[test]
fn opposite_twice_is_the_same() {
    assert_eq!(Color::White.opposite().opposite(), Color::White);
    assert_eq!(Color::Black.opposite(), Color::White);
}

#[test]
fn welcome_then_play_then_select() {
    let mut machine = StateMachine::new(AnyState::Welcome(WelcomeState::new()));
    let session = GameSession::new();
    let (session, t) = machine.handle_input(&session, Key::Char('x'));
    assert!(matches!(t, StateTransition::Stay));
    let (session, t) = machine.handle_input(&session, Key::Enter);
    machine.process_transition(t);
    assert_eq!(machine.current_state_type(), StateType::Playing);
    let mut ui = session.ui_state.clone();
    ui.cursor_pos = (5, 0);
    let session = session.with_ui_state(ui);
    let (session, t) = machine.handle_input(&session, Key::Enter);
    machine.process_transition(t);
    assert_eq!(machine.current_state_type(), StateType::PieceSelected);
    assert_eq!(session.ui_state.selected_piece, Some((5, 0)));
    let view = machine.get_view_data(&session, true);
    assert_eq!(view.status_message, "Select a square to move to");
    assert!(view.is_simple_ai);
}

#[test]
fn playing_hands_black_to_the_computer() {
    let mut session = GameSession::new();
    session.game = session.game.with_switched_player();
    let (_, t) = PlayingState::new().handle_input(&session, Key::Up);
    assert!(matches!(t, StateTransition::To(AnyState::AITurn(_))));
    let (_, t) = PlayingState::new().handle_input(&GameSession::new(), Key::Esc);
    assert!(matches!(t, StateTransition::Exit));
}

#[test]
fn game_kept_in_one_place() {
    let mut game = PlainGame::new();
    assert_eq!(game.make_move(4, 1), Err(GameError::NoPieceSelected));
    assert_eq!(game.select_piece(2, 1), Err(GameError::WrongPieceColor));
    assert_eq!(game.select_piece(4, 4), Err(GameError::NoPieceSelected));
    assert_eq!(game.select_piece(9, 0), Err(GameError::OutOfBounds));
    assert_eq!(game.select_piece(5, 0), Ok(()));
    assert_eq!(game.select_piece(5, 0), Ok(()));
    assert_eq!(game.selected_piece, None);
    assert_eq!(game.select_piece(5, 0), Ok(()));
    assert_eq!(game.make_move(4, 1), Ok(()));
    assert_eq!(game.current_player, Color::Black);
    assert_eq!(game.selected_piece, None);
    assert_eq!(game.board.get_piece(4, 1), man(Color::White));
    game.switch_player();
    assert_eq!(game.current_player, Color::White);
    assert_eq!(game.check_winner(), None);
    assert!(!game.has_captures_available());
    assert!(!game.is_stalemate());
}

#[test]
fn selecting_twice_drops_the_selection() {
    let session = GameSession::new();
    let once = session.select_piece(5, 0).ok().unwrap();
    assert_eq!(once.ui_state.selected_piece, Some((5, 0)));
    let twice = once.select_piece(5, 0).ok().unwrap();
    assert_eq!(twice.ui_state.selected_piece, None);
    assert!(twice.ui_state.possible_moves.is_empty());
    assert_eq!(session.select_piece(2, 1).err(), Some(GameError::WrongPieceColor));
}

#[test]
fn transitions_compare_by_kind_only() {
    let to_playing = StateTransition::To(AnyState::Playing(PlayingState::new()));
    assert!(StateTransition::Stay == StateTransition::Stay);
    assert!(StateTransition::Exit == StateTransition::Exit);
    assert!(StateTransition::Stay != StateTransition::Exit);
    assert!(to_playing != to_playing);
}

#[test]
fn possible_moves_are_the_capture_ends_once_each() {
    let mut b = Board::new(8);
    b.set_piece(5, 2, man(Color::White));
    for &(r, c) in &[(4, 3), (2, 3), (4, 1), (2, 1)] {
        b.set_piece(r, c, man(Color::Black));
    }
    let moves = checkers::game_core::game_logic::get_all_possible_moves(&b, 5, 2);
    // Two sequences end on (1, 2): it is offered once.
    assert_eq!(moves.iter().filter(|&&m| m == (1, 2)).count(), 1);
    for i in 0..moves.len() {
        for j in 0..i {
            assert_ne!(moves[i], moves[j]);
        }
    }
    for r in 0..8 {
        for c in 0..8 {
            let ends = checkers::game_core::game_logic::find_capture_path(&b, 5, 2, r, c).is_some();
            assert_eq!(moves.contains(&(r, c)), ends);
        }
    }
    // Without a capture the single steps are offered, left before right.
    let mut quiet = Board::new(8);
    quiet.set_piece(5, 2, man(Color::White));
    assert_eq!(checkers::game_core::game_logic::get_all_possible_moves(&quiet, 5, 2), vec![(4, 1), (4, 3)]);
    assert!(checkers::game_core::game_logic::get_all_possible_moves(&quiet, 0, 0).is_empty());
}

#[test]
fn a_capture_is_available_when_some_piece_is_listed() {
    let mut b = Board::new(8);
    b.set_piece(5, 2, man(Color::White));
    b.set_piece(0, 7, man(Color::Black));
    for color in [Color::White, Color::Black] {
        assert_eq!(
            checkers::game_core::game_logic::has_captures_available(&b, color),
            !checkers::game_core::game_logic::get_pieces_with_captures(&b, color).is_empty()
        );
    }
    b.set_piece(4, 3, man(Color::Black));
    assert!(checkers::game_core::game_logic::has_captures_available(&b, Color::White));
    assert_eq!(checkers::game_core::game_logic::get_pieces_with_captures(&b, Color::White), vec![(5, 2)]);
}

fn moves_by_squares(b: &Board, color: Color) -> Vec<((usize, usize), (usize, usize), bool)> {
    let mut pairs = Vec::new();
    for r in 0..b.size {
        for c in 0..b.size {
            if let Some(p) = b.get_piece(r, c) {
                if p.color == color {
                    for t in checkers::game_core::game_logic::get_all_possible_moves(b, r, c) {
                        pairs.push(((r, c), t));
                    }
                }
            }
        }
    }
    let dist = |a: usize, b: usize| if a > b { a - b } else { b - a };
    let caps: Vec<_> = pairs.iter().filter(|(f, t)| dist(t.0, f.0) == 2 && dist(t.1, f.1) == 2).map(|&(f, t)| (f, t, true)).collect();
    if !caps.is_empty() {
        return caps;
    }
    pairs.iter().filter(|(f, t)| dist(t.0, f.0) == 1 && dist(t.1, f.1) == 1).map(|&(f, t)| (f, t, false)).collect()
}

#[test]
fn valid_moves_are_forced_captures_or_steps() {
    let game = CheckersGame::new();
    for color in [Color::White, Color::Black] {
        assert_eq!(get_all_valid_moves_for_player(&game.board, color), moves_by_squares(&game.board, color));
    }
    let mut b = Board::new(8);
    b.set_piece(5, 2, man(Color::White));
    b.set_piece(5, 6, man(Color::White));
    b.set_piece(4, 3, man(Color::Black));
    let moves = get_all_valid_moves_for_player(&b, Color::White);
    assert_eq!(moves, vec![((5, 2), (3, 4), true)]);
    assert_eq!(moves, moves_by_squares(&b, Color::White));
    assert_eq!(get_all_valid_moves_for_player(&b, Color::Black), moves_by_squares(&b, Color::Black));
}
