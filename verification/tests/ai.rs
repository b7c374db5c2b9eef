use checkers::ai::error::AIError;
use checkers::ai::formatting::{format_board, format_square};
use checkers::ai::genai_client::{
    ai_candidate_moves, ai_move_prompt, ai_move_request, clean_story_text, describe_ai_moves,
    parse_ai_move,
};
use checkers::ai::hint::{hint_from_reply, hint_prompt, HintProvider};
use checkers::ai::loading::{spinner_column, LoadingAnimation};
use checkers::board::Board;
use checkers::state::game_session::GameSession;
use checkers::state::states::AITurnState;
use checkers::game_core::game::CheckersGame;
use checkers::game_core::move_history::MoveHistory;
use checkers::game_core::piece::{Color, Piece};

fn black_to_move() -> CheckersGame {
    CheckersGame::new().with_switched_player()
}

const BLACK_OPENING: &str = "1. B6 to A5\n2. B6 to C5\n3. D6 to C5\n4. D6 to E5\n5. F6 to E5\n6. F6 to G5\n7. H6 to G5\n";

#[test]
fn computer_plays_black_only() {
    let game = CheckersGame::new();
    match ai_candidate_moves(&game) {
        Err(AIError::InvalidResponseFormat(m)) => assert_eq!(m, "AI can only play as Black."),
        _ => panic!("white to move must be refused"),
    }
    match ai_move_request(&game, "{board_state}") {
        Err(AIError::InvalidResponseFormat(m)) => assert_eq!(m, "AI can only play as Black."),
        _ => panic!("white to move must be refused"),
    }
}

#[test]
fn computer_without_moves() {
    let mut game = black_to_move();
    game.board = Board::new(8);
    game.board.set_piece(0, 1, Some(Piece::new(Color::White)));
    assert!(matches!(ai_candidate_moves(&game), Err(AIError::NoPossibleMoves)));
}

#[test]
fn black_opening_moves_are_listed() {
    let game = black_to_move();
    let moves = ai_candidate_moves(&game).ok().unwrap();
    assert_eq!(moves.len(), 7);
    assert_eq!(describe_ai_moves(&moves), BLACK_OPENING);
}

#[test]
fn capture_lists_the_jumped_square() {
    let moves = vec![((2, 1), (4, 3), true)];
    assert_eq!(describe_ai_moves(&moves), "1. B6 to D4 (captures piece at C5)\n");
}

#[test]
fn move_request_fills_the_template() {
    let game = black_to_move();
    let (moves, prompt) = ai_move_request(&game, "Board:\n{board_state}Moves:\n{available_moves}|").ok().unwrap();
    assert_eq!(moves.len(), 7);
    let expected = format!("Board:\n{}Moves:\n{}|", format_board(&game.board), BLACK_OPENING.trim());
    assert_eq!(prompt, expected);
}

#[test]
fn prompt_trims_the_move_list() {
    assert_eq!(ai_move_prompt("B:{board_state} M:{available_moves}", "X", " 1. a \n"), "B:X M:1. a");
    assert_eq!(ai_move_prompt("{available_moves}{available_moves}", "", "m"), "mm");
}

#[test]
fn reply_picks_a_move() {
    let moves = ai_candidate_moves(&black_to_move()).ok().unwrap();
    assert_eq!(parse_ai_move(&moves, Some(" 3 ")).ok().unwrap(), ((2, 3), (3, 2)));
    assert_eq!(parse_ai_move(&moves, Some("Move 7.")).ok().unwrap(), ((2, 7), (3, 6)));
}

#[test]
fn reply_out_of_range() {
    let moves = ai_candidate_moves(&black_to_move()).ok().unwrap();
    match parse_ai_move(&moves, Some(" 9\n")) {
        Err(AIError::InvalidResponseFormat(m)) => {
            assert_eq!(m, "Move index 9 is out of bounds. Valid range: 1-7. Original response: '9'")
        }
        _ => panic!("9 is out of range"),
    }
    match parse_ai_move(&moves, Some("0")) {
        Err(AIError::InvalidResponseFormat(m)) => {
            assert_eq!(m, "Move index 0 is out of bounds. Valid range: 1-7. Original response: '0'")
        }
        _ => panic!("0 is out of range"),
    }
}

#[test]
fn reply_without_number() {
    let moves = ai_candidate_moves(&black_to_move()).ok().unwrap();
    match parse_ai_move(&moves, Some("pass")) {
        Err(AIError::InvalidResponseFormat(m)) => {
            assert_eq!(m, "AI returned non-numeric or invalid response: 'pass'. Cleaned: ''")
        }
        _ => panic!("no number"),
    }
    match parse_ai_move(&moves, Some("99999999999999999999999")) {
        Err(AIError::InvalidResponseFormat(m)) => assert!(m.starts_with("AI returned non-numeric")),
        _ => panic!("too large to read"),
    }
}

#[test]
fn reply_without_text() {
    let moves = ai_candidate_moves(&black_to_move()).ok().unwrap();
    match parse_ai_move(&moves, None) {
        Err(AIError::ParseError(m)) => assert_eq!(m, "No text content in response"),
        _ => panic!("no text"),
    }
}

#[test]
fn story_line_breaks() {
    assert_eq!(clean_story_text("a<br>b<br/>c<br />d"), "a\nb\nc\nd");
    assert_eq!(clean_story_text("plain"), "plain");
}

#[test]
fn hint_request_for_a_new_game() {
    let game = CheckersGame::new();
    let history = MoveHistory::new();
    let prompt = hint_prompt("{player_color}|{move_history}|{available_moves}", &game.board, Color::White, &history);
    assert_eq!(
        prompt,
        "White|No moves yet|- A3 to B4 (move)\n- C3 to B4 (move)\n- C3 to D4 (move)\n- E3 to D4 (move)\n- E3 to F4 (move)\n- G3 to F4 (move)\n- G3 to H4 (move)\n"
    );
}

#[test]
fn hint_request_with_history_and_no_moves() {
    let mut board = Board::new(8);
    board.set_piece(0, 1, Some(Piece::new(Color::White)));
    let mut history = MoveHistory::new();
    history.add_move((5, 0), (4, 1), Color::White, Vec::new(), false);
    let prompt = hint_prompt("{player_color}/{move_history}/{available_moves}/{board_state}", &board, Color::Black, &history);
    let expected = format!("Black (Red pieces)/1. a3-b4/No moves available/{}", format_board(&board));
    assert_eq!(prompt, expected);
}

#[test]
fn hint_reply_is_trimmed() {
    assert_eq!(hint_from_reply(Some("  move C3 to D4 \n")).ok().unwrap(), "move C3 to D4");
    assert_eq!(hint_from_reply(None).err().unwrap(), "Failed to parse hint from API response");
}

#[test]
fn hint_provider_needs_a_model() {
    let p = HintProvider::new("key".to_string(), Some("model-x".to_string())).ok().unwrap();
    assert_eq!(p.api_key(), "key");
    assert_eq!(p.model(), "model-x");
    assert_eq!(
        HintProvider::new("key".to_string(), None).err().unwrap(),
        "GEMINI_MODEL environment variable is required"
    );
}

#[test]
fn squares_and_board_as_text() {
    assert_eq!(format_square(5, 0), "A3");
    assert_eq!(format_square(0, 7), "H8");
    let board = CheckersGame::new().board;
    let text = format_board(&board);
    let lines: Vec<&str> = text.split('\n').collect();
    assert_eq!(lines[0], "  A B C D E F G H");
    assert_eq!(lines[1], "8 . (b) . (b) . (b) . (b) ");
    assert_eq!(lines[8], "1 (w) . (w) . (w) . (w) . ");
    assert_eq!(lines.len(), 10);
}

#[test]
fn spinner_cycles_through_its_frames() {
    let mut spinner = LoadingAnimation::new();
    let frames = ["⠋", "⠙", "⠹", "⠸", "⠼", "⠴", "⠦", "⠧", "⠇", "⠏"];
    for f in frames.iter() {
        assert_eq!(spinner.next(), *f);
    }
    assert_eq!(spinner.next(), "⠋");
}

#[test]
fn spinner_sits_at_the_board_edge() {
    assert_eq!(spinner_column(80), 42);
    assert_eq!(spinner_column(40), 32);
}

#[test]
fn hint_is_fetched_only_after_a_played_move_with_a_provider() {
    let turn = AITurnState::new();
    let mut session = GameSession::new();
    let good: Result<((usize, usize), (usize, usize)), String> = Ok(((5, 0), (4, 1)));
    assert!(!turn.hint_after_ai_move(&session, &good));
    session.hint_provider = Some(HintProvider::new("key".to_string(), Some("model".to_string())).unwrap());
    assert!(turn.hint_after_ai_move(&session, &good));
    assert!(!turn.hint_after_ai_move(&session, &Ok(((5, 0), (3, 0)))));
    assert!(!turn.hint_after_ai_move(&session, &Err("down".to_string())));
    assert!(!AITurnState { move_requested: true }.hint_after_ai_move(&session, &good));
    session.game = session.game.with_switched_player();
    assert!(!turn.hint_after_ai_move(&session, &Ok(((2, 1), (3, 0)))));
}

#[test]
fn history_notation_writable_only_for_nameable_squares() {
    let mut h = MoveHistory::new();
    assert!(h.notation_writable());
    h.add_move((5, 0), (4, 1), Color::White, vec![], false);
    assert!(h.notation_writable());
    h.add_move((9, 0), (8, 1), Color::Black, vec![], false);
    assert!(!h.notation_writable());
}

#[test]
fn move_request_on_a_large_board_without_black_moves() {
    let mut game = CheckersGame::new();
    game.board = Board::new(12);
    game.current_player = Color::Black;
    assert!(matches!(ai_move_request(&game, "{board}"), Err(AIError::NoPossibleMoves)));
}
