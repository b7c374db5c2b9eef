use checkers::application::{
    ai_turn_due, default_welcome_content, real_ai_enabled, should_process_ai, welcome_content_for, welcome_content_from_rules,
};
use checkers::ai::error::AIError;
use checkers::board::Board;
use checkers::game_core::game::CheckersGame;
use checkers::game_core::piece::{Color, Piece};
use checkers::input::plain_input_for_key;
use checkers::interface::input::{CursorDirection, GameInput, Key};
use checkers::interface::theme::{Theme, ThemeColor, ThemeRole};
use checkers::interface::ui::{
    cell_display, centering_offset, game_over_line, get_board_width, hint_lines, junction, local_mode_text, PlainView,
    Run, TermColor, UI,
};
use checkers::interface::ui_ratatui::{
    centered_column, controls_text, game_over_message, game_over_winner, separator,
};
use checkers::interface::welcome_screen::{boxed_line, center_offset, clean_section_text, welcome_sections};
use checkers::interface::widgets::board::{
    column_label, grid_fits, grid_origin, row_label, too_small_message, CellStyle, Ink,
};
use checkers::interface::widgets::{CheckerBoard, GameStatus, HintDisplay, WelcomeScreen};
use checkers::state::game_session::GameSession;
use checkers::state::ui_state::UIState;
use checkers::state::StateType;
use checkers::test_helpers::MultiCaptureCheck;

#[test]
fn theme_colours() {
    assert_eq!(Theme::color(ThemeRole::Border), ThemeColor::Rgb(100, 100, 100));
    assert_eq!(Theme::color(ThemeRole::PossibleMove), ThemeColor::Rgb(120, 140, 100));
    assert_eq!(Theme::color(ThemeRole::PieceBlack), ThemeColor::Rgb(180, 140, 100));
    assert_eq!(Theme::color(ThemeRole::Logo), ThemeColor::Magenta);
    assert_eq!(Theme::color(ThemeRole::Emoji), ThemeColor::Yellow);
}

#[test]
fn board_widget_cells() {
    let game = CheckersGame::new();
    let moves = vec![(4, 1), (4, 3)];
    let w = CheckerBoard::new(&game.board).cursor_position((5, 0)).selected_square(Some((5, 0))).possible_moves(&moves);
    assert_eq!(w.cell_content(0, 1), " (b) ");
    assert_eq!(w.cell_content(0, 0), " ░░░ ");
    assert_eq!(w.cell_content(4, 1), "     ");
    assert_eq!(w.cell_style(4, 1), CellStyle { background: Some(ThemeRole::PossibleMove), foreground: None });
    assert_eq!(w.cell_style(0, 0), CellStyle { background: None, foreground: Some(ThemeRole::BoardLight) });
    assert_eq!(w.cell_style(5, 0), CellStyle { background: None, foreground: Some(ThemeRole::PieceWhite) });
    assert!(w.is_cursor(5, 0));
    assert_eq!(w.selected(), Some((5, 0)));
    assert_eq!(w.get_border_chars(5, 0).0, '╔');
    assert_eq!(w.get_border_chars(1, 1).0, '┌');
}

#[test]
fn board_widget_kings_and_rules() {
    let mut board = Board::new(8);
    let mut king = Piece::new(Color::Black);
    king.promote_to_king();
    board.set_piece(3, 2, Some(king));
    let w = CheckerBoard::new(&board).cursor_position((4, 4));
    assert_eq!(w.cell_content(3, 2), " (B) ");
    assert!(!w.draws_rule_below(3, 4));
    assert!(w.draws_rule_below(2, 4));
    assert!(!w.draws_rule_right(4, 3));
    assert!(!w.draws_crossing(3, 3));
    assert!(w.draws_crossing(0, 0));
    assert!(!w.draws_rule_below(7, 0));
    assert!(!w.draws_rule_right(0, 7));
}

#[test]
fn board_widget_labels_and_size() {
    assert_eq!(column_label(0), 'A');
    assert_eq!(column_label(7), 'H');
    assert_eq!(row_label(0), " 8 ");
    assert_eq!(row_label(7), " 1 ");
    assert!(grid_fits(53, 18));
    assert!(!grid_fits(52, 18));
    assert_eq!(too_small_message(40, 10), "Need 53x18, got 40x10");
    assert_eq!(grid_origin(2, 1, 63, 26), (7, 3));
}

#[test]
fn status_line() {
    let s = GameStatus::new(Color::White);
    assert_eq!(s.turn_text(), "Current Turn: White");
    let s = GameStatus::new(Color::Black).local_mode(true).ai_error(Some("boom"));
    assert_eq!(s.turn_text(), "Current Turn: Black");
    assert!(s.is_local_mode);
    assert_eq!(s.ai_error, Some("boom"));
    let s = s.ai_thinking(true);
    assert_eq!(s.turn_text(), "AI is thinking...");
}

#[test]
fn hint_box() {
    assert!(HintDisplay::new(Some("x")).is_shown());
    assert!(!HintDisplay::new(None).is_shown());
}

#[test]
fn welcome_widget() {
    let w = WelcomeScreen::new("a".to_string(), "b".to_string(), "c".to_string());
    assert_eq!(w.instructions(), "Press ENTER to play against AI or Q/ESC to quit...");
    let w = w.simple_ai(true);
    assert_eq!(w.instructions(), "Press ENTER to play against Simple AI or Q/ESC to quit...");
    let lines = w.wrap_text("one two\nthree four", 9);
    assert_eq!(lines, vec!["one two", "three", "four"]);
    assert!(w.wrap_text("   ", 5).is_empty());
}

#[test]
fn game_screen_texts() {
    assert_eq!(controls_text(), "↑↓←→ Move  •  Space/Enter Select  •  ESC/Q Quit");
    assert_eq!(separator('═', 3), "═══");
    assert_eq!(centered_column(0, 100), (18, 64));
    assert_eq!(centered_column(3, 50), (3, 50));
    assert_eq!(game_over_winner("Game over! Black wins!"), Some(Color::White));
    assert_eq!(game_over_message(game_over_winner("Game over! Black wins!")), "Black wins!");
    assert_eq!(game_over_message(game_over_winner("White wins")), "White wins!");
    assert_eq!(game_over_message(game_over_winner("no moves")), "Stalemate! No possible moves.");
}

#[test]
fn plain_screen_pieces() {
    let mut ui = UI::new();
    assert_eq!(ui.get_cursor(), (0, 0));
    ui.set_cursor(3, 4);
    assert_eq!(ui.get_cursor(), (3, 4));
    assert!(ui.should_highlight_horizontal(None, (3, 4)));
    assert!(ui.should_highlight_horizontal(Some((1, 1)), (1, 1)));
    assert!(!ui.should_highlight_horizontal(Some((1, 1)), (2, 2)));
    let moves = [(2, 2)];
    assert!(ui.should_highlight_vertical(Some(&moves[..]), (2, 2)));
    assert!(!ui.should_highlight_vertical(None, (2, 2)));
    assert_eq!(get_board_width(), 52);
    assert_eq!(centering_offset(80), 14);
    assert_eq!(centering_offset(40), 0);
    assert_eq!(junction(0, 0), '┌');
    assert_eq!(junction(8, 8), '┘');
    assert_eq!(junction(4, 0), '├');
    assert_eq!(junction(4, 4), '┼');
    let game = CheckersGame::new();
    let (text, color, bold) = cell_display(&game.board, 7, 0);
    assert_eq!(text, " (w) ");
    assert_eq!(color, TermColor::White);
    assert!(!bold);
    assert_eq!(cell_display(&game.board, 0, 0).0, "     ");
    assert_eq!(cell_display(&game.board, 3, 0).0, " ░░░ ");
    assert_eq!(game_over_line(Some(Color::Black), false), Some("🏆 GAME OVER! Black WINS! 🏆"));
    assert_eq!(game_over_line(None, true), Some("🤝 GAME OVER! STALEMATE! 🤝"));
    assert_eq!(game_over_line(None, false), None);
    let long = "word ".repeat(20);
    let lines = hint_lines(&long);
    assert_eq!(lines.len(), 2);
    assert_eq!(lines[0].len(), 59);
}

#[test]
fn first_screen() {
    let game = checkers::game::CheckersGame::new();
    let mut ui = checkers::ui::UI::new();
    ui.set_cursor(0, 1);
    assert_eq!(ui.cell(&game.board, None, 0, 1).0, "[b]");
    assert_eq!(ui.cell(&game.board, Some((5, 0)), 5, 0).0, "(w)");
    assert_eq!(ui.cell(&game.board, None, 3, 3).0, " . ");
    assert_eq!(checkers::ui::format_position((2, 3)), "D3");
    assert_eq!(plain_input_for_key(Key::Char('q')), Some(GameInput::Quit));
    assert_eq!(plain_input_for_key(Key::Char('h')), None);
    assert_eq!(plain_input_for_key(Key::Left), Some(GameInput::MoveCursor(CursorDirection::Left)));
}

#[test]
fn welcome_message_sections() {
    let (a, b, c) = welcome_sections("**Did You Know?**\n  Fact.  \n\nTip of the Day\nTip.\n\n### Challenge\nDo it.");
    assert_eq!(a, "Fact.");
    assert_eq!(b, "Tip.");
    assert_eq!(c, "Challenge\nDo it.");
    let (a, _, _) = welcome_sections("only one");
    assert_eq!(a, "The game of checkers has been played for thousands of years!");
    assert_eq!(clean_section_text("  Challenge Beat it  "), "Beat it");
    assert_eq!(center_offset(80, 20), 30);
    assert_eq!(center_offset(10, 20), 0);
    assert_eq!(boxed_line("ab", 5), "│ ab    │");
    assert_eq!(boxed_line("abcdef", 3), "│ abcdef │");
}

#[test]
fn welcome_content_from_model_text() {
    let w = welcome_content_from_rules(
        "**Did You Know?**\nCheckers is **old**.\n\nTip of the Day\nThink ahead.\n\n**Today's Challenge**\nWin fast.",
    );
    assert_eq!(w.did_you_know, "Checkers is old.");
    assert_eq!(w.tip_of_the_day, "Think ahead.");
    assert_eq!(w.todays_challenge, "Win fast.");
    let d = welcome_content_from_rules("one part");
    assert_eq!(d.tip_of_the_day, "Always try to control the center of the board.");
    let e = welcome_content_for(Err(AIError::NoApiKey));
    assert_eq!(e.todays_challenge, "Try to win a game without losing any pieces!");
    assert_eq!(default_welcome_content().did_you_know, "The game of checkers has been played for thousands of years!");
    let f = welcome_content_for(Ok("a\n\nb\n\nc".to_string()));
    assert_eq!(f.did_you_know, "a");
}

#[test]
fn computer_turns() {
    assert!(should_process_ai(StateType::AITurn, Color::Black));
    assert!(should_process_ai(StateType::Playing, Color::Black));
    assert!(!should_process_ai(StateType::Playing, Color::White));
    assert!(!should_process_ai(StateType::PieceSelected, Color::Black));
    // The application object's test puts black to move on both states.
    assert!(!should_process_ai(StateType::AITurn, Color::White));
    // The main loop's test lets the computer's turn act whoever is to move.
    assert!(ai_turn_due(StateType::AITurn, Color::White));
    assert!(ai_turn_due(StateType::Playing, Color::Black));
    assert!(!ai_turn_due(StateType::Playing, Color::White));
    assert!(!ai_turn_due(StateType::Welcome, Color::Black));
    assert!(real_ai_enabled(false, true, true, true));
    assert!(!real_ai_enabled(true, true, true, true));
    assert!(!real_ai_enabled(false, true, false, true));
}

#[test]
fn multi_capture_check() {
    let session = GameSession::new();
    assert!(!session.is_in_multi_capture());
    let mut ui = UIState::new();
    ui.selected_piece = Some((4, 4));
    ui.possible_moves = vec![(2, 2), (6, 6)];
    let s = session.with_ui_state(ui);
    assert!(s.is_in_multi_capture());
    let mut ui = UIState::new();
    ui.selected_piece = Some((4, 4));
    ui.possible_moves = vec![(2, 2), (3, 3)];
    assert!(!session.with_ui_state(ui).is_in_multi_capture());
    let mut ui = UIState::new();
    ui.selected_piece = Some((4, 4));
    assert!(!session.with_ui_state(ui).is_in_multi_capture());
}

#[test]
fn board_widget_strokes() {
    let game = CheckersGame::new();
    let w = CheckerBoard::new(&game.board);
    let small = w.strokes(3, 4, 40, 10);
    assert_eq!(small.len(), 1);
    assert_eq!((small[0].x, small[0].y), (3, 4));
    assert_eq!(small[0].text, "Need 53x18, got 40x10");
    assert_eq!(small[0].ink, Ink::Warning);

    let all = w.strokes(0, 0, 53, 18);
    assert_eq!(all.len(), 301);
    assert_eq!((all[0].x, all[0].y, all[0].text.as_str(), all[0].ink), (0, 0, "    ", Ink::Plain));
    assert_eq!((all[1].x, all[1].y, all[1].text.as_str(), all[1].ink), (7, 0, "A", Ink::Label));
    assert_eq!((all[8].x, all[8].y, all[8].text.as_str()), (49, 0, "H"));
    assert_eq!((all[9].x, all[9].y, all[9].text.as_str(), all[9].ink), (0, 2, " 8 ", Ink::Label));
    // The cursor starts on the top left cell: its double box, then its content.
    assert_eq!((all[10].x, all[10].y, all[10].text.as_str(), all[10].ink), (4, 1, "╔═════╗", Ink::Cursor));
    assert_eq!((all[13].x, all[13].y, all[13].text.as_str()), (4, 3, "╚═════╝"));
    assert_eq!((all[14].x, all[14].y, all[14].text.as_str()), (5, 2, " ░░░ "));
    // The next cell holds a black man under the grid's top line.
    assert_eq!((all[15].x, all[15].y, all[15].text.as_str(), all[15].ink), (10, 1, "┌─────", Ink::Border));
    assert_eq!(all[16].text, " (b) ");
    assert_eq!(all[16].ink, Ink::Cell(CellStyle { background: None, foreground: Some(ThemeRole::PieceBlack) }));
    // The bottom right corner of the grid is drawn.
    assert!(all.iter().any(|s| s.x == 52 && s.y == 17 && s.text == "┘"));
    // No crossing touches the cursor's box.
    assert!(!all.iter().any(|s| s.x == 10 && s.y == 3 && s.text == "┼"));
    assert!(all.iter().any(|s| s.x == 16 && s.y == 3 && s.text == "┼"));
}

fn texts(line: &[Run]) -> String {
    line.iter().map(|r| r.text.as_str()).collect::<Vec<_>>().concat()
}

#[test]
fn plain_frame_of_new_game() {
    let game = CheckersGame::new();
    let mut ui = UI::new();
    let view = PlainView { game: &game, selected_piece: None, possible_moves: None, ai_thinking: false, ai_error: None };
    let frame = ui.render_game(&view, 0);
    assert!(frame.clear_all);
    assert_eq!(frame.local_mode_column, Some(30));
    assert_eq!(local_mode_text(), "Local Mode (2 Player)");
    let lines = &frame.lines;
    assert_eq!(lines.len(), 24);
    assert_eq!(lines[0].len(), 1);
    assert_eq!(lines[0][0].text, "═".repeat(59));
    assert_eq!(lines[0][0].color, Some(TermColor::DarkGrey));
    assert_eq!(texts(&lines[1]), "Current Turn: White");
    assert_eq!((lines[1][1].color, lines[1][1].bold), (Some(TermColor::White), true));
    assert!(lines[2].is_empty());
    assert_eq!(texts(&lines[3]), "      A     B     C     D     E     F     G     H  ");
    assert_eq!(lines[3][0].color, Some(TermColor::Blue));
    // The cursor starts on the top left square: its top line is marked.
    assert_eq!(texts(&lines[4]), "   ┌─━━━─┬─────┬─────┬─────┬─────┬─────┬─────┬─────┐");
    assert_eq!(lines[4][3].color, Some(TermColor::Grey));
    assert_eq!(texts(&lines[5]), " 1 │     │ (b) │     │ (b) │     │ (b) │     │ (b) │");
    assert_eq!((lines[5][4].color, lines[5][4].bold), (Some(TermColor::Red), false));
    assert_eq!(texts(&lines[6]), "   ├─━━━─┼─────┼─────┼─────┼─────┼─────┼─────┼─────┤");
    assert_eq!(texts(&lines[19]), " 8 │ (w) │     │ (w) │     │ (w) │     │ (w) │     │");
    assert_eq!(texts(&lines[20]), "   └─────┴─────┴─────┴─────┴─────┴─────┴─────┴─────┘");
    assert!(lines[21].is_empty());
    assert_eq!(texts(&lines[23]), "Controls: ↑↓←→ Move | Space/Enter Select | H Hint | Q/Esc Quit");
    let again = ui.render_game(&view, 0);
    assert!(!again.clear_all);
}

#[test]
fn plain_frame_marks_and_messages() {
    let game = CheckersGame::new();
    let mut ui = UI::new();
    ui.set_cursor(7, 7);
    let moves = vec![(4usize, 1usize)];
    let view = PlainView {
        game: &game,
        selected_piece: Some((5, 0)),
        possible_moves: Some(&moves),
        ai_thinking: true,
        ai_error: Some("boom"),
    };
    let frame = ui.render_game_with_hint_and_mode(&view, Some("Move the piece forward"), true, 2);
    assert_eq!(frame.local_mode_column, None);
    let lines = &frame.lines;
    assert_eq!(lines[0][0].text, "  ");
    // The selected piece's lines above and below are marked.
    assert_eq!(texts(&lines[14]), "     ├─━━━─┼─────┼─────┼─────┼─────┼─────┼─────┼─────┤");
    // The square to move to has heavy red sides.
    assert_eq!(texts(&lines[13]), "   5 │     ┃ ░░░ ┃     │ ░░░ │     │ ░░░ │     │ ░░░ │");
    assert!(lines[21].is_empty());
    assert_eq!(texts(&lines[22]), "  ⚠️  AI ERROR");
    assert_eq!((lines[22][1].color, lines[22][1].bold), (Some(TermColor::Red), true));
    assert_eq!(texts(&lines[23]), "  boom");
    assert_eq!(texts(&lines[26]), "  Controls: ↑↓←→ Move | Space/Enter Select | H Hint | Q/Esc Quit");
    assert!(lines[27].is_empty());
    assert_eq!(texts(&lines[29]), "  💡 Move the piece forward");
    assert_eq!(lines[29][2].color, Some(TermColor::Cyan));
    assert_eq!(lines.len(), 30);
}

#[test]
fn plain_frame_at_game_end() {
    let mut game = CheckersGame::new();
    game.is_game_over = true;
    game.board = Board::new(8);
    game.board.set_piece(4, 3, Some(Piece::new(Color::Black)));
    let mut ui = UI::new();
    let view = PlainView { game: &game, selected_piece: None, possible_moves: None, ai_thinking: false, ai_error: Some("boom") };
    let frame = ui.render_game_with_hint(&view, Some("unused"), 0);
    let lines = &frame.lines;
    assert_eq!(lines.len(), 25);
    assert!(lines[21].is_empty());
    assert_eq!(lines[22][0].text, "═".repeat(59));
    assert_eq!(texts(&lines[23]), "🏆 GAME OVER! Black WINS! 🏆");
    assert_eq!((lines[23][0].color, lines[23][0].bold), (Some(TermColor::Yellow), true));
    assert_eq!(texts(&lines[24]), "Press any key to exit...");
    assert_eq!(ui.render_hint("a b", 1).len(), 3);
}

#[test]
fn first_screen_frame() {
    let mut game = checkers::game::CheckersGame::new();
    let mut ui = checkers::ui::UI::new();
    ui.set_cursor(5, 0);
    game.selected_piece = Some((5, 2));
    let runs = ui.render_game(&game);
    let all: String = runs.iter().map(|r| r.text.as_str()).collect::<Vec<_>>().concat();
    assert!(all.starts_with("    A  B  C  D  E  F  G  H \n\r 1  .  b  .  b  .  b  .  b \n\r"));
    assert!(all.contains(" 6 [w] . (w) . "));
    assert!(all.ends_with("\n\rCurrent player: White\nSelected piece at: C6\n"));
    assert_eq!(runs[0].color, Some(TermColor::Blue));
    let cursor = runs.iter().find(|r| r.text == "[w]").unwrap();
    assert_eq!(cursor.color, Some(TermColor::Yellow));
    let selected = runs.iter().find(|r| r.text == "(w)").unwrap();
    assert_eq!(selected.color, Some(TermColor::Green));
    game.is_game_over = true;
    game.board = Board::new(8);
    game.board.set_piece(0, 1, Some(Piece::new(Color::White)));
    game.selected_piece = None;
    let end = ui.render_game(&game);
    assert_eq!(end.last().unwrap().text, "\nGame Over! White wins!\n");
    assert_eq!(end.last().unwrap().color, Some(TermColor::Yellow));
}
