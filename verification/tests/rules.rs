use checkers::board::Board;
use checkers::game_core::game::{CheckersGame, GameError};
use checkers::game_core::game_logic::{
    can_piece_capture, check_winner, find_capture_path, get_all_possible_moves,
    get_all_valid_moves_for_player, get_pieces_with_captures, has_captures_available,
    has_more_captures_for_piece, is_stalemate, is_valid_move, should_promote,
};
use checkers::game_core::piece::{Color, Piece};

fn empty_board() -> Board {
    Board::new(8)
}

fn man(color: Color) -> Option<Piece> {
    Some(Piece::new(color))
}

#[test]
fn initial_position_has_twelve_pieces_each() {
    let game = CheckersGame::new();
    let mut white = 0;
    let mut black = 0;
    for r in 0..8 {
        for c in 0..8 {
            match game.board.get_piece(r, c) {
                Some(p) if p.color == Color::White => white += 1,
                Some(_) => black += 1,
                None => {}
            }
        }
    }
    assert_eq!(white, 12);
    assert_eq!(black, 12);
    assert_eq!(game.board.get_piece(0, 1), man(Color::Black));
    assert_eq!(game.board.get_piece(5, 0), man(Color::White));
    assert_eq!(game.board.get_piece(0, 0), None);
}

#[test]
fn white_opening_moves() {
    let game = CheckersGame::new();
    let moves = get_all_valid_moves_for_player(&game.board, Color::White);
    assert_eq!(moves.len(), 7);
    assert_eq!(moves[0], ((5, 0), (4, 1), false));
    assert!(moves.iter().all(|m| !m.2));
}

#[test]
fn simple_step_and_turn_passes() {
    let game = CheckersGame::new();
    let (next, cont) = game.make_move(5, 0, 4, 1).unwrap();
    assert!(!cont);
    assert_eq!(next.current_player, Color::Black);
    assert_eq!(next.board.get_piece(5, 0), None);
    assert_eq!(next.board.get_piece(4, 1), man(Color::White));
    assert_eq!(next.move_history.to_notation(), "1. a3-b4");
}

#[test]
fn errors_of_make_move() {
    let game = CheckersGame::new();
    assert_eq!(game.make_move(5, 0, 8, 1).err(), Some(GameError::OutOfBounds));
    assert_eq!(game.make_move(4, 0, 3, 1).err(), Some(GameError::NoPieceSelected));
    assert_eq!(game.make_move(5, 0, 3, 2).err(), Some(GameError::InvalidMove));
}

#[test]
fn forced_capture_and_multi_jump() {
    let mut b = empty_board();
    b.set_piece(5, 0, man(Color::White));
    b.set_piece(4, 1, man(Color::Black));
    b.set_piece(2, 3, man(Color::Black));
    b.set_piece(0, 7, man(Color::Black));
    assert!(has_captures_available(&b, Color::White));
    assert!(can_piece_capture(&b, 5, 0));
    assert_eq!(get_pieces_with_captures(&b, Color::White), vec![(5, 0)]);
    assert_eq!(get_all_possible_moves(&b, 5, 0), vec![(1, 4)]);
    assert_eq!(find_capture_path(&b, 5, 0, 1, 4), Some(vec![(3, 2), (1, 4)]));
    let game = CheckersGame {
        board: b,
        current_player: Color::White,
        is_game_over: false,
        move_history: Default::default(),
    };
    assert_eq!(game.make_move(5, 0, 4, 0).err(), Some(GameError::ForcedCaptureAvailable));
    let (g1, cont) = game.make_move(5, 0, 3, 2).unwrap();
    assert!(cont);
    assert_eq!(g1.current_player, Color::White);
    assert_eq!(g1.board.get_piece(4, 1), None);
    let (g2, cont2) = g1.make_move(3, 2, 1, 4).unwrap();
    assert!(!cont2);
    assert_eq!(g2.current_player, Color::Black);
    assert_eq!(g2.move_history.to_notation(), "1. a3xc5 2. c5xe7");
}

#[test]
fn promotion_and_winner() {
    let mut b = empty_board();
    b.set_piece(1, 2, man(Color::White));
    b.set_piece(7, 0, man(Color::Black));
    let game = CheckersGame {
        board: b,
        current_player: Color::White,
        is_game_over: false,
        move_history: Default::default(),
    };
    let (g, _) = game.make_move(1, 2, 0, 1).unwrap();
    assert_eq!(g.board.get_piece(0, 1), Some(Piece { color: Color::White, is_king: true }));
    assert_eq!(g.move_history.to_notation(), "1. c7-b8K");
    assert_eq!(check_winner(&g.board), None);
    let mut only_white = empty_board();
    only_white.set_piece(3, 3, man(Color::White));
    assert_eq!(check_winner(&only_white), Some(Color::White));
    assert!(should_promote(&Piece::new(Color::Black), 7, 8));
    assert!(!should_promote(&Piece::new(Color::Black), 0, 8));
}

#[test]
fn stalemate_when_blocked() {
    let mut b = empty_board();
    b.set_piece(7, 0, man(Color::Black));
    assert!(is_stalemate(&b, Color::Black));
    assert!(!is_stalemate(&b, Color::White) || !has_captures_available(&b, Color::White));
    b.set_piece(6, 1, man(Color::Black));
    assert!(!has_more_captures_for_piece(&b, 6, 1));
    assert!(is_valid_move(&b, 6, 1, 7, 2, &Piece::new(Color::Black)));
    assert!(!is_valid_move(&b, 6, 1, 5, 2, &Piece::new(Color::Black)));
}

#[test]
fn origin_rows_and_columns_wrap_as_32_bit_numbers() {
    let board = Board::new(8);
    let white = Piece::new(Color::White);
    let black = Piece::new(Color::Black);
    let big: usize = 1 << 32;
    // (2^32 + 5, 2^32) is read as (5, 0).
    assert!(checkers::game_core::game_logic::is_valid_move(&board, big + 5, big, 4, 1, &white));
    assert!(!checkers::game_core::game_logic::is_valid_move(&board, big + 5, big, 6, 1, &white));
    // 2^32 - 1 is read as -1: a black man steps from row -1 to row 0.
    assert!(checkers::game_core::game_logic::is_valid_move(&board, big - 1, 2, 0, 3, &black));
    assert!(!checkers::game_core::game_logic::is_valid_move(&board, big - 1, 2, 0, 3, &white));
}
