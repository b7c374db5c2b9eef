pub mod board;
pub mod game_status;
pub mod hint_display;
pub mod welcome_screen;

pub use board::CheckerBoard;
pub use game_status::GameStatus;
pub use hint_display::HintDisplay;
pub use welcome_screen::WelcomeScreen;
