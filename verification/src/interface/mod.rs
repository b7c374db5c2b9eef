pub mod input;
pub mod theme;
pub mod ui;
pub mod ui_ratatui;
pub mod widgets;
pub mod welcome_screen;
