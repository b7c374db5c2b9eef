//! The colour scheme of the screens.

use vstd::prelude::*;

verus! {

/// A colour as the terminal shows it: red, green and blue levels, or one of
/// the terminal's named colours.
#[derive(Debug, Clone, Copy, PartialEq, Eq, Structural)]
pub enum ThemeColor {
    Rgb(u8, u8, u8),
    Magenta,
    Yellow,
}

/// What a colour of the scheme is used for.
#[derive(Debug, Clone, Copy, PartialEq, Eq, Structural)]
pub enum ThemeRole {
    Border,
    BorderFocused,
    TextPrimary,
    TextSecondary,
    TextAccent,
    PieceBlack,
    PieceWhite,
    BoardLight,
    PossibleMove,
    Separator,
    Highlight,
    Logo,
    Emoji,
}

/// The colour of each role: soft greys for borders and text, warm tan and
/// cream for the pieces, olive for the squares a piece may move to.
pub open spec fn theme_color(role: ThemeRole) -> ThemeColor {
    match role {
        ThemeRole::Border => ThemeColor::Rgb(100, 100, 100),
        ThemeRole::BorderFocused => ThemeColor::Rgb(200, 200, 200),
        ThemeRole::TextPrimary => ThemeColor::Rgb(220, 220, 220),
        ThemeRole::TextSecondary => ThemeColor::Rgb(150, 150, 150),
        ThemeRole::TextAccent => ThemeColor::Rgb(150, 180, 200),
        ThemeRole::PieceBlack => ThemeColor::Rgb(180, 140, 100),
        ThemeRole::PieceWhite => ThemeColor::Rgb(230, 230, 220),
        ThemeRole::BoardLight => ThemeColor::Rgb(60, 60, 60),
        ThemeRole::PossibleMove => ThemeColor::Rgb(120, 140, 100),
        ThemeRole::Separator => ThemeColor::Rgb(80, 80, 80),
        ThemeRole::Highlight => ThemeColor::Rgb(180, 180, 140),
        ThemeRole::Logo => ThemeColor::Magenta,
        ThemeRole::Emoji => ThemeColor::Yellow,
    }
}

/// The colour scheme.
pub struct Theme;

impl Theme {
    /// The colour used for `role`.
    pub fn color(role: ThemeRole) -> (c: ThemeColor)
        ensures
            c == theme_color(role),
    {
        match role {
            ThemeRole::Border => ThemeColor::Rgb(100, 100, 100),
            ThemeRole::BorderFocused => ThemeColor::Rgb(200, 200, 200),
            ThemeRole::TextPrimary => ThemeColor::Rgb(220, 220, 220),
            ThemeRole::TextSecondary => ThemeColor::Rgb(150, 150, 150),
            ThemeRole::TextAccent => ThemeColor::Rgb(150, 180, 200),
            ThemeRole::PieceBlack => ThemeColor::Rgb(180, 140, 100),
            ThemeRole::PieceWhite => ThemeColor::Rgb(230, 230, 220),
            ThemeRole::BoardLight => ThemeColor::Rgb(60, 60, 60),
            ThemeRole::PossibleMove => ThemeColor::Rgb(120, 140, 100),
            ThemeRole::Separator => ThemeColor::Rgb(80, 80, 80),
            ThemeRole::Highlight => ThemeColor::Rgb(180, 180, 140),
            ThemeRole::Logo => ThemeColor::Magenta,
            ThemeRole::Emoji => ThemeColor::Yellow,
        }
    }
}

} // verus!
