use vstd::prelude::*;

verus! {

/// The side a piece belongs to.
#[derive(Clone, Copy, Debug, PartialEq, Eq, Structural)]
pub enum Color {
    White,
    Black,
}

/// The other side.
pub open spec fn opposite_color(c: Color) -> Color {
    match c {
        Color::White => Color::Black,
        Color::Black => Color::White,
    }
}

impl Color {
    pub fn opposite(&self) -> (res: Color)
        ensures
            res == opposite_color(*self),
    {
        match self {
            Color::White => Color::Black,
            Color::Black => Color::White,
        }
    }
}

/// A piece on the board: a man, or a king once promoted.
#[derive(Clone, Copy, Debug, PartialEq, Eq, Structural)]
pub struct Piece {
    pub color: Color,
    pub is_king: bool,
}

/// How a piece is drawn in text: `(w)`, `[W]`, `(b)` or `[B]`.
pub open spec fn piece_text(p: Piece) -> Seq<char> {
    match (p.color, p.is_king) {
        (Color::White, false) => seq!['(', 'w', ')'],
        (Color::White, true) => seq!['[', 'W', ']'],
        (Color::Black, false) => seq!['(', 'b', ')'],
        (Color::Black, true) => seq!['[', 'B', ']'],
    }
}

impl Piece {
    pub fn new(color: Color) -> (p: Piece)
        ensures
            p.color == color,
            !p.is_king,
    {
        Piece { color, is_king: false }
    }

    pub fn promote_to_king(&mut self)
        ensures
            final(self).color == old(self).color,
            final(self).is_king,
    {
        self.is_king = true;
    }

    pub fn display(&self) -> (s: String)
        ensures
            s@ == piece_text(*self),
    {
        match (self.color, self.is_king) {
            (Color::White, false) => {
                proof { reveal_strlit("(w)"); }
                String::from_str("(w)")
            },
            (Color::White, true) => {
                proof { reveal_strlit("[W]"); }
                String::from_str("[W]")
            },
            (Color::Black, false) => {
                proof { reveal_strlit("(b)"); }
                String::from_str("(b)")
            },
            (Color::Black, true) => {
                proof { reveal_strlit("[B]"); }
                String::from_str("[B]")
            },
        }
    }
}

/// Opposite colors alternate: taking the opposite twice gives the color back.
pub proof fn lemma_opposite_involutive(c: Color)
    ensures
        opposite_color(opposite_color(c)) == c,
        opposite_color(c) != c,
{
}

} // verus!
