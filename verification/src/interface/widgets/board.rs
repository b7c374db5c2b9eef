//! The board as drawn on the game screen: an 8 by 8 grid of boxed cells with
//! column letters above and row numbers on the left.

use vstd::prelude::*;

use crate::board::{Board, at};
use crate::game_core::piece::{Color, Piece};
use crate::interface::theme::ThemeRole;
use crate::text::{decimal, push_char, push_decimal};

verus! {

/// How wide a cell is drawn: five characters of content and one of border.
pub const CELL_WIDTH: u16 = 6;
/// How high a cell is drawn: one line of content and one of border.
pub const CELL_HEIGHT: u16 = 2;
/// How wide the column of row numbers is.
pub const LABEL_WIDTH: u16 = 4;

/// The width of the whole grid: labels, eight cells and the last border.
pub open spec fn grid_width() -> int {
    LABEL_WIDTH + CELL_WIDTH * 8 + 1
}

/// The height of the whole grid: the letters, eight cells and the last border.
pub open spec fn grid_height() -> int {
    1 + CELL_HEIGHT * 8 + 1
}

/// The board widget: the board with the cursor, the selected square and the
/// squares the selected piece may move to.
pub struct CheckerBoard<'a> {
    board: &'a Board,
    cursor_pos: (usize, usize),
    selected_square: Option<(usize, usize)>,
    possible_moves: &'a [(usize, usize)],
}

/// How a cell's content is coloured: its background and its text.
#[derive(Debug, Clone, Copy, PartialEq, Eq, Structural)]
pub struct CellStyle {
    pub background: Option<ThemeRole>,
    pub foreground: Option<ThemeRole>,
}

/// The nine characters of a cell's box: the corners and sides from top left
/// to bottom right, then the inner rule.
pub type BorderChars = (char, char, char, char, char, char, char, char, char);

/// A piece as drawn in a cell.
pub open spec fn cell_piece_text(p: Piece) -> Seq<char> {
    match (p.color, p.is_king) {
        (Color::Black, false) => "(b)"@,
        (Color::Black, true) => "(B)"@,
        (Color::White, false) => "(w)"@,
        (Color::White, true) => "(W)"@,
    }
}

/// Whether `(row, col)` is a dark square, the squares pieces stand on.
pub open spec fn playable(row: int, col: int) -> bool {
    (row + col) % 2 == 1
}

/// The five characters of a cell: the piece between blanks, blanks on an
/// empty dark square, a shaded pattern on an empty light square.
pub open spec fn cell_text(p: Option<Piece>, row: int, col: int) -> Seq<char> {
    match p {
        Some(p) => " "@ + cell_piece_text(p) + " "@,
        None => if playable(row, col) { "     "@ } else { " ░░░ "@ },
    }
}

/// The colours of a cell: olive behind a square the selected piece may move
/// to; the piece's colour, or the pattern colour on a light square.
pub open spec fn cell_style_spec(p: Option<Piece>, row: int, col: int, possible: bool) -> CellStyle {
    CellStyle {
        background: if possible { Some(ThemeRole::PossibleMove) } else { None },
        foreground: match p {
            Some(q) => if q.color == Color::Black { Some(ThemeRole::PieceBlack) } else { Some(ThemeRole::PieceWhite) },
            None => if !playable(row, col) { Some(ThemeRole::BoardLight) } else { None },
        },
    }
}

/// The box of a cell: double lines round the cursor, single lines elsewhere.
pub open spec fn border_chars_spec(is_cursor: bool) -> BorderChars {
    if is_cursor {
        ('╔', '═', '╗', '║', '║', '╚', '═', '╝', '─')
    } else {
        ('┌', '─', '┐', '│', '│', '└', '─', '┘', '─')
    }
}

impl<'a> CheckerBoard<'a> {
    pub closed spec fn board_view(&self) -> &'a Board {
        self.board
    }

    pub closed spec fn cursor_view(&self) -> (usize, usize) {
        self.cursor_pos
    }

    pub closed spec fn selected_view(&self) -> Option<(usize, usize)> {
        self.selected_square
    }

    pub closed spec fn moves_view(&self) -> Seq<(usize, usize)> {
        self.possible_moves@
    }

    /// The widget for `board`, with the cursor on the top left square,
    /// nothing selected and no squares marked.
    pub fn new(board: &'a Board) -> (w: Self)
        ensures
            w.board_view() == board,
            w.cursor_view() == (0usize, 0usize),
            w.selected_view() is None,
            w.moves_view() == Seq::<(usize, usize)>::empty(),
    {
        let empty: &'a [(usize, usize)] = &[];
        CheckerBoard { board, cursor_pos: (0, 0), selected_square: None, possible_moves: empty }
    }

    /// The same widget with the cursor on `pos`.
    pub fn cursor_position(self, pos: (usize, usize)) -> (w: Self)
        ensures
            w.board_view() == self.board_view(),
            w.cursor_view() == pos,
            w.selected_view() == self.selected_view(),
            w.moves_view() == self.moves_view(),
    {
        CheckerBoard { cursor_pos: pos, ..self }
    }

    /// The same widget with `square` selected.
    pub fn selected_square(self, square: Option<(usize, usize)>) -> (w: Self)
        ensures
            w.board_view() == self.board_view(),
            w.cursor_view() == self.cursor_view(),
            w.selected_view() == square,
            w.moves_view() == self.moves_view(),
    {
        CheckerBoard { selected_square: square, ..self }
    }

    /// The same widget with `moves` marked as the squares to move to.
    pub fn possible_moves(self, moves: &'a [(usize, usize)]) -> (w: Self)
        ensures
            w.board_view() == self.board_view(),
            w.cursor_view() == self.cursor_view(),
            w.selected_view() == self.selected_view(),
            w.moves_view() == moves@,
    {
        CheckerBoard { possible_moves: moves, ..self }
    }

    pub fn board(&self) -> (b: &'a Board)
        ensures
            b == self.board_view(),
    {
        self.board
    }

    pub fn cursor(&self) -> (c: (usize, usize))
        ensures
            c == self.cursor_view(),
    {
        self.cursor_pos
    }

    pub fn selected(&self) -> (s: Option<(usize, usize)>)
        ensures
            s == self.selected_view(),
    {
        self.selected_square
    }

    /// Whether `(row, col)` is one of the marked squares.
    pub fn is_possible_move(&self, row: usize, col: usize) -> (res: bool)
        ensures
            res == self.moves_view().contains((row, col)),
    {
        let mut i: usize = 0;
        while i < self.possible_moves.len()
            invariant
                i <= self.moves_view().len(),
                self.moves_view() == self.possible_moves@,
                forall|j: int| 0 <= j < i ==> self.moves_view()[j] != (row, col),
            decreases self.moves_view().len() - i,
        {
            if self.possible_moves[i].0 == row && self.possible_moves[i].1 == col {
                assert(self.moves_view()[i as int] == (row, col));
                return true;
            }
            i = i + 1;
        }
        false
    }

    /// Whether the cursor is on `(row, col)`.
    pub fn is_cursor(&self, row: usize, col: usize) -> (res: bool)
        ensures
            res == (self.cursor_view() == (row, col)),
    {
        self.cursor_pos.0 == row && self.cursor_pos.1 == col
    }

    /// The five characters drawn in cell `(row, col)`.
    pub fn cell_content(&self, row: usize, col: usize) -> (s: String)
        requires
            self.board_view().wf(),
            row < 8,
            col < 8,
        ensures
            s@ == cell_text(at(self.board_view()@, row as int, col as int), row as int, col as int),
    {
        match self.board.get_piece(row, col) {
            None => {
                if (row + col) % 2 == 1 {
                    proof { reveal_strlit("     "); }
                    String::from_str("     ")
                } else {
                    proof { reveal_strlit(" ░░░ "); }
                    String::from_str(" ░░░ ")
                }
            },
            Some(p) => {
                let mut s = String::new();
                push_char(&mut s, ' ');
                push_char(&mut s, '(');
                let letter = match (p.color, p.is_king) {
                    (Color::Black, false) => 'b',
                    (Color::Black, true) => 'B',
                    (Color::White, false) => 'w',
                    (Color::White, true) => 'W',
                };
                push_char(&mut s, letter);
                push_char(&mut s, ')');
                push_char(&mut s, ' ');
                proof {
                    reveal_strlit(" ");
                    reveal_strlit("(b)");
                    reveal_strlit("(B)");
                    reveal_strlit("(w)");
                    reveal_strlit("(W)");
                }
                assert(s@ =~= cell_text(Some(p), row as int, col as int));
                s
            },
        }
    }

    /// The colours of cell `(row, col)`.
    pub fn cell_style(&self, row: usize, col: usize) -> (st: CellStyle)
        requires
            self.board_view().wf(),
            row < 8,
            col < 8,
        ensures
            st == cell_style_spec(
                at(self.board_view()@, row as int, col as int),
                row as int,
                col as int,
                self.moves_view().contains((row, col)),
            ),
    {
        let piece = self.board.get_piece(row, col);
        let possible = self.is_possible_move(row, col);
        let background = if possible { Some(ThemeRole::PossibleMove) } else { None };
        let foreground = match piece {
            Some(p) => if p.color == Color::Black { Some(ThemeRole::PieceBlack) } else { Some(ThemeRole::PieceWhite) },
            None => if (row + col) % 2 != 1 { Some(ThemeRole::BoardLight) } else { None },
        };
        CellStyle { background, foreground }
    }

    /// The characters of the box of cell `(row, col)`.
    pub fn get_border_chars(&self, row: usize, col: usize) -> (b: BorderChars)
        ensures
            b == border_chars_spec(self.cursor_view() == (row, col)),
    {
        if self.is_cursor(row, col) {
            ('╔', '═', '╗', '║', '║', '╚', '═', '╝', '─')
        } else {
            ('┌', '─', '┐', '│', '│', '└', '─', '┘', '─')
        }
    }

    /// Whether the rule under cell `(row, col)` is drawn: not under the last
    /// row, and not where the cursor's box lies below.
    pub fn draws_rule_below(&self, row: usize, col: usize) -> (res: bool)
        requires
            row < 8,
            col < 8,
        ensures
            res == (row < 7 && self.cursor_view() != ((row + 1) as usize, col)),
    {
        row < 7 && !self.is_cursor(row + 1, col)
    }

    /// Whether the rule right of cell `(row, col)` is drawn: not right of the
    /// last column, and not where the cursor's box lies to the right.
    pub fn draws_rule_right(&self, row: usize, col: usize) -> (res: bool)
        requires
            row < 8,
            col < 8,
        ensures
            res == (col < 7 && self.cursor_view() != (row, (col + 1) as usize)),
    {
        col < 7 && !self.is_cursor(row, col + 1)
    }

    /// Whether the crossing at the bottom right of cell `(row, col)` is
    /// drawn: inside the grid, and where none of the three other cells that
    /// meet there holds the cursor.
    pub fn draws_crossing(&self, row: usize, col: usize) -> (res: bool)
        requires
            row < 8,
            col < 8,
        ensures
            res == (row < 7 && col < 7 && self.cursor_view() != ((row + 1) as usize, col)
                && self.cursor_view() != (row, (col + 1) as usize) && self.cursor_view() != ((row + 1) as usize, (col + 1) as usize)),
    {
        row < 7 && col < 7 && !self.is_cursor(row + 1, col) && !self.is_cursor(row, col + 1)
            && !self.is_cursor(row + 1, col + 1)
    }
}

/// The letter over column `col`.
pub fn column_label(col: u16) -> (c: char)
    requires
        col < 8,
    ensures
        c as int == 'A' as int + col,
{
    let b: u8 = 65 + (col as u8);
    b as char
}

/// The label left of row `row`: its number from 8 down, right aligned in two
/// characters, then a blank.
pub open spec fn row_label_text(row: int) -> Seq<char> {
    seq![' '] + decimal((8 - row) as nat) + seq![' ']
}

pub fn row_label(row: u16) -> (s: String)
    requires
        row < 8,
    ensures
        s@ == row_label_text(row as int),
{
    let mut s = String::new();
    push_char(&mut s, ' ');
    push_decimal(&mut s, (8 - row) as usize);
    push_char(&mut s, ' ');
    s
}

/// Whether an area of `width` by `height` holds the whole grid.
pub fn grid_fits(width: u16, height: u16) -> (res: bool)
    ensures
        res == (width >= grid_width() && height >= grid_height()),
{
    width >= LABEL_WIDTH + CELL_WIDTH * 8 + 1 && height >= 1 + CELL_HEIGHT * 8 + 1
}

/// The message shown where the grid does not fit.
pub open spec fn too_small_text(width: u16, height: u16) -> Seq<char> {
    "Need "@ + decimal(grid_width() as nat) + seq!['x'] + decimal(grid_height() as nat) + ", got "@
        + decimal(width as nat) + seq!['x'] + decimal(height as nat)
}

pub fn too_small_message(width: u16, height: u16) -> (s: String)
    ensures
        s@ == too_small_text(width, height),
{
    let mut s = String::from_str("Need ");
    push_decimal(&mut s, 53);
    push_char(&mut s, 'x');
    push_decimal(&mut s, 18);
    s.append(", got ");
    push_decimal(&mut s, width as usize);
    push_char(&mut s, 'x');
    push_decimal(&mut s, height as usize);
    proof {
        reveal_strlit("Need ");
        reveal_strlit(", got ");
    }
    s
}

/// Where the grid's top left corner goes in the area at `(x, y)` of `width`
/// by `height`: centred across, a quarter of the spare lines down.
pub fn grid_origin(x: u16, y: u16, width: u16, height: u16) -> (o: (u16, u16))
    requires
        width >= grid_width(),
        height >= grid_height(),
        x + (width - grid_width()) / 2 <= u16::MAX,
        y + (height - grid_height()) / 4 <= u16::MAX,
    ensures
        o.0 == x + (width - grid_width()) / 2,
        o.1 == y + (height - grid_height()) / 4,
{
    let gw: u16 = LABEL_WIDTH + CELL_WIDTH * 8 + 1;
    let gh: u16 = 1 + CELL_HEIGHT * 8 + 1;
    ((width - gw) / 2 + x, (height - gh) / 4 + y)
}

/// How a stroke is coloured.
#[derive(Debug, Clone, Copy, PartialEq, Eq, Structural)]
pub enum Ink {
    /// The terminal's own colours.
    Plain,
    /// The colour of the column letters and row numbers.
    Label,
    /// The colour of the grid's lines.
    Border,
    /// The bright, bold lines of the cursor's box.
    Cursor,
    /// The colours of a cell's content.
    Cell(CellStyle),
    /// Red, for the message that the grid does not fit.
    Warning,
}

/// Text written from column `x` of screen line `y`.
pub struct Stroke {
    pub x: u16,
    pub y: u16,
    pub text: String,
    pub ink: Ink,
}

/// A stroke as plain values.
pub struct StrokeView {
    pub x: int,
    pub y: int,
    pub text: Seq<char>,
    pub ink: Ink,
}

impl View for Stroke {
    type V = StrokeView;

    open spec fn view(&self) -> StrokeView {
        StrokeView { x: self.x as int, y: self.y as int, text: self.text@, ink: self.ink }
    }
}

/// The strokes of a list, as plain values.
pub open spec fn strokes_view(v: Seq<Stroke>) -> Seq<StrokeView> {
    v.map_values(|s: Stroke| s@)
}

pub open spec fn stroke(x: int, y: int, text: Seq<char>, ink: Ink) -> StrokeView {
    StrokeView { x, y, text, ink }
}

/// The letter over column `col`.
pub open spec fn column_char(col: int) -> char {
    (65 + col) as char
}

/// The outer lines of a cell away from the cursor whose box has its top left
/// corner at `(x, y)`: the top line on the first row, the left line on the
/// first column, the right line on the last column, the bottom line on the
/// last row, with the corners of the grid.
pub open spec fn cell_edges(row: usize, col: usize, x: int, y: int) -> Seq<StrokeView> {
    (if row == 0 {
        seq![stroke(x, y, "┌─────"@, Ink::Border)]
            + (if col == 7 { seq![stroke(x + 6, y, "┐"@, Ink::Border)] } else { Seq::empty() })
    } else {
        Seq::empty()
    }) + (if col == 0 { seq![stroke(x, y + 1, "│"@, Ink::Border)] } else { Seq::empty() })
        + (if col == 7 { seq![stroke(x + 6, y + 1, "│"@, Ink::Border)] } else { Seq::empty() })
        + (if row == 7 {
        seq![stroke(x, y + 2, "└─────"@, Ink::Border)]
            + (if col == 7 { seq![stroke(x + 6, y + 2, "┘"@, Ink::Border)] } else { Seq::empty() })
    } else {
        Seq::empty()
    })
}

/// The double box round the cursor's cell.
pub open spec fn cursor_box(x: int, y: int) -> Seq<StrokeView> {
    seq![
        stroke(x, y, "╔═════╗"@, Ink::Cursor),
        stroke(x, y + 1, "║"@, Ink::Cursor),
        stroke(x + 6, y + 1, "║"@, Ink::Cursor),
        stroke(x, y + 2, "╚═════╝"@, Ink::Cursor),
    ]
}

impl<'a> CheckerBoard<'a> {
    /// The five characters of cell `(row, col)` with their colours, at
    /// `(x, y)`.
    pub open spec fn content_stroke(&self, row: usize, col: usize, x: int, y: int) -> StrokeView {
        let p = at(self.board_view()@, row as int, col as int);
        stroke(x, y, cell_text(p, row as int, col as int), Ink::Cell(
            cell_style_spec(p, row as int, col as int, self.moves_view().contains((row, col))),
        ))
    }

    /// The inner lines below and right of a cell away from the cursor: the
    /// rule below with its ends at the grid's sides, the rule to the right
    /// with its ends at the grid's top and bottom, and the crossing.
    pub open spec fn inner_rules(&self, row: usize, col: usize, x: int, y: int) -> Seq<StrokeView> {
        let cur = self.cursor_view();
        (if row < 7 && cur != ((row + 1) as usize, col) {
            (if col == 0 { seq![stroke(x, y + 2, "├"@, Ink::Border)] } else { Seq::empty() })
                + seq![stroke(x + 1, y + 2, "─────"@, Ink::Border)]
                + (if col == 7 { seq![stroke(x + 6, y + 2, "┤"@, Ink::Border)] } else { Seq::empty() })
        } else {
            Seq::empty()
        }) + (if col < 7 && cur != (row, (col + 1) as usize) {
            (if row == 0 { seq![stroke(x + 6, y, "┬"@, Ink::Border)] } else { Seq::empty() })
                + seq![stroke(x + 6, y + 1, "│"@, Ink::Border)]
                + (if row == 7 { seq![stroke(x + 6, y + 2, "┴"@, Ink::Border)] } else { Seq::empty() })
        } else {
            Seq::empty()
        }) + (if row < 7 && col < 7 && cur != ((row + 1) as usize, col) && cur != (row, (col + 1) as usize)
            && cur != ((row + 1) as usize, (col + 1) as usize) {
            seq![stroke(x + 6, y + 2, "┼"@, Ink::Border)]
        } else {
            Seq::empty()
        })
    }

    /// What is drawn for cell `(row, col)` whose box has its top left corner
    /// at `(x, y)`: the cursor's double box and the content; or the outer
    /// lines, the content and the inner lines.
    pub open spec fn cell_strokes(&self, row: usize, col: usize, x: int, y: int) -> Seq<StrokeView> {
        if self.cursor_view() == (row, col) {
            cursor_box(x, y).push(self.content_stroke(row, col, x + 1, y + 1))
        } else {
            cell_edges(row, col, x, y).push(self.content_stroke(row, col, x + 1, y + 1))
                + self.inner_rules(row, col, x, y)
        }
    }
}

/// Adds a stroke at the end of `out`.
fn push_stroke(out: &mut Vec<Stroke>, x: u16, y: u16, text: String, ink: Ink)
    ensures
        strokes_view(final(out)@) == strokes_view(old(out)@).push(stroke(x as int, y as int, text@, ink)),
{
    let st = Stroke { x, y, text, ink };
    out.push(st);
    assert(strokes_view(out@) =~= strokes_view(old(out)@).push(stroke(x as int, y as int, st.text@, ink)));
}

/// A string of the one character `c`.
fn char_text(c: char) -> (s: String)
    ensures
        s@ == seq![c],
{
    let mut s = String::new();
    push_char(&mut s, c);
    assert(s@ =~= seq![c]);
    s
}

/// Adds the outer lines of a cell away from the cursor.
fn push_edges(out: &mut Vec<Stroke>, row: usize, col: usize, x: u16, y: u16)
    requires
        x + 6 <= u16::MAX,
        y + 2 <= u16::MAX,
    ensures
        strokes_view(final(out)@) == strokes_view(old(out)@) + cell_edges(row, col, x as int, y as int),
{
    let ghost start = strokes_view(out@);
    let ghost (xi, yi) = (x as int, y as int);
    let ghost top: Seq<StrokeView> = if row == 0 {
        seq![stroke(xi, yi, "┌─────"@, Ink::Border)]
            + (if col == 7 { seq![stroke(xi + 6, yi, "┐"@, Ink::Border)] } else { Seq::empty() })
    } else {
        Seq::empty()
    };
    let ghost left: Seq<StrokeView> = if col == 0 { seq![stroke(xi, yi + 1, "│"@, Ink::Border)] } else { Seq::empty() };
    let ghost right: Seq<StrokeView> = if col == 7 { seq![stroke(xi + 6, yi + 1, "│"@, Ink::Border)] } else { Seq::empty() };
    let ghost bottom: Seq<StrokeView> = if row == 7 {
        seq![stroke(xi, yi + 2, "└─────"@, Ink::Border)]
            + (if col == 7 { seq![stroke(xi + 6, yi + 2, "┘"@, Ink::Border)] } else { Seq::empty() })
    } else {
        Seq::empty()
    };
    if row == 0 {
        push_stroke(out, x, y, String::from_str("┌─────"), Ink::Border);
        if col == 7 {
            push_stroke(out, x + 6, y, String::from_str("┐"), Ink::Border);
        }
    }
    assert(strokes_view(out@) =~= start + top);
    if col == 0 {
        push_stroke(out, x, y + 1, String::from_str("│"), Ink::Border);
    }
    assert(strokes_view(out@) =~= start + top + left);
    if col == 7 {
        push_stroke(out, x + 6, y + 1, String::from_str("│"), Ink::Border);
    }
    assert(strokes_view(out@) =~= start + top + left + right);
    if row == 7 {
        push_stroke(out, x, y + 2, String::from_str("└─────"), Ink::Border);
        if col == 7 {
            push_stroke(out, x + 6, y + 2, String::from_str("┘"), Ink::Border);
        }
    }
    assert(strokes_view(out@) =~= start + top + left + right + bottom);
    assert(cell_edges(row, col, xi, yi) =~= top + left + right + bottom);
}

impl<'a> CheckerBoard<'a> {
    /// Adds the inner lines below and right of a cell away from the cursor.
    fn push_rules(&self, out: &mut Vec<Stroke>, row: usize, col: usize, x: u16, y: u16)
        requires
            row < 8,
            col < 8,
            x + 6 <= u16::MAX,
            y + 2 <= u16::MAX,
        ensures
            strokes_view(final(out)@) == strokes_view(old(out)@) + self.inner_rules(row, col, x as int, y as int),
    {
        let ghost start = strokes_view(out@);
        let ghost (xi, yi) = (x as int, y as int);
        let ghost below: Seq<StrokeView> = if row < 7 && self.cursor_view() != ((row + 1) as usize, col) {
            (if col == 0 { seq![stroke(xi, yi + 2, "├"@, Ink::Border)] } else { Seq::empty() })
                + seq![stroke(xi + 1, yi + 2, "─────"@, Ink::Border)]
                + (if col == 7 { seq![stroke(xi + 6, yi + 2, "┤"@, Ink::Border)] } else { Seq::empty() })
        } else {
            Seq::empty()
        };
        let ghost right: Seq<StrokeView> = if col < 7 && self.cursor_view() != (row, (col + 1) as usize) {
            (if row == 0 { seq![stroke(xi + 6, yi, "┬"@, Ink::Border)] } else { Seq::empty() })
                + seq![stroke(xi + 6, yi + 1, "│"@, Ink::Border)]
                + (if row == 7 { seq![stroke(xi + 6, yi + 2, "┴"@, Ink::Border)] } else { Seq::empty() })
        } else {
            Seq::empty()
        };
        if self.draws_rule_below(row, col) {
            if col == 0 {
                push_stroke(out, x, y + 2, String::from_str("├"), Ink::Border);
            }
            push_stroke(out, x + 1, y + 2, String::from_str("─────"), Ink::Border);
            if col == 7 {
                push_stroke(out, x + 6, y + 2, String::from_str("┤"), Ink::Border);
            }
        }
        assert(strokes_view(out@) =~= start + below);
        if self.draws_rule_right(row, col) {
            if row == 0 {
                push_stroke(out, x + 6, y, String::from_str("┬"), Ink::Border);
            }
            push_stroke(out, x + 6, y + 1, String::from_str("│"), Ink::Border);
            if row == 7 {
                push_stroke(out, x + 6, y + 2, String::from_str("┴"), Ink::Border);
            }
        }
        assert(strokes_view(out@) =~= start + below + right);
        if self.draws_crossing(row, col) {
            push_stroke(out, x + 6, y + 2, String::from_str("┼"), Ink::Border);
        }
        assert(strokes_view(out@) =~= start + self.inner_rules(row, col, xi, yi));
    }

    /// Adds what is drawn for cell `(row, col)` whose box has its top left
    /// corner at `(x, y)`.
    fn push_cell(&self, out: &mut Vec<Stroke>, row: usize, col: usize, x: u16, y: u16)
        requires
            self.board_view().wf(),
            row < 8,
            col < 8,
            x + 6 <= u16::MAX,
            y + 2 <= u16::MAX,
        ensures
            strokes_view(final(out)@) == strokes_view(old(out)@) + self.cell_strokes(row, col, x as int, y as int),
    {
        let ghost start = strokes_view(out@);
        if self.is_cursor(row, col) {
            push_stroke(out, x, y, String::from_str("╔═════╗"), Ink::Cursor);
            push_stroke(out, x, y + 1, String::from_str("║"), Ink::Cursor);
            push_stroke(out, x + 6, y + 1, String::from_str("║"), Ink::Cursor);
            push_stroke(out, x, y + 2, String::from_str("╚═════╝"), Ink::Cursor);
            push_stroke(out, x + 1, y + 1, self.cell_content(row, col), Ink::Cell(self.cell_style(row, col)));
            assert(strokes_view(out@) =~= start + self.cell_strokes(row, col, x as int, y as int));
        } else {
            push_edges(out, row, col, x, y);
            push_stroke(out, x + 1, y + 1, self.cell_content(row, col), Ink::Cell(self.cell_style(row, col)));
            self.push_rules(out, row, col, x, y);
            assert(strokes_view(out@) =~= start + self.cell_strokes(row, col, x as int, y as int));
        }
    }
}

impl<'a> CheckerBoard<'a> {
    /// What is drawn for the first `k` cells of row `row`, whose boxes start
    /// on line `y`, with the grid's left edge at `x0`.
    pub open spec fn row_strokes(&self, row: usize, x0: int, y: int, k: int) -> Seq<StrokeView>
        decreases k,
    {
        if k <= 0 {
            Seq::empty()
        } else {
            self.row_strokes(row, x0, y, k - 1)
                + self.cell_strokes(row, (k - 1) as usize, x0 + LABEL_WIDTH + (k - 1) * CELL_WIDTH, y)
        }
    }

    /// What is drawn for the first `k` rows of the grid whose top left
    /// corner is `(x0, y0)`: for each row its number, then its cells.
    pub open spec fn rows_strokes(&self, x0: int, y0: int, k: int) -> Seq<StrokeView>
        decreases k,
    {
        if k <= 0 {
            Seq::empty()
        } else {
            let y = y0 + 1 + (k - 1) * CELL_HEIGHT;
            self.rows_strokes(x0, y0, k - 1).push(stroke(x0, y + CELL_HEIGHT / 2, row_label_text(k - 1), Ink::Label))
                + self.row_strokes((k - 1) as usize, x0, y, 8)
        }
    }

    /// What the widget draws in the area at `(x, y)` of `width` by `height`:
    /// where the grid does not fit, the message saying so in red; else, with
    /// the grid placed by `grid_origin`, a blank over the row numbers, the
    /// column letters, then the rows.
    pub open spec fn strokes_spec(&self, x: int, y: int, width: int, height: int) -> Seq<StrokeView> {
        if width < grid_width() || height < grid_height() {
            seq![stroke(x, y, too_small_text(width as u16, height as u16), Ink::Warning)]
        } else {
            let x0 = x + (width - grid_width()) / 2;
            let y0 = y + (height - grid_height()) / 4;
            seq![stroke(x0, y0, "    "@, Ink::Plain)] + column_labels(x0, y0, 8) + self.rows_strokes(x0, y0, 8)
        }
    }
}

/// The letters over the first `k` columns of the grid whose top left corner
/// is `(x0, y0)`, each over the middle of its column.
pub open spec fn column_labels(x0: int, y0: int, k: int) -> Seq<StrokeView>
    decreases k,
{
    if k <= 0 {
        Seq::empty()
    } else {
        column_labels(x0, y0, k - 1).push(
            stroke(x0 + LABEL_WIDTH + (k - 1) * CELL_WIDTH + CELL_WIDTH / 2, y0, seq![column_char(k - 1)], Ink::Label),
        )
    }
}

impl<'a> CheckerBoard<'a> {
    /// Everything the widget draws in the area at `(x, y)` of `width` by
    /// `height`, in the order it is drawn.
    pub fn strokes(&self, x: u16, y: u16, width: u16, height: u16) -> (out: Vec<Stroke>)
        requires
            self.board_view().wf(),
            x + width <= u16::MAX,
            y + height <= u16::MAX,
        ensures
            strokes_view(out@) == self.strokes_spec(x as int, y as int, width as int, height as int),
    {
        let mut out: Vec<Stroke> = Vec::new();
        if !grid_fits(width, height) {
            push_stroke(&mut out, x, y, too_small_message(width, height), Ink::Warning);
            assert(strokes_view(out@) =~= self.strokes_spec(x as int, y as int, width as int, height as int));
            return out;
        }
        let (x0, y0) = grid_origin(x, y, width, height);
        push_stroke(&mut out, x0, y0, String::from_str("    "), Ink::Plain);
        let ghost head = strokes_view(out@);
        let mut col: u16 = 0;
        while col < 8
            invariant
                col <= 8,
                x0 + 53 <= u16::MAX,
                strokes_view(out@) == head + column_labels(x0 as int, y0 as int, col as int),
            decreases 8 - col,
        {
            let c = column_label(col);
            push_stroke(&mut out, x0 + LABEL_WIDTH + col * CELL_WIDTH + CELL_WIDTH / 2, y0, char_text(c), Ink::Label);
            assert(c == column_char(col as int));
            assert(strokes_view(out@) =~= head + column_labels(x0 as int, y0 as int, col + 1));
            col = col + 1;
        }
        let ghost labelled = strokes_view(out@);
        let mut row: u16 = 0;
        while row < 8
            invariant
                row <= 8,
                self.board_view().wf(),
                x0 + 53 <= u16::MAX,
                y0 + 18 <= u16::MAX,
                strokes_view(out@) == labelled + self.rows_strokes(x0 as int, y0 as int, row as int),
            decreases 8 - row,
        {
            let y_base = y0 + 1 + row * CELL_HEIGHT;
            push_stroke(&mut out, x0, y_base + CELL_HEIGHT / 2, row_label(row), Ink::Label);
            let ghost before_cells = strokes_view(out@);
            let mut c: u16 = 0;
            while c < 8
                invariant
                    c <= 8,
                    row < 8,
                    self.board_view().wf(),
                    x0 + 53 <= u16::MAX,
                    y_base + 2 <= u16::MAX,
                    strokes_view(out@) == before_cells + self.row_strokes(row as usize, x0 as int, y_base as int, c as int),
                decreases 8 - c,
            {
                self.push_cell(&mut out, row as usize, c as usize, x0 + LABEL_WIDTH + c * CELL_WIDTH, y_base);
                assert(strokes_view(out@) =~= before_cells
                    + self.row_strokes(row as usize, x0 as int, y_base as int, c + 1));
                c = c + 1;
            }
            assert(strokes_view(out@) =~= labelled + self.rows_strokes(x0 as int, y0 as int, row + 1));
            row = row + 1;
        }
        assert(strokes_view(out@) =~= self.strokes_spec(x as int, y as int, width as int, height as int));
        out
    }
}

} // verus!
