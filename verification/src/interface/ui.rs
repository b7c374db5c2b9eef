//! The plain terminal screen: the board drawn with box lines, row by row,
//! the cursor and the selected piece marked on the horizontal lines and the
//! squares to move to on the vertical ones.

use vstd::prelude::*;

use crate::board::{Board, Grid, at};
use crate::game_core::game::CheckersGame;
use crate::game_core::game_logic::{stalemate, winner};
use crate::game_core::piece::{Color, Piece, piece_text};
use crate::interface::welcome_screen::{blanks, fill_lines, fill_words, strings_view};
use crate::text::{chars_of, chars_view, decimal, push_char, push_decimal, words, words_of};

verus! {

/// The screen's cursor and whether nothing has been drawn yet.
pub struct UI {
    pub cursor_pos: (usize, usize),
    pub first_render: bool,
}

impl UI {
    pub fn new() -> (ui: Self)
        ensures
            ui.cursor_pos == (0usize, 0usize),
            ui.first_render,
    {
        UI { cursor_pos: (0, 0), first_render: true }
    }

    pub fn set_cursor(&mut self, row: usize, col: usize)
        ensures
            final(self).cursor_pos == (row, col),
            final(self).first_render == old(self).first_render,
    {
        self.cursor_pos = (row, col);
    }

    pub fn get_cursor(&self) -> (c: (usize, usize))
        ensures
            c == self.cursor_pos,
    {
        self.cursor_pos
    }

    /// Whether the lines above and below `cell` are marked: the cursor's
    /// and the selected piece's.
    pub fn should_highlight_horizontal(&self, selected: Option<(usize, usize)>, cell: (usize, usize)) -> (res: bool)
        ensures
            res == (cell == self.cursor_pos || selected == Some(cell)),
    {
        let at_cursor = cell.0 == self.cursor_pos.0 && cell.1 == self.cursor_pos.1;
        let at_selected = match selected {
            Some(s) => s.0 == cell.0 && s.1 == cell.1,
            None => false,
        };
        at_cursor || at_selected
    }

    /// Whether the lines left and right of `cell` are marked: those of the
    /// squares the selected piece may move to.
    pub fn should_highlight_vertical(&self, possible_moves: Option<&[(usize, usize)]>, cell: (usize, usize)) -> (res: bool)
        ensures
            res == match possible_moves {
                Some(m) => m@.contains(cell),
                None => false,
            },
    {
        match possible_moves {
            None => false,
            Some(m) => {
                let mut i: usize = 0;
                while i < m.len()
                    invariant
                        possible_moves == Some(m),
                        i <= m@.len(),
                        forall|j: int| 0 <= j < i ==> m@[j] != cell,
                    decreases m@.len() - i,
                {
                    if m[i].0 == cell.0 && m[i].1 == cell.1 {
                        assert(m@[i as int] == cell);
                        return true;
                    }
                    i = i + 1;
                }
                false
            },
        }
    }
}

impl Default for UI {
    fn default() -> (ui: Self)
        ensures
            ui.cursor_pos == (0usize, 0usize),
            ui.first_render,
    {
        Self::new()
    }
}

/// The width of the drawn board: three characters of row numbers, six per
/// cell, and the last border.
pub fn get_board_width() -> (w: usize)
    ensures
        w == 3 + 6 * 8 + 1,
{
    3 + (6 * 8) + 1
}

/// The blanks that put the board in the middle of a terminal `width`
/// columns wide.
pub fn centering_offset(width: u16) -> (x: usize)
    ensures
        x == (if width > 3 + 6 * 8 + 1 { (width - (3 + 6 * 8 + 1)) / 2 } else { 0 }),
{
    let board_width = get_board_width();
    if width as usize > board_width {
        (width as usize - board_width) / 2
    } else {
        0
    }
}

/// The character where the lines meet at corner `(row, col)` of an 8 by 8
/// grid (corners numbered 0 to 8 both ways).
pub open spec fn junction_char(row: int, col: int) -> char {
    if row == 0 {
        if col == 0 { '┌' } else if col == 8 { '┐' } else { '┬' }
    } else if row == 8 {
        if col == 0 { '└' } else if col == 8 { '┘' } else { '┴' }
    } else if col == 0 {
        '├'
    } else if col == 8 {
        '┤'
    } else {
        '┼'
    }
}

pub fn junction(row: usize, col: usize) -> (c: char)
    ensures
        c == junction_char(row as int, col as int),
{
    if row == 0 {
        if col == 0 { '┌' } else if col == 8 { '┐' } else { '┬' }
    } else if row == 8 {
        if col == 0 { '└' } else if col == 8 { '┘' } else { '┴' }
    } else if col == 0 {
        '├'
    } else if col == 8 {
        '┤'
    } else {
        '┼'
    }
}

/// The colours of the plain terminal screen.
#[derive(Debug, Clone, Copy, PartialEq, Eq, Structural)]
pub enum TermColor {
    DarkGrey,
    Grey,
    Green,
    Blue,
    Red,
    White,
    Yellow,
    Cyan,
}

/// A cell as the plain screen draws it: its text, its colour, and whether
/// it is bold (kings are).
pub open spec fn plain_cell(p: Option<Piece>, row: int, col: int) -> (Seq<char>, TermColor, bool) {
    match p {
        Some(q) => (
            " "@ + piece_text(q) + " "@,
            if q.color == Color::White { TermColor::White } else { TermColor::Red },
            q.is_king,
        ),
        None => (if (row + col) % 2 == 0 { "     "@ } else { " ░░░ "@ }, TermColor::DarkGrey, false),
    }
}

pub fn cell_display(board: &Board, row: usize, col: usize) -> (res: (String, TermColor, bool))
    requires
        board.wf(),
        row < board.size,
        col < board.size,
    ensures
        (res.0@, res.1, res.2) == plain_cell(at(board@, row as int, col as int), row as int, col as int),
{
    match board.get_piece(row, col) {
        Some(piece) => {
            let color = match piece.color {
                Color::White => TermColor::White,
                Color::Black => TermColor::Red,
            };
            let mut s = String::from_str(" ");
            let t = piece.display();
            s.append(t.as_str());
            s.append(" ");
            (s, color, piece.is_king)
        },
        None => {
            if (row + col) % 2 == 0 {
                (String::from_str("     "), TermColor::DarkGrey, false)
            } else {
                (String::from_str(" ░░░ "), TermColor::DarkGrey, false)
            }
        },
    }
}

/// The lines of a hint under the board: its words filled into lines of at
/// most 59 bytes, the width of the board.
pub fn hint_lines(hint: &str) -> (lines: Vec<String>)
    ensures
        strings_view(lines@) == fill_words(words(hint@), 59),
{
    let chars = chars_of(hint);
    let ws = words_of(&chars);
    assert(chars_view(ws@) =~= words(hint@));
    fill_lines(&ws, 59)
}

/// The line of the end of a game: the winner, or a stalemate.
pub open spec fn plain_game_over_text(winner: Option<Color>, stalemate: bool) -> Option<Seq<char>> {
    match winner {
        Some(Color::White) => Some("🏆 GAME OVER! White WINS! 🏆"@),
        Some(Color::Black) => Some("🏆 GAME OVER! Black WINS! 🏆"@),
        None => if stalemate { Some("🤝 GAME OVER! STALEMATE! 🤝"@) } else { None },
    }
}

pub fn game_over_line(winner: Option<Color>, stalemate: bool) -> (t: Option<&'static str>)
    ensures
        match t {
            Some(s) => plain_game_over_text(winner, stalemate) == Some(s@),
            None => plain_game_over_text(winner, stalemate) is None,
        },
{
    match winner {
        Some(Color::White) => Some("🏆 GAME OVER! White WINS! 🏆"),
        Some(Color::Black) => Some("🏆 GAME OVER! Black WINS! 🏆"),
        None => if stalemate { Some("🤝 GAME OVER! STALEMATE! 🤝") } else { None },
    }
}

/// Text in one colour, bold or not; no colour is the terminal's own.
pub struct Run {
    pub text: String,
    pub color: Option<TermColor>,
    pub bold: bool,
}

/// A run as plain values.
pub struct RunView {
    pub text: Seq<char>,
    pub color: Option<TermColor>,
    pub bold: bool,
}

impl View for Run {
    type V = RunView;

    open spec fn view(&self) -> RunView {
        RunView { text: self.text@, color: self.color, bold: self.bold }
    }
}

pub open spec fn run(text: Seq<char>, color: Option<TermColor>, bold: bool) -> RunView {
    RunView { text, color, bold }
}

/// The runs of a line, as plain values.
pub open spec fn runs_view(v: Seq<Run>) -> Seq<RunView> {
    v.map_values(|r: Run| r@)
}

/// The lines of a screen, as plain values.
pub open spec fn lines_view(v: Seq<Vec<Run>>) -> Seq<Seq<RunView>> {
    v.map_values(|l: Vec<Run>| runs_view(l@))
}

/// What the plain screen shows of a game: the game, the selected piece, the
/// squares it may move to, whether the computer is thinking, and the
/// computer's last error.
pub struct PlainView<'a> {
    pub game: &'a CheckersGame,
    pub selected_piece: Option<(usize, usize)>,
    pub possible_moves: Option<&'a [(usize, usize)]>,
    pub ai_thinking: bool,
    pub ai_error: Option<&'a str>,
}

/// A frame of the plain screen: whether the whole terminal is cleared
/// first, the lines from the top, and the column of the note that two
/// people play, if it is shown.
pub struct PlainFrame {
    pub clear_all: bool,
    pub lines: Vec<Vec<Run>>,
    pub local_mode_column: Option<usize>,
}

/// The note shown at the top right when two people play.
pub fn local_mode_text() -> (t: &'static str)
    ensures
        t@ == "Local Mode (2 Player)"@,
{
    "Local Mode (2 Player)"
}

/// The blanks that start a line of the screen.
pub open spec fn indent(offset: nat) -> Seq<RunView> {
    if offset > 0 {
        seq![run(blanks(offset), None, false)]
    } else {
        Seq::empty()
    }
}

/// A colour's name as the status line shows it.
pub open spec fn color_word(c: Color) -> Seq<char> {
    match c {
        Color::White => "White"@,
        Color::Black => "Black"@,
    }
}

/// The two status lines: a double rule, then whose turn it is.
pub open spec fn status_lines(offset: nat, player: Color) -> Seq<Seq<RunView>> {
    seq![
        indent(offset) + seq![run("═══════════════════════════════════════════════════════════"@, Some(TermColor::DarkGrey), false)],
        indent(offset) + seq![
            run("Current Turn: "@, None, false),
            run(color_word(player), Some(if player == Color::White { TermColor::White } else { TermColor::Red }), true),
        ],
    ]
}

/// The letters over the first `k` columns, each in a cell's width.
pub open spec fn header_cols(k: int) -> Seq<char>
    decreases k,
{
    if k <= 0 {
        Seq::empty()
    } else {
        header_cols(k - 1) + "   "@ + seq![(65 + (k - 1)) as char] + "  "@
    }
}

/// The line of column letters over a board of `n` columns.
pub open spec fn header_line(offset: nat, n: int) -> Seq<RunView> {
    indent(offset) + seq![run("   "@ + header_cols(n), Some(TermColor::Blue), false)]
}

/// A row's number right aligned in two characters.
pub open spec fn pad2(v: nat) -> Seq<char> {
    if v < 10 {
        seq![' '] + decimal(v)
    } else {
        decimal(v)
    }
}

impl UI {
    /// Whether the lines above and below `cell` are marked.
    pub open spec fn marks_horizontal(&self, selected: Option<(usize, usize)>, cell: (usize, usize)) -> bool {
        cell == self.cursor_pos || selected == Some(cell)
    }

    /// The segment of horizontal line `row` over column `col`: marked, with
    /// a heavy middle, when the cell above or below is.
    pub open spec fn segment(&self, selected: Option<(usize, usize)>, row: int, col: int, n: int) -> Seq<RunView> {
        if (row > 0 && self.marks_horizontal(selected, ((row - 1) as usize, col as usize)))
            || (row < n && self.marks_horizontal(selected, (row as usize, col as usize))) {
            seq![
                run("─"@, Some(TermColor::DarkGrey), false),
                run("━━━"@, Some(TermColor::Grey), false),
                run("─"@, Some(TermColor::DarkGrey), false),
            ]
        } else {
            seq![run("─────"@, Some(TermColor::DarkGrey), false)]
        }
    }

    /// The first `k` corners of horizontal line `row`, each followed by its
    /// segment where a column follows.
    pub open spec fn border_runs(&self, selected: Option<(usize, usize)>, row: int, n: int, k: int) -> Seq<RunView>
        decreases k,
    {
        if k <= 0 {
            Seq::empty()
        } else {
            self.border_runs(selected, row, n, k - 1) + seq![run(seq![junction_char(row, k - 1)], Some(TermColor::DarkGrey), false)]
                + (if k - 1 < n { self.segment(selected, row, k - 1, n) } else { Seq::empty() })
        }
    }

    /// Horizontal line `row` of the grid.
    pub open spec fn border_line(&self, selected: Option<(usize, usize)>, offset: nat, row: int, n: int) -> Seq<RunView> {
        indent(offset) + seq![run("   "@, None, false)] + self.border_runs(selected, row, n, n + 1)
    }
}

/// Whether the lines left and right of `cell` are marked.
pub open spec fn marks_vertical(moves: Option<&[(usize, usize)]>, cell: (usize, usize)) -> bool {
    match moves {
        Some(m) => m@.contains(cell),
        None => false,
    }
}

/// The vertical line left of column `col` in row `row`: heavy and red next
/// to a square to move to.
pub open spec fn bar(moves: Option<&[(usize, usize)]>, row: int, col: int, n: int) -> RunView {
    if (col > 0 && marks_vertical(moves, (row as usize, (col - 1) as usize)))
        || (col < n && marks_vertical(moves, (row as usize, col as usize))) {
        run("┃"@, Some(TermColor::Red), false)
    } else {
        run("│"@, Some(TermColor::DarkGrey), false)
    }
}

/// The first `k` vertical lines of row `row`, each followed by its cell
/// where a column follows.
pub open spec fn content_runs(g: Grid, moves: Option<&[(usize, usize)]>, row: int, n: int, k: int) -> Seq<RunView>
    decreases k,
{
    if k <= 0 {
        Seq::empty()
    } else {
        content_runs(g, moves, row, n, k - 1) + seq![bar(moves, row, k - 1, n)] + (if k - 1 < n {
            let c = plain_cell(at(g, row, k - 1), row, k - 1);
            seq![run(c.0, Some(c.1), c.2)]
        } else {
            Seq::empty()
        })
    }
}

/// The line of row `row`'s cells, after its number.
pub open spec fn content_line(g: Grid, moves: Option<&[(usize, usize)]>, offset: nat, row: int, n: int) -> Seq<RunView> {
    indent(offset) + seq![run(pad2((row + 1) as nat) + " "@, Some(TermColor::Blue), false)] + content_runs(g, moves, row, n, n + 1)
}

impl UI {
    /// The first `k` horizontal lines of the grid, each followed by the row
    /// of cells under it where there is one.
    pub open spec fn board_lines(&self, view: &PlainView, offset: nat, k: int) -> Seq<Seq<RunView>>
        decreases k,
    {
        if k <= 0 {
            Seq::empty()
        } else {
            let n = view.game.board.size as int;
            self.board_lines(view, offset, k - 1).push(self.border_line(view.selected_piece, offset, k - 1, n))
                + (if k - 1 < n {
                seq![content_line(view.game.board@, view.possible_moves, offset, k - 1, n)]
            } else {
                Seq::empty()
            })
        }
    }
}

/// The computer's error: a blank line, a red warning, the message in red.
pub open spec fn error_lines(offset: nat, error: Seq<char>) -> Seq<Seq<RunView>> {
    seq![
        Seq::empty(),
        indent(offset) + seq![run("⚠️  AI ERROR"@, Some(TermColor::Red), true)],
        indent(offset) + seq![run(error, Some(TermColor::Red), false)],
    ]
}

/// The keys: a blank line, a rule and the list of keys, both dim.
pub open spec fn control_lines(offset: nat) -> Seq<Seq<RunView>> {
    seq![
        Seq::empty(),
        indent(offset) + seq![run("───────────────────────────────────────────────────────────"@, Some(TermColor::DarkGrey), false)],
        indent(offset) + seq![run("Controls: ↑↓←→ Move | Space/Enter Select | H Hint | Q/Esc Quit"@, Some(TermColor::DarkGrey), false)],
    ]
}

/// The first `k` lines of a hint: the first after a yellow bulb in cyan,
/// the others indented in the terminal's colour.
pub open spec fn hint_body(ls: Seq<Seq<char>>, offset: nat, k: int) -> Seq<Seq<RunView>>
    decreases k,
{
    if k <= 0 {
        Seq::empty()
    } else {
        hint_body(ls, offset, k - 1).push(if k - 1 == 0 {
            indent(offset) + seq![run("💡 "@, Some(TermColor::Yellow), false), run(ls[0], Some(TermColor::Cyan), false)]
        } else {
            indent(offset) + seq![run("   "@ + ls[k - 1], None, false)]
        })
    }
}

/// The hint under the board: a blank line, a dim rule, then its words
/// filled into lines of at most 59 bytes.
pub open spec fn hint_section(offset: nat, hint: Seq<char>) -> Seq<Seq<RunView>> {
    let ls = fill_words(words(hint), 59);
    seq![Seq::empty(), indent(offset) + seq![run("───────────────────────────────────────────────────────────"@, Some(TermColor::DarkGrey), false)]]
        + hint_body(ls, offset, ls.len() as int)
}

/// The end of the game: a blank line, a double rule, the result in bold
/// yellow (nothing when there is neither a winner nor a stalemate), and
/// the invitation to leave.
pub open spec fn over_lines(offset: nat, winner: Option<Color>, stalemate: bool) -> Seq<Seq<RunView>> {
    seq![
        Seq::empty(),
        indent(offset) + seq![run("═══════════════════════════════════════════════════════════"@, Some(TermColor::DarkGrey), false)],
        indent(offset) + match plain_game_over_text(winner, stalemate) {
            Some(t) => seq![run(t, Some(TermColor::Yellow), true)],
            None => Seq::empty(),
        },
        indent(offset) + seq![run("Press any key to exit..."@, Some(TermColor::Grey), false)],
    ]
}

impl UI {
    /// The lines of a frame: the status, a blank line, the column letters,
    /// the grid; while the game goes on the computer's error, the keys and
    /// the hint; at its end the result.
    pub open spec fn frame_lines(&self, view: &PlainView, hint: Option<Seq<char>>, offset: nat) -> Seq<Seq<RunView>> {
        let g = view.game;
        let n = g.board.size as int;
        status_lines(offset, g.current_player) + seq![Seq::empty(), header_line(offset, n)]
            + self.board_lines(view, offset, n + 1)
            + (if !g.is_game_over {
            (match view.ai_error {
                Some(e) => error_lines(offset, e@),
                None => Seq::empty(),
            }) + control_lines(offset) + (match hint {
                Some(h) => hint_section(offset, h),
                None => Seq::empty(),
            })
        } else {
            Seq::empty()
        }) + (if g.is_game_over {
            over_lines(offset, winner(g.board@), stalemate(g.board@, g.current_player))
        } else {
            Seq::empty()
        })
    }
}

/// Adds a run at the end of `line`.
pub(crate) fn push_run(line: &mut Vec<Run>, text: String, color: Option<TermColor>, bold: bool)
    ensures
        runs_view(final(line)@) == runs_view(old(line)@).push(run(text@, color, bold)),
{
    let r = Run { text, color, bold };
    line.push(r);
    assert(runs_view(line@) =~= runs_view(old(line)@).push(run(r.text@, color, bold)));
}

/// Adds a line at the end of `lines`.
fn push_line(lines: &mut Vec<Vec<Run>>, line: Vec<Run>)
    ensures
        lines_view(final(lines)@) == lines_view(old(lines)@).push(runs_view(line@)),
{
    let ghost v = runs_view(line@);
    lines.push(line);
    assert(lines_view(lines@) =~= lines_view(old(lines)@).push(v));
}

/// A line with nothing on it.
fn empty_line() -> (l: Vec<Run>)
    ensures
        runs_view(l@) == Seq::<RunView>::empty(),
{
    let l: Vec<Run> = Vec::new();
    assert(runs_view(l@) =~= Seq::<RunView>::empty());
    l
}

/// `n` blanks.
fn blank_string(n: usize) -> (s: String)
    ensures
        s@ == blanks(n as nat),
{
    let mut s = String::new();
    let mut i: usize = 0;
    while i < n
        invariant
            i <= n,
            s@ == blanks(i as nat),
        decreases n - i,
    {
        push_char(&mut s, ' ');
        i = i + 1;
        assert(s@ =~= blanks(i as nat));
    }
    s
}

/// A new line holding the blanks that start it.
fn indent_line(offset: usize) -> (l: Vec<Run>)
    ensures
        runs_view(l@) == indent(offset as nat),
{
    let mut l: Vec<Run> = Vec::new();
    if offset > 0 {
        push_run(&mut l, blank_string(offset), None, false);
    }
    assert(runs_view(l@) =~= indent(offset as nat));
    l
}

/// A line of one run after the blanks that start it.
fn single_line(offset: usize, text: String, color: Option<TermColor>, bold: bool) -> (l: Vec<Run>)
    ensures
        runs_view(l@) == indent(offset as nat) + seq![run(text@, color, bold)],
{
    let mut l = indent_line(offset);
    push_run(&mut l, text, color, bold);
    assert(runs_view(l@) =~= indent(offset as nat) + seq![run(text@, color, bold)]);
    l
}

/// Adds the two status lines.
fn render_game_status(lines: &mut Vec<Vec<Run>>, offset: usize, player: Color)
    ensures
        lines_view(final(lines)@) == lines_view(old(lines)@) + status_lines(offset as nat, player),
{
    push_line(lines, single_line(offset, String::from_str("═══════════════════════════════════════════════════════════"), Some(TermColor::DarkGrey), false));
    let mut l = indent_line(offset);
    push_run(&mut l, String::from_str("Current Turn: "), None, false);
    let (word, color) = match player {
        Color::White => (String::from_str("White"), TermColor::White),
        Color::Black => (String::from_str("Black"), TermColor::Red),
    };
    push_run(&mut l, word, Some(color), true);
    assert(runs_view(l@) =~= status_lines(offset as nat, player)[1]);
    push_line(lines, l);
    assert(lines_view(lines@) =~= lines_view(old(lines)@) + status_lines(offset as nat, player));
}

/// The line of column letters over a board of `n` columns.
fn render_column_headers(offset: usize, n: usize) -> (l: Vec<Run>)
    requires
        n < 192,
    ensures
        runs_view(l@) == header_line(offset as nat, n as int),
{
    let mut text = String::from_str("   ");
    let mut col: usize = 0;
    while col < n
        invariant
            col <= n < 192,
            text@ == "   "@ + header_cols(col as int),
        decreases n - col,
    {
        text.append("   ");
        let b: u8 = 65 + (col as u8);
        let c = b as char;
        push_char(&mut text, c);
        text.append("  ");
        assert(text@ =~= "   "@ + header_cols(col + 1));
        col = col + 1;
    }
    single_line(offset, text, Some(TermColor::Blue), false)
}

/// A row's number right aligned in two characters, then a blank.
fn row_number(v: usize) -> (s: String)
    ensures
        s@ == pad2(v as nat) + " "@,
{
    let mut s = String::new();
    if v < 10 {
        push_char(&mut s, ' ');
    }
    push_decimal(&mut s, v);
    s.append(" ");
    proof { reveal_strlit(" "); }
    assert(s@ =~= pad2(v as nat) + " "@);
    s
}

impl UI {
    /// Adds the segment of horizontal line `row` over column `col`.
    fn push_segment(&self, line: &mut Vec<Run>, selected: Option<(usize, usize)>, row: usize, col: usize, n: usize)
        ensures
            runs_view(final(line)@) == runs_view(old(line)@) + self.segment(selected, row as int, col as int, n as int),
    {
        let above = row > 0 && self.should_highlight_horizontal(selected, (row - 1, col));
        let below = row < n && self.should_highlight_horizontal(selected, (row, col));
        if above || below {
            push_run(line, String::from_str("─"), Some(TermColor::DarkGrey), false);
            push_run(line, String::from_str("━━━"), Some(TermColor::Grey), false);
            push_run(line, String::from_str("─"), Some(TermColor::DarkGrey), false);
        } else {
            push_run(line, String::from_str("─────"), Some(TermColor::DarkGrey), false);
        }
        assert(runs_view(line@) =~= runs_view(old(line)@) + self.segment(selected, row as int, col as int, n as int));
    }

    /// Horizontal line `row` of the grid.
    fn border_line_of(&self, selected: Option<(usize, usize)>, offset: usize, row: usize, n: usize) -> (l: Vec<Run>)
        requires
            n < 192,
        ensures
            runs_view(l@) == self.border_line(selected, offset as nat, row as int, n as int),
    {
        let mut l = indent_line(offset);
        push_run(&mut l, String::from_str("   "), None, false);
        let ghost head = runs_view(l@);
        let mut col: usize = 0;
        while col <= n
            invariant
                col <= n + 1,
                n < 192,
                runs_view(l@) == head + self.border_runs(selected, row as int, n as int, col as int),
            decreases n + 1 - col,
        {
            push_run(&mut l, char_string(junction(row, col)), Some(TermColor::DarkGrey), false);
            if col < n {
                self.push_segment(&mut l, selected, row, col, n);
            }
            assert(runs_view(l@) =~= head + self.border_runs(selected, row as int, n as int, col + 1));
            col = col + 1;
        }
        l
    }
}

/// A string of the one character `c`.
fn char_string(c: char) -> (s: String)
    ensures
        s@ == seq![c],
{
    let mut s = String::new();
    push_char(&mut s, c);
    assert(s@ =~= seq![c]);
    s
}

/// The line of row `row`'s cells, after its number.
fn content_line_of(board: &Board, moves: Option<&[(usize, usize)]>, offset: usize, row: usize, ui: &UI) -> (l: Vec<Run>)
    requires
        board.wf(),
        row < board.size,
    ensures
        runs_view(l@) == content_line(board@, moves, offset as nat, row as int, board.size as int),
{
    let n = board.size;
    let mut l = indent_line(offset);
    push_run(&mut l, row_number(row + 1), Some(TermColor::Blue), false);
    let ghost head = runs_view(l@);
    let mut col: usize = 0;
    while col <= n
        invariant
            col <= n + 1,
            n == board.size,
            board.wf(),
            row < n,
            runs_view(l@) == head + content_runs(board@, moves, row as int, n as int, col as int),
        decreases n + 1 - col,
    {
        let left = col > 0 && ui.should_highlight_vertical(moves, (row, col - 1));
        let right = col < n && ui.should_highlight_vertical(moves, (row, col));
        if left || right {
            push_run(&mut l, String::from_str("┃"), Some(TermColor::Red), false);
        } else {
            push_run(&mut l, String::from_str("│"), Some(TermColor::DarkGrey), false);
        }
        if col < n {
            let (text, color, bold) = cell_display(board, row, col);
            push_run(&mut l, text, Some(color), bold);
        }
        assert(runs_view(l@) =~= head + content_runs(board@, moves, row as int, n as int, col + 1));
        col = col + 1;
    }
    l
}

impl UI {
    /// Adds the grid: each horizontal line, then the row of cells under it.
    fn render_board_rows(&self, lines: &mut Vec<Vec<Run>>, view: &PlainView, offset: usize)
        requires
            view.game.board.wf(),
            view.game.board.size < 192,
        ensures
            lines_view(final(lines)@) == lines_view(old(lines)@)
                + self.board_lines(view, offset as nat, view.game.board.size + 1),
    {
        let board = &view.game.board;
        let n = board.size;
        let ghost head = lines_view(lines@);
        let mut row: usize = 0;
        while row <= n
            invariant
                row <= n + 1,
                n == view.game.board.size,
                board == &view.game.board,
                n < 192,
                board.wf(),
                lines_view(lines@) == head + self.board_lines(view, offset as nat, row as int),
            decreases n + 1 - row,
        {
            push_line(lines, self.border_line_of(view.selected_piece, offset, row, n));
            if row < n {
                push_line(lines, content_line_of(board, view.possible_moves, offset, row, self));
            }
            assert(lines_view(lines@) =~= head + self.board_lines(view, offset as nat, row + 1));
            row = row + 1;
        }
    }
}

/// Adds the computer's error.
fn render_ai_error(lines: &mut Vec<Vec<Run>>, offset: usize, error_text: &str)
    ensures
        lines_view(final(lines)@) == lines_view(old(lines)@) + error_lines(offset as nat, error_text@),
{
    push_line(lines, empty_line());
    push_line(lines, single_line(offset, String::from_str("⚠️  AI ERROR"), Some(TermColor::Red), true));
    push_line(lines, single_line(offset, String::from_str(error_text), Some(TermColor::Red), false));
    assert(lines_view(lines@) =~= lines_view(old(lines)@) + error_lines(offset as nat, error_text@));
}

/// Adds the keys.
fn render_controls(lines: &mut Vec<Vec<Run>>, offset: usize)
    ensures
        lines_view(final(lines)@) == lines_view(old(lines)@) + control_lines(offset as nat),
{
    push_line(lines, empty_line());
    push_line(lines, single_line(offset, String::from_str("───────────────────────────────────────────────────────────"), Some(TermColor::DarkGrey), false));
    push_line(lines, single_line(offset, String::from_str("Controls: ↑↓←→ Move | Space/Enter Select | H Hint | Q/Esc Quit"), Some(TermColor::DarkGrey), false));
    assert(lines_view(lines@) =~= lines_view(old(lines)@) + control_lines(offset as nat));
}

/// Adds the hint.
fn push_hint(lines: &mut Vec<Vec<Run>>, offset: usize, hint: &str)
    ensures
        lines_view(final(lines)@) == lines_view(old(lines)@) + hint_section(offset as nat, hint@),
{
    let ghost start = lines_view(lines@);
    push_line(lines, empty_line());
    push_line(lines, single_line(offset, String::from_str("───────────────────────────────────────────────────────────"), Some(TermColor::DarkGrey), false));
    let ghost head = lines_view(lines@);
    let ls = hint_lines(hint);
    let ghost ws = fill_words(words(hint@), 59);
    assert(head =~= start + seq![Seq::<RunView>::empty(), indent(offset as nat) + seq![run("───────────────────────────────────────────────────────────"@, Some(TermColor::DarkGrey), false)]]);
    let mut i: usize = 0;
    while i < ls.len()
        invariant
            i <= ls@.len(),
            strings_view(ls@) == ws,
            lines_view(lines@) == head + hint_body(ws, offset as nat, i as int),
        decreases ls@.len() - i,
    {
        assert(ls@[i as int]@ == ws[i as int]);
        let mut l = indent_line(offset);
        if i == 0 {
            push_run(&mut l, String::from_str("💡 "), Some(TermColor::Yellow), false);
            push_run(&mut l, String::from_str(ls[i].as_str()), Some(TermColor::Cyan), false);
            assert(runs_view(l@) =~= indent(offset as nat)
                + seq![run("💡 "@, Some(TermColor::Yellow), false), run(ws[0], Some(TermColor::Cyan), false)]);
        } else {
            let mut t = String::from_str("   ");
            t.append(ls[i].as_str());
            push_run(&mut l, t, None, false);
            assert(runs_view(l@) =~= indent(offset as nat) + seq![run("   "@ + ws[i as int], None, false)]);
        }
        push_line(lines, l);
        assert(lines_view(lines@) =~= head + hint_body(ws, offset as nat, i + 1));
        i = i + 1;
    }
    assert(lines_view(lines@) =~= start + hint_section(offset as nat, hint@));
}

/// Adds the end of the game.
fn render_game_over(lines: &mut Vec<Vec<Run>>, offset: usize, winner: Option<Color>, stalemate: bool)
    ensures
        lines_view(final(lines)@) == lines_view(old(lines)@) + over_lines(offset as nat, winner, stalemate),
{
    push_line(lines, empty_line());
    push_line(lines, single_line(offset, String::from_str("═══════════════════════════════════════════════════════════"), Some(TermColor::DarkGrey), false));
    let mut l = indent_line(offset);
    match game_over_line(winner, stalemate) {
        Some(t) => push_run(&mut l, String::from_str(t), Some(TermColor::Yellow), true),
        None => {},
    }
    assert(runs_view(l@) =~= over_lines(offset as nat, winner, stalemate)[2]);
    push_line(lines, l);
    push_line(lines, single_line(offset, String::from_str("Press any key to exit..."), Some(TermColor::Grey), false));
    assert(lines_view(lines@) =~= lines_view(old(lines)@) + over_lines(offset as nat, winner, stalemate));
}

/// A hint as plain values.
pub open spec fn hint_view(hint: Option<&str>) -> Option<Seq<char>> {
    match hint {
        Some(h) => Some(h@),
        None => None,
    }
}

/// Where the note that two people play starts: right aligned with the
/// board, one column in.
pub open spec fn local_mode_spec(ai_enabled: bool, ai_thinking: bool, offset: nat) -> Option<usize> {
    if !ai_enabled && !ai_thinking {
        Some((offset + (3 + 6 * 8 + 1) - 21 - 1) as usize)
    } else {
        None
    }
}

impl UI {
    /// A frame of the game: the whole terminal is cleared on the first one;
    /// the note that two people play shows when the computer neither plays
    /// nor thinks; `offset` blanks start each line.
    pub fn render_game_with_hint_and_mode(&mut self, view: &PlainView, hint: Option<&str>, ai_enabled: bool, offset: usize) -> (f: PlainFrame)
        requires
            view.game.wf(),
            view.game.board.size < 192,
            offset <= u16::MAX,
        ensures
            f.clear_all == old(self).first_render,
            !final(self).first_render,
            final(self).cursor_pos == old(self).cursor_pos,
            lines_view(f.lines@) == old(self).frame_lines(view, hint_view(hint), offset as nat),
            f.local_mode_column == local_mode_spec(ai_enabled, view.ai_thinking, offset as nat),
    {
        let clear_all = self.first_render;
        let game = view.game;
        let ghost o = offset as nat;
        let ghost n = game.board.size as int;
        let mut lines: Vec<Vec<Run>> = Vec::new();
        assert(lines_view(lines@) =~= Seq::<Seq<RunView>>::empty());
        render_game_status(&mut lines, offset, game.current_player);
        push_line(&mut lines, empty_line());
        push_line(&mut lines, render_column_headers(offset, game.board.size));
        let ghost top = status_lines(o, game.current_player) + seq![Seq::<RunView>::empty(), header_line(o, n)];
        assert(lines_view(lines@) =~= top);
        self.render_board_rows(&mut lines, view, offset);
        let ghost board_done = top + self.board_lines(view, o, n + 1);
        assert(lines_view(lines@) =~= board_done);
        let ghost play: Seq<Seq<RunView>> = if !game.is_game_over {
            (match view.ai_error {
                Some(e) => error_lines(o, e@),
                None => Seq::empty(),
            }) + control_lines(o) + (match hint_view(hint) {
                Some(h) => hint_section(o, h),
                None => Seq::empty(),
            })
        } else {
            Seq::empty()
        };
        if !game.is_game_over {
            let ghost before_error = lines_view(lines@);
            if let Some(error_text) = view.ai_error {
                render_ai_error(&mut lines, offset, error_text);
            }
            let ghost error_part: Seq<Seq<RunView>> = match view.ai_error {
                Some(e) => error_lines(o, e@),
                None => Seq::empty(),
            };
            assert(lines_view(lines@) =~= before_error + error_part);
            render_controls(&mut lines, offset);
            let ghost before_hint = lines_view(lines@);
            if let Some(h) = hint {
                push_hint(&mut lines, offset, h);
            }
            let ghost hint_part: Seq<Seq<RunView>> = match hint_view(hint) {
                Some(h) => hint_section(o, h),
                None => Seq::empty(),
            };
            assert(lines_view(lines@) =~= before_hint + hint_part);
        }
        assert(lines_view(lines@) =~= board_done + play);
        let ghost play_done = lines_view(lines@);
        if game.is_game_over {
            let w = game.check_winner();
            let st = game.is_stalemate();
            render_game_over(&mut lines, offset, w, st);
        } else {
            assert(lines_view(lines@) =~= play_done + Seq::<Seq<RunView>>::empty());
        }
        assert(lines_view(lines@) =~= old(self).frame_lines(view, hint_view(hint), offset as nat));
        let local_mode_column = if !ai_enabled && !view.ai_thinking {
            Some(offset + get_board_width() - 21 - 1)
        } else {
            None
        };
        self.first_render = false;
        PlainFrame { clear_all, lines, local_mode_column }
    }

    /// A frame of the game with `hint`, the computer not playing.
    pub fn render_game_with_hint(&mut self, view: &PlainView, hint: Option<&str>, offset: usize) -> (f: PlainFrame)
        requires
            view.game.wf(),
            view.game.board.size < 192,
            offset <= u16::MAX,
        ensures
            f.clear_all == old(self).first_render,
            !final(self).first_render,
            final(self).cursor_pos == old(self).cursor_pos,
            lines_view(f.lines@) == old(self).frame_lines(view, hint_view(hint), offset as nat),
            f.local_mode_column == local_mode_spec(false, view.ai_thinking, offset as nat),
    {
        self.render_game_with_hint_and_mode(view, hint, false, offset)
    }

    /// A frame of the game without a hint, the computer not playing.
    pub fn render_game(&mut self, view: &PlainView, offset: usize) -> (f: PlainFrame)
        requires
            view.game.wf(),
            view.game.board.size < 192,
            offset <= u16::MAX,
        ensures
            f.clear_all == old(self).first_render,
            !final(self).first_render,
            final(self).cursor_pos == old(self).cursor_pos,
            lines_view(f.lines@) == old(self).frame_lines(view, None, offset as nat),
            f.local_mode_column == local_mode_spec(false, view.ai_thinking, offset as nat),
    {
        self.render_game_with_hint(view, None, offset)
    }

    /// The lines of `hint` under the board.
    pub fn render_hint(&self, hint: &str, offset: usize) -> (lines: Vec<Vec<Run>>)
        ensures
            lines_view(lines@) == hint_section(offset as nat, hint@),
    {
        let mut lines: Vec<Vec<Run>> = Vec::new();
        push_hint(&mut lines, offset, hint);
        assert(lines_view(lines@) =~= hint_section(offset as nat, hint@));
        lines
    }
}

} // verus!
