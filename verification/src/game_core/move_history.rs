use vstd::prelude::*;

use crate::game_core::piece::Color as PieceColor;
use crate::text::{decimal, push_char, push_decimal};

verus! {

/// One move as it was played.
#[derive(Debug, PartialEq)]
pub struct Move {
    pub from: (usize, usize),
    pub to: (usize, usize),
    pub player: PieceColor,
    pub captured: Vec<(usize, usize)>,
    pub became_king: bool,
}

/// What a `Move` records.
pub struct MoveRecord {
    pub from: (usize, usize),
    pub to: (usize, usize),
    pub player: PieceColor,
    pub captured: Seq<(usize, usize)>,
    pub became_king: bool,
}

impl View for Move {
    type V = MoveRecord;

    open spec fn view(&self) -> MoveRecord {
        MoveRecord {
            from: self.from,
            to: self.to,
            player: self.player,
            captured: self.captured@,
            became_king: self.became_king,
        }
    }
}

impl Clone for Move {
    fn clone(&self) -> (res: Self)
        ensures
            res@ == self@,
    {
        let mut captured: Vec<(usize, usize)> = Vec::new();
        let mut i: usize = 0;
        while i < self.captured.len()
            invariant
                i <= self.captured@.len(),
                captured@ == self.captured@.subrange(0, i as int),
            decreases self.captured@.len() - i,
        {
            captured.push(self.captured[i]);
            i = i + 1;
            assert(captured@ =~= self.captured@.subrange(0, i as int));
        }
        assert(captured@ =~= self.captured@);
        Move {
            from: self.from,
            to: self.to,
            player: self.player,
            captured,
            became_king: self.became_king,
        }
    }
}

/// The moves of a game, oldest first.
pub struct MoveHistory {
    moves: Vec<Move>,
}

impl View for MoveHistory {
    type V = Seq<MoveRecord>;

    closed spec fn view(&self) -> Seq<MoveRecord> {
        Seq::new(self.moves@.len(), |i: int| self.moves@[i]@)
    }
}

/// The column letter of a square: `a` for column 0 (the column is taken
/// modulo 256, as a byte).
pub open spec fn column_letter(col: usize) -> char {
    ((col % 256) + 97) as char
}

/// A square in notation: its column letter, then `8 - row`.
pub open spec fn square_notation(sq: (usize, usize)) -> Seq<char> {
    seq![column_letter(sq.1)] + decimal((8 - sq.0) as nat)
}

/// Move number `i` (counted from 0) in notation, e.g. `3. c3xe5K`.
pub open spec fn move_notation(i: int, m: MoveRecord) -> Seq<char> {
    decimal((i + 1) as nat) + seq!['.', ' '] + square_notation(m.from) + (if m.captured.len() == 0 {
        seq!['-']
    } else {
        seq!['x']
    }) + square_notation(m.to) + (if m.became_king {
        seq!['K']
    } else {
        seq![]
    })
}

/// The first `k` moves in notation, separated by spaces.
pub open spec fn history_notation(ms: Seq<MoveRecord>, k: int) -> Seq<char>
    decreases k,
{
    if k <= 0 {
        seq![]
    } else if k == 1 {
        move_notation(0, ms[0])
    } else {
        history_notation(ms, k - 1) + seq![' '] + move_notation(k - 1, ms[k - 1])
    }
}

/// The squares of a recorded move can be written in notation: rows up to 8
/// and a column letter that is a byte.
pub open spec fn notation_ok(m: MoveRecord) -> bool {
    &&& m.from.0 <= 8
    &&& m.to.0 <= 8
    &&& m.from.1 % 256 + 97 < 256
    &&& m.to.1 % 256 + 97 < 256
}

fn push_square(s: &mut String, sq: (usize, usize))
    requires
        sq.0 <= 8,
        sq.1 % 256 + 97 < 256,
    ensures
        final(s)@ == old(s)@ + square_notation(sq),
{
    let b: u8 = (sq.1 % 256) as u8 + 97;
    push_char(s, b as char);
    push_decimal(s, 8 - sq.0);
    assert(final(s)@ =~= old(s)@ + square_notation(sq));
}

impl MoveHistory {
    pub fn new() -> (h: MoveHistory)
        ensures
            h@ == Seq::<MoveRecord>::empty(),
    {
        let h = MoveHistory { moves: Vec::new() };
        assert(h@ =~= Seq::<MoveRecord>::empty());
        h
    }

    pub fn add_move(
        &mut self,
        from: (usize, usize),
        to: (usize, usize),
        player: PieceColor,
        captured: Vec<(usize, usize)>,
        became_king: bool,
    )
        ensures
            final(self)@ == old(self)@.push(MoveRecord { from, to, player, captured: captured@, became_king }),
    {
        self.moves.push(Move { from, to, player, captured, became_king });
        assert(self@ =~= old(self)@.push(MoveRecord { from, to, player, captured: captured@, became_king }));
    }

    /// Whether every recorded move can be written in notation.
    pub fn notation_writable(&self) -> (res: bool)
        ensures
            res == forall|i: int| 0 <= i < self@.len() ==> notation_ok(#[trigger] self@[i]),
    {
        let mut i: usize = 0;
        while i < self.moves.len()
            invariant
                i <= self@.len(),
                self@.len() == self.moves@.len(),
                forall|j: int| 0 <= j < i ==> notation_ok(#[trigger] self@[j]),
            decreases self@.len() - i,
        {
            let m = &self.moves[i];
            assert(self@[i as int].from == m.from && self@[i as int].to == m.to);
            if !(m.from.0 <= 8 && m.to.0 <= 8 && m.from.1 % 256 + 97 < 256 && m.to.1 % 256 + 97 < 256) {
                assert(!notation_ok(self@[i as int]));
                return false;
            }
            i = i + 1;
        }
        true
    }

    /// The history in notation, e.g. `1. c3-d4 2. f6-e5`.
    pub fn to_notation(&self) -> (s: String)
        requires
            forall|i: int| 0 <= i < self@.len() ==> notation_ok(#[trigger] self@[i]),
        ensures
            s@ == history_notation(self@, self@.len() as int),
    {
        let mut s = String::new();
        let mut i: usize = 0;
        while i < self.moves.len()
            invariant
                i <= self@.len(),
                self@.len() == self.moves@.len(),
                forall|j: int| 0 <= j < self@.len() ==> notation_ok(#[trigger] self@[j]),
                s@ == history_notation(self@, i as int),
            decreases self@.len() - i,
        {
            let m = &self.moves[i];
            assert(m@ == self@[i as int]);
            assert(notation_ok(self@[i as int]));
            let ghost before = s@;
            if i > 0 {
                push_char(&mut s, ' ');
            }
            push_decimal(&mut s, i + 1);
            push_char(&mut s, '.');
            push_char(&mut s, ' ');
            push_square(&mut s, m.from);
            if m.captured.len() == 0 {
                push_char(&mut s, '-');
            } else {
                push_char(&mut s, 'x');
            }
            push_square(&mut s, m.to);
            if m.became_king {
                push_char(&mut s, 'K');
            }
            proof {
                let mt = move_notation(i as int, self@[i as int]);
                if i == 0 {
                    assert(s@ =~= mt);
                } else {
                    assert(s@ =~= before + seq![' '] + mt);
                }
            }
            i = i + 1;
        }
        s
    }
}

impl MoveHistory {
    /// The last move played, if any.
    pub fn get_last_move(&self) -> (m: Option<&Move>)
        ensures
            match m {
                Some(mv) => self@.len() > 0 && mv@ == self@.last(),
                None => self@.len() == 0,
            },
    {
        if self.moves.len() == 0 {
            None
        } else {
            Some(&self.moves[self.moves.len() - 1])
        }
    }

    /// The number of moves played.
    pub fn len(&self) -> (n: usize)
        ensures
            n == self@.len(),
    {
        self.moves.len()
    }
}

impl Default for MoveHistory {
    fn default() -> (h: Self)
        ensures
            h@ == Seq::<MoveRecord>::empty(),
    {
        Self::new()
    }
}

impl Clone for MoveHistory {
    fn clone(&self) -> (res: Self)
        ensures
            res@ == self@,
    {
        let mut moves: Vec<Move> = Vec::new();
        let mut i: usize = 0;
        while i < self.moves.len()
            invariant
                i <= self.moves@.len(),
                moves@.len() == i,
                forall|j: int| 0 <= j < i ==> #[trigger] moves@[j]@ == self.moves@[j]@,
            decreases self.moves@.len() - i,
        {
            moves.push(self.moves[i].clone());
            i = i + 1;
        }
        let res = MoveHistory { moves };
        assert(res@ =~= self@);
        res
    }
}

} // verus!
