//! The spinner shown while the model is asked.

use vstd::prelude::*;

verus! {

/// The frames of the spinner, in order.
pub open spec fn spinner_frames() -> Seq<Seq<char>> {
    seq!["⠋"@, "⠙"@, "⠹"@, "⠸"@, "⠼"@, "⠴"@, "⠦"@, "⠧"@, "⠇"@, "⠏"@]
}

/// A spinner: its frames and the one shown next.
pub struct LoadingAnimation {
    frames: Vec<&'static str>,
    current: usize,
}

impl LoadingAnimation {
    /// The frames as text.
    pub closed spec fn frames_view(&self) -> Seq<Seq<char>> {
        Seq::new(self.frames@.len(), |i: int| self.frames@[i]@)
    }

    /// The number of the frame shown next.
    pub closed spec fn current_view(&self) -> int {
        self.current as int
    }

    /// The spinner's frames are the ten braille frames and the next one is
    /// one of them.
    pub open spec fn wf(&self) -> bool {
        &&& self.frames_view() == spinner_frames()
        &&& 0 <= self.current_view() < 10
    }

    pub fn new() -> (a: Self)
        ensures
            a.wf(),
            a.current_view() == 0,
    {
        let mut frames: Vec<&'static str> = Vec::new();
        frames.push("⠋");
        frames.push("⠙");
        frames.push("⠹");
        frames.push("⠸");
        frames.push("⠼");
        frames.push("⠴");
        frames.push("⠦");
        frames.push("⠧");
        frames.push("⠇");
        frames.push("⠏");
        let a = LoadingAnimation { frames, current: 0 };
        assert(a.frames_view() =~= spinner_frames());
        a
    }

    /// The frame to show now; the spinner moves on to the next one, after
    /// the last back to the first.
    pub fn next(&mut self) -> (frame: &'static str)
        requires
            old(self).wf(),
        ensures
            final(self).wf(),
            frame@ == spinner_frames()[old(self).current_view()],
            final(self).current_view() == (old(self).current_view() + 1) % 10,
    {
        assert(self.frames@.len() == self.frames_view().len());
        let frame = self.frames[self.current];
        assert(frame@ == self.frames_view()[self.current as int]);
        self.current = (self.current + 1) % self.frames.len();
        frame
    }
}

/// The message shown beside the spinner.
pub open spec fn waiting_message() -> Seq<char> {
    "Waiting for the magic..."@
}

/// The column where the spinner and its message start, in a terminal
/// `width` columns wide: so that they end one column inside the right edge
/// of the board (59 columns wide, centred).
pub fn spinner_column(width: u16) -> (x: usize)
    ensures
        x == (if width > 59 { (width - 59) / 2 } else { 0 }) + 59 - 26 - 1,
{
    let board_width: usize = 3 + (7 * 8);
    let board_offset: usize = if width as usize > board_width { (width as usize - board_width) / 2 } else { 0 };
    let message_len: usize = 24 + 2;
    board_offset + board_width - message_len - 1
}

} // verus!
