//! The box that shows a hint.

use vstd::prelude::*;

verus! {

/// The hint widget: the hint to show, if there is one.
pub struct HintDisplay<'a> {
    pub hint: Option<&'a str>,
}

impl<'a> HintDisplay<'a> {
    pub fn new(hint: Option<&'a str>) -> (d: Self)
        ensures
            d.hint == hint,
    {
        HintDisplay { hint }
    }

    /// Whether anything is drawn: only a hint is.
    pub fn is_shown(&self) -> (res: bool)
        ensures
            res == (self.hint is Some),
    {
        self.hint.is_some()
    }
}

} // verus!
