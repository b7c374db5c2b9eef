pub mod error;
pub mod formatting;
pub mod genai_client;
pub mod hint;
pub mod loading;

pub use error::AIError;

use vstd::prelude::*;

verus! {

/// A hint to show beside the board.
pub struct Hint {
    pub hint: String,
}

impl View for Hint {
    type V = Seq<char>;

    open spec fn view(&self) -> Seq<char> {
        self.hint@
    }
}

impl Clone for Hint {
    fn clone(&self) -> (res: Self)
        ensures
            res@ == self@,
    {
        Hint { hint: self.hint.clone() }
    }
}

} // verus!
