use vstd::prelude::*;

verus! {

/// Whether the computer player is thinking, and the last error it met.
pub struct AIState {
    pub is_thinking: bool,
    pub last_error: Option<String>,
}

/// What an `AIState` holds.
pub struct AIView {
    pub thinking: bool,
    pub error: Option<Seq<char>>,
}

impl View for AIState {
    type V = AIView;

    open spec fn view(&self) -> AIView {
        AIView {
            thinking: self.is_thinking,
            error: match self.last_error {
                Some(e) => Some(e@),
                None => None,
            },
        }
    }
}

impl AIState {
    pub fn new() -> (s: AIState)
        ensures
            s@ == (AIView { thinking: false, error: None }),
    {
        AIState { is_thinking: false, last_error: None }
    }

    pub fn start_thinking(&self) -> (s: AIState)
        ensures
            s@ == (AIView { thinking: true, error: None }),
    {
        let mut new_state = self.clone();
        new_state.is_thinking = true;
        new_state.last_error = None;
        new_state
    }

    pub fn set_error(&self, error: String) -> (s: AIState)
        ensures
            s@ == (AIView { thinking: false, error: Some(error@) }),
    {
        let mut new_state = self.clone();
        new_state.last_error = Some(error);
        new_state.is_thinking = false;
        new_state
    }

    pub fn clear_error(&self) -> (s: AIState)
        ensures
            s@ == (AIView { thinking: self.is_thinking, error: None }),
    {
        let mut new_state = self.clone();
        new_state.last_error = None;
        new_state
    }
}

impl Clone for AIState {
    fn clone(&self) -> (res: Self)
        ensures
            res@ == self@,
    {
        AIState {
            is_thinking: self.is_thinking,
            last_error: match &self.last_error {
                Some(e) => Some(e.clone()),
                None => None,
            },
        }
    }
}

impl Default for AIState {
    fn default() -> (s: Self)
        ensures
            s@ == (AIView { thinking: false, error: None }),
    {
        Self::new()
    }
}

} // verus!
