//! The admin sub-dialogue.
use vstd::prelude::*;

verus! {

/// Where a conversation stands inside the admin panel.
#[derive(Clone, Copy, PartialEq, Eq, Structural, Debug)]
pub enum AdminState {
    Start,
}

impl Default for AdminState {
    fn default() -> (r: Self)
        ensures
            r == AdminState::Start,
    {
        AdminState::Start
    }
}

/// Handles an event inside the admin panel: the reply to send, and the
/// sub-state to move to (`None` keeps the current one).
pub fn schema(state: AdminState) -> (r: (String, Option<AdminState>))
    ensures
        r.0@ == "admin default"@,
        r.1 is None,
{
    ("admin default".to_owned(), None)
}

} // verus!
