//! The reader sub-dialogue.
use vstd::prelude::*;

verus! {

/// Where a conversation stands inside the reader.
#[derive(Clone, Copy, PartialEq, Eq, Structural, Debug)]
pub enum ReaderState {
    Start,
}

impl Default for ReaderState {
    fn default() -> (r: Self)
        ensures
            r == ReaderState::Start,
    {
        ReaderState::Start
    }
}

/// Handles an event inside the reader: the reply to send, and the
/// sub-state to move to (`None` keeps the current one).
pub fn schema(state: ReaderState) -> (r: (String, Option<ReaderState>))
    ensures
        r.0@ == "reader"@,
        r.1 is None,
{
    ("reader".to_owned(), None)
}

} // verus!
