//! The single-slot store for a launch path pending delivery to the UI.

use vstd::prelude::*;

verus! {

/// Holds at most one launch path until the UI claims it. The slot has two
/// states, empty and holding a path: `set` moves it to holding (overwriting
/// whatever was there), `take` returns the held path and empties it, so each
/// stored path is delivered at most once.
pub struct LaunchState {
    pending: Option<String>,
}

impl View for LaunchState {
    type V = Option<Seq<char>>;

    closed spec fn view(&self) -> Option<Seq<char>> {
        match self.pending {
            Some(p) => Some(p@),
            None => None,
        }
    }
}

impl LaunchState {
    /// A fresh holder with nothing pending.
    pub fn new() -> (r: LaunchState)
        ensures
            r@ is None,
    {
        LaunchState { pending: None }
    }

    /// Store a path, overwriting any previous unclaimed value.
    pub fn set(&mut self, path: String)
        ensures
            final(self)@ == Some(path@),
    {
        self.pending = Some(path);
    }

    /// Return the pending path and clear the slot: empty afterwards, whatever
    /// was held before. A second call with no `set` in between returns
    /// nothing.
    pub fn take(&mut self) -> (r: Option<String>)
        ensures
            final(self)@ is None,
            match old(self)@ {
                Some(p) => r matches Some(q) && q@ == p,
                None => r is None,
            },
    {
        self.pending.take()
    }
}

} // verus!
