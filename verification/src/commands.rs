//! The commands the UI layer can call.

use vstd::prelude::*;
use crate::state::LaunchState;

verus! {

/// The demo command: a fixed greeting around the caller's name.
pub fn greet(name: &str) -> (r: String)
    ensures
        r@ == "Hello, "@ + name@ + "! You've been greeted from Rust!"@,
{
    let mut r = String::from_str("Hello, ");
    r.append(name);
    r.append("! You've been greeted from Rust!");
    r
}

/// The query command: return the pending launch path (or nothing) and clear
/// it, so a stored path is delivered to the UI at most once. This is the
/// pull-side fallback for a UI that was not yet listening when the path
/// arrived.
pub fn get_launch_file(state: &mut LaunchState) -> (r: Option<String>)
    ensures
        final(state)@ is None,
        match old(state)@ {
            Some(p) => r matches Some(q) && q@ == p,
            None => r is None,
        },
{
    state.take()
}

} // verus!
