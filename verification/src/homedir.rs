//! The one probe into the process environment: the user's home
//! directory.

use vstd::prelude::*;

use crate::bootstrap::{Event, AEvent};

verus! {

/// Relies on home::home_dir: the invoking user's home directory from
/// the OS user context, or `None` when the environment cannot supply
/// one.  The answer depends on the environment, so nothing is assumed
/// of which it is.
#[verifier::external_body]
fn resolve_home() -> (r: Option<String>) {
    home::home_dir().map(|p| p.display().to_string())
}

/// Asks the environment for the home directory and hands the answer
/// to the bootstrap machine as the event it awaits in its starting
/// phase.
pub fn observe_home() -> (e: Event)
    ensures
        e@ is HomeIs,
{
    Event::HomeIs { home: resolve_home() }
}

} // verus!
