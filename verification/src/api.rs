//! The operations that the control surface calls on the lighting state.

use vstd::prelude::*;

pub mod handlers;

verus! {

/// The control surface could not be started.
#[derive(Clone, Copy, Debug)]
pub struct ApiServerError;

impl ApiServerError {
    /// What this error says.
    pub fn message(&self) -> (s: &'static str)
        ensures
            s@ == "API server error"@,
    {
        "API server error"
    }
}

} // verus!
