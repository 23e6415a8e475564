//! The host's clock.
use vstd::prelude::*;

verus! {

/// Relies on calimero_sdk::env::time_now: the host's current time. Nothing is
/// promised of the value.
#[verifier::external_body]
pub(crate) fn time_now() -> (r: u64) {
    calimero_sdk::env::time_now()
}

} // verus!
