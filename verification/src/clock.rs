//! The time.

use vstd::prelude::*;

verus! {

/// `std::time::SystemTime::elapsed`, asked of the Unix epoch: the whole seconds
/// since 1970, or zero where the clock stands before that. Nothing is claimed
/// of the result, which depends on the time.
#[verifier::external_body]
pub(crate) fn seconds_since_epoch() -> (r: u64) {
    match std::time::UNIX_EPOCH.elapsed() {
        Ok(d) => d.as_secs(),
        Err(_) => 0,
    }
}

} // verus!
