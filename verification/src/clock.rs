//! Wall-clock access for timestamping flow updates.

use vstd::prelude::*;

verus! {

/// Relies on std::time::SystemTime::now: the current wall-clock instant as
/// Unix seconds. Both branches of the epoch comparison are handled, so the
/// call cannot panic; a clock before the epoch reads as a negative count.
/// Nothing is assumed of the value; the callers clamp it before use.
#[verifier::external_body]
pub fn now_seconds() -> i64 {
    match std::time::SystemTime::now().duration_since(std::time::UNIX_EPOCH) {
        Ok(d) => i64::try_from(d.as_secs()).unwrap_or(i64::MAX),
        Err(e) => 0i64.saturating_sub_unsigned(e.duration().as_secs()),
    }
}

} // verus!
