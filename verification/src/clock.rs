//! The system clock.

use vstd::prelude::*;

verus! {

/// Reads `embassy_time::Instant::now()` and converts it with
/// `Instant::as_micros`: the microseconds since boot. Nothing is claimed of
/// the value, which differs from call to call. At the tick rate of one
/// megahertz that this crate asks of `embassy-time`, a tick is a
/// microsecond and the conversion cannot overflow.
#[verifier::external_body]
pub(crate) fn uptime_micros() -> u64 {
    embassy_time::Instant::now().as_micros()
}

} // verus!
