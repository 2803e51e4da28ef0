//! The time of day.

use vstd::prelude::*;

use crate::scene::Timestamp;

verus! {

/// Whether `at` is an instant since 1970, given in whole seconds and the
/// nanoseconds of the second that has begun.
pub open spec fn is_instant(at: Timestamp) -> bool {
    &&& 0 <= at.secs
    &&& at.nanos < 1_000_000_000
}

/// `Utc::now` gives the time that the system's clock shows, in seconds and
/// nanoseconds since 1970. It relies on a clock that is not set to a time before
/// that.
#[verifier::external_body]
pub(crate) fn utc_now() -> (r: Timestamp)
    ensures
        is_instant(r),
{
    let now = chrono::Utc::now();
    Timestamp { secs: now.timestamp(), nanos: now.timestamp_subsec_nanos() }
}

/// Whether `at` is a time that `utc_now` read from the clock. Only a call of it can
/// tell.
pub closed spec fn read_from_clock(at: Timestamp) -> bool {
    call_ensures(utc_now, (), at)
}

/// The times that were read from the clock are the answers of `utc_now`, and so
/// instants.
pub(crate) proof fn law_read_from_clock(at: Timestamp)
    ensures
        read_from_clock(at) <==> call_ensures(utc_now, (), at),
        read_from_clock(at) ==> is_instant(at),
{
}

} // verus!
