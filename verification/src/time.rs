//! Points in time and lengths of time, in milliseconds.
use vstd::prelude::*;
use crate::types::{ServerTime, Millis};

verus! {

/// A bound on the size of every point in time this crate handles: 2^53 milliseconds, about
/// 285,000 years on either side of the UNIX epoch, wider than the range of `chrono`'s dates.
pub open spec fn time_limit() -> int {
    9007199254740992
}

/// `t` is a point in time within [`time_limit`].
pub open spec fn valid_time(t: int) -> bool {
    -time_limit() < t < time_limit()
}

/// The UNIX timestamp in whole seconds of `t`, rounded down as `DateTime::timestamp` does.
pub open spec fn timestamp_spec(t: int) -> int {
    t / 1000
}

/// The UNIX timestamp in whole seconds of `t`.
pub fn timestamp(t: ServerTime) -> (res: i64)
    requires
        valid_time(t as int),
    ensures
        res == timestamp_spec(t as int),
{
    if t >= 0 {
        t / 1000
    } else {
        let q = (-t + 999) / 1000;
        assert(-q == (t as int) / 1000) by (nonlinear_arith)
            requires
                t < 0,
                q == (-t + 999) / 1000,
        ;
        -q
    }
}

/// A number of seconds that [`time_from_secs`] can turn into milliseconds.
pub open spec fn valid_secs(s: int) -> bool {
    -9223372036854775 <= s <= 9223372036854775
}

/// The point in time `secs` seconds after the UNIX epoch.
pub fn time_from_secs(secs: i64) -> (res: ServerTime)
    requires
        valid_secs(secs as int),
    ensures
        res == secs * 1000,
{
    secs * 1000
}

/// Whether `end - start >= length`, computed without overflow.
pub fn elapsed_at_least(start: ServerTime, end: ServerTime, length: Millis) -> (res: bool)
    ensures
        res == (end - start >= length),
{
    (end as i128) - (start as i128) >= (length as i128)
}


/// The timestamp in seconds of the point in time made from a number of seconds is that number.
pub proof fn law_timestamp_of_secs(secs: int)
    ensures
        timestamp_spec(secs * 1000) == secs,
{
    assert((secs * 1000) / 1000 == secs) by (nonlinear_arith);
}

} // verus!
