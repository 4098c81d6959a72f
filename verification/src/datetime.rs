//! Points in time in UTC, held as the seconds and nanoseconds of the UNIX
//! timestamp that chrono's `DateTime<Utc>` reports, and their conversion to
//! an integer timestamp in a given unit.

use vstd::prelude::*;
use crate::unit::TimestampUnit;
use chrono::DateTime;

verus! {

/// The earliest UNIX timestamp (in seconds) that chrono represents: -262143-01-01T00:00:00Z.
pub open spec fn min_timestamp() -> int {
    -8334601228800
}

/// The latest UNIX timestamp (in seconds) that chrono represents: +262142-12-31T23:59:59Z.
pub open spec fn max_timestamp() -> int {
    8210266876799
}

/// Seconds and nanoseconds that a chrono `DateTime<Utc>` can hold: the
/// nanoseconds may reach into a second second to stand for a leap second.
pub open spec fn in_chrono_range(secs: int, nanos: int) -> bool {
    &&& min_timestamp() <= secs <= max_timestamp()
    &&& 0 <= nanos < 2_000_000_000
}

/// The arguments that `DateTime::from_timestamp` accepts: a timestamp in
/// range and nanoseconds below one second, or below two seconds when the
/// timestamp is the last second of a minute (a leap second).
pub open spec fn from_timestamp_accepts(secs: int, nanos: int) -> bool {
    &&& in_chrono_range(secs, nanos)
    &&& nanos >= 1_000_000_000 ==> secs % 60 == 59
}

/// A point in time in UTC.
#[derive(Debug, Clone, Copy, PartialEq, Eq)]
pub struct UtcDateTime {
    secs: i64,
    nanos: u32,
}

impl View for UtcDateTime {
    type V = (int, int);

    /// The UNIX timestamp in seconds and the nanoseconds past it.
    closed spec fn view(&self) -> (int, int) {
        (self.secs as int, self.nanos as int)
    }
}

impl UtcDateTime {
    #[verifier::type_invariant]
    spec fn wf(self) -> bool {
        in_chrono_range(self.secs as int, self.nanos as int)
    }

    /// Builds the point in time with these seconds and nanoseconds.
    pub(crate) fn from_parts(secs: i64, nanos: u32) -> (r: UtcDateTime)
        requires
            in_chrono_range(secs as int, nanos as int),
        ensures
            r@ == (secs as int, nanos as int),
    {
        UtcDateTime { secs, nanos }
    }

    /// The point `secs` seconds and `nanos` nanoseconds after the UNIX epoch,
    /// when chrono can hold it (nanoseconds of a second second only in the
    /// last second of a minute, for a leap second).
    pub fn from_timestamp(secs: i64, nanos: u32) -> (r: Option<UtcDateTime>)
        ensures
            r is Some <==> from_timestamp_accepts(secs as int, nanos as int),
            r matches Some(d) ==> d@ == (secs as int, nanos as int),
    {
        utc_from_timestamp(secs, nanos)
    }

    /// The UNIX timestamp in whole seconds.
    pub fn timestamp(&self) -> (r: i64)
        ensures
            r == self@.0,
            in_chrono_range(self@.0, self@.1),
    {
        proof {
            use_type_invariant(self);
        }
        self.secs
    }

    /// The nanoseconds past the whole second (at least 10^9 in a leap second).
    pub fn timestamp_subsec_nanos(&self) -> (r: u32)
        ensures
            r == self@.1,
            in_chrono_range(self@.0, self@.1),
    {
        proof {
            use_type_invariant(self);
        }
        self.nanos
    }

    /// Every value keeps chrono's range.
    pub fn check_range(&self)
        ensures
            in_chrono_range(self@.0, self@.1),
    {
        proof {
            use_type_invariant(self);
        }
    }
}

/// Trusted: `chrono::DateTime::from_timestamp`. Per chrono's source and
/// documentation it returns `Some` exactly when the timestamp lies in the
/// representable range and the nanoseconds are valid for it (leap seconds
/// only at the last second of a minute), and the value round-trips through
/// `timestamp` and `timestamp_subsec_nanos`.
#[verifier::external_body]
pub(crate) fn utc_from_timestamp(secs: i64, nsecs: u32) -> (r: Option<UtcDateTime>)
    ensures
        r is Some <==> from_timestamp_accepts(secs as int, nsecs as int),
        r matches Some(d) ==> d@ == (secs as int, nsecs as int),
{
    match DateTime::from_timestamp(secs, nsecs) {
        Some(dt) => Some(UtcDateTime { secs: dt.timestamp(), nanos: dt.timestamp_subsec_nanos() }),
        None => None,
    }
}

/// The integer timestamp of the point `(secs, nanos)` in `unit`
/// (milliseconds for `Auto`).
pub open spec fn spec_datetime_to_timestamp(secs: int, nanos: int, unit: TimestampUnit) -> int {
    match unit {
        TimestampUnit::Seconds => secs,
        TimestampUnit::Milliseconds | TimestampUnit::Auto => secs * 1000 + nanos / 1_000_000,
        TimestampUnit::Microseconds => secs * 1_000_000 + nanos / 1000,
        TimestampUnit::Nanoseconds => secs * 1_000_000_000 + nanos,
    }
}

/// Converts a point in time to an integer timestamp in the requested unit.
pub fn datetime_to_timestamp(dt: UtcDateTime, unit: TimestampUnit) -> (r: i128)
    ensures
        r == spec_datetime_to_timestamp(dt@.0, dt@.1, unit),
{
    let secs = dt.timestamp();
    let nanos = dt.timestamp_subsec_nanos();
    match unit {
        TimestampUnit::Seconds => secs as i128,
        TimestampUnit::Milliseconds | TimestampUnit::Auto => {
            (secs as i128) * 1000 + (nanos / 1_000_000) as i128
        },
        TimestampUnit::Microseconds => (secs as i128) * 1_000_000 + (nanos / 1000) as i128,
        TimestampUnit::Nanoseconds => (secs as i128) * 1_000_000_000 + nanos as i128,
    }
}

} // verus!
