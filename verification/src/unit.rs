//! Timestamp units: their names and the magnitude-based guess of the unit.

use vstd::prelude::*;
use crate::text::{spec_to_lowercase, str_eq, to_lowercase, trim, trim_chars};

verus! {

/// The unit in which an epoch timestamp counts.
#[derive(Debug, Clone, Copy, PartialEq, Eq, Structural)]
pub enum TimestampUnit {
    Auto,
    Seconds,
    Milliseconds,
    Microseconds,
    Nanoseconds,
}

/// The unit that `detect_unit` picks for a value of this magnitude:
/// below 10^11 seconds, below 10^14 milliseconds, below 10^17 microseconds,
/// nanoseconds above.
pub open spec fn spec_detect_unit(val: int) -> TimestampUnit {
    let a = if val < 0 { -val } else { val };
    if a < 100_000_000_000 {
        TimestampUnit::Seconds
    } else if a < 100_000_000_000_000 {
        TimestampUnit::Milliseconds
    } else if a < 100_000_000_000_000_000 {
        TimestampUnit::Microseconds
    } else {
        TimestampUnit::Nanoseconds
    }
}

/// The guessed unit depends on the magnitude alone, not on the sign.
pub proof fn law_detect_unit_ignores_sign(val: int)
    ensures
        spec_detect_unit(-val) == spec_detect_unit(val),
{
}

/// A larger magnitude never gives a coarser unit: seconds, then
/// milliseconds, microseconds and nanoseconds as magnitudes grow.
pub proof fn law_detect_unit_monotone(a: int, b: int)
    requires
        0 <= a <= b,
    ensures
        unit_rank(spec_detect_unit(a)) <= unit_rank(spec_detect_unit(b)),
{
}

/// The place of a unit in the order from coarse to fine.
pub open spec fn unit_rank(u: TimestampUnit) -> int {
    match u {
        TimestampUnit::Auto => 0,
        TimestampUnit::Seconds => 1,
        TimestampUnit::Milliseconds => 2,
        TimestampUnit::Microseconds => 3,
        TimestampUnit::Nanoseconds => 4,
    }
}

/// Guesses the unit of a timestamp from its magnitude.
pub fn detect_unit(val: i128) -> (r: TimestampUnit)
    ensures
        r == spec_detect_unit(val as int),
{
    let abs_val: u128 = if val < 0 {
        (-(val + 1)) as u128 + 1
    } else {
        val as u128
    };
    if abs_val < 100_000_000_000 {
        TimestampUnit::Seconds
    } else if abs_val < 100_000_000_000_000 {
        TimestampUnit::Milliseconds
    } else if abs_val < 100_000_000_000_000_000 {
        TimestampUnit::Microseconds
    } else {
        TimestampUnit::Nanoseconds
    }
}

/// The unit that a (lower-case) unit name stands for, if any.
pub open spec fn unit_for_name(n: Seq<char>) -> Option<TimestampUnit> {
    if n == "auto"@ {
        Some(TimestampUnit::Auto)
    } else if n == "s"@ || n == "sec"@ || n == "secs"@ || n == "second"@ || n == "seconds"@ {
        Some(TimestampUnit::Seconds)
    } else if n == "ms"@ || n == "milli"@ || n == "millis"@ || n == "millisecond"@ || n
        == "milliseconds"@ {
        Some(TimestampUnit::Milliseconds)
    } else if n == "us"@ || n == "\u{b5}s"@ || n == "micro"@ || n == "micros"@ || n
        == "microsecond"@ || n == "microseconds"@ {
        Some(TimestampUnit::Microseconds)
    } else if n == "ns"@ || n == "nano"@ || n == "nanos"@ || n == "nanosecond"@ || n
        == "nanoseconds"@ {
        Some(TimestampUnit::Nanoseconds)
    } else {
        None
    }
}

/// The message that rejects an unknown unit name.
pub open spec fn invalid_unit_message(n: Seq<char>) -> Seq<char> {
    "Invalid unit '"@ + n + "'. Supported units: auto, s, ms, us, ns"@
}

/// What parsing a unit name gives for the already lower-cased name `n`.
pub open spec fn unit_name_result(n: Seq<char>) -> Result<TimestampUnit, Seq<char>> {
    match unit_for_name(n) {
        Some(u) => Ok(u),
        None => Err(invalid_unit_message(n)),
    }
}

/// Whether `r` is the string form of `expected`.
pub open spec fn result_matches<T>(r: Result<T, String>, expected: Result<T, Seq<char>>) -> bool {
    match expected {
        Ok(v) => r == Ok::<T, String>(v),
        Err(m) => r matches Err(e) && e@ == m,
    }
}

fn in_list(n: &str, names: &[&str]) -> (r: bool)
    ensures
        r == exists|k: int| 0 <= k < names@.len() && n@ == names@[k]@,
{
    let mut i: usize = 0;
    while i < names.len()
        invariant
            i <= names@.len(),
            forall|k: int| 0 <= k < i ==> n@ != names@[k]@,
        decreases names@.len() - i,
    {
        if str_eq(n, names[i]) {
            return true;
        }
        i = i + 1;
    }
    false
}

impl TimestampUnit {
    /// Maps a lower-case unit name to its unit, or rejects it with a message.
    pub fn from_lowercase_name(n: &str) -> (r: Result<TimestampUnit, String>)
        ensures
            result_matches(r, unit_name_result(n@)),
    {
        let auto_names: [&str; 1] = ["auto"];
        let second_names: [&str; 5] = ["s", "sec", "secs", "second", "seconds"];
        let milli_names: [&str; 5] = ["ms", "milli", "millis", "millisecond", "milliseconds"];
        let micro_names: [&str; 6] = [
            "us",
            "\u{b5}s",
            "micro",
            "micros",
            "microsecond",
            "microseconds",
        ];
        let nano_names: [&str; 5] = ["ns", "nano", "nanos", "nanosecond", "nanoseconds"];
        if in_list(n, &auto_names) {
            assert(n@ == "auto"@);
            Ok(TimestampUnit::Auto)
        } else if in_list(n, &second_names) {
            Ok(TimestampUnit::Seconds)
        } else if in_list(n, &milli_names) {
            Ok(TimestampUnit::Milliseconds)
        } else if in_list(n, &micro_names) {
            Ok(TimestampUnit::Microseconds)
        } else if in_list(n, &nano_names) {
            Ok(TimestampUnit::Nanoseconds)
        } else {
            let mut msg = String::from_str("Invalid unit '");
            msg.append(n);
            msg.append("'. Supported units: auto, s, ms, us, ns");
            Err(msg)
        }
    }

    /// Parses a unit name: surrounding whitespace is dropped and case is ignored.
    pub fn parse(s: &str) -> (r: Result<TimestampUnit, String>)
        ensures
            result_matches(r, unit_name_result(spec_to_lowercase(trim_chars(s@)))),
            vstd::utf8::is_ascii_chars(trim_chars(s@)) ==> spec_to_lowercase(trim_chars(s@))
                == crate::text::ascii_lowercase(trim_chars(s@)),
    {
        let t = trim(s);
        let lower = to_lowercase(t);
        TimestampUnit::from_lowercase_name(lower.as_str())
    }
}

impl core::str::FromStr for TimestampUnit {
    type Err = String;

    fn from_str(s: &str) -> (r: Result<Self, Self::Err>)
        ensures
            result_matches(r, unit_name_result(spec_to_lowercase(trim_chars(s@)))),
            vstd::utf8::is_ascii_chars(trim_chars(s@)) ==> spec_to_lowercase(trim_chars(s@))
                == crate::text::ascii_lowercase(trim_chars(s@)),
    {
        TimestampUnit::parse(s)
    }
}

} // verus!
