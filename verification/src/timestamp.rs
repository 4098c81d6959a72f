//! Reading a numeric timestamp (an integer, or a decimal with a fractional
//! part) in a given or guessed unit as a point in time.

use vstd::prelude::*;
use vstd::slice::{slice_subrange, slice_to_vec};
use vstd::utf8::encode_utf8;
use crate::datetime::{from_timestamp_accepts, max_timestamp, min_timestamp, spec_datetime_to_timestamp, utc_from_timestamp, UtcDateTime};
use crate::decimal::{
    accumulate, append_int_error_message, decimal, decimal_string, int_error_message, lemma_decimal_chars,
    parse_i128, parse_int, parse_int_exec, parse_u32, IntErrorKind,
};
use crate::outcome::{result_is, step_is, Outcome, Step};
use crate::text::{occurs_once, sole_index, split_once_sole, str_contains_char, trim, trim_chars, trim_end, trim_start};
use crate::unit::{detect_unit, spec_detect_unit, TimestampUnit};

verus! {

/// The unit used for a value: the given one, or the guessed one for `Auto`.
pub open spec fn effective_unit(unit: TimestampUnit, val: int) -> TimestampUnit {
    if unit == TimestampUnit::Auto {
        spec_detect_unit(val)
    } else {
        unit
    }
}

/// How many of the unit make one second.
pub open spec fn unit_divisor(u: TimestampUnit) -> int {
    match u {
        TimestampUnit::Seconds | TimestampUnit::Auto => 1,
        TimestampUnit::Milliseconds => 1000,
        TimestampUnit::Microseconds => 1_000_000,
        TimestampUnit::Nanoseconds => 1_000_000_000,
    }
}

/// The unit's name in error messages.
pub open spec fn unit_label(u: TimestampUnit) -> Seq<char> {
    match u {
        TimestampUnit::Seconds | TimestampUnit::Auto => "seconds"@,
        TimestampUnit::Milliseconds => "milliseconds"@,
        TimestampUnit::Microseconds => "microseconds"@,
        TimestampUnit::Nanoseconds => "nanoseconds"@,
    }
}

/// `x` fits in an `i64`.
pub open spec fn fits_i64(x: int) -> bool {
    i64::MIN <= x <= i64::MAX
}

/// Reading an integer timestamp `t` (already trimmed).
pub open spec fn integer_timestamp(t: Seq<char>, unit: TimestampUnit) -> Outcome<(int, int)> {
    match parse_i128(encode_utf8(t)) {
        Err(k) => Outcome::Error(
            "Failed to parse integer timestamp '"@ + t + "': "@ + int_error_message(k),
        ),
        Ok(val) => integer_value_outcome(val, unit),
    }
}

/// Reading the integer `val` as a timestamp in `unit`.
pub open spec fn integer_value_outcome(val: int, unit: TimestampUnit) -> Outcome<(int, int)> {
    let u = effective_unit(unit, val);
    let d = unit_divisor(u);
    let secs = val / d;
    let nsecs = (val % d) * (1_000_000_000int / d);
    if !fits_i64(secs) {
        Outcome::Error("Timestamp out of range: "@ + decimal(val))
    } else if from_timestamp_accepts(secs, nsecs) {
        Outcome::Value((secs, nsecs))
    } else {
        Outcome::Error("Invalid timestamp "@ + unit_label(u) + ": "@ + decimal(val))
    }
}

/// Cutting the fraction's bytes to `w` would split a character.
pub open spec fn truncation_panics(fb: Seq<u8>, w: int) -> bool {
    fb.len() > w && 128 <= fb[w] && fb[w] < 192
}

/// `n` ASCII `0` bytes.
pub open spec fn zeros(n: nat) -> Seq<u8> {
    Seq::new(n, |i: int| 48u8)
}

/// The fraction's bytes cut or padded with `0` to `w` digits, read as an
/// integer (0 when they do not read as one).
pub open spec fn frac_value(fb: Seq<u8>, w: nat) -> int {
    let p = if fb.len() > w {
        fb.take(w as int)
    } else {
        fb + zeros((w - fb.len()) as nat)
    };
    match parse_u32(p) {
        Ok(v) => v,
        Err(_) => 0,
    }
}

/// A point built from seconds and nanoseconds, or the message `bad`.
pub open spec fn point_or(secs: int, nanos: int, bad: Seq<char>) -> Outcome<(int, int)> {
    if from_timestamp_accepts(secs, nanos) {
        Outcome::Value((secs, nanos))
    } else {
        Outcome::Error(bad)
    }
}

/// The nanoseconds since the epoch that a decimal timestamp denotes: the
/// integer part `v` (negative when written with `-`) in unit `u`, plus the
/// fraction digits `fb` down to nanoseconds (finer digits dropped), with
/// the sign of the whole.
pub open spec fn decimal_nanos(v: int, neg: bool, fb: Seq<u8>, u: TimestampUnit) -> int {
    let m = if v < 0 { -v } else { v };
    let mag = match u {
        TimestampUnit::Nanoseconds => m,
        TimestampUnit::Microseconds => m * 1000 + frac_value(fb, 3),
        TimestampUnit::Milliseconds => m * 1_000_000 + frac_value(fb, 6),
        _ => m * 1_000_000_000 + frac_value(fb, 9),
    };
    if neg {
        -mag
    } else {
        mag
    }
}

/// Cutting the fraction to the unit's digits would split a character.
pub open spec fn fraction_cut_panics(fb: Seq<u8>, u: TimestampUnit) -> bool {
    match u {
        TimestampUnit::Nanoseconds => false,
        TimestampUnit::Microseconds => truncation_panics(fb, 3),
        TimestampUnit::Milliseconds => truncation_panics(fb, 6),
        _ => truncation_panics(fb, 9),
    }
}

/// Reading a decimal timestamp `t` (already trimmed, holding a `.`): the
/// point at the nanosecond count it denotes, or an error when chrono cannot
/// hold that point.
pub open spec fn decimal_timestamp(t: Seq<char>, unit: TimestampUnit) -> Outcome<(int, int)> {
    if !occurs_once(t, '.') {
        Outcome::Error("Invalid decimal timestamp: "@ + t)
    } else {
        let i = sole_index(t, '.');
        let ip = t.take(i);
        let fb = encode_utf8(t.skip(i + 1));
        match parse_i128(encode_utf8(ip)) {
            Err(k) => Outcome::Error(
                "Invalid integer part in timestamp '"@ + t + "': "@ + int_error_message(k),
            ),
            Ok(v) => {
                let u = effective_unit(unit, v);
                let ib = encode_utf8(ip);
                let neg = ib.len() > 0 && ib[0] == 45u8;
                if fraction_cut_panics(fb, u) {
                    Outcome::Panic
                } else {
                    let total = decimal_nanos(v, neg, fb, u);
                    point_or(total / 1_000_000_000, total % 1_000_000_000, "Invalid timestamp: "@ + t)
                }
            },
        }
    }
}

/// Reading the timestamp written in `input`, surrounding whitespace ignored.
pub open spec fn parse_timestamp_outcome(input: Seq<char>, unit: TimestampUnit) -> Outcome<(int, int)> {
    let t = trim_chars(input);
    if t.contains('.') {
        decimal_timestamp(t, unit)
    } else {
        integer_timestamp(t, unit)
    }
}

/// Ten to the power `n`.
pub open spec fn pow10(n: nat) -> int
    decreases n,
{
    if n == 0 {
        1
    } else {
        10 * pow10((n - 1) as nat)
    }
}

proof fn lemma_pow10_positive_mono(m: nat, n: nat)
    requires
        m <= n,
    ensures
        1 <= pow10(m) <= pow10(n),
    decreases n,
{
    if n > m {
        lemma_pow10_positive_mono(m, (n - 1) as nat);
    } else if n > 0 {
        lemma_pow10_positive_mono(0, (n - 1) as nat);
    }
}

proof fn lemma_pow10_bounds(n: nat)
    ensures
        1 <= pow10(n),
        n <= 9 ==> pow10(n) <= 1_000_000_000,
{
    reveal_with_fuel(pow10, 10);
    assert(pow10(9) == 1_000_000_000);
    if n <= 9 {
        lemma_pow10_positive_mono(n, 9);
    } else {
        lemma_pow10_positive_mono(0, n);
    }
}

proof fn lemma_accumulate_bound(ds: Seq<u8>, lo: int, hi: int)
    ensures
        accumulate(ds, false, lo, hi) matches Ok(v) ==> 0 <= v < pow10(ds.len()),
    decreases ds.len(),
{
    if ds.len() > 0 {
        lemma_accumulate_bound(ds.drop_last(), lo, hi);
    }
}

proof fn lemma_parse_u32_bound(p: Seq<u8>)
    ensures
        parse_u32(p) matches Ok(v) ==> 0 <= v < pow10(p.len()),
{
    lemma_accumulate_bound(p, 0, u32::MAX as int);
    if p.len() > 0 {
        lemma_accumulate_bound(p.drop_first(), 0, u32::MAX as int);
        assert(pow10((p.len() - 1) as nat) * 10 == pow10(p.len()));
    }
}

fn frac_value_exec(fb: &[u8], w: usize) -> (r: u32)
    requires
        w <= 9,
        !truncation_panics(fb@, w as int),
    ensures
        r == frac_value(fb@, w as nat),
        r < pow10(w as nat),
{
    let ghost p = if fb@.len() > w {
        fb@.take(w as int)
    } else {
        fb@ + zeros((w - fb@.len()) as nat)
    };
    let parsed = if fb.len() > w {
        let cut = slice_subrange(fb, 0, w);
        assert(cut@ =~= p);
        parse_int_exec(cut, false, 0, 4294967295)
    } else {
        let mut v = slice_to_vec(fb);
        while v.len() < w
            invariant
                fb@.len() <= v@.len() <= w,
                v@ =~= fb@ + zeros((v@.len() - fb@.len()) as nat),
            decreases w - v@.len(),
        {
            v.push(48u8);
        }
        assert(v@ =~= p);
        parse_int_exec(v.as_slice(), false, 0, 4294967295)
    };
    proof {
        assert(p.len() == w);
        lemma_parse_u32_bound(p);
        lemma_pow10_bounds(w as nat);
    }
    match parsed {
        Ok(x) => {
            assert(parse_u32(p) == Ok::<int, IntErrorKind>(x as int));
            assert(x < pow10(w as nat));
            x as u32
        },
        Err(_) => 0,
    }
}

fn point_or_exec(secs: i64, nanos: u32, t: &str) -> (r: Step<UtcDateTime>)
    ensures
        step_is(r, point_or(secs as int, nanos as int, "Invalid timestamp: "@ + t@), |d: UtcDateTime| d@),
{
    match utc_from_timestamp(secs, nanos) {
        Some(d) => Step::Value(d),
        None => {
            let mut m = String::from_str("Invalid timestamp: ");
            m.append(t);
            Step::Error(m)
        },
    }
}

fn unit_label_str(u: TimestampUnit) -> (r: &'static str)
    ensures
        r@ == unit_label(u),
{
    match u {
        TimestampUnit::Seconds | TimestampUnit::Auto => "seconds",
        TimestampUnit::Milliseconds => "milliseconds",
        TimestampUnit::Microseconds => "microseconds",
        TimestampUnit::Nanoseconds => "nanoseconds",
    }
}

fn integer_timestamp_exec(t: &str, unit: TimestampUnit) -> (r: Step<UtcDateTime>)
    ensures
        step_is(r, integer_timestamp(t@, unit), |d: UtcDateTime| d@),
{
    let b = t.as_bytes();
    match parse_int_exec(b, true, i128::MIN, i128::MAX) {
        Err(k) => {
            let mut m = String::from_str("Failed to parse integer timestamp '");
            m.append(t);
            m.append("': ");
            append_int_error_message(&mut m, k);
            Step::Error(m)
        },
        Ok(val) => {
            let u = match unit {
                TimestampUnit::Auto => detect_unit(val),
                other => other,
            };
            let (d, mult): (i128, i128) = match u {
                TimestampUnit::Seconds | TimestampUnit::Auto => {
                    assert(1_000_000_000int / 1 == 1_000_000_000);
                    (1, 1_000_000_000)
                },
                TimestampUnit::Milliseconds => {
                    assert(1_000_000_000int / 1000 == 1_000_000);
                    (1000, 1_000_000)
                },
                TimestampUnit::Microseconds => {
                    assert(1_000_000_000int / 1_000_000 == 1000);
                    (1_000_000, 1000)
                },
                TimestampUnit::Nanoseconds => {
                    assert(1_000_000_000int / 1_000_000_000 == 1);
                    (1_000_000_000, 1)
                },
            };
            assert(d == unit_divisor(u) && mult == 1_000_000_000int / (d as int));
            assert(d * mult == 1_000_000_000) by (nonlinear_arith)
                requires
                    (d == 1 && mult == 1_000_000_000) || (d == 1000 && mult == 1_000_000) || (d
                        == 1_000_000 && mult == 1000) || (d == 1_000_000_000 && mult == 1),
            ;
            let secs = match val.checked_div_euclid(d) {
                Some(s) => s,
                None => 0,
            };
            let rem = match val.checked_rem_euclid(d) {
                Some(s) => s,
                None => 0,
            };
            assert(i128::MIN <= val as int / d as int <= i128::MAX) by (nonlinear_arith)
                requires
                    d >= 1,
                    i128::MIN <= val <= i128::MAX,
            ;
            assert(secs == val as int / d as int);
            assert(rem == val as int % d as int);
            assert(0 <= rem < d);
            assert(rem * mult < 1_000_000_000) by (nonlinear_arith)
                requires
                    0 <= rem < d,
                    d * mult == 1_000_000_000,
                    mult > 0,
            ;
            let nsecs = (rem * mult) as u32;
            if secs < i64::MIN as i128 || secs > i64::MAX as i128 {
                let mut m = String::from_str("Timestamp out of range: ");
                let digits = decimal_string(val);
                m.append(digits.as_str());
                return Step::Error(m);
            }
            match utc_from_timestamp(secs as i64, nsecs) {
                Some(dt) => Step::Value(dt),
                None => {
                    let mut m = String::from_str("Invalid timestamp ");
                    m.append(unit_label_str(u));
                    m.append(": ");
                    let digits = decimal_string(val);
                    m.append(digits.as_str());
                    Step::Error(m)
                },
            }
        },
    }
}

/// The earliest second chrono can hold, as a constant of the executable code.
fn min_secs() -> (r: i128)
    ensures
        r == min_timestamp(),
{
    -8334601228800
}

/// The latest second chrono can hold, as a constant of the executable code.
fn max_secs() -> (r: i128)
    ensures
        r == max_timestamp(),
{
    8210266876799
}

/// A decimal integer's sign follows its first character: negative only
/// after a `-`, and never negative otherwise.
proof fn lemma_parse_sign(s: Seq<u8>)
    ensures
        parse_i128(s) matches Ok(v) ==> (v < 0 ==> s.len() > 0 && s[0] == 45u8),
        parse_i128(s) matches Ok(v) ==> (s.len() > 0 && s[0] == 45u8 ==> v <= 0),
{
    if s.len() > 0 {
        lemma_accumulate_sign(s, false);
        lemma_accumulate_sign(s.drop_first(), false);
        lemma_accumulate_sign(s.drop_first(), true);
    }
}

proof fn lemma_accumulate_sign(ds: Seq<u8>, neg: bool)
    ensures
        accumulate(ds, neg, i128::MIN as int, i128::MAX as int) matches Ok(v) ==> (if neg { v <= 0 } else { v >= 0 }),
    decreases ds.len(),
{
    if ds.len() > 0 {
        lemma_accumulate_sign(ds.drop_last(), neg);
    }
}

/// A count of at least 10^22 nanoseconds either way lies outside chrono's range.
proof fn lemma_far_out_of_range(total: int)
    requires
        total >= 10_000_000_000_000_000_000_000 || total <= -10_000_000_000_000_000_000_000,
    ensures
        !from_timestamp_accepts(total / 1_000_000_000, total % 1_000_000_000),
{
    vstd::arithmetic::div_mod::lemma_fundamental_div_mod(total, 1_000_000_000);
    vstd::arithmetic::div_mod::lemma_mod_bound(total, 1_000_000_000);
}

fn decimal_timestamp_exec(t: &str, unit: TimestampUnit) -> (r: Step<UtcDateTime>)
    ensures
        step_is(r, decimal_timestamp(t@, unit), |d: UtcDateTime| d@),
{
    let (ip, fp) = match split_once_sole(t, '.') {
        Some(parts) => parts,
        None => {
            let mut m = String::from_str("Invalid decimal timestamp: ");
            m.append(t);
            return Step::Error(m);
        },
    };
    let fb = fp.as_bytes();
    match parse_int_exec(ip.as_bytes(), true, i128::MIN, i128::MAX) {
        Err(k) => {
            let mut m = String::from_str("Invalid integer part in timestamp '");
            m.append(t);
            m.append("': ");
            append_int_error_message(&mut m, k);
            Step::Error(m)
        },
        Ok(v) => {
            let u = match unit {
                TimestampUnit::Auto => detect_unit(v),
                other => other,
            };
            let ib = ip.as_bytes();
            let neg = ib.len() > 0 && ib[0] == 45u8;
            proof {
                lemma_parse_sign(encode_utf8(ip@));
            }
            let ghost fbs = fb@;
            let total: i128 = match u {
                TimestampUnit::Nanoseconds => v,
                _ => {
                    let (w, limit, scale): (usize, i128, i128) = match u {
                        TimestampUnit::Microseconds => (3, 10_000_000_000_000_000_000, 1000),
                        TimestampUnit::Milliseconds => (6, 10_000_000_000_000_000, 1_000_000),
                        _ => (9, 10_000_000_000_000, 1_000_000_000),
                    };
                    assert(limit * scale == 10_000_000_000_000_000_000_000);
                    if fb.len() > w && fb[w] >= 128 && fb[w] < 192 {
                        return Step::Panic;
                    }
                    let sub = frac_value_exec(fb, w);
                    proof {
                        lemma_pow10_bounds(w as nat);
                        reveal_with_fuel(pow10, 10);
                    }
                    if v > limit || v < -limit {
                        proof {
                            let total = decimal_nanos(v as int, neg, fbs, u);
                            let vi = v as int;
                            let mi: int = if vi < 0 { -vi } else { vi };
                            let sc = scale as int;
                            let lim = limit as int;
                            let si = sub as int;
                            assert(total == (if neg { -(mi * sc + si) } else { mi * sc + si }));
                            assert(mi > lim);
                            assert(mi * sc >= lim * sc) by (nonlinear_arith)
                                requires
                                    mi > lim,
                                    sc > 0,
                            ;
                            assert(total >= 10_000_000_000_000_000_000_000 || total <= -10_000_000_000_000_000_000_000);
                            lemma_far_out_of_range(total);
                        }
                        let mut m = String::from_str("Invalid timestamp: ");
                        m.append(t);
                        return Step::Error(m);
                    }
                    let m: i128 = if v < 0 { -v } else { v };
                    let mag = m * scale + sub as i128;
                    if neg { -mag } else { mag }
                },
            };
            assert(total == decimal_nanos(v as int, neg, fbs, u));
            let secs = match total.checked_div_euclid(1_000_000_000) {
                Some(x) => x,
                None => 0,
            };
            let nanos = match total.checked_rem_euclid(1_000_000_000) {
                Some(x) => x,
                None => 0,
            };
            if secs < min_secs() || secs > max_secs() {
                let mut m = String::from_str("Invalid timestamp: ");
                m.append(t);
                return Step::Error(m);
            }
            point_or_exec(secs as i64, nanos as u32, t)
        },
    }
}

/// Reads the timestamp in `input` (trimmed), or says why not, or that the
/// input is one on which the conversion aborts.
pub(crate) fn timestamp_step(input: &str, unit: TimestampUnit) -> (r: Step<UtcDateTime>)
    ensures
        step_is(r, parse_timestamp_outcome(input@, unit), |d: UtcDateTime| d@),
{
    let t = trim(input);
    if str_contains_char(t, '.') {
        decimal_timestamp_exec(t, unit)
    } else {
        integer_timestamp_exec(t, unit)
    }
}

/// Reads a numeric timestamp (integer or decimal) as a point in time, in
/// the given unit, or in the unit guessed from the magnitude for `Auto`.
pub fn parse_timestamp(input: &str, unit: TimestampUnit) -> (r: Result<UtcDateTime, String>)
    requires
        !(parse_timestamp_outcome(input@, unit) is Panic),
    ensures
        result_is(r, parse_timestamp_outcome(input@, unit), |d: UtcDateTime| d@),
{
    match timestamp_step(input, unit) {
        Step::Value(d) => Ok(d),
        Step::Error(e) => Err(e),
        Step::Panic => Err(String::new()),
    }
}

/// Whether reading `input` as a timestamp in `unit` is one of the inputs on
/// which the conversion aborts: cutting the fraction to the unit's digits
/// would split a multi-byte character.
pub fn parse_timestamp_panics(input: &str, unit: TimestampUnit) -> (r: bool)
    ensures
        r == (parse_timestamp_outcome(input@, unit) is Panic),
{
    match timestamp_step(input, unit) {
        Step::Panic => true,
        _ => false,
    }
}

/// Every point a timestamp reads as is one chrono accepts from a timestamp.
pub proof fn lemma_timestamp_value_accepted(input: Seq<char>, unit: TimestampUnit)
    ensures
        parse_timestamp_outcome(input, unit) matches Outcome::Value(d) ==> from_timestamp_accepts(d.0, d.1),
{
}

/// The decimal form of a number is its own trimmed form and holds no `.`.
pub proof fn lemma_decimal_is_plain(n: int)
    ensures
        trim_chars(decimal(n)) == decimal(n),
        !decimal(n).contains('.'),
{
    let t = decimal(n);
    lemma_decimal_chars(n);
    assert(!crate::text::spec_is_whitespace(t[0])) by {
        assert(('0' <= t[0] <= '9') || t[0] == '-');
    }
    assert(trim_start(t) == t);
    assert(trim_end(t) == t);
    if t.contains('.') {
        let i = choose|i: int| 0 <= i < t.len() && t[i] == '.';
        assert(('0' <= t[i] <= '9') || (i == 0 && n < 0));
    }
}

/// The decimal form of an `i128` reads as that integer.
pub proof fn lemma_decimal_reads_as_integer(v: int, unit: TimestampUnit)
    requires
        i128::MIN <= v <= i128::MAX,
    ensures
        parse_timestamp_outcome(decimal(v), unit) == integer_value_outcome(v, unit),
{
    lemma_decimal_is_plain(v);
    crate::decimal::law_decimal_round_trip(v);
}

/// Euclidean division of `v` by a positive `d`, as `div_euclid` and `rem_euclid` give it.
proof fn lemma_div_parts(v: int, d: int, q: int, r: int)
    requires
        d > 0,
        0 <= r < d,
        v == q * d + r,
    ensures
        v / d == q,
        v % d == r,
{
    vstd::arithmetic::div_mod::lemma_fundamental_div_mod_converse(v, d, q, r);
}

/// A whole-number timestamp that reads as a point converts back to the same
/// number in the unit it was read in.
pub proof fn law_integer_timestamp_round_trip(v: int, unit: TimestampUnit)
    requires
        i128::MIN <= v <= i128::MAX,
        parse_timestamp_outcome(decimal(v), unit) is Value,
    ensures
        parse_timestamp_outcome(decimal(v), unit) matches Outcome::Value(d)
            && spec_datetime_to_timestamp(d.0, d.1, effective_unit(unit, v)) == v,
{
    lemma_decimal_reads_as_integer(v, unit);
    let u = effective_unit(unit, v);
    let dv = unit_divisor(u);
    let secs = v / dv;
    let rem = v % dv;
    vstd::arithmetic::div_mod::lemma_fundamental_div_mod(v, dv);
    assert(v == dv * secs + rem);
    assert(0 <= rem < dv);
    match u {
        TimestampUnit::Milliseconds => {
            assert(1_000_000_000int / dv == 1_000_000);
            assert((rem * 1_000_000) / 1_000_000 == rem) by (nonlinear_arith);
            assert(spec_datetime_to_timestamp(secs, rem * 1_000_000, u) == secs * 1000 + rem);
        },
        TimestampUnit::Microseconds => {
            assert(1_000_000_000int / dv == 1000);
            assert((rem * 1000) / 1000 == rem) by (nonlinear_arith);
            assert(spec_datetime_to_timestamp(secs, rem * 1000, u) == secs * 1_000_000 + rem);
        },
        TimestampUnit::Nanoseconds => {
            assert(1_000_000_000int / dv == 1);
            assert(rem * 1 == rem);
            assert(spec_datetime_to_timestamp(secs, rem, u) == v);
        },
        _ => {
            assert(1_000_000_000int / dv == 1_000_000_000);
            assert(rem == 0);
        },
    }
}

/// The integer timestamp a point converts to, in a unit other than `Auto`
/// and for a point outside a leap second, reads back as that point cut to
/// the unit's precision.
pub proof fn law_stamp_reads_back(secs: int, nanos: int, unit: TimestampUnit)
    requires
        from_timestamp_accepts(secs, nanos),
        nanos < 1_000_000_000,
        unit != TimestampUnit::Auto,
    ensures
        parse_timestamp_outcome(decimal(spec_datetime_to_timestamp(secs, nanos, unit)), unit)
            == Outcome::Value::<(int, int)>((secs, nanos - nanos % (1_000_000_000int / unit_divisor(unit)))),
{
    let v = spec_datetime_to_timestamp(secs, nanos, unit);
    let dv = unit_divisor(unit);
    let step = 1_000_000_000int / dv;
    let cut = nanos - nanos % step;
    match unit {
        TimestampUnit::Seconds => {
            assert(dv == 1 && step == 1_000_000_000);
            lemma_div_parts(v, 1, secs, 0);
            lemma_div_parts(nanos, 1_000_000_000, 0, nanos);
            assert(cut == 0);
        },
        TimestampUnit::Milliseconds => {
            assert(dv == 1000);
            assert(step == 1_000_000) by {
                assert(1_000_000_000int / 1000 == 1_000_000);
            }
            lemma_cut(nanos, 1_000_000);
            lemma_div_parts(v, 1000, secs, nanos / 1_000_000);
        },
        TimestampUnit::Microseconds => {
            assert(dv == 1_000_000);
            assert(step == 1000) by {
                assert(1_000_000_000int / 1_000_000 == 1000);
            }
            lemma_cut(nanos, 1000);
            lemma_div_parts(v, 1_000_000, secs, nanos / 1000);
        },
        _ => {
            assert(dv == 1_000_000_000 && step == 1);
            assert(v == secs * 1_000_000_000 + nanos);
            lemma_div_parts(v, 1_000_000_000, secs, nanos);
            lemma_div_parts(nanos, 1, nanos, 0);
            assert(cut == nanos);
        },
    }
    assert(v / dv == secs);
    assert((v % dv) * step == cut);
    assert(0 <= cut <= nanos);
    assert(i128::MIN <= v <= i128::MAX);
    assert(integer_value_outcome(v, unit) == Outcome::Value::<(int, int)>((secs, cut)));
    lemma_decimal_reads_as_integer(v, unit);
}

/// Cutting `nanos` to a multiple of `step`: what remains after the whole
/// steps are counted.
proof fn lemma_cut(nanos: int, step: int)
    requires
        0 <= nanos,
        step > 0,
    ensures
        (nanos / step) * step == nanos - nanos % step,
        0 <= nanos - nanos % step <= nanos,
        0 <= nanos / step,
{
    vstd::arithmetic::div_mod::lemma_fundamental_div_mod(nanos, step);
    assert((nanos / step) * step == step * (nanos / step)) by (nonlinear_arith);
    vstd::arithmetic::div_mod::lemma_mod_bound(nanos, step);
    vstd::arithmetic::div_mod::lemma_div_pos_is_pos(nanos, step);
}

/// With `Auto`, a whole-number timestamp is read exactly as in the unit its
/// magnitude suggests.
pub proof fn law_auto_reads_in_detected_unit(v: int)
    requires
        i128::MIN <= v <= i128::MAX,
    ensures
        parse_timestamp_outcome(decimal(v), TimestampUnit::Auto)
            == parse_timestamp_outcome(decimal(v), spec_detect_unit(v)),
{
    lemma_decimal_reads_as_integer(v, TimestampUnit::Auto);
    lemma_decimal_reads_as_integer(v, spec_detect_unit(v));
}

/// With `Auto`, a decimal timestamp is read exactly as in the unit that its
/// integer part's magnitude suggests: `1718000000123.5` is read as
/// milliseconds, `1718000000.5` as seconds.
pub proof fn law_auto_reads_decimal_in_detected_unit(input: Seq<char>, v: int)
    requires
        occurs_once(trim_chars(input), '.'),
        parse_i128(encode_utf8(trim_chars(input).take(sole_index(trim_chars(input), '.')))) == Ok::<int, IntErrorKind>(v),
    ensures
        parse_timestamp_outcome(input, TimestampUnit::Auto) == parse_timestamp_outcome(input, spec_detect_unit(v)),
{
    let t = trim_chars(input);
    let i = sole_index(t, '.');
    assert(t[i] == '.');
    assert(t.contains('.'));
    assert(spec_detect_unit(v) != TimestampUnit::Auto);
    assert(effective_unit(TimestampUnit::Auto, v) == effective_unit(spec_detect_unit(v), v));
}

} // verus!
