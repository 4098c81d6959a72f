//! Converting one input: a date string to an integer timestamp, or a
//! numeric timestamp to formatted text, guessing the direction from the
//! input; and what a command-line run prints for each input.

use vstd::prelude::*;
use crate::date::{
    date_source, earliest, gap_message, local_candidates_ok, no_match_message, parse_date, picks,
    zone_candidates, Candidates, DateSource,
};
use crate::datetime::{
    datetime_to_timestamp, from_timestamp_accepts, in_chrono_range, spec_datetime_to_timestamp, UtcDateTime,
};
use crate::decimal::{decimal, decimal_string, lemma_decimal_chars};
use crate::outcome::{Outcome, Step};
use crate::render::{
    format_datetime_panics, format_datetime_step, format_kind, format_step_ok, local_in_rfc2822_years,
    rfc3339_reads_back, zone_offset, FormatKind, opt_view, render_at_offset_outcome, render_in_panics,
    render_local_may_panic,
};
use crate::text::{ascii_lower_code, eq_ignore_ascii_case, lemma_trim_idempotent, spec_is_whitespace, trim_end, trim_start, str_eq, str_eq_ignore_ascii_case, trim, trim_chars};
use crate::timestamp::{
    law_stamp_reads_back, lemma_decimal_is_plain, lemma_decimal_reads_as_integer, lemma_timestamp_value_accepted, parse_timestamp_outcome,
    timestamp_step, unit_divisor,
};
use crate::tz::{tz_wf, valid_offset, TzConfig, TzView};
use crate::unit::{spec_detect_unit, TimestampUnit};

verus! {

/// Whether the non-ASCII character `c` has the Unicode `Alphabetic` property.
pub uninterp spec fn spec_unicode_alphabetic(c: char) -> bool;

/// Whether `c` has the Unicode `Alphabetic` property: among ASCII characters
/// exactly the letters `a` to `z` and `A` to `Z`.
pub open spec fn spec_is_alphabetic(c: char) -> bool {
    ||| 'a' <= c <= 'z'
    ||| 'A' <= c <= 'Z'
    ||| (c > '\u{7f}' && spec_unicode_alphabetic(c))
}

/// Trusted: `char::is_alphabetic` of std, which answers by the Unicode
/// `Alphabetic` property: for ASCII characters exactly the letters, beyond
/// ASCII a fixed function of the character (named, its table not spelled out).
#[verifier::external_body]
fn char_is_alphabetic(c: char) -> (r: bool)
    ensures
        r == (('a' <= c <= 'z') || ('A' <= c <= 'Z') || (c > '\u{7f}' && spec_unicode_alphabetic(c))),
{
    c.is_alphabetic()
}

/// `c` is one of the ASCII digits `0` to `9`.
pub open spec fn is_ascii_digit(c: char) -> bool {
    '0' <= c && c <= '9'
}

/// A `-` followed only by ASCII digits and `.`: a negative number, not a date.
pub open spec fn is_negative_number(t: Seq<char>) -> bool {
    &&& t.len() > 0
    &&& t[0] == '-'
    &&& forall|i: int| 1 <= i < t.len() ==> is_ascii_digit(#[trigger] t[i]) || t[i] == '.'
}

/// Whether the trimmed text `t` looks like a date rather than a number: the
/// word `now` (any case); a `-`, `:`, `T`, space or `/` in it, unless it is a
/// negative number; or a letter.
pub open spec fn looks_like_date(t: Seq<char>) -> bool {
    if eq_ignore_ascii_case(t, "now"@) {
        true
    } else if t.contains('-') || t.contains(':') || t.contains('T') || t.contains(' ') || t.contains('/') {
        !is_negative_number(t)
    } else {
        exists|i: int| 0 <= i < t.len() && spec_is_alphabetic(#[trigger] t[i])
    }
}

fn negative_number(t: &str) -> (r: bool)
    ensures
        r == is_negative_number(t@),
{
    let n = t.unicode_len();
    if n == 0 || t.get_char(0) != '-' {
        return false;
    }
    let mut i: usize = 1;
    while i < n
        invariant
            n == t@.len(),
            1 <= i <= n,
            t@[0] == '-',
            forall|k: int| 1 <= k < i ==> is_ascii_digit(#[trigger] t@[k]) || t@[k] == '.',
        decreases n - i,
    {
        let c = t.get_char(i);
        if !(('0' <= c && c <= '9') || c == '.') {
            return false;
        }
        i = i + 1;
    }
    true
}

fn has_letter(t: &str) -> (r: bool)
    ensures
        r == exists|i: int| 0 <= i < t@.len() && spec_is_alphabetic(#[trigger] t@[i]),
{
    let n = t.unicode_len();
    let mut i: usize = 0;
    while i < n
        invariant
            n == t@.len(),
            i <= n,
            forall|k: int| 0 <= k < i ==> !spec_is_alphabetic(#[trigger] t@[k]),
        decreases n - i,
    {
        if char_is_alphabetic(t.get_char(i)) {
            return true;
        }
        i = i + 1;
    }
    false
}

/// Whether the input (trimmed) looks like a date rather than a numeric timestamp.
pub fn is_date_like(input: &str) -> (r: bool)
    ensures
        r == looks_like_date(trim_chars(input@)),
{
    let t = trim(input);
    if str_eq_ignore_ascii_case(t, "now") {
        return true;
    }
    if crate::text::str_contains_char(t, '-') || crate::text::str_contains_char(t, ':')
        || crate::text::str_contains_char(t, 'T') || crate::text::str_contains_char(t, ' ')
        || crate::text::str_contains_char(t, '/') {
        return !negative_number(t);
    }
    has_letter(t)
}

/// The integer timestamp of the point `p` in `unit`, written in decimal.
pub open spec fn stamp_text(p: (int, int), unit: TimestampUnit) -> Seq<char> {
    decimal(spec_datetime_to_timestamp(p.0, p.1, unit))
}

/// `r` is the timestamp text of the earliest of the candidates `c`, or the
/// gap message when there is none.
pub open spec fn stamp_picks(r: Step<String>, c: Candidates, unit: TimestampUnit, tz: TzView, n: (int, int)) -> bool {
    match earliest(c) {
        Some(p) => r matches Step::Value(s) && s@ == stamp_text(p, unit),
        None => r matches Step::Error(e) && e@ == gap_message(tz, n),
    }
}

/// `r` is what converting the trimmed date text `t` to a timestamp gives.
pub open spec fn date_path_ok(
    r: Step<String>,
    t: Seq<char>,
    unit: TimestampUnit,
    tz: TzView,
    format: Option<Seq<char>>,
) -> bool {
    match date_source(t, format) {
        DateSource::Now => r matches Step::Value(s) && exists|p: (int, int)|
            in_chrono_range(p.0, p.1) && s@ == #[trigger] stamp_text(p, unit),
        DateSource::Point(p) => r matches Step::Value(s) && s@ == stamp_text(p, unit),
        DateSource::Naive(n) => if tz is Local {
            exists|c: Candidates| local_candidates_ok(n, c) && #[trigger] stamp_picks(r, c, unit, tz, n)
        } else {
            stamp_picks(r, zone_candidates(tz, n), unit, tz, n)
        },
        DateSource::NoMatch => r matches Step::Error(e) && e@ == no_match_message(t),
    }
}

/// `r` is what converting the trimmed numeric text `t` to formatted text gives.
pub open spec fn timestamp_path_ok(
    r: Step<String>,
    t: Seq<char>,
    unit: TimestampUnit,
    tz: TzView,
    format: Option<Seq<char>>,
) -> bool {
    match parse_timestamp_outcome(t, unit) {
        Outcome::Error(m) => r matches Step::Error(e) && e@ == m,
        Outcome::Panic => r is Panic,
        Outcome::Value(d) => format_step_ok(r, format_kind(format), tz, d),
    }
}

/// Whether the trimmed input `t` is converted from a date to a timestamp.
pub open spec fn goes_to_timestamp(t: Seq<char>, reverse: bool) -> bool {
    reverse || looks_like_date(t)
}

/// `r` is what converting `input` gives: nothing for blank input; a date
/// read as a timestamp when asked to or when it looks like a date; else a
/// timestamp written as a date.
pub open spec fn process_ok(
    r: Step<String>,
    input: Seq<char>,
    reverse: bool,
    unit: TimestampUnit,
    tz: TzView,
    format: Option<Seq<char>>,
) -> bool {
    let t = trim_chars(input);
    if t.len() == 0 {
        r matches Step::Value(s) && s@.len() == 0
    } else if goes_to_timestamp(t, reverse) {
        date_path_ok(r, t, unit, tz, format)
    } else {
        timestamp_path_ok(r, t, unit, tz, format)
    }
}

/// Converting `input` might abort: reading the timestamp aborts, or writing
/// it does (in the local zone, at some offset the machine might have).
pub open spec fn process_may_panic(
    input: Seq<char>,
    reverse: bool,
    unit: TimestampUnit,
    tz: TzView,
    format: Option<Seq<char>>,
) -> bool {
    let t = trim_chars(input);
    &&& t.len() > 0
    &&& !goes_to_timestamp(t, reverse)
    &&& match parse_timestamp_outcome(t, unit) {
        Outcome::Panic => true,
        Outcome::Value(d) => if tz is Local {
            render_local_may_panic(format_kind(format), d.0)
        } else {
            render_in_panics(format_kind(format), tz, d.0)
        },
        Outcome::Error(_) => false,
    }
}

/// Converts one input, or says that the conversion would abort.
pub fn process_item_step(
    input: &str,
    reverse: bool,
    unit: TimestampUnit,
    tz: &TzConfig,
    format: Option<&str>,
) -> (r: Step<String>)
    requires
        tz_wf(tz@),
    ensures
        process_ok(r, input@, reverse, unit, tz@, opt_view(format)),
{
    let t = trim(input);
    if t.unicode_len() == 0 {
        return Step::Value(String::new());
    }
    proof {
        lemma_trim_idempotent(input@);
    }
    if reverse || is_date_like(t) {
        let res = parse_date(t, tz, format);
        let ghost rd = res;
        let out = match res {
            Ok(d) => {
                d.check_range();
                let s = decimal_string(datetime_to_timestamp(d, unit));
                assert(in_chrono_range(d@.0, d@.1) && s@ == stamp_text(d@, unit));
                Step::Value(s)
            },
            Err(e) => Step::Error(e),
        };
        proof {
            if let DateSource::Naive(n) = date_source(t@, opt_view(format)) {
                if tz@ is Local {
                    let c = choose|c: Candidates| local_candidates_ok(n, c) && #[trigger] picks(rd, c, tz@, n);
                    assert(local_candidates_ok(n, c) && stamp_picks(out, c, unit, tz@, n));
                }
            }
        }
        out
    } else {
        match timestamp_step(t, unit) {
            Step::Value(d) => {
                proof {
                    lemma_timestamp_value_accepted(t@, unit);
                }
                format_datetime_step(&d, tz, format)
            },
            Step::Error(e) => Step::Error(e),
            Step::Panic => Step::Panic,
        }
    }
}

/// Whether converting `input` might abort (the condition `process_item`
/// requires to be false): reading the timestamp aborts, or writing it does,
/// in the machine's own zone at some offset of less than a day.
pub fn process_item_panics(
    input: &str,
    reverse: bool,
    unit: TimestampUnit,
    tz: &TzConfig,
    format: Option<&str>,
) -> (r: bool)
    requires
        tz_wf(tz@),
    ensures
        r == process_may_panic(input@, reverse, unit, tz@, opt_view(format)),
{
    let t = trim(input);
    if t.unicode_len() == 0 {
        return false;
    }
    proof {
        lemma_trim_idempotent(input@);
    }
    if reverse || is_date_like(t) {
        return false;
    }
    match timestamp_step(t, unit) {
        Step::Value(d) => {
            proof {
                lemma_timestamp_value_accepted(t@, unit);
            }
            format_datetime_panics(&d, tz, format)
        },
        Step::Error(_) => false,
        Step::Panic => true,
    }
}

/// The step that a `Result` stands for.
pub open spec fn result_step(r: Result<String, String>) -> Step<String> {
    match r {
        Ok(s) => Step::Value(s),
        Err(e) => Step::Error(e),
    }
}

/// Converts one input: a date string (or any input when `reverse`) to an
/// integer timestamp in `unit` (milliseconds for `Auto`), else a numeric
/// timestamp to text in the zone `tz` and the given format. Blank input
/// gives the empty string.
pub fn process_item(
    input: &str,
    reverse: bool,
    unit: TimestampUnit,
    tz: &TzConfig,
    format: Option<&str>,
) -> (r: Result<String, String>)
    requires
        tz_wf(tz@),
        !process_may_panic(input@, reverse, unit, tz@, opt_view(format)),
    ensures
        process_ok(result_step(r), input@, reverse, unit, tz@, opt_view(format)),
{
    let s = process_item_step(input, reverse, unit, tz, format);
    match s {
        Step::Value(v) => Ok(v),
        Step::Error(e) => Err(e),
        Step::Panic => {
            proof {
                let t = trim_chars(input@);
                let k = format_kind(opt_view(format));
                if let Outcome::Value(d) = parse_timestamp_outcome(t, unit) {
                    if tz@ is Local {
                        let o = choose|o: int|
                            valid_offset(o) && crate::outcome::step_is(
                                s,
                                render_at_offset_outcome(k, d.0, d.1, o),
                                |x: String| x@,
                            );
                        assert(valid_offset(o) && crate::render::render_at_offset_panics(k, d.0, o));
                    }
                }
            }
            Err(String::new())
        },
    }
}

/// Text made of ASCII digits and `.`, with perhaps a leading `-`, is never
/// taken for a date: a number is read as a timestamp.
pub proof fn law_numeric_text_is_not_date(t: Seq<char>)
    requires
        t.len() > 0,
        forall|i: int| 0 <= i < t.len() ==> is_ascii_digit(#[trigger] t[i]) || t[i] == '.' || (i == 0 && t[i] == '-'),
    ensures
        !looks_like_date(t),
{
    assert(!eq_ignore_ascii_case(t, "now"@)) by {
        reveal_strlit("now");
        if t.len() == 3 {
            assert(ascii_lower_code(t[0]) != ascii_lower_code('n'));
        }
    }
    assert forall|i: int| 0 <= i < t.len() implies !spec_is_alphabetic(#[trigger] t[i])
        && t[i] != ':' && t[i] != 'T' && t[i] != ' ' && t[i] != '/' by {}
    if t.contains('-') {
        let i = choose|i: int| 0 <= i < t.len() && t[i] == '-';
        assert(i == 0);
        assert(is_negative_number(t));
    }
}

/// A number written in decimal is not taken for a date.
proof fn lemma_decimal_not_date(n: int)
    ensures
        !looks_like_date(decimal(n)),
{
    lemma_decimal_chars(n);
    law_numeric_text_is_not_date(decimal(n));
}

/// Dates convert to milliseconds when the unit is `Auto`: the same outcomes
/// as with `Milliseconds`.
pub proof fn law_dates_default_to_milliseconds(
    r: Step<String>,
    input: Seq<char>,
    reverse: bool,
    tz: TzView,
    format: Option<Seq<char>>,
)
    requires
        goes_to_timestamp(trim_chars(input), reverse),
    ensures
        process_ok(r, input, reverse, TimestampUnit::Auto, tz, format)
            == process_ok(r, input, reverse, TimestampUnit::Milliseconds, tz, format),
{
    let a = TimestampUnit::Auto;
    let m = TimestampUnit::Milliseconds;
    let t = trim_chars(input);
    if t.len() > 0 {
        if let Step::Value(s) = r {
            match date_source(t, format) {
                DateSource::Now => {
                    if exists|p: (int, int)| in_chrono_range(p.0, p.1) && s@ == #[trigger] stamp_text(p, a) {
                        let p = choose|p: (int, int)| in_chrono_range(p.0, p.1) && s@ == #[trigger] stamp_text(p, a);
                        assert(stamp_text(p, m) == stamp_text(p, a));
                    }
                    if exists|p: (int, int)| in_chrono_range(p.0, p.1) && s@ == #[trigger] stamp_text(p, m) {
                        let p = choose|p: (int, int)| in_chrono_range(p.0, p.1) && s@ == #[trigger] stamp_text(p, m);
                        assert(stamp_text(p, m) == stamp_text(p, a));
                    }
                },
                DateSource::Point(p) => {
                    assert(stamp_text(p, m) == stamp_text(p, a));
                },
                DateSource::Naive(n) => {},
                DateSource::NoMatch => {},
            }
        }
        if let DateSource::Naive(n) = date_source(t, format) {
            assert forall|c: Candidates| #[trigger] stamp_picks(r, c, a, tz, n) == stamp_picks(r, c, m, tz, n) by {
                if let Some(p) = earliest(c) {
                    assert(stamp_text(p, m) == stamp_text(p, a));
                }
            }
            if tz is Local {
                if exists|c: Candidates| local_candidates_ok(n, c) && #[trigger] stamp_picks(r, c, a, tz, n) {
                    let c = choose|c: Candidates| local_candidates_ok(n, c) && #[trigger] stamp_picks(r, c, a, tz, n);
                    assert(stamp_picks(r, c, m, tz, n));
                }
                if exists|c: Candidates| local_candidates_ok(n, c) && #[trigger] stamp_picks(r, c, m, tz, n) {
                    let c = choose|c: Candidates| local_candidates_ok(n, c) && #[trigger] stamp_picks(r, c, m, tz, n);
                    assert(stamp_picks(r, c, a, tz, n));
                }
            } else {
                assert(stamp_picks(r, zone_candidates(tz, n), a, tz, n) == stamp_picks(r, zone_candidates(tz, n), m, tz, n));
            }
        }
        assert(date_path_ok(r, t, a, tz, format) == date_path_ok(r, t, m, tz, format));
    }
}

/// The point a date string reads as, when the zone settles it: one the text
/// fixes, or the earliest reading of a zoneless date-time in a zone other
/// than the machine's own.
pub open spec fn date_point(t: Seq<char>, tz: TzView, format: Option<Seq<char>>) -> Option<(int, int)> {
    match date_source(t, format) {
        DateSource::Point(p) => Some(p),
        DateSource::Naive(n) => if tz is Local {
            None
        } else {
            earliest(zone_candidates(tz, n))
        },
        _ => None,
    }
}

/// A date converted to a timestamp in a unit other than `Auto` converts
/// back: the timestamp text is read as a number, not as a date, and reads as
/// the date's point cut to the unit's precision (for a point outside a leap
/// second, and for nanoseconds one whose count fits in an `i64`).
pub proof fn law_date_round_trip(
    input: Seq<char>,
    reverse: bool,
    unit: TimestampUnit,
    tz: TzView,
    format: Option<Seq<char>>,
    out: String,
    p: (int, int),
)
    requires
        trim_chars(input).len() > 0,
        goes_to_timestamp(trim_chars(input), reverse),
        date_point(trim_chars(input), tz, format) == Some(p),
        process_ok(Step::Value(out), input, reverse, unit, tz, format),
        from_timestamp_accepts(p.0, p.1),
        p.1 < 1_000_000_000,
        unit != TimestampUnit::Auto,
    ensures
        trim_chars(out@).len() > 0,
        !goes_to_timestamp(trim_chars(out@), false),
        parse_timestamp_outcome(out@, unit) == Outcome::Value::<(int, int)>(
            (p.0, p.1 - p.1 % (1_000_000_000int / unit_divisor(unit))),
        ),
{
    let v = spec_datetime_to_timestamp(p.0, p.1, unit);
    assert(out@ == stamp_text(p, unit));
    law_stamp_reads_back(p.0, p.1, unit);
    lemma_decimal_is_plain(v);
    lemma_decimal_chars(v);
    lemma_decimal_not_date(v);
}

/// Converting a date to a timestamp never aborts: it gives a value or an error.
pub proof fn law_dates_never_abort(
    r: Step<String>,
    input: Seq<char>,
    reverse: bool,
    unit: TimestampUnit,
    tz: TzView,
    format: Option<Seq<char>>,
)
    requires
        goes_to_timestamp(trim_chars(input), reverse),
        process_ok(r, input, reverse, unit, tz, format),
    ensures
        !(r is Panic),
{
}

/// Whitespace around an input changes nothing: the input converts as its
/// trimmed form does.
pub proof fn law_surrounding_whitespace_ignored(
    r: Step<String>,
    input: Seq<char>,
    reverse: bool,
    unit: TimestampUnit,
    tz: TzView,
    format: Option<Seq<char>>,
)
    ensures
        process_ok(r, input, reverse, unit, tz, format) == process_ok(r, trim_chars(input), reverse, unit, tz, format),
{
    lemma_trim_idempotent(input);
    lemma_trim_idempotent(trim_chars(input));
}

/// `r` is what writing the date reading `d` as a timestamp in `unit` gives:
/// its integer timestamp in decimal, or the same error.
pub open spec fn stamp_of_reading(r: Step<String>, d: Result<UtcDateTime, String>, unit: TimestampUnit) -> bool {
    match d {
        Ok(x) => r matches Step::Value(s) && s@ == stamp_text(x@, unit),
        Err(e) => r matches Step::Error(m) && m@ == e@,
    }
}

/// Converting a date is reading it with `parse_date` and writing the point
/// with `datetime_to_timestamp` in decimal: every outcome of that
/// composition (errors passed through) is an outcome of the conversion.
pub proof fn law_date_conversion_composes(
    r: Step<String>,
    input: Seq<char>,
    reverse: bool,
    unit: TimestampUnit,
    tz: TzView,
    format: Option<Seq<char>>,
    d: Result<UtcDateTime, String>,
)
    requires
        trim_chars(input).len() > 0,
        goes_to_timestamp(trim_chars(input), reverse),
        d matches Ok(x) ==> in_chrono_range(x@.0, x@.1),
        crate::date::parse_date_ok(d, trim_chars(input), tz, format),
        stamp_of_reading(r, d, unit),
    ensures
        process_ok(r, input, reverse, unit, tz, format),
{
    let t = trim_chars(input);
    match date_source(t, format) {
        DateSource::Now => {
            let x = d->Ok_0;
            assert(in_chrono_range(x@.0, x@.1) && r->Value_0@ == stamp_text(x@, unit));
        },
        DateSource::Naive(n) => {
            if tz is Local {
                let c = choose|c: Candidates| local_candidates_ok(n, c) && #[trigger] picks(d, c, tz, n);
                assert(local_candidates_ok(n, c) && stamp_picks(r, c, unit, tz, n));
            }
        },
        _ => {},
    }
}

/// Converting a number is reading it with `parse_timestamp` and writing the
/// point with `format_datetime`: a reading error is passed through, an input
/// on which reading aborts aborts, and otherwise the outcomes are those of
/// writing the point read.
pub proof fn law_timestamp_conversion_composes(
    r: Step<String>,
    input: Seq<char>,
    reverse: bool,
    unit: TimestampUnit,
    tz: TzView,
    format: Option<Seq<char>>,
)
    requires
        trim_chars(input).len() > 0,
        !goes_to_timestamp(trim_chars(input), reverse),
    ensures
        process_ok(r, input, reverse, unit, tz, format) == match parse_timestamp_outcome(trim_chars(input), unit) {
            Outcome::Error(m) => r matches Step::Error(e) && e@ == m,
            Outcome::Panic => r is Panic,
            Outcome::Value(p) => format_step_ok(r, format_kind(format), tz, p),
        },
        parse_timestamp_outcome(trim_chars(input), unit) == parse_timestamp_outcome(input, unit),
{
    lemma_trim_idempotent(input);
}

/// The RFC 3339 text of a point (local year 0 to 9999, whole-minute
/// offset, no leap second) is its own trimmed form, looks like a date, and
/// reads, with no pattern given, as that point.
pub proof fn law_rfc3339_text_reads_as_its_point(text: Seq<char>, secs: int, nanos: int, off: int)
    requires
        rfc3339_reads_back(text, secs, nanos, off),
        local_in_rfc2822_years(secs, off),
        off % 60 == 0,
        nanos < 1_000_000_000,
    ensures
        text.len() > 0,
        trim_chars(text) == text,
        looks_like_date(text),
        date_source(text, None) == DateSource::Point((secs, nanos)),
{
    let i = choose|i: int| 0 <= i < text.len() && text[i] == 'T';
    assert(!spec_is_whitespace(text[0]));
    assert(!spec_is_whitespace(text.last()));
    assert(trim_start(text) == text);
    assert(trim_end(text) == text);
    assert(!eq_ignore_ascii_case(text, "now"@)) by {
        reveal_strlit("now");
        if eq_ignore_ascii_case(text, "now"@) {
            assert(ascii_lower_code(text[i]) == ascii_lower_code("now"@[i]));
        }
    }
    assert(!is_negative_number(text)) by {
        if is_negative_number(text) && i > 0 {
            assert(is_ascii_digit(text[i]) || text[i] == '.');
        }
    }
}

/// Reading the RFC 3339 text of a point back with `parse_date` (no pattern)
/// gives that point, whatever the zone setting: the text carries its offset.
pub proof fn law_rfc3339_text_parses_back(
    text: Seq<char>,
    secs: int,
    nanos: int,
    off: int,
    tz: TzView,
    d: Result<UtcDateTime, String>,
)
    requires
        rfc3339_reads_back(text, secs, nanos, off),
        local_in_rfc2822_years(secs, off),
        off % 60 == 0,
        nanos < 1_000_000_000,
        crate::date::parse_date_ok(d, trim_chars(text), tz, None),
    ensures
        d matches Ok(x) && x@ == (secs, nanos),
{
    law_rfc3339_text_reads_as_its_point(text, secs, nanos, off);
}

/// A millisecond timestamp (of 10^11 to 10^14, read as milliseconds by
/// `Auto`) written as a date in a zone other than the machine's own, at a
/// whole-minute offset, converts back with `Auto` to the same timestamp.
pub proof fn law_millisecond_round_trip(v: int, tz: TzView, s1: String, r2: Step<String>)
    requires
        100_000_000_000 <= v < 100_000_000_000_000,
        !(tz is Local),
        zone_offset(tz, v / 1000) % 60 == 0,
        local_in_rfc2822_years(v / 1000, zone_offset(tz, v / 1000)),
        process_ok(Step::Value(s1), decimal(v), false, TimestampUnit::Auto, tz, None),
        process_ok(r2, s1@, false, TimestampUnit::Auto, tz, None),
    ensures
        r2 matches Step::Value(s2) && s2@ == decimal(v),
{
    let secs = v / 1000;
    let nanos = (v % 1000) * 1_000_000;
    lemma_decimal_is_plain(v);
    lemma_decimal_not_date(v);
    lemma_decimal_reads_as_integer(v, TimestampUnit::Auto);
    assert(spec_detect_unit(v) == TimestampUnit::Milliseconds);
    assert(1_000_000_000int / 1000 == 1_000_000);
    assert(parse_timestamp_outcome(decimal(v), TimestampUnit::Auto) == Outcome::Value::<(int, int)>((secs, nanos)));
    assert(format_kind(None) == FormatKind::Rfc3339);
    assert(rfc3339_reads_back(s1@, secs, nanos, zone_offset(tz, secs)));
    law_rfc3339_text_reads_as_its_point(s1@, secs, nanos, zone_offset(tz, secs));
    assert((nanos / 1_000_000) == v % 1000);
    assert(secs * 1000 + v % 1000 == v);
}

/// The separators that the built-in date layouts use (`-`, `/`, `:`, `T`
/// and the space), or any letter, mark an input as a date, unless it is a
/// negative number; so `2024/06/10` and `10:00` are read as dates.
pub proof fn law_date_separators_mark_dates(input: Seq<char>, c: char)
    requires
        trim_chars(input).contains(c),
        c == '-' || c == '/' || c == ':' || c == 'T' || c == ' ' || spec_is_alphabetic(c),
        !is_negative_number(trim_chars(input)),
    ensures
        looks_like_date(trim_chars(input)),
{
    let t = trim_chars(input);
    let i = choose|i: int| 0 <= i < t.len() && t[i] == c;
    if spec_is_alphabetic(c) && !(t.contains('-') || t.contains(':') || t.contains('T') || t.contains(' ') || t.contains('/')) {
        assert(spec_is_alphabetic(t[i]));
    }
}

} // verus!
