//! Reading a date or date-time string as a point in time: the word `now`,
//! a caller's pattern, RFC 3339, RFC 2822, and a list of common layouts,
//! with layouts that carry no offset read in the configured zone.

use vstd::prelude::*;
use crate::datetime::{from_timestamp_accepts, in_chrono_range, UtcDateTime};
use crate::outcome::{step_is, Outcome, Step};
use crate::render::{names_preset, names_rfc2822, names_rfc3339, opt_view};
use crate::text::{eq_ignore_ascii_case, str_eq_ignore_ascii_case, trim, trim_chars};
use crate::tz::{offset_text, offset_text_exec, tz_wf, valid_offset, TzConfig, TzView};
use chrono::{DateTime, FixedOffset, Local, LocalResult, NaiveDate, NaiveDateTime, TimeZone, Utc};

verus! {

/// A date and time without a zone: the seconds it would have as a UNIX
/// timestamp if it were UTC, and the nanoseconds past them.
#[derive(Debug, Clone, Copy)]
pub struct NaiveLocal {
    pub secs: i64,
    pub nanos: u32,
}

impl View for NaiveLocal {
    type V = (int, int);

    open spec fn view(&self) -> (int, int) {
        (self.secs as int, self.nanos as int)
    }
}

/// The seconds and nanoseconds of a point, if there is one.
pub open spec fn opt_point(r: Option<UtcDateTime>) -> Option<(int, int)> {
    match r {
        Some(d) => Some(d@),
        None => None,
    }
}

/// The seconds and nanoseconds of a zoneless date-time, if there is one.
pub open spec fn opt_naive(r: Option<NaiveLocal>) -> Option<(int, int)> {
    match r {
        Some(n) => Some(n@),
        None => None,
    }
}

/// The point that chrono's `DateTime::parse_from_rfc3339` reads from `s`, in UTC.
pub uninterp spec fn spec_parse_rfc3339(s: Seq<char>) -> Option<(int, int)>;

/// The point that chrono's `DateTime::parse_from_rfc2822` reads from `s`, in UTC.
pub uninterp spec fn spec_parse_rfc2822(s: Seq<char>) -> Option<(int, int)>;

/// The point that chrono's `DateTime::parse_from_str(s, pattern)` reads (a
/// date, time and offset), in UTC.
pub uninterp spec fn spec_parse_with_offset(s: Seq<char>, pattern: Seq<char>) -> Option<(int, int)>;

/// The zoneless date-time that chrono's `NaiveDateTime::parse_from_str` reads.
pub uninterp spec fn spec_parse_naive_datetime(s: Seq<char>, pattern: Seq<char>) -> Option<(int, int)>;

/// Midnight of the date that chrono's `NaiveDate::parse_from_str` reads.
pub uninterp spec fn spec_parse_naive_date(s: Seq<char>, pattern: Seq<char>) -> Option<(int, int)>;

/// Trusted: `DateTime::parse_from_rfc3339(s)` taken to UTC (`with_timezone(&Utc)`),
/// as seconds and nanoseconds; the result is named.
#[verifier::external_body]
fn parse_rfc3339(s: &str) -> (r: Option<UtcDateTime>)
    ensures
        opt_point(r) == spec_parse_rfc3339(s@),
{
    match DateTime::parse_from_rfc3339(s) {
        Ok(dt) => {
            let u = dt.with_timezone(&Utc);
            Some(UtcDateTime::from_parts(u.timestamp(), u.timestamp_subsec_nanos()))
        },
        Err(_) => None,
    }
}

/// Trusted: `DateTime::parse_from_rfc2822(s)` taken to UTC; the result is named.
#[verifier::external_body]
fn parse_rfc2822(s: &str) -> (r: Option<UtcDateTime>)
    ensures
        opt_point(r) == spec_parse_rfc2822(s@),
{
    match DateTime::parse_from_rfc2822(s) {
        Ok(dt) => {
            let u = dt.with_timezone(&Utc);
            Some(UtcDateTime::from_parts(u.timestamp(), u.timestamp_subsec_nanos()))
        },
        Err(_) => None,
    }
}

/// Trusted: `DateTime::parse_from_str(s, pattern)` taken to UTC; the result is named.
#[verifier::external_body]
fn parse_with_offset(s: &str, pattern: &str) -> (r: Option<UtcDateTime>)
    ensures
        opt_point(r) == spec_parse_with_offset(s@, pattern@),
{
    match DateTime::parse_from_str(s, pattern) {
        Ok(dt) => {
            let u = dt.with_timezone(&Utc);
            Some(UtcDateTime::from_parts(u.timestamp(), u.timestamp_subsec_nanos()))
        },
        Err(_) => None,
    }
}

/// Trusted: `NaiveDateTime::parse_from_str(s, pattern)`, as the seconds it
/// would have in UTC (`and_utc().timestamp()`) and its nanoseconds. Named;
/// chrono keeps such values in its range, with leap-second nanoseconds only
/// at the 59th second of a minute, as parsing builds them.
#[verifier::external_body]
fn parse_naive_datetime(s: &str, pattern: &str) -> (r: Option<NaiveLocal>)
    ensures
        opt_naive(r) == spec_parse_naive_datetime(s@, pattern@),
        r matches Some(n) ==> from_timestamp_accepts(n@.0, n@.1),
{
    match NaiveDateTime::parse_from_str(s, pattern) {
        Ok(n) => Some(NaiveLocal { secs: n.and_utc().timestamp(), nanos: n.and_utc().timestamp_subsec_nanos() }),
        Err(_) => None,
    }
}

/// Trusted: `NaiveDate::parse_from_str(s, pattern)` at midnight
/// (`and_hms_opt(0, 0, 0)`), as seconds in UTC. Named; in chrono's range.
#[verifier::external_body]
fn parse_naive_date(s: &str, pattern: &str) -> (r: Option<NaiveLocal>)
    ensures
        opt_naive(r) == spec_parse_naive_date(s@, pattern@),
        r matches Some(n) ==> from_timestamp_accepts(n@.0, n@.1),
{
    match NaiveDate::parse_from_str(s, pattern) {
        Ok(d) => match d.and_hms_opt(0, 0, 0) {
            Some(n) => Some(NaiveLocal { secs: n.and_utc().timestamp(), nanos: 0 }),
            None => None,
        },
        Err(_) => None,
    }
}

/// Trusted: `Utc::now()`. It depends on the clock; nothing is stated but
/// that it is a point chrono can hold (the type's own invariant).
#[verifier::external_body]
fn utc_now() -> (r: UtcDateTime) {
    let n = Utc::now();
    UtcDateTime::from_parts(n.timestamp(), n.timestamp_subsec_nanos())
}

/// How a local date-time maps to UTC: not at all (a gap), once, or twice
/// (an overlap, earliest first).
pub enum Candidates {
    Nothing,
    One((int, int)),
    Two((int, int), (int, int)),
}

pub enum LocalCandidates {
    Nothing,
    One(UtcDateTime),
    Two(UtcDateTime, UtcDateTime),
}

impl View for LocalCandidates {
    type V = Candidates;

    open spec fn view(&self) -> Candidates {
        match self {
            LocalCandidates::Nothing => Candidates::Nothing,
            LocalCandidates::One(d) => Candidates::One(d@),
            LocalCandidates::Two(a, b) => Candidates::Two(a@, b@),
        }
    }
}

/// What chrono-tz's `from_local_datetime` gives for the local time
/// `(secs, nanos)` in the named zone, in UTC.
pub uninterp spec fn spec_named_from_local(zone: Seq<char>, secs: int, nanos: int) -> Candidates;

/// `d` is the local time `n` read at some offset of less than a day.
pub open spec fn at_some_offset(n: (int, int), d: (int, int)) -> bool {
    exists|o: int| valid_offset(o) && d == (n.0 - o, n.1)
}

/// Trusted: `tz.from_local_datetime(&naive)` for the named chrono-tz zone,
/// each candidate taken to UTC. The result is named.
#[verifier::external_body]
fn named_from_local(zone: &str, n: &NaiveLocal) -> (r: LocalCandidates)
    requires
        tz_wf(TzView::Named(zone@)),
        from_timestamp_accepts(n@.0, n@.1),
    ensures
        r@ == spec_named_from_local(zone@, n@.0, n@.1),
{
    let tz = zone.parse::<chrono_tz::Tz>().unwrap();
    let naive = DateTime::from_timestamp(n.secs, n.nanos).unwrap().naive_utc();
    match tz.from_local_datetime(&naive) {
        LocalResult::None => LocalCandidates::Nothing,
        LocalResult::Single(a) => LocalCandidates::One(UtcDateTime::from_parts(a.timestamp(), a.timestamp_subsec_nanos())),
        LocalResult::Ambiguous(a, b) => LocalCandidates::Two(
            UtcDateTime::from_parts(a.timestamp(), a.timestamp_subsec_nanos()),
            UtcDateTime::from_parts(b.timestamp(), b.timestamp_subsec_nanos()),
        ),
    }
}

/// Candidates the machine's zone may give for the local time `n`: each is
/// `n` read at some offset of less than a day.
pub open spec fn local_candidates_ok(n: (int, int), c: Candidates) -> bool {
    match c {
        Candidates::Nothing => true,
        Candidates::One(d) => at_some_offset(n, d),
        Candidates::Two(a, b) => at_some_offset(n, a) && at_some_offset(n, b),
    }
}

/// Trusted: `Local.from_local_datetime(&naive)`, each candidate taken to UTC.
/// It depends on the machine's zone settings: stated is only that every
/// candidate is the local time read at some offset of less than a day
/// (chrono subtracts the zone's `FixedOffset` from the local time).
#[verifier::external_body]
fn local_from_local(n: &NaiveLocal) -> (r: LocalCandidates)
    requires
        from_timestamp_accepts(n@.0, n@.1),
    ensures
        local_candidates_ok(n@, r@),
{
    let naive = DateTime::from_timestamp(n.secs, n.nanos).unwrap().naive_utc();
    match Local.from_local_datetime(&naive) {
        LocalResult::None => LocalCandidates::Nothing,
        LocalResult::Single(a) => LocalCandidates::One(UtcDateTime::from_parts(a.timestamp(), a.timestamp_subsec_nanos())),
        LocalResult::Ambiguous(a, b) => LocalCandidates::Two(
            UtcDateTime::from_parts(a.timestamp(), a.timestamp_subsec_nanos()),
            UtcDateTime::from_parts(b.timestamp(), b.timestamp_subsec_nanos()),
        ),
    }
}

/// Trusted: `FixedOffset::from_local_datetime(&naive)` taken to UTC. Per
/// chrono's source it is the single point `local - off` when that lies in
/// chrono's range (the nanoseconds kept), and nothing otherwise.
#[verifier::external_body]
fn fixed_from_local(off: i32, n: &NaiveLocal) -> (r: Option<UtcDateTime>)
    requires
        valid_offset(off as int),
        from_timestamp_accepts(n@.0, n@.1),
    ensures
        r is Some <==> in_chrono_range(n@.0 - off, n@.1),
        r matches Some(d) ==> d@ == (n@.0 - off, n@.1),
{
    let offset = FixedOffset::east_opt(off).unwrap();
    let naive = DateTime::from_timestamp(n.secs, n.nanos).unwrap().naive_utc();
    match offset.from_local_datetime(&naive) {
        LocalResult::Single(a) => {
            let u = a.with_timezone(&Utc);
            Some(UtcDateTime::from_parts(u.timestamp(), u.timestamp_subsec_nanos()))
        },
        _ => None,
    }
}

/// How chrono writes a zoneless date-time (`Display` of `NaiveDateTime`).
pub uninterp spec fn spec_naive_text(secs: int, nanos: int) -> Seq<char>;

/// Trusted: `NaiveDateTime`'s `to_string()`. Named.
#[verifier::external_body]
fn naive_text(n: &NaiveLocal) -> (r: String)
    requires
        from_timestamp_accepts(n@.0, n@.1),
    ensures
        r@ == spec_naive_text(n@.0, n@.1),
{
    DateTime::from_timestamp(n.secs, n.nanos).unwrap().naive_utc().to_string()
}



/// The ways the local date-time `n` maps to UTC in a zone other than the
/// machine's own: once in UTC; once at a fixed offset when the result stays
/// in chrono's range; as chrono-tz says in a named zone.
pub open spec fn zone_candidates(tz: TzView, n: (int, int)) -> Candidates {
    match tz {
        TzView::Utc => Candidates::One(n),
        TzView::Fixed(o) => if in_chrono_range(n.0 - o, n.1) {
            Candidates::One((n.0 - o, n.1))
        } else {
            Candidates::Nothing
        },
        TzView::Named(z) => spec_named_from_local(z, n.0, n.1),
        TzView::Local => Candidates::Nothing,
    }
}

/// The earliest of the candidates, if there is one.
pub open spec fn earliest(c: Candidates) -> Option<(int, int)> {
    match c {
        Candidates::Nothing => None,
        Candidates::One(a) => Some(a),
        Candidates::Two(a, _) => Some(a),
    }
}

/// The message that rejects a local date-time that a zone skips.
pub open spec fn gap_message(tz: TzView, n: (int, int)) -> Seq<char> {
    match tz {
        TzView::Fixed(o) => "Datetime '"@ + spec_naive_text(n.0, n.1) + "' does not exist with offset '"@
            + offset_text(o) + "'"@,
        TzView::Named(z) => "Datetime '"@ + spec_naive_text(n.0, n.1) + "' does not exist in timezone '"@
            + z + "' due to DST transition"@,
        _ => "Local datetime '"@ + spec_naive_text(n.0, n.1) + "' does not exist due to DST transition"@,
    }
}

/// `r` is the reading that the candidates `c` give: the earliest, or the
/// gap message when there is none.
pub open spec fn picks(r: Result<UtcDateTime, String>, c: Candidates, tz: TzView, n: (int, int)) -> bool {
    match earliest(c) {
        Some(p) => r matches Ok(d) && d@ == p,
        None => r matches Err(e) && e@ == gap_message(tz, n),
    }
}

/// `r` is what reading the local date-time `n` in the zone `tz` gives: the
/// earliest point it maps to, or the gap message. In the machine's own zone
/// the candidates are those the machine gives, each `n` read at some offset
/// of less than a day.
pub open spec fn naive_to_utc_ok(r: Result<UtcDateTime, String>, tz: TzView, n: (int, int)) -> bool {
    if tz is Local {
        exists|c: Candidates| local_candidates_ok(n, c) && #[trigger] picks(r, c, tz, n)
    } else {
        picks(r, zone_candidates(tz, n), tz, n)
    }
}

fn gap_error(tz: &TzConfig, n: &NaiveLocal) -> (r: String)
    requires
        tz_wf(tz@),
        from_timestamp_accepts(n@.0, n@.1),
    ensures
        r@ == gap_message(tz@, n@),
{
    let text = naive_text(n);
    match tz {
        TzConfig::Fixed(off) => {
            let mut m = String::from_str("Datetime '");
            m.append(text.as_str());
            m.append("' does not exist with offset '");
            let o = offset_text_exec(*off);
            m.append(o.as_str());
            m.append("'");
            m
        },
        TzConfig::Named(zone) => {
            let mut m = String::from_str("Datetime '");
            m.append(text.as_str());
            m.append("' does not exist in timezone '");
            m.append(zone.as_str());
            m.append("' due to DST transition");
            m
        },
        _ => {
            let mut m = String::from_str("Local datetime '");
            m.append(text.as_str());
            m.append("' does not exist due to DST transition");
            m
        },
    }
}

/// Reads the zoneless date-time `n` in the zone `tz`: a time that falls in
/// an overlap gives its earliest reading, one that falls in a gap is an error.
pub fn naive_to_utc(n: &NaiveLocal, tz: &TzConfig) -> (r: Result<UtcDateTime, String>)
    requires
        tz_wf(tz@),
        from_timestamp_accepts(n@.0, n@.1),
    ensures
        naive_to_utc_ok(r, tz@, n@),
{
    match tz {
        TzConfig::Utc => Ok(UtcDateTime::from_parts(n.secs, n.nanos)),
        TzConfig::Fixed(off) => match fixed_from_local(*off, n) {
            Some(d) => Ok(d),
            None => Err(gap_error(tz, n)),
        },
        TzConfig::Named(zone) => earliest_or_gap(named_from_local(zone.as_str(), n), tz, n),
        TzConfig::Local => {
            let c = local_from_local(n);
            let ghost cv = c@;
            let r = earliest_or_gap(c, tz, n);
            assert(local_candidates_ok(n@, cv) && picks(r, cv, tz@, n@));
            r
        },
    }
}

/// The reading that the candidates give: the earliest, or the gap error
/// when the local time does not occur.
pub fn earliest_or_gap(c: LocalCandidates, tz: &TzConfig, n: &NaiveLocal) -> (r: Result<UtcDateTime, String>)
    requires
        tz_wf(tz@),
        from_timestamp_accepts(n@.0, n@.1),
    ensures
        picks(r, c@, tz@, n@),
{
    match c {
        LocalCandidates::Nothing => Err(gap_error(tz, n)),
        LocalCandidates::One(d) => Ok(d),
        LocalCandidates::Two(a, _) => Ok(a),
    }
}


/// The layouts with an offset that are tried in turn, after RFC 3339 and RFC 2822.
pub open spec fn offset_pattern(i: int) -> Seq<char> {
    if i == 0 { "%Y-%m-%dT%H:%M:%S%.f%:z"@ }
    else if i == 1 { "%Y-%m-%dT%H:%M:%S%.f%z"@ }
    else if i == 2 { "%Y-%m-%dT%H:%M:%S%:z"@ }
    else if i == 3 { "%Y-%m-%dT%H:%M:%S%z"@ }
    else if i == 4 { "%Y-%m-%d %H:%M:%S%.f%:z"@ }
    else if i == 5 { "%Y-%m-%d %H:%M:%S%.f%z"@ }
    else if i == 6 { "%Y-%m-%d %H:%M:%S%:z"@ }
    else { "%Y-%m-%d %H:%M:%S%z"@ }
}

/// The layouts of a date and time without offset that are tried in turn.
pub open spec fn naive_pattern(i: int) -> Seq<char> {
    if i == 0 { "%Y-%m-%dT%H:%M:%S%.f"@ }
    else if i == 1 { "%Y-%m-%dT%H:%M:%S"@ }
    else if i == 2 { "%Y-%m-%d %H:%M:%S%.f"@ }
    else if i == 3 { "%Y-%m-%d %H:%M:%S"@ }
    else if i == 4 { "%Y/%m/%d %H:%M:%S%.f"@ }
    else if i == 5 { "%Y/%m/%d %H:%M:%S"@ }
    else if i == 6 { "%Y-%m-%d_%H:%M:%S%.f"@ }
    else if i == 7 { "%Y-%m-%d_%H:%M:%S"@ }
    else if i == 8 { "%d.%m.%Y %H:%M:%S%.f"@ }
    else { "%d.%m.%Y %H:%M:%S"@ }
}

/// The layouts of a date alone that are tried in turn (read at midnight).
pub open spec fn date_pattern(i: int) -> Seq<char> {
    if i == 0 { "%Y-%m-%d"@ }
    else if i == 1 { "%Y/%m/%d"@ }
    else if i == 2 { "%d.%m.%Y"@ }
    else { "%Y%m%d"@ }
}

fn offset_pattern_str(i: usize) -> (r: &'static str)
    requires
        i < 8,
    ensures
        r@ == offset_pattern(i as int),
{
    if i == 0 { "%Y-%m-%dT%H:%M:%S%.f%:z" }
    else if i == 1 { "%Y-%m-%dT%H:%M:%S%.f%z" }
    else if i == 2 { "%Y-%m-%dT%H:%M:%S%:z" }
    else if i == 3 { "%Y-%m-%dT%H:%M:%S%z" }
    else if i == 4 { "%Y-%m-%d %H:%M:%S%.f%:z" }
    else if i == 5 { "%Y-%m-%d %H:%M:%S%.f%z" }
    else if i == 6 { "%Y-%m-%d %H:%M:%S%:z" }
    else { "%Y-%m-%d %H:%M:%S%z" }
}

fn naive_pattern_str(i: usize) -> (r: &'static str)
    requires
        i < 10,
    ensures
        r@ == naive_pattern(i as int),
{
    if i == 0 { "%Y-%m-%dT%H:%M:%S%.f" }
    else if i == 1 { "%Y-%m-%dT%H:%M:%S" }
    else if i == 2 { "%Y-%m-%d %H:%M:%S%.f" }
    else if i == 3 { "%Y-%m-%d %H:%M:%S" }
    else if i == 4 { "%Y/%m/%d %H:%M:%S%.f" }
    else if i == 5 { "%Y/%m/%d %H:%M:%S" }
    else if i == 6 { "%Y-%m-%d_%H:%M:%S%.f" }
    else if i == 7 { "%Y-%m-%d_%H:%M:%S" }
    else if i == 8 { "%d.%m.%Y %H:%M:%S%.f" }
    else { "%d.%m.%Y %H:%M:%S" }
}

fn date_pattern_str(i: usize) -> (r: &'static str)
    requires
        i < 4,
    ensures
        r@ == date_pattern(i as int),
{
    if i == 0 { "%Y-%m-%d" }
    else if i == 1 { "%Y/%m/%d" }
    else if i == 2 { "%d.%m.%Y" }
    else { "%Y%m%d" }
}

/// The point read from `t` by the first layout with an offset, from the `i`-th on, that fits.
pub open spec fn first_offset_match(t: Seq<char>, i: int) -> Option<(int, int)>
    decreases 8 - i,
{
    if i < 0 || i >= 8 {
        None
    } else {
        match spec_parse_with_offset(t, offset_pattern(i)) {
            Some(p) => Some(p),
            None => first_offset_match(t, i + 1),
        }
    }
}

/// The zoneless date-time read from `t` by the first layout without offset,
/// from the `i`-th on, that fits.
pub open spec fn first_naive_match(t: Seq<char>, i: int) -> Option<(int, int)>
    decreases 10 - i,
{
    if i < 0 || i >= 10 {
        None
    } else {
        match spec_parse_naive_datetime(t, naive_pattern(i)) {
            Some(n) => Some(n),
            None => first_naive_match(t, i + 1),
        }
    }
}

/// Midnight of the date read from `t` by the first date layout, from the `i`-th on, that fits.
pub open spec fn first_date_match(t: Seq<char>, i: int) -> Option<(int, int)>
    decreases 4 - i,
{
    if i < 0 || i >= 4 {
        None
    } else {
        match spec_parse_naive_date(t, date_pattern(i)) {
            Some(n) => Some(n),
            None => first_date_match(t, i + 1),
        }
    }
}

/// Where the reading of a date string comes from.
pub enum DateSource {
    /// The current time.
    Now,
    /// A point in time that the text fixes.
    Point((int, int)),
    /// A date-time without zone, to be read in the configured zone.
    Naive((int, int)),
    /// Nothing fits.
    NoMatch,
}

/// What the caller's own pattern `f` reads from `t`: with an offset, then
/// as a date-time, then as a date. Preset names are no pattern.
pub open spec fn custom_source(t: Seq<char>, f: Seq<char>) -> DateSource {
    if names_rfc3339(f) || names_rfc2822(f) {
        DateSource::NoMatch
    } else {
        match spec_parse_with_offset(t, f) {
            Some(p) => DateSource::Point(p),
            None => match spec_parse_naive_datetime(t, f) {
                Some(n) => DateSource::Naive(n),
                None => match spec_parse_naive_date(t, f) {
                    Some(n) => DateSource::Naive(n),
                    None => DateSource::NoMatch,
                },
            },
        }
    }
}

/// What the built-in layouts read from `t`: RFC 3339, RFC 2822, the layouts
/// with an offset, those without, and dates alone, the first that fits.
pub open spec fn standard_source(t: Seq<char>) -> DateSource {
    match spec_parse_rfc3339(t) {
        Some(p) => DateSource::Point(p),
        None => match spec_parse_rfc2822(t) {
            Some(p) => DateSource::Point(p),
            None => match first_offset_match(t, 0) {
                Some(p) => DateSource::Point(p),
                None => match first_naive_match(t, 0) {
                    Some(n) => DateSource::Naive(n),
                    None => match first_date_match(t, 0) {
                        Some(n) => DateSource::Naive(n),
                        None => DateSource::NoMatch,
                    },
                },
            },
        },
    }
}

/// Where reading the (trimmed) text `t` comes from: the word `now` in any
/// case, the caller's pattern when one is given, then the built-in layouts.
pub open spec fn date_source(t: Seq<char>, format: Option<Seq<char>>) -> DateSource {
    if eq_ignore_ascii_case(t, "now"@) {
        DateSource::Now
    } else {
        let custom = match format {
            Some(f) => custom_source(t, f),
            None => DateSource::NoMatch,
        };
        if custom is NoMatch {
            standard_source(t)
        } else {
            custom
        }
    }
}

/// The message that rejects a date string that no layout fits.
pub open spec fn no_match_message(t: Seq<char>) -> Seq<char> {
    "Failed to parse date string '"@ + t
        + "'. Expected RFC3339 (e.g. 2024-06-10T06:13:20Z) or YYYY-MM-DD HH:MM:SS"@
}

/// `r` is what reading the trimmed text `t` as a date gives in the zone `tz`.
pub open spec fn parse_date_ok(r: Result<UtcDateTime, String>, t: Seq<char>, tz: TzView, format: Option<Seq<char>>) -> bool {
    match date_source(t, format) {
        DateSource::Now => r is Ok,
        DateSource::Point(p) => r matches Ok(d) && d@ == p,
        DateSource::Naive(n) => naive_to_utc_ok(r, tz, n),
        DateSource::NoMatch => r matches Err(e) && e@ == no_match_message(t),
    }
}

/// Reads what the caller's own pattern gives, if anything.
fn parse_custom(t: &str, f: &str, tz: &TzConfig) -> (r: Option<Result<UtcDateTime, String>>)
    requires
        tz_wf(tz@),
    ensures
        match custom_source(t@, f@) {
            DateSource::NoMatch => r is None,
            DateSource::Point(p) => r matches Some(Ok(d)) && d@ == p,
            DateSource::Naive(n) => r matches Some(x) && naive_to_utc_ok(x, tz@, n),
            DateSource::Now => false,
        },
{
    if names_preset(f) {
        return None;
    }
    if let Some(p) = parse_with_offset(t, f) {
        return Some(Ok(p));
    }
    if let Some(n) = parse_naive_datetime(t, f) {
        return Some(naive_to_utc(&n, tz));
    }
    if let Some(n) = parse_naive_date(t, f) {
        return Some(naive_to_utc(&n, tz));
    }
    None
}

/// Reads what the built-in layouts give.
fn parse_standard(t: &str, tz: &TzConfig) -> (r: Result<UtcDateTime, String>)
    requires
        tz_wf(tz@),
    ensures
        match standard_source(t@) {
            DateSource::Point(p) => r matches Ok(d) && d@ == p,
            DateSource::Naive(n) => naive_to_utc_ok(r, tz@, n),
            DateSource::NoMatch => r matches Err(e) && e@ == no_match_message(t@),
            DateSource::Now => false,
        },
{
    if let Some(p) = parse_rfc3339(t) {
        return Ok(p);
    }
    if let Some(p) = parse_rfc2822(t) {
        return Ok(p);
    }
    let mut i: usize = 0;
    while i < 8
        invariant
            i <= 8,
            tz_wf(tz@),
            spec_parse_rfc3339(t@) is None,
            spec_parse_rfc2822(t@) is None,
            first_offset_match(t@, 0) == first_offset_match(t@, i as int),
        decreases 8 - i,
    {
        if let Some(p) = parse_with_offset(t, offset_pattern_str(i)) {
            return Ok(p);
        }
        i = i + 1;
    }
    let mut j: usize = 0;
    while j < 10
        invariant
            j <= 10,
            tz_wf(tz@),
            spec_parse_rfc3339(t@) is None,
            spec_parse_rfc2822(t@) is None,
            first_offset_match(t@, 0) is None,
            first_naive_match(t@, 0) == first_naive_match(t@, j as int),
        decreases 10 - j,
    {
        if let Some(n) = parse_naive_datetime(t, naive_pattern_str(j)) {
            return naive_to_utc(&n, tz);
        }
        j = j + 1;
    }
    let mut k: usize = 0;
    while k < 4
        invariant
            k <= 4,
            tz_wf(tz@),
            spec_parse_rfc3339(t@) is None,
            spec_parse_rfc2822(t@) is None,
            first_offset_match(t@, 0) is None,
            first_naive_match(t@, 0) is None,
            first_date_match(t@, 0) == first_date_match(t@, k as int),
        decreases 4 - k,
    {
        if let Some(n) = parse_naive_date(t, date_pattern_str(k)) {
            return naive_to_utc(&n, tz);
        }
        k = k + 1;
    }
    let mut m = String::from_str("Failed to parse date string '");
    m.append(t);
    m.append("'. Expected RFC3339 (e.g. 2024-06-10T06:13:20Z) or YYYY-MM-DD HH:MM:SS");
    Err(m)
}

/// Reads a date or date-time string as a point in time. After trimming:
/// `now` (any case) is the current time; a pattern given in `format` (other
/// than a preset name) is tried first, with an offset, as a date-time and as
/// a date; then RFC 3339, RFC 2822 and a list of common layouts. Layouts
/// without an offset are read in the zone `tz`.
pub fn parse_date(input: &str, tz: &TzConfig, format: Option<&str>) -> (r: Result<UtcDateTime, String>)
    requires
        tz_wf(tz@),
    ensures
        parse_date_ok(r, trim_chars(input@), tz@, opt_view(format)),
{
    let t = trim(input);
    if str_eq_ignore_ascii_case(t, "now") {
        return Ok(utc_now());
    }
    if let Some(f) = format {
        if let Some(res) = parse_custom(t, f, tz) {
            return res;
        }
    }
    parse_standard(t, tz)
}

/// A date string that fixes its own offset reads the same in every zone
/// setting: the zone is used only for date-times written without one.
pub proof fn law_written_offset_wins(
    r: Result<UtcDateTime, String>,
    t: Seq<char>,
    tz1: TzView,
    tz2: TzView,
    format: Option<Seq<char>>,
)
    requires
        date_source(t, format) is Point,
    ensures
        parse_date_ok(r, t, tz1, format) == parse_date_ok(r, t, tz2, format),
{
}

} // verus!
