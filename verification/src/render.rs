//! Writing a point in time out as text in a time zone: RFC 3339, RFC 2822
//! or a strftime-style pattern, all rendered by chrono.

use vstd::prelude::*;
use crate::datetime::{from_timestamp_accepts, in_chrono_range, max_timestamp, min_timestamp, UtcDateTime};
use crate::outcome::{step_is, Outcome, Step};
use crate::date::spec_parse_rfc3339;
use crate::text::{eq_ignore_ascii_case, spec_is_whitespace, str_eq_ignore_ascii_case};
use crate::tz::{tz_wf, valid_offset, TzConfig, TzView};
use chrono::{DateTime, FixedOffset, Local, Offset, SecondsFormat, TimeZone};
use chrono::format::StrftimeItems;

verus! {

/// How a point in time is to be written.
pub enum FormatKind {
    Rfc3339,
    Rfc2822,
    /// A strftime-style pattern.
    Pattern(Seq<char>),
}

/// The characters of an optional string.
pub open spec fn opt_view(f: Option<&str>) -> Option<Seq<char>> {
    match f {
        Some(s) => Some(s@),
        None => None,
    }
}

pub open spec fn names_rfc3339(f: Seq<char>) -> bool {
    eq_ignore_ascii_case(f, "rfc3339"@) || eq_ignore_ascii_case(f, "rfc-3339"@)
        || eq_ignore_ascii_case(f, "iso8601"@) || eq_ignore_ascii_case(f, "iso-8601"@)
}

pub open spec fn names_rfc2822(f: Seq<char>) -> bool {
    eq_ignore_ascii_case(f, "rfc2822"@) || eq_ignore_ascii_case(f, "rfc-2822"@)
}

/// The kind of output a format option asks for (RFC 3339 when absent);
/// the preset names are matched ignoring ASCII case.
pub open spec fn format_kind(format: Option<Seq<char>>) -> FormatKind {
    let f = match format {
        Some(f) => f,
        None => "rfc3339"@,
    };
    if names_rfc3339(f) {
        FormatKind::Rfc3339
    } else if names_rfc2822(f) {
        FormatKind::Rfc2822
    } else {
        FormatKind::Pattern(f)
    }
}

/// The RFC 3339 text that chrono writes (`to_rfc3339_opts` with automatic
/// fraction digits) for the point `(secs, nanos)` at offset `off`, with `Z`
/// for a zero offset when `use_z`.
pub uninterp spec fn spec_rfc3339(secs: int, nanos: int, off: int, use_z: bool) -> Seq<char>;

/// The RFC 2822 text that chrono writes (`to_rfc2822`) for the point at offset `off`.
pub uninterp spec fn spec_rfc2822(secs: int, nanos: int, off: int) -> Seq<char>;

/// What chrono's `format(pattern)` writes for the point in UTC.
pub uninterp spec fn spec_strftime_utc(secs: int, nanos: int, pattern: Seq<char>) -> Seq<char>;

/// What chrono's `format(pattern)` writes for the point at the fixed offset `off`.
pub uninterp spec fn spec_strftime_fixed(secs: int, nanos: int, off: int, pattern: Seq<char>) -> Seq<char>;

/// What chrono's `format(pattern)` writes for the point in the named zone.
pub uninterp spec fn spec_strftime_named(zone: Seq<char>, secs: int, nanos: int, pattern: Seq<char>) -> Seq<char>;

/// The offset (seconds east of UTC) of the named zone at the UNIX timestamp `secs`.
pub uninterp spec fn spec_named_offset(zone: Seq<char>, secs: int) -> int;

/// Whether chrono reads `pattern` as a strftime pattern without errors.
pub uninterp spec fn spec_pattern_valid(pattern: Seq<char>) -> bool;

/// The local time `secs + off` can be represented by chrono (RFC 3339 output needs it).
pub open spec fn local_in_range(secs: int, off: int) -> bool {
    min_timestamp() <= secs + off <= max_timestamp()
}

/// The local time `secs + off` falls in the years 0 to 9999 (RFC 2822 output needs it).
pub open spec fn local_in_rfc2822_years(secs: int, off: int) -> bool {
    -62167219200 <= secs + off <= 253402300799
}

/// The text for `kind` at the fixed offset `off` (a local zone is one too).
pub open spec fn render_at_offset(kind: FormatKind, secs: int, nanos: int, off: int) -> Seq<char> {
    match kind {
        FormatKind::Rfc3339 => spec_rfc3339(secs, nanos, off, false),
        FormatKind::Rfc2822 => spec_rfc2822(secs, nanos, off),
        FormatKind::Pattern(p) => spec_strftime_fixed(secs, nanos, off, p),
    }
}

/// Rendering at offset `off` would abort: the local time leaves chrono's
/// range (RFC 3339), the years 0 to 9999 (RFC 2822), or the pattern is invalid.
pub open spec fn render_at_offset_panics(kind: FormatKind, secs: int, off: int) -> bool {
    match kind {
        FormatKind::Rfc3339 => !local_in_range(secs, off),
        FormatKind::Rfc2822 => !local_in_rfc2822_years(secs, off),
        FormatKind::Pattern(p) => !spec_pattern_valid(p),
    }
}

/// The text for the point `(secs, nanos)` in a zone other than the local one.
pub open spec fn render_in(kind: FormatKind, tz: TzView, secs: int, nanos: int) -> Seq<char> {
    match tz {
        TzView::Utc => match kind {
            FormatKind::Rfc3339 => spec_rfc3339(secs, nanos, 0, true),
            FormatKind::Rfc2822 => spec_rfc2822(secs, nanos, 0),
            FormatKind::Pattern(p) => spec_strftime_utc(secs, nanos, p),
        },
        TzView::Fixed(o) => render_at_offset(kind, secs, nanos, o),
        TzView::Named(z) => match kind {
            FormatKind::Pattern(p) => spec_strftime_named(z, secs, nanos, p),
            _ => render_at_offset(kind, secs, nanos, spec_named_offset(z, secs)),
        },
        TzView::Local => Seq::empty(),
    }
}

/// Rendering in a zone other than the local one would abort.
pub open spec fn render_in_panics(kind: FormatKind, tz: TzView, secs: int) -> bool {
    match tz {
        TzView::Utc => render_at_offset_panics(kind, secs, 0),
        TzView::Fixed(o) => render_at_offset_panics(kind, secs, o),
        TzView::Named(z) => render_at_offset_panics(kind, secs, spec_named_offset(z, secs)),
        TzView::Local => false,
    }
}

/// Rendering in the local zone would abort for some possible local offset.
pub open spec fn render_local_may_panic(kind: FormatKind, secs: int) -> bool {
    exists|o: int| valid_offset(o) && render_at_offset_panics(kind, secs, o)
}

/// The point can be handed to chrono for rendering (leap-second nanoseconds
/// only in the last second of a minute).
pub open spec fn renderable(d: (int, int)) -> bool {
    from_timestamp_accepts(d.0, d.1)
}

/// What the RFC 3339 text `text` of the point `(secs, nanos)` at offset
/// `off` holds: no whitespace, a `T` between date and time, and, for a point
/// outside a leap second whose local year is 0 to 9999 at a whole-minute
/// offset, chrono's RFC 3339 reader gives the point back.
pub open spec fn rfc3339_reads_back(text: Seq<char>, secs: int, nanos: int, off: int) -> bool {
    &&& forall|i: int| 0 <= i < text.len() ==> !spec_is_whitespace(#[trigger] text[i])
    &&& text.contains('T')
    &&& (local_in_rfc2822_years(secs, off) && off % 60 == 0 && nanos < 1_000_000_000)
        ==> spec_parse_rfc3339(text) == Some((secs, nanos))
}

/// The offset at which a zone other than the machine's own writes the point
/// at second `secs`.
pub open spec fn zone_offset(tz: TzView, secs: int) -> int {
    match tz {
        TzView::Fixed(o) => o,
        TzView::Named(z) => spec_named_offset(z, secs),
        _ => 0,
    }
}

/// An RFC 3339 rendering `r` of the point `d` at offset `off` reads back.
pub open spec fn step_reads_back(r: Step<String>, kind: FormatKind, d: (int, int), off: int) -> bool {
    (kind is Rfc3339 && r is Value) ==> rfc3339_reads_back(r->Value_0@, d.0, d.1, off)
}

/// Trusted: chrono's `DateTime::to_rfc3339_opts(SecondsFormat::AutoSi, use_z)`
/// on the point taken to the fixed offset `off` (`with_timezone`). Panics
/// (chrono's `naive_local`) when the local time leaves chrono's range, which
/// `requires` excludes. The text is named, not spelled out.
#[verifier::external_body]
fn rfc3339_at(dt: &UtcDateTime, off: i32, use_z: bool) -> (r: String)
    requires
        renderable(dt@),
        valid_offset(off as int),
        local_in_range(dt@.0, off as int),
    ensures
        r@ == spec_rfc3339(dt@.0, dt@.1, off as int, use_z),
        rfc3339_reads_back(r@, dt@.0, dt@.1, off as int),
{
    let utc = DateTime::from_timestamp(dt.timestamp(), dt.timestamp_subsec_nanos()).unwrap();
    let offset = FixedOffset::east_opt(off).unwrap();
    utc.with_timezone(&offset).to_rfc3339_opts(SecondsFormat::AutoSi, use_z)
}

/// Trusted: chrono's `DateTime::to_rfc2822` on the point taken to the fixed
/// offset `off`. Panics when the local year is outside 0 to 9999, which
/// `requires` excludes. The text is named, not spelled out.
#[verifier::external_body]
fn rfc2822_at(dt: &UtcDateTime, off: i32) -> (r: String)
    requires
        renderable(dt@),
        valid_offset(off as int),
        local_in_rfc2822_years(dt@.0, off as int),
    ensures
        r@ == spec_rfc2822(dt@.0, dt@.1, off as int),
{
    let utc = DateTime::from_timestamp(dt.timestamp(), dt.timestamp_subsec_nanos()).unwrap();
    let offset = FixedOffset::east_opt(off).unwrap();
    utc.with_timezone(&offset).to_rfc2822()
}

/// Trusted: chrono's `DateTime<Utc>::format(pattern).to_string()`. Panics on
/// an invalid pattern, which `requires` excludes. The text is named.
#[verifier::external_body]
fn strftime_utc(dt: &UtcDateTime, pattern: &str) -> (r: String)
    requires
        renderable(dt@),
        spec_pattern_valid(pattern@),
    ensures
        r@ == spec_strftime_utc(dt@.0, dt@.1, pattern@),
{
    let utc = DateTime::from_timestamp(dt.timestamp(), dt.timestamp_subsec_nanos()).unwrap();
    utc.format(pattern).to_string()
}

/// Trusted: chrono's `format(pattern).to_string()` on the point taken to the
/// fixed offset `off`. Panics on an invalid pattern, which `requires` excludes.
#[verifier::external_body]
fn strftime_fixed(dt: &UtcDateTime, off: i32, pattern: &str) -> (r: String)
    requires
        renderable(dt@),
        valid_offset(off as int),
        spec_pattern_valid(pattern@),
    ensures
        r@ == spec_strftime_fixed(dt@.0, dt@.1, off as int, pattern@),
{
    let utc = DateTime::from_timestamp(dt.timestamp(), dt.timestamp_subsec_nanos()).unwrap();
    let offset = FixedOffset::east_opt(off).unwrap();
    utc.with_timezone(&offset).format(pattern).to_string()
}

/// Trusted: chrono's `format(pattern).to_string()` on the point taken to the
/// named chrono-tz zone. Panics on an invalid pattern, which `requires` excludes.
#[verifier::external_body]
fn strftime_named(dt: &UtcDateTime, zone: &str, pattern: &str) -> (r: String)
    requires
        renderable(dt@),
        tz_wf(TzView::Named(zone@)),
        spec_pattern_valid(pattern@),
    ensures
        r@ == spec_strftime_named(zone@, dt@.0, dt@.1, pattern@),
{
    let utc = DateTime::from_timestamp(dt.timestamp(), dt.timestamp_subsec_nanos()).unwrap();
    let tz = zone.parse::<chrono_tz::Tz>().unwrap();
    utc.with_timezone(&tz).format(pattern).to_string()
}

/// Trusted: chrono-tz's `offset_from_utc_datetime(..).fix().local_minus_utc()`
/// for the named zone: its offset at that instant, named, and (as every
/// chrono `FixedOffset`) less than a day either way.
#[verifier::external_body]
fn named_offset_at(dt: &UtcDateTime, zone: &str) -> (r: i32)
    requires
        renderable(dt@),
        tz_wf(TzView::Named(zone@)),
    ensures
        r == spec_named_offset(zone@, dt@.0),
        valid_offset(r as int),
{
    let utc = DateTime::from_timestamp(dt.timestamp(), dt.timestamp_subsec_nanos()).unwrap();
    let tz = zone.parse::<chrono_tz::Tz>().unwrap();
    tz.offset_from_utc_datetime(&utc.naive_utc()).fix().local_minus_utc()
}

/// Trusted: chrono's `Local.offset_from_utc_datetime(..).local_minus_utc()`:
/// the machine's offset at that instant. It depends on the machine's zone
/// settings, so only its range (less than a day either way) is stated.
#[verifier::external_body]
fn local_offset_at(dt: &UtcDateTime) -> (r: i32)
    requires
        renderable(dt@),
    ensures
        valid_offset(r as int),
{
    let utc = DateTime::from_timestamp(dt.timestamp(), dt.timestamp_subsec_nanos()).unwrap();
    Local.offset_from_utc_datetime(&utc.naive_utc()).local_minus_utc()
}

/// Trusted: chrono's `StrftimeItems::new(pattern).parse().is_ok()`: whether
/// the pattern has no invalid specifier. Named.
#[verifier::external_body]
pub(crate) fn pattern_valid(pattern: &str) -> (r: bool)
    ensures
        r == spec_pattern_valid(pattern@),
{
    StrftimeItems::new(pattern).parse().is_ok()
}

/// What rendering at offset `off` comes to.
pub open spec fn render_at_offset_outcome(kind: FormatKind, secs: int, nanos: int, off: int) -> Outcome<Seq<char>> {
    if render_at_offset_panics(kind, secs, off) {
        Outcome::Panic
    } else {
        Outcome::Value(render_at_offset(kind, secs, nanos, off))
    }
}

/// What rendering in a zone other than the local one comes to.
pub open spec fn render_in_outcome(kind: FormatKind, tz: TzView, secs: int, nanos: int) -> Outcome<Seq<char>> {
    if render_in_panics(kind, tz, secs) {
        Outcome::Panic
    } else {
        Outcome::Value(render_in(kind, tz, secs, nanos))
    }
}

/// What rendering comes to, for the zone setting `tz`; in the local zone,
/// for some offset of less than a day.
pub open spec fn format_step_ok(r: Step<String>, kind: FormatKind, tz: TzView, d: (int, int)) -> bool {
    if tz is Local {
        exists|o: int|
            valid_offset(o) && step_is(r, #[trigger] render_at_offset_outcome(kind, d.0, d.1, o), |s: String| s@)
                && step_reads_back(r, kind, d, o)
    } else {
        &&& step_is(r, render_in_outcome(kind, tz, d.0, d.1), |s: String| s@)
        &&& step_reads_back(r, kind, d, zone_offset(tz, d.0))
    }
}

/// Whether `f` names one of the preset formats (RFC 3339 or RFC 2822).
pub(crate) fn names_preset(f: &str) -> (r: bool)
    ensures
        r == (names_rfc3339(f@) || names_rfc2822(f@)),
{
    str_eq_ignore_ascii_case(f, "rfc3339") || str_eq_ignore_ascii_case(f, "rfc-3339")
        || str_eq_ignore_ascii_case(f, "iso8601") || str_eq_ignore_ascii_case(f, "iso-8601")
        || str_eq_ignore_ascii_case(f, "rfc2822") || str_eq_ignore_ascii_case(f, "rfc-2822")
}

/// The kinds of output, as the executable code tells them apart.
enum Kind {
    Rfc3339,
    Rfc2822,
    Pattern,
}

fn format_kind_exec(format: Option<&str>) -> (r: (Kind, &str))
    ensures
        format_kind(opt_view(format)) == match r.0 {
            Kind::Rfc3339 => FormatKind::Rfc3339,
            Kind::Rfc2822 => FormatKind::Rfc2822,
            Kind::Pattern => FormatKind::Pattern(r.1@),
        },
{
    let f: &str = match format {
        Some(f) => f,
        None => "rfc3339",
    };
    if str_eq_ignore_ascii_case(f, "rfc3339") || str_eq_ignore_ascii_case(f, "rfc-3339")
        || str_eq_ignore_ascii_case(f, "iso8601") || str_eq_ignore_ascii_case(f, "iso-8601") {
        (Kind::Rfc3339, f)
    } else if str_eq_ignore_ascii_case(f, "rfc2822") || str_eq_ignore_ascii_case(f, "rfc-2822") {
        (Kind::Rfc2822, f)
    } else {
        (Kind::Pattern, f)
    }
}

fn render_at_offset_exec(dt: &UtcDateTime, kind: &Kind, pattern: &str, off: i32) -> (r: Step<String>)
    requires
        renderable(dt@),
        valid_offset(off as int),
    ensures
        step_is(
            r,
            render_at_offset_outcome(
                match kind {
                    Kind::Rfc3339 => FormatKind::Rfc3339,
                    Kind::Rfc2822 => FormatKind::Rfc2822,
                    Kind::Pattern => FormatKind::Pattern(pattern@),
                },
                dt@.0,
                dt@.1,
                off as int,
            ),
            |s: String| s@,
        ),
        step_reads_back(
            r,
            match kind {
                Kind::Rfc3339 => FormatKind::Rfc3339,
                Kind::Rfc2822 => FormatKind::Rfc2822,
                Kind::Pattern => FormatKind::Pattern(pattern@),
            },
            dt@,
            off as int,
        ),
{
    let secs = dt.timestamp();
    let local = secs + off as i64;
    match kind {
        Kind::Rfc3339 => {
            if local < -8334601228800 || local > 8210266876799 {
                Step::Panic
            } else {
                Step::Value(rfc3339_at(dt, off, false))
            }
        },
        Kind::Rfc2822 => {
            if local < -62167219200 || local > 253402300799 {
                Step::Panic
            } else {
                Step::Value(rfc2822_at(dt, off))
            }
        },
        Kind::Pattern => {
            if pattern_valid(pattern) {
                Step::Value(strftime_fixed(dt, off, pattern))
            } else {
                Step::Panic
            }
        },
    }
}

/// Writes the point in the zone `tz` as `format_datetime` does, or says
/// that the rendering would abort.
pub fn format_datetime_step(dt: &UtcDateTime, tz: &TzConfig, format: Option<&str>) -> (r: Step<String>)
    requires
        tz_wf(tz@),
        renderable(dt@),
    ensures
        format_step_ok(r, format_kind(opt_view(format)), tz@, dt@),
{
    let (kind, pattern) = format_kind_exec(format);
    let ghost k = format_kind(opt_view(format));
    match tz {
        TzConfig::Utc => {
            match kind {
                Kind::Rfc3339 => Step::Value(rfc3339_at(dt, 0, true)),
                Kind::Rfc2822 => {
                    let secs = dt.timestamp();
                    if secs < -62167219200 || secs > 253402300799 {
                        Step::Panic
                    } else {
                        Step::Value(rfc2822_at(dt, 0))
                    }
                },
                Kind::Pattern => {
                    if pattern_valid(pattern) {
                        Step::Value(strftime_utc(dt, pattern))
                    } else {
                        Step::Panic
                    }
                },
            }
        },
        TzConfig::Fixed(off) => render_at_offset_exec(dt, &kind, pattern, *off),
        TzConfig::Named(zone) => {
            match kind {
                Kind::Pattern => {
                    if pattern_valid(pattern) {
                        Step::Value(strftime_named(dt, zone.as_str(), pattern))
                    } else {
                        Step::Panic
                    }
                },
                _ => {
                    let off = named_offset_at(dt, zone.as_str());
                    render_at_offset_exec(dt, &kind, pattern, off)
                },
            }
        },
        TzConfig::Local => {
            let off = local_offset_at(dt);
            let r = render_at_offset_exec(dt, &kind, pattern, off);
            assert(valid_offset(off as int) && step_is(r, render_at_offset_outcome(k, dt@.0, dt@.1, off as int), |s: String| s@)
                && step_reads_back(r, k, dt@, off as int));
            r
        },
    }
}

/// Whether rendering `kind` at the offset `off` would abort.
fn panics_at_offset(secs: i64, kind: &Kind, pattern: &str, off: i32) -> (r: bool)
    requires
        in_chrono_range(secs as int, 0),
        valid_offset(off as int),
    ensures
        r == render_at_offset_panics(
            match kind {
                Kind::Rfc3339 => FormatKind::Rfc3339,
                Kind::Rfc2822 => FormatKind::Rfc2822,
                Kind::Pattern => FormatKind::Pattern(pattern@),
            },
            secs as int,
            off as int,
        ),
{
    let local = secs + off as i64;
    match kind {
        Kind::Rfc3339 => local < -8334601228800 || local > 8210266876799,
        Kind::Rfc2822 => local < -62167219200 || local > 253402300799,
        Kind::Pattern => !pattern_valid(pattern),
    }
}

/// Whether writing the point in the zone `tz` would abort: for the machine's
/// own zone, whether it would at some offset of less than a day (the
/// condition `format_datetime` requires to be false).
pub fn format_datetime_panics(dt: &UtcDateTime, tz: &TzConfig, format: Option<&str>) -> (r: bool)
    requires
        tz_wf(tz@),
        renderable(dt@),
    ensures
        r == (if tz@ is Local {
            render_local_may_panic(format_kind(opt_view(format)), dt@.0)
        } else {
            render_in_panics(format_kind(opt_view(format)), tz@, dt@.0)
        }),
{
    let (kind, pattern) = format_kind_exec(format);
    let ghost k = format_kind(opt_view(format));
    let secs = dt.timestamp();
    match tz {
        TzConfig::Utc => panics_at_offset(secs, &kind, pattern, 0),
        TzConfig::Fixed(off) => panics_at_offset(secs, &kind, pattern, *off),
        TzConfig::Named(zone) => {
            let off = named_offset_at(dt, zone.as_str());
            panics_at_offset(secs, &kind, pattern, off)
        },
        TzConfig::Local => {
            let r = match kind {
                Kind::Rfc3339 => secs - 86399 < -8334601228800 || secs + 86399 > 8210266876799,
                Kind::Rfc2822 => secs - 86399 < -62167219200 || secs + 86399 > 253402300799,
                Kind::Pattern => !pattern_valid(pattern),
            };
            proof {
                if r {
                    if !(k is Pattern) {
                        let o: int = if secs - 86399 < (if k is Rfc3339 { -8334601228800int } else { -62167219200int }) {
                            -86399
                        } else {
                            86399
                        };
                        assert(valid_offset(o) && render_at_offset_panics(k, secs as int, o));
                    } else {
                        assert(valid_offset(0) && render_at_offset_panics(k, secs as int, 0));
                    }
                } else {
                    assert forall|o: int| valid_offset(o) implies !#[trigger] render_at_offset_panics(k, secs as int, o) by {}
                }
            }
            r
        },
    }
}

/// Writes the point in time in the zone `tz`: RFC 3339 (the default, also
/// for `rfc-3339`, `iso8601`, `iso-8601` in any case), RFC 2822 (`rfc2822`,
/// `rfc-2822`), or a strftime-style pattern. In UTC, RFC 3339 ends in `Z`.
pub fn format_datetime(dt: UtcDateTime, tz: &TzConfig, format: Option<&str>) -> (r: String)
    requires
        tz_wf(tz@),
        renderable(dt@),
        tz@ is Local ==> !render_local_may_panic(format_kind(opt_view(format)), dt@.0),
        !(tz@ is Local) ==> !render_in_panics(format_kind(opt_view(format)), tz@, dt@.0),
    ensures
        !(tz@ is Local) ==> r@ == render_in(format_kind(opt_view(format)), tz@, dt@.0, dt@.1),
        !(tz@ is Local) && format_kind(opt_view(format)) is Rfc3339 ==> rfc3339_reads_back(
            r@,
            dt@.0,
            dt@.1,
            zone_offset(tz@, dt@.0),
        ),
        tz@ is Local ==> exists|o: int|
            valid_offset(o) && r@ == #[trigger] render_at_offset(format_kind(opt_view(format)), dt@.0, dt@.1, o)
                && (format_kind(opt_view(format)) is Rfc3339 ==> rfc3339_reads_back(r@, dt@.0, dt@.1, o)),
{
    match format_datetime_step(&dt, tz, format) {
        Step::Value(s) => s,
        _ => String::new(),
    }
}

/// What the local zone renders is what the same rendering at a fixed offset
/// gives: the text `format_datetime` may write for `Local` is its text for
/// `Fixed(o)`, for the offset `o` that the machine has at that instant.
pub proof fn law_local_is_fixed_at_machine_offset(text: Seq<char>, kind: FormatKind, secs: int, nanos: int)
    requires
        exists|o: int| valid_offset(o) && text == #[trigger] render_at_offset(kind, secs, nanos, o),
    ensures
        exists|o: int| valid_offset(o) && text == #[trigger] render_in(kind, TzView::Fixed(o), secs, nanos),
{
    let o = choose|o: int| valid_offset(o) && text == #[trigger] render_at_offset(kind, secs, nanos, o);
    assert(render_in(kind, TzView::Fixed(o), secs, nanos) == render_at_offset(kind, secs, nanos, o));
}

/// An RFC 3339 rendering, in any zone and so in the machine's own, is never
/// empty: it holds the `T` between date and time.
pub proof fn law_rfc3339_text_not_empty(text: Seq<char>, secs: int, nanos: int, off: int)
    requires
        rfc3339_reads_back(text, secs, nanos, off),
    ensures
        text.len() > 0,
{
}

} // verus!
