//! Time zone settings: UTC, the machine's local zone, a named IANA zone or
//! a fixed offset, and reading one from its textual form.

use vstd::prelude::*;
use vstd::slice::slice_subrange;
use vstd::utf8::encode_utf8;
use crate::decimal::{append_digit, digit_char, parse_i32, parse_int_exec};
use crate::outcome::Outcome;
use crate::text::{
    is_sole, lemma_sole_unique, occurs_once, sole_index, spec_to_lowercase, str_eq, to_lowercase,
    trim, trim_chars,
};


verus! {

/// A time zone setting.
#[derive(Debug, Clone, PartialEq)]
pub enum TzConfig {
    Utc,
    Local,
    /// A zone of the IANA database, by its name.
    Named(String),
    /// A fixed offset east of UTC, in seconds.
    Fixed(i32),
}

/// The mathematical form of a time zone setting.
pub enum TzView {
    Utc,
    Local,
    Named(Seq<char>),
    Fixed(int),
}

impl View for TzConfig {
    type V = TzView;

    open spec fn view(&self) -> TzView {
        match self {
            TzConfig::Utc => TzView::Utc,
            TzConfig::Local => TzView::Local,
            TzConfig::Named(n) => TzView::Named(n@),
            TzConfig::Fixed(o) => TzView::Fixed(*o as int),
        }
    }
}

/// A fixed offset that chrono's `FixedOffset` can hold: less than a day either way.
pub open spec fn valid_offset(secs: int) -> bool {
    -86_400 < secs < 86_400
}

/// Two decimal digits of `n < 100`.
pub open spec fn two_digits(n: int) -> Seq<char> {
    seq![digit_char(n / 10), digit_char(n % 10)]
}

/// How chrono writes a fixed offset: `+HH:MM`, with `:SS` when the seconds are not zero.
pub open spec fn offset_text(off: int) -> Seq<char> {
    let sign = if off < 0 { '-' } else { '+' };
    let a = if off < 0 { -off } else { off };
    let sec = a % 60;
    let mins = a / 60;
    seq![sign] + two_digits(mins / 60) + seq![':'] + two_digits(mins % 60) + if sec == 0 {
        Seq::<char>::empty()
    } else {
        seq![':'] + two_digits(sec)
    }
}

/// Writes a fixed offset as chrono's `FixedOffset` displays it (`offset_text`).
pub(crate) fn offset_text_exec(off: i32) -> (r: String)
    requires
        valid_offset(off as int),
    ensures
        r@ == offset_text(off as int),
{
    let a: i32 = if off < 0 { -off } else { off };
    let sec = a % 60;
    let mins = a / 60;
    let mut s = String::new();
    proof {
        reveal_strlit("-");
        reveal_strlit("+");
        reveal_strlit(":");
    }
    if off < 0 {
        s.append("-");
    } else {
        s.append("+");
    }
    let hours = mins / 60;
    append_digit(&mut s, (hours / 10) as u128);
    append_digit(&mut s, (hours % 10) as u128);
    s.append(":");
    let rest = mins % 60;
    append_digit(&mut s, (rest / 10) as u128);
    append_digit(&mut s, (rest % 10) as u128);
    if sec != 0 {
        s.append(":");
        append_digit(&mut s, (sec / 10) as u128);
        append_digit(&mut s, (sec % 10) as u128);
    }
    let ghost sign = if off < 0 { '-' } else { '+' };
    assert(s@ =~= offset_text(off as int));
    s
}

/// Whether `name` is the name of a zone in chrono-tz's database.
pub uninterp spec fn spec_is_tz_name(name: Seq<char>) -> bool;

/// A setting that the conversions can use: a known zone name, an offset in range.
pub open spec fn tz_wf(tz: TzView) -> bool {
    match tz {
        TzView::Named(n) => spec_is_tz_name(n),
        TzView::Fixed(o) => valid_offset(o),
        _ => true,
    }
}

/// Whether `FixedOffset::east_opt` accepts `secs`: an offset of less than
/// a day either way.
fn east_opt_accepts(secs: i32) -> (r: bool)
    ensures
        r == valid_offset(secs as int),
{
    -86_400 < secs && secs < 86_400
}

/// Trusted: `chrono_tz::Tz::from_str`; the contract names whether it
/// accepts `s` (an exact, case-sensitive lookup in the zone table).
#[verifier::external_body]
fn tz_name_known(s: &str) -> (r: bool)
    ensures
        r == spec_is_tz_name(s@),
{
    s.parse::<chrono_tz::Tz>().is_ok()
}

/// The number of zones in `chrono_tz::TZ_VARIANTS` (597 in chrono-tz 0.10.4).
pub open spec fn tz_variant_count() -> int {
    597
}

/// The name of the `i`-th zone of `chrono_tz::TZ_VARIANTS`.
pub uninterp spec fn spec_tz_variant_name(i: int) -> Seq<char>;

/// Trusted: `chrono_tz::TZ_VARIANTS.len()`, an array of 597 zones in the
/// chrono-tz version used.
#[verifier::external_body]
fn tz_variant_count_exec() -> (r: usize)
    ensures
        r == tz_variant_count(),
{
    chrono_tz::TZ_VARIANTS.len()
}

/// Trusted: `Tz::name` of the `i`-th entry of `chrono_tz::TZ_VARIANTS`. The
/// contract names the result and claims that `Tz::from_str` accepts it (the
/// zone table holds every variant under its name).
#[verifier::external_body]
fn tz_variant_name(i: usize) -> (r: &'static str)
    requires
        i < tz_variant_count(),
    ensures
        r@ == spec_tz_variant_name(i as int),
        spec_is_tz_name(r@),
{
    chrono_tz::TZ_VARIANTS[i].name()
}

/// The hours and minutes that `rest` writes: split once by `:`, or as four
/// bytes of two digits each (none when the split would cut a character),
/// or as hours alone.
pub open spec fn hours_minutes(rest: Seq<u8>) -> Option<(int, int)> {
    if rest.contains(58u8) {
        if !occurs_once(rest, 58u8) {
            None
        } else {
            let i = sole_index(rest, 58u8);
            match (parse_i32(rest.take(i)), parse_i32(rest.skip(i + 1))) {
                (Ok(h), Ok(m)) => Some((h, m)),
                _ => None,
            }
        }
    } else if rest.len() == 4 {
        if 128 <= rest[2] < 192 {
            None
        } else {
            match (parse_i32(rest.take(2)), parse_i32(rest.skip(2))) {
                (Ok(h), Ok(m)) => Some((h, m)),
                _ => None,
            }
        }
    } else if rest.len() <= 2 {
        match parse_i32(rest) {
            Ok(h) => Some((h, 0)),
            _ => None,
        }
    } else {
        None
    }
}

/// The offset, in seconds, that `b` writes as `+HH:MM`, `-HH:MM`, `+HHMM`,
/// `-HHMM`, `+HH` or `-HH` (hours up to 23, minutes up to 59).
pub open spec fn spec_parse_fixed_offset(b: Seq<u8>) -> Option<int> {
    if b.len() == 0 || (b[0] != 43u8 && b[0] != 45u8) {
        None
    } else {
        let sign = if b[0] == 45u8 { -1int } else { 1int };
        match hours_minutes(b.drop_first()) {
            None => None,
            Some((h, m)) => if h < 0 || h > 23 || m < 0 || m > 59 {
                None
            } else {
                let total = sign * (h * 3600 + m * 60);
                if valid_offset(total) {
                    Some(total)
                } else {
                    None
                }
            },
        }
    }
}

fn find_byte(b: &[u8], x: u8) -> (r: Option<usize>)
    ensures
        r matches Some(i) ==> i < b@.len() && b@[i as int] == x && !b@.take(i as int).contains(x),
        r is None ==> !b@.contains(x),
{
    let mut i: usize = 0;
    while i < b.len()
        invariant
            i <= b@.len(),
            forall|k: int| 0 <= k < i ==> b@[k] != x,
        decreases b@.len() - i,
    {
        if b[i] == x {
            proof {
                assert forall|k: int| 0 <= k < i implies b@.take(i as int)[k] != x by {}
            }
            return Some(i);
        }
        i = i + 1;
    }
    None
}

fn hours_minutes_exec(rest: &[u8]) -> (r: Option<(i128, i128)>)
    ensures
        match hours_minutes(rest@) {
            Some((h, m)) => r == Some((h as i128, m as i128)),
            None => r is None,
        },
{
    let n = rest.len();
    match find_byte(rest, 58u8) {
        Some(i) => {
            let tail = slice_subrange(rest, i + 1, n);
            assert(tail@ =~= rest@.skip(i + 1));
            if find_byte(tail, 58u8).is_some() {
                proof {
                    if occurs_once(rest@, 58u8) {
                        let j = sole_index(rest@, 58u8);
                        if j < i {
                            assert(rest@.take(i as int).contains(58u8)) by {
                                assert(rest@.take(i as int)[j] == 58u8);
                            }
                        } else if j > i {
                            assert(rest@.take(j)[i as int] == 58u8);
                        } else {
                            assert(rest@.skip(j + 1) == tail@);
                        }
                    }
                    assert(rest@[i as int] == 58u8);
                }
                return None;
            }
            assert(is_sole(rest@, 58u8, i as int));
            proof {
                lemma_sole_unique(rest@, 58u8, i as int, sole_index(rest@, 58u8));
                assert(rest@.contains(58u8)) by {
                    assert(rest@[i as int] == 58u8);
                }
            }
            let head = slice_subrange(rest, 0, i);
            assert(head@ =~= rest@.take(i as int));
            let h = parse_int_exec(head, true, -2147483648, 2147483647);
            let m = parse_int_exec(tail, true, -2147483648, 2147483647);
            match (h, m) {
                (Ok(h), Ok(m)) => Some((h, m)),
                _ => None,
            }
        },
        None => {
            if n == 4 {
                if rest[2] >= 128 && rest[2] < 192 {
                    return None;
                }
                let head = slice_subrange(rest, 0, 2);
                let tail = slice_subrange(rest, 2, 4);
                assert(head@ =~= rest@.take(2));
                assert(tail@ =~= rest@.skip(2));
                let h = parse_int_exec(head, true, -2147483648, 2147483647);
                let m = parse_int_exec(tail, true, -2147483648, 2147483647);
                match (h, m) {
                    (Ok(h), Ok(m)) => Some((h, m)),
                    _ => None,
                }
            } else if n <= 2 {
                match parse_int_exec(rest, true, -2147483648, 2147483647) {
                    Ok(h) => Some((h, 0)),
                    _ => None,
                }
            } else {
                None
            }
        },
    }
}

/// Reads a fixed offset (`+HH:MM`, `-HH:MM`, `+HHMM`, `-HHMM`, `+HH`,
/// `-HH`), in seconds east of UTC.
pub fn parse_fixed_offset(s: &str) -> (r: Option<i32>)
    ensures
        match spec_parse_fixed_offset(encode_utf8(s@)) {
            Some(o) => r == Some(o as i32),
            None => r is None,
        },
{
    let b = s.as_bytes();
    let n = b.len();
    if n == 0 || (b[0] != 43u8 && b[0] != 45u8) {
        return None;
    }
    let sign: i128 = if b[0] == 45u8 { -1 } else { 1 };
    let rest = slice_subrange(b, 1, n);
    assert(rest@ =~= b@.drop_first());
    match hours_minutes_exec(rest) {
        None => None,
        Some((h, m)) => {
            if h < 0 || h > 23 || m < 0 || m > 59 {
                return None;
            }
            let total = sign * (h * 3600 + m * 60);
            if east_opt_accepts(total as i32) {
                Some(total as i32)
            } else {
                None
            }
        },
    }
}

/// `t` with every space replaced by `_`.
pub open spec fn spaces_to_underscores(t: Seq<char>) -> Seq<char> {
    t.map_values(|c: char| if c == ' ' { '_' } else { c })
}

/// The first zone, from the `i`-th on, whose lower-cased name is `norm`.
pub open spec fn first_variant_from(norm: Seq<char>, i: int) -> Option<int>
    decreases tz_variant_count() - i,
{
    if i < 0 || i >= tz_variant_count() {
        None
    } else if spec_to_lowercase(spec_tz_variant_name(i)) == norm {
        Some(i)
    } else {
        first_variant_from(norm, i + 1)
    }
}

/// The message that rejects an unknown zone.
pub open spec fn unknown_zone_message(t: Seq<char>) -> Seq<char> {
    "Unknown timezone '"@ + t
        + "'. Examples: UTC, local, Europe/Helsinki, America/New_York, +02:00, -05:00"@
}

/// Reading a time zone setting from `s`: `utc`, `z`, `gmt` or `local` in
/// any case, a fixed offset, an exact zone name, or a zone name matched
/// ignoring case with spaces read as `_`.
pub open spec fn tz_config_outcome(s: Seq<char>) -> Outcome<TzView> {
    let t = trim_chars(s);
    let lower = spec_to_lowercase(t);
    if lower == "utc"@ || lower == "z"@ || lower == "gmt"@ {
        Outcome::Value(TzView::Utc)
    } else if lower == "local"@ {
        Outcome::Value(TzView::Local)
    } else if spec_parse_fixed_offset(encode_utf8(t)) is Some {
        Outcome::Value(TzView::Fixed(spec_parse_fixed_offset(encode_utf8(t))->0))
    } else if spec_is_tz_name(t) {
        Outcome::Value(TzView::Named(t))
    } else {
        match first_variant_from(spec_to_lowercase(spaces_to_underscores(t)), 0) {
            Some(i) => Outcome::Value(TzView::Named(spec_tz_variant_name(i))),
            None => Outcome::Error(unknown_zone_message(t)),
        }
    }
}

fn spaces_to_underscores_exec(t: &str) -> (r: String)
    ensures
        r@ == spaces_to_underscores(t@),
{
    let n = t.unicode_len();
    let mut out = String::new();
    let mut i: usize = 0;
    while i < n
        invariant
            n == t@.len(),
            i <= n,
            out@ == spaces_to_underscores(t@.take(i as int)),
        decreases n - i,
    {
        let c = t.get_char(i);
        proof {
            reveal_strlit("_");
        }
        if c == ' ' {
            out.append("_");
        } else {
            let one = t.substring_char(i, i + 1);
            assert(one@ =~= seq![c]);
            out.append(one);
        }
        assert(spaces_to_underscores(t@.take(i + 1)) =~= spaces_to_underscores(t@.take(i as int)).push(
            if c == ' ' { '_' } else { c },
        ));
        i = i + 1;
    }
    assert(t@.take(n as int) =~= t@);
    out
}

fn first_variant_exec(norm: &str) -> (r: Option<usize>)
    ensures
        match first_variant_from(norm@, 0) {
            Some(i) => r == Some(i as usize),
            None => r is None,
        },
{
    let count = tz_variant_count_exec();
    let mut i: usize = 0;
    while i < count
        invariant
            count == tz_variant_count(),
            i <= count,
            first_variant_from(norm@, 0) == first_variant_from(norm@, i as int),
        decreases count - i,
    {
        let name = tz_variant_name(i);
        let lower = to_lowercase(name);
        if str_eq(lower.as_str(), norm) {
            return Some(i);
        }
        i = i + 1;
    }
    None
}

/// The message that rejects the unknown zone `t`.
fn unknown_zone(t: &str) -> (r: String)
    ensures
        r@ == unknown_zone_message(t@),
{
    let mut m = String::from_str("Unknown timezone '");
    m.append(t);
    m.append("'. Examples: UTC, local, Europe/Helsinki, America/New_York, +02:00, -05:00");
    m
}

/// Whether `a` holds exactly the characters of `b`.
fn is_word(a: &String, b: &str) -> (r: bool)
    ensures
        r == (a@ == b@),
{
    str_eq(a.as_str(), b)
}

/// Reads a time zone setting, or says why not.
fn read_tz_config(s: &str) -> (r: Result<TzConfig, String>)
    ensures
        crate::outcome::result_is(r, tz_config_outcome(s@), |z: TzConfig| z@),
        vstd::utf8::is_ascii_chars(trim_chars(s@)) ==> spec_to_lowercase(trim_chars(s@))
            == crate::text::ascii_lowercase(trim_chars(s@)),
        r matches Ok(z) ==> tz_wf(z@),
{
    let t = trim(s);
    let lower = to_lowercase(t);
    if is_word(&lower, "utc") || is_word(&lower, "z") || is_word(&lower, "gmt") {
        return Ok(TzConfig::Utc);
    }
    if is_word(&lower, "local") {
        return Ok(TzConfig::Local);
    }
    if let Some(offset) = parse_fixed_offset(t) {
        return Ok(TzConfig::Fixed(offset));
    }
    if tz_name_known(t) {
        return Ok(TzConfig::Named(String::from_str(t)));
    }
    let underscored = spaces_to_underscores_exec(t);
    let normalized = to_lowercase(underscored.as_str());
    match first_variant_exec(normalized.as_str()) {
        Some(i) => {
            proof {
                lemma_first_variant_bound(normalized@, 0);
            }
            Ok(TzConfig::Named(String::from_str(tz_variant_name(i))))
        },
        None => Err(unknown_zone(t)),
    }
}

proof fn lemma_first_variant_bound(norm: Seq<char>, i: int)
    ensures
        first_variant_from(norm, i) matches Some(k) ==> 0 <= k < tz_variant_count(),
    decreases tz_variant_count() - i,
{
    if 0 <= i < tz_variant_count() {
        lemma_first_variant_bound(norm, i + 1);
    }
}

impl TzConfig {
    /// Reads a time zone setting: `UTC`, `Z`, `GMT` or `local` (any case), a
    /// fixed offset such as `+02:00`, `-0500` or `+03`, or an IANA zone name,
    /// looked up exactly and then ignoring case with spaces read as `_`.
    pub fn parse(s: &str) -> (r: Result<TzConfig, String>)
        ensures
            crate::outcome::result_is(r, tz_config_outcome(s@), |z: TzConfig| z@),
            r matches Ok(z) ==> tz_wf(z@),
            vstd::utf8::is_ascii_chars(trim_chars(s@)) ==> spec_to_lowercase(trim_chars(s@))
                == crate::text::ascii_lowercase(trim_chars(s@)),
    {
        read_tz_config(s)
    }

    /// Whether the setting can be used: a known zone name, an offset of less than a day.
    pub fn is_valid(&self) -> (r: bool)
        ensures
            r == tz_wf(self@),
    {
        match self {
            TzConfig::Utc | TzConfig::Local => true,
            TzConfig::Named(n) => tz_name_known(n.as_str()),
            TzConfig::Fixed(o) => east_opt_accepts(*o),
        }
    }
}

/// Reads a time zone setting as `TzConfig::parse` does.
impl core::str::FromStr for TzConfig {
    type Err = String;

    fn from_str(s: &str) -> (r: Result<Self, Self::Err>)
        ensures
            crate::outcome::result_is(r, tz_config_outcome(s@), |z: TzConfig| z@),
            vstd::utf8::is_ascii_chars(trim_chars(s@)) ==> spec_to_lowercase(trim_chars(s@))
                == crate::text::ascii_lowercase(trim_chars(s@)),
            r matches Ok(z) ==> tz_wf(z@),
    {
        read_tz_config(s)
    }
}

/// Two ASCII digits read as the number they write.
proof fn lemma_two_digits_read(n: int)
    requires
        0 <= n < 100,
    ensures
        parse_i32(seq![(n / 10 + 48) as u8, (n % 10 + 48) as u8]) == Ok::<int, crate::decimal::IntErrorKind>(n),
{
    let b = seq![(n / 10 + 48) as u8, (n % 10 + 48) as u8];
    assert(b.drop_last() =~= seq![(n / 10 + 48) as u8]);
    assert(b.drop_last().drop_last() =~= Seq::<u8>::empty());
    reveal_with_fuel(crate::decimal::accumulate, 3);
}

/// The text chrono writes for a whole-minute offset (`+HH:MM`) reads back,
/// with `parse_fixed_offset`, as that offset.
pub proof fn law_offset_text_reads_back(o: int)
    requires
        valid_offset(o),
        o % 60 == 0,
    ensures
        spec_parse_fixed_offset(encode_utf8(offset_text(o))) == Some(o),
{
    let a = if o < 0 { -o } else { o };
    let mins = a / 60;
    let h = mins / 60;
    let m = mins % 60;
    assert(0 <= h < 24);
    let t = offset_text(o);
    let sign = if o < 0 { '-' } else { '+' };
    assert(t =~= seq![sign, digit_char(h / 10), digit_char(h % 10), ':', digit_char(m / 10), digit_char(m % 10)]);
    assert(vstd::utf8::is_ascii_chars(t));
    vstd::utf8::is_ascii_chars_encode_utf8(t);
    let b = encode_utf8(t);
    let sb: u8 = if o < 0 { 45u8 } else { 43u8 };
    assert(b =~= seq![sb, (h / 10 + 48) as u8, (h % 10 + 48) as u8, 58u8, (m / 10 + 48) as u8, (m % 10 + 48) as u8]);
    let rest = b.drop_first();
    assert(rest[2] == 58u8);
    assert(is_sole(rest, 58u8, 2)) by {
        assert(!rest.take(2).contains(58u8)) by {
            assert forall|k: int| 0 <= k < 2 implies rest.take(2)[k] != 58u8 by {}
        }
        assert(!rest.skip(3).contains(58u8)) by {
            assert forall|k: int| 0 <= k < 2 implies rest.skip(3)[k] != 58u8 by {}
        }
    }
    lemma_sole_unique(rest, 58u8, 2, sole_index(rest, 58u8));
    assert(rest.contains(58u8));
    assert(rest.take(2) =~= seq![(h / 10 + 48) as u8, (h % 10 + 48) as u8]);
    assert(rest.skip(3) =~= seq![(m / 10 + 48) as u8, (m % 10 + 48) as u8]);
    lemma_two_digits_read(h);
    lemma_two_digits_read(m);
    assert(h * 3600 + m * 60 == a);
}

/// The three written forms of an offset agree: a sign followed by `HH:MM`,
/// by `HHMM`, or (for whole hours) by `HH` reads as the sign times
/// `HH` hours and `MM` minutes, for hours up to 23 and minutes up to 59.
pub proof fn law_offset_forms_agree(neg: bool, h: int, m: int)
    requires
        0 <= h <= 23,
        0 <= m <= 59,
    ensures
        ({
            let sb: u8 = if neg { 45u8 } else { 43u8 };
            let hh = seq![(h / 10 + 48) as u8, (h % 10 + 48) as u8];
            let mm = seq![(m / 10 + 48) as u8, (m % 10 + 48) as u8];
            let value = if neg { -(h * 3600 + m * 60) } else { h * 3600 + m * 60 };
            &&& spec_parse_fixed_offset(seq![sb] + hh + seq![58u8] + mm) == Some(value)
            &&& spec_parse_fixed_offset(seq![sb] + hh + mm) == Some(value)
            &&& m == 0 ==> spec_parse_fixed_offset(seq![sb] + hh) == Some(value)
        }),
{
    let sb: u8 = if neg { 45u8 } else { 43u8 };
    let hh = seq![(h / 10 + 48) as u8, (h % 10 + 48) as u8];
    let mm = seq![(m / 10 + 48) as u8, (m % 10 + 48) as u8];
    lemma_two_digits_read(h);
    lemma_two_digits_read(m);
    let colon = seq![sb] + hh + seq![58u8] + mm;
    let rest = colon.drop_first();
    assert(rest =~= seq![(h / 10 + 48) as u8, (h % 10 + 48) as u8, 58u8, (m / 10 + 48) as u8, (m % 10 + 48) as u8]);
    assert(is_sole(rest, 58u8, 2)) by {
        assert(!rest.take(2).contains(58u8)) by {
            assert forall|k: int| 0 <= k < 2 implies rest.take(2)[k] != 58u8 by {}
        }
        assert(!rest.skip(3).contains(58u8)) by {
            assert forall|k: int| 0 <= k < 2 implies rest.skip(3)[k] != 58u8 by {}
        }
    }
    lemma_sole_unique(rest, 58u8, 2, sole_index(rest, 58u8));
    assert(rest.contains(58u8));
    assert(rest.take(2) =~= hh);
    assert(rest.skip(3) =~= mm);
    let plain = seq![sb] + hh + mm;
    let rest4 = plain.drop_first();
    assert(rest4 =~= hh + mm);
    assert(!rest4.contains(58u8)) by {
        assert forall|k: int| 0 <= k < 4 implies rest4[k] != 58u8 by {}
    }
    assert(rest4.take(2) =~= hh);
    assert(rest4.skip(2) =~= mm);
    let short = seq![sb] + hh;
    assert(short.drop_first() =~= hh);
    assert(!hh.contains(58u8)) by {
        assert forall|k: int| 0 <= k < 2 implies hh[k] != 58u8 by {}
    }
    let value = if neg { -(h * 3600 + m * 60) } else { h * 3600 + m * 60 };
    let sign: int = if neg { -1 } else { 1 };
    assert(sign * (h * 3600 + m * 60) == value);
    assert(valid_offset(value));
    assert(colon[0] == sb && plain[0] == sb && short[0] == sb);
    assert(hours_minutes(rest) == Some((h, m)));
    assert(spec_parse_fixed_offset(colon) == Some(value));
    assert(hours_minutes(rest4) == Some((h, m)));
    assert(spec_parse_fixed_offset(plain) == Some(value));
    if m == 0 {
        assert(sign * (h * 3600 + 0 * 60) == value);
        assert(hours_minutes(short.drop_first()) == Some((h, 0int)));
        assert(spec_parse_fixed_offset(short) == Some(value));
    }
}

} // verus!
