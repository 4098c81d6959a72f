//! Decimal integers: parsing byte strings the way the integer `from_str`
//! functions of std do, and writing integers out in decimal.

use vstd::prelude::*;
use vstd::utf8::{encode_utf8, is_ascii_chars, is_ascii_chars_encode_utf8};
use vstd::slice::slice_subrange;

verus! {

/// Why a decimal integer was rejected (the kinds std's integer parser reports).
#[derive(Debug, Clone, Copy, PartialEq, Eq, Structural)]
pub enum IntErrorKind {
    Empty,
    InvalidDigit,
    PosOverflow,
    NegOverflow,
}

pub open spec fn is_digit_byte(b: u8) -> bool {
    48 <= b && b <= 57
}

/// Reads the digits of `ds` left to right into a value in `[lo, hi]`,
/// negated when `neg`; the first byte that is not a digit, or the first
/// step that leaves the range, decides the error.
pub open spec fn accumulate(ds: Seq<u8>, neg: bool, lo: int, hi: int) -> Result<int, IntErrorKind>
    decreases ds.len(),
{
    if ds.len() == 0 {
        Ok(0)
    } else {
        match accumulate(ds.drop_last(), neg, lo, hi) {
            Err(e) => Err(e),
            Ok(v) => if !is_digit_byte(ds.last()) {
                Err(IntErrorKind::InvalidDigit)
            } else {
                let d = ds.last() - 48;
                let nv = if neg { v * 10 - d } else { v * 10 + d };
                if nv < lo || nv > hi {
                    Err(if neg { IntErrorKind::NegOverflow } else { IntErrorKind::PosOverflow })
                } else {
                    Ok(nv)
                }
            },
        }
    }
}

/// The value of the decimal integer `s` in `[lo, hi]`: an optional `+`
/// (or `-` when `signed`) followed by ASCII digits.
pub open spec fn parse_int(s: Seq<u8>, signed: bool, lo: int, hi: int) -> Result<int, IntErrorKind> {
    if s.len() == 0 {
        Err(IntErrorKind::Empty)
    } else if s.len() == 1 && (s[0] == 43u8 || s[0] == 45u8) {
        Err(IntErrorKind::InvalidDigit)
    } else if s[0] == 43u8 {
        accumulate(s.drop_first(), false, lo, hi)
    } else if s[0] == 45u8 && signed {
        accumulate(s.drop_first(), true, lo, hi)
    } else {
        accumulate(s, false, lo, hi)
    }
}

pub open spec fn parse_i128(s: Seq<u8>) -> Result<int, IntErrorKind> {
    parse_int(s, true, i128::MIN as int, i128::MAX as int)
}

pub open spec fn parse_i32(s: Seq<u8>) -> Result<int, IntErrorKind> {
    parse_int(s, true, i32::MIN as int, i32::MAX as int)
}

pub open spec fn parse_u32(s: Seq<u8>) -> Result<int, IntErrorKind> {
    parse_int(s, false, 0, u32::MAX as int)
}

proof fn lemma_accumulate_range(ds: Seq<u8>, neg: bool, lo: int, hi: int)
    requires
        lo <= 0 <= hi,
    ensures
        accumulate(ds, neg, lo, hi) matches Ok(v) ==> lo <= v <= hi,
    decreases ds.len(),
{
    if ds.len() > 0 {
        lemma_accumulate_range(ds.drop_last(), neg, lo, hi);
    }
}

fn accumulate_exec(ds: &[u8], neg: bool, lo: i128, hi: i128) -> (r: Result<i128, IntErrorKind>)
    requires
        lo <= 0 <= hi,
    ensures
        match accumulate(ds@, neg, lo as int, hi as int) {
            Ok(v) => r == Ok::<i128, IntErrorKind>(v as i128),
            Err(e) => r == Err::<i128, IntErrorKind>(e),
        },
{
    let mut acc: i128 = 0;
    let mut i: usize = 0;
    assert(ds@.take(0) =~= Seq::<u8>::empty());
    while i < ds.len()
        invariant
            lo <= 0 <= hi,
            i <= ds@.len(),
            accumulate(ds@.take(i as int), neg, lo as int, hi as int) == Ok::<int, IntErrorKind>(
                acc as int,
            ),
            lo <= acc <= hi,
            neg ==> acc <= 0,
            !neg ==> acc >= 0,
        decreases ds@.len() - i,
    {
        let c = ds[i];
        assert(ds@.take(i + 1).drop_last() =~= ds@.take(i as int));
        assert(ds@.take(i + 1).last() == c);
        if c < 48 || c > 57 {
            proof {
                lemma_accumulate_prefix_err(ds@, i as int + 1, neg, lo as int, hi as int);
            }
            return Err(IntErrorKind::InvalidDigit);
        }
        let d = (c - 48) as i128;
        let err = if neg { IntErrorKind::NegOverflow } else { IntErrorKind::PosOverflow };
        let step = if neg {
            match acc.checked_mul(10) {
                Some(m) => m.checked_sub(d),
                None => None,
            }
        } else {
            match acc.checked_mul(10) {
                Some(m) => m.checked_add(d),
                None => None,
            }
        };
        match step {
            Some(nv) if lo <= nv && nv <= hi => {
                acc = nv;
            },
            _ => {
                proof {
                    let nv_math = if neg { acc * 10 - d } else { acc * 10 + d };
                    assert(nv_math < lo || nv_math > hi);
                    lemma_accumulate_prefix_err(ds@, i as int + 1, neg, lo as int, hi as int);
                }
                return Err(err);
            },
        }
        i = i + 1;
    }
    assert(ds@.take(i as int) =~= ds@);
    Ok(acc)
}

/// An error on a prefix is the error on the whole sequence.
proof fn lemma_accumulate_prefix_err(ds: Seq<u8>, k: int, neg: bool, lo: int, hi: int)
    requires
        0 <= k <= ds.len(),
        accumulate(ds.take(k), neg, lo, hi) is Err,
    ensures
        accumulate(ds, neg, lo, hi) == accumulate(ds.take(k), neg, lo, hi),
    decreases ds.len() - k,
{
    if k < ds.len() {
        assert(ds.take(k + 1).drop_last() =~= ds.take(k));
        lemma_accumulate_prefix_err(ds, k + 1, neg, lo, hi);
    } else {
        assert(ds.take(k) =~= ds);
    }
}

/// Parses the bytes `s` as a decimal integer in `[lo, hi]`.
pub fn parse_int_exec(s: &[u8], signed: bool, lo: i128, hi: i128) -> (r: Result<i128, IntErrorKind>)
    requires
        lo <= 0 <= hi,
    ensures
        match parse_int(s@, signed, lo as int, hi as int) {
            Ok(v) => r == Ok::<i128, IntErrorKind>(v as i128),
            Err(e) => r == Err::<i128, IntErrorKind>(e),
        },
{
    let n = s.len();
    if n == 0 {
        return Err(IntErrorKind::Empty);
    }
    if n == 1 && (s[0] == 43u8 || s[0] == 45u8) {
        return Err(IntErrorKind::InvalidDigit);
    }
    if s[0] == 43u8 {
        let rest = slice_subrange(s, 1, n);
        assert(rest@ =~= s@.drop_first());
        accumulate_exec(rest, false, lo, hi)
    } else if s[0] == 45u8 && signed {
        let rest = slice_subrange(s, 1, n);
        assert(rest@ =~= s@.drop_first());
        accumulate_exec(rest, true, lo, hi)
    } else {
        accumulate_exec(s, false, lo, hi)
    }
}

/// The message std gives for each kind of rejected integer.
pub open spec fn int_error_message(k: IntErrorKind) -> Seq<char> {
    match k {
        IntErrorKind::Empty => "cannot parse integer from empty string"@,
        IntErrorKind::InvalidDigit => "invalid digit found in string"@,
        IntErrorKind::PosOverflow => "number too large to fit in target type"@,
        IntErrorKind::NegOverflow => "number too small to fit in target type"@,
    }
}

/// Appends the message for `k` to `s`.
pub fn append_int_error_message(s: &mut String, k: IntErrorKind)
    ensures
        final(s)@ == old(s)@ + int_error_message(k),
{
    match k {
        IntErrorKind::Empty => s.append("cannot parse integer from empty string"),
        IntErrorKind::InvalidDigit => s.append("invalid digit found in string"),
        IntErrorKind::PosOverflow => s.append("number too large to fit in target type"),
        IntErrorKind::NegOverflow => s.append("number too small to fit in target type"),
    }
}

/// The ASCII digit for `d < 10`.
pub open spec fn digit_char(d: int) -> char {
    ((d + 48) as u32) as char
}

/// The decimal digits of `m >= 0`, without leading zeros.
pub open spec fn digits(m: nat) -> Seq<char>
    decreases m,
{
    if m < 10 {
        seq![digit_char(m as int)]
    } else {
        digits(m / 10).push(digit_char((m % 10) as int))
    }
}

/// The decimal form of `n`, with a `-` in front when negative.
pub open spec fn decimal(n: int) -> Seq<char> {
    if n < 0 {
        seq!['-'] + digits((-n) as nat)
    } else {
        digits(n as nat)
    }
}

pub(crate) fn append_digit(s: &mut String, d: u128)
    requires
        d < 10,
    ensures
        final(s)@ == old(s)@.push(digit_char(d as int)),
{
    let names: [&str; 10] = ["0", "1", "2", "3", "4", "5", "6", "7", "8", "9"];
    proof {
        reveal_strlit("0");
        reveal_strlit("1");
        reveal_strlit("2");
        reveal_strlit("3");
        reveal_strlit("4");
        reveal_strlit("5");
        reveal_strlit("6");
        reveal_strlit("7");
        reveal_strlit("8");
        reveal_strlit("9");
    }
    let ghost before = s@;
    s.append(names[d as usize]);
    assert(s@ =~= before.push(digit_char(d as int)));
}

fn append_digits(s: &mut String, m: u128)
    ensures
        final(s)@ == old(s)@ + digits(m as nat),
    decreases m,
{
    if m >= 10 {
        append_digits(s, m / 10);
        append_digit(s, m % 10);
        assert(old(s)@ + digits(m as nat) =~= old(s)@ + digits((m / 10) as nat) + seq![digit_char((m % 10) as int)]);
    } else {
        append_digit(s, m);
        assert(old(s)@ + digits(m as nat) =~= old(s)@.push(digit_char(m as int)));
    }
}

/// Writes `n` in decimal (what `to_string` gives for an integer).
pub fn decimal_string(n: i128) -> (r: String)
    ensures
        r@ == decimal(n as int),
{
    let mut s = String::new();
    if n < 0 {
        s.append("-");
        proof {
            reveal_strlit("-");
        }
        let m: u128 = if n == i128::MIN {
            170141183460469231731687303715884105728u128
        } else {
            (-n) as u128
        };
        append_digits(&mut s, m);
        assert(s@ =~= seq!['-'] + digits((-n) as nat));
    } else {
        append_digits(&mut s, n as u128);
        assert(s@ =~= digits(n as nat));
    }
    s
}

proof fn lemma_digits_ascii(m: nat)
    ensures
        digits(m).len() >= 1,
        forall|i: int| 0 <= i < digits(m).len() ==> '0' <= #[trigger] digits(m)[i] <= '9',
        is_ascii_chars(digits(m)),
    decreases m,
{
    if m >= 10 {
        lemma_digits_ascii(m / 10);
        assert forall|i: int| 0 <= i < digits(m).len() implies '0' <= #[trigger] digits(m)[i] <= '9' by {
            if i < digits(m).len() - 1 {
                assert(digits(m)[i] == digits(m / 10)[i]);
            }
        }
    }
}

proof fn lemma_digits_bytes(m: nat)
    ensures
        encode_utf8(digits(m)).len() == digits(m).len(),
        forall|i: int|
            0 <= i < digits(m).len() ==> #[trigger] encode_utf8(digits(m))[i] == digits(m)[i] as u8,
{
    lemma_digits_ascii(m);
    is_ascii_chars_encode_utf8(digits(m));
}

proof fn lemma_accumulate_digits(m: nat, neg: bool, lo: int, hi: int)
    requires
        lo <= 0 <= hi,
        neg ==> lo <= -(m as int),
        !neg ==> m <= hi,
    ensures
        accumulate(encode_utf8(digits(m)), neg, lo, hi) == Ok::<int, IntErrorKind>(
            if neg { -(m as int) } else { m as int },
        ),
    decreases m,
{
    let b = encode_utf8(digits(m));
    lemma_digits_bytes(m);
    if m < 10 {
        assert(b.drop_last() =~= Seq::<u8>::empty());
        assert(accumulate(b.drop_last(), neg, lo, hi) == Ok::<int, IntErrorKind>(0));
        assert(b.last() == digit_char(m as int) as u8);
        assert(b.last() == m + 48);
    } else {
        lemma_accumulate_digits(m / 10, neg, lo, hi);
        lemma_digits_bytes(m / 10);
        assert(b.drop_last() =~= encode_utf8(digits(m / 10)));
        assert(b.last() == digit_char((m % 10) as int) as u8);
        assert(b.last() == m % 10 + 48);
    }
}

/// Reading back the decimal form of an `i128` (as `str::parse` reads an
/// integer) gives the same number.
pub proof fn law_decimal_round_trip(n: int)
    requires
        i128::MIN <= n <= i128::MAX,
    ensures
        parse_i128(encode_utf8(decimal(n))) == Ok::<int, IntErrorKind>(n),
{
    if n < 0 {
        let m = (-n) as nat;
        lemma_digits_bytes(m);
        lemma_digits_ascii(m);
        let c = seq!['-'] + digits(m);
        assert(c[0] == '-');
        assert(c.drop_first() =~= digits(m));
        let b = encode_utf8(c);
        assert(is_ascii_chars(c));
        is_ascii_chars_encode_utf8(c);
        assert(b[0] == 45u8);
        assert(b.drop_first() =~= encode_utf8(digits(m))) by {
            assert forall|i: int| 0 <= i < b.len() - 1 implies #[trigger] b.drop_first()[i] == encode_utf8(digits(m))[i] by {
                assert(b[i + 1] == c[i + 1] as u8);
                assert(c[i + 1] == digits(m)[i]);
            }
        }
        lemma_accumulate_digits(m, true, i128::MIN as int, i128::MAX as int);
    } else {
        let m = n as nat;
        lemma_digits_bytes(m);
        lemma_digits_ascii(m);
        assert(digits(m)[0] as u8 != 43u8 && digits(m)[0] as u8 != 45u8);
        lemma_accumulate_digits(m, false, i128::MIN as int, i128::MAX as int);
    }
}

/// The decimal form of `n` is a `-` (for negative `n`) and at least one
/// ASCII digit, ending in a digit.
pub proof fn lemma_decimal_chars(n: int)
    ensures
        decimal(n).len() >= 1,
        n < 0 ==> decimal(n).len() >= 2 && decimal(n)[0] == '-',
        forall|i: int|
            0 <= i < decimal(n).len() ==> ('0' <= #[trigger] decimal(n)[i] <= '9') || (i == 0 && n < 0),
        '0' <= decimal(n).last() <= '9',
{
    if n < 0 {
        let m = (-n) as nat;
        lemma_digits_ascii(m);
        assert forall|i: int| 0 <= i < decimal(n).len() implies ('0' <= #[trigger] decimal(n)[i] <= '9') || (i == 0 && n < 0) by {
            if i > 0 {
                assert(decimal(n)[i] == digits(m)[i - 1]);
            }
        }
        assert(decimal(n).last() == digits(m)[digits(m).len() - 1]);
    } else {
        lemma_digits_ascii(n as nat);
    }
}

} // verus!
