//! Verified parsing of the decimal text fields the device and the operator
//! supply.
//!
//! Readings and set points travel as plain decimal text (`"5.0000"`,
//! `"-0.25"`).  The driver holds them as fixed-point integers in micro-units
//! (one millionth of a volt, ampere or watt), which pins the arithmetic of
//! the rest of the crate exactly.  A seventh and later fraction digit is
//! below the device's resolution and is dropped; a magnitude of a million
//! millions or more does not fit the fixed-point range and is rejected.
//! Exponent notation is not part of the dialect and is rejected too.

use crate::codec::first_at;
use vstd::prelude::*;
use vstd::slice::{slice_index_get, slice_subrange};

verus! {

/// The decimal separator.
pub const DOT: u8 = 46;

/// The minus sign.
pub const MINUS: u8 = 45;

/// The plus sign.
pub const PLUS: u8 = 43;

/// Micro-units per whole unit.
pub const MICRO: u64 = 1_000_000;

/// Smallest whole-unit count that no longer fits the fixed-point range.
pub const RANGE_LIMIT: u64 = 1_000_000_000_000;

pub open spec fn is_digit(b: u8) -> bool {
    48 <= b <= 57
}

pub open spec fn all_digits(s: Seq<u8>) -> bool {
    forall|j: int| 0 <= j < s.len() ==> is_digit(#[trigger] s[j])
}

/// The number a run of decimal digit bytes denotes.
pub open spec fn digits_value(s: Seq<u8>) -> int
    decreases s.len(),
{
    if s.len() == 0 {
        0
    } else {
        digits_value(s.drop_last()) * 10 + (s.last() - 48)
    }
}

pub proof fn lemma_digits_value_nonneg(s: Seq<u8>)
    requires
        all_digits(s),
    ensures
        digits_value(s) >= 0,
    decreases s.len(),
{
    if s.len() > 0 {
        assert(all_digits(s.drop_last()));
        lemma_digits_value_nonneg(s.drop_last());
    }
}

/// Appending digits never shrinks the denoted number.
pub proof fn lemma_digits_value_prefix(s: Seq<u8>, k: int)
    requires
        all_digits(s),
        0 <= k <= s.len(),
    ensures
        digits_value(s.take(k)) <= digits_value(s),
    decreases s.len(),
{
    if k == s.len() {
        assert(s.take(k) =~= s);
    } else {
        assert(all_digits(s.drop_last()));
        assert(s.take(k) =~= s.drop_last().take(k));
        lemma_digits_value_prefix(s.drop_last(), k);
        lemma_digits_value_nonneg(s.drop_last());
    }
}

pub proof fn lemma_pow10_pos(n: nat)
    ensures
        pow10(n) >= 1,
    decreases n,
{
    if n > 0 {
        lemma_pow10_pos((n - 1) as nat);
    }
}

pub proof fn lemma_pow10_mono(a: nat, b: nat)
    requires
        a <= b,
    ensures
        pow10(a) <= pow10(b),
    decreases b,
{
    if a < b {
        lemma_pow10_mono(a, (b - 1) as nat);
        lemma_pow10_pos((b - 1) as nat);
    }
}

/// A run of `n` digit bytes denotes a number below the `n`-th power of ten.
pub proof fn lemma_digits_value_bound(s: Seq<u8>)
    requires
        all_digits(s),
    ensures
        digits_value(s) < pow10(s.len()),
    decreases s.len(),
{
    if s.len() > 0 {
        assert(all_digits(s.drop_last()));
        lemma_digits_value_bound(s.drop_last());
    }
}

/// `-1` when the text opens with a minus sign, `1` otherwise.
pub open spec fn sign_of(s: Seq<u8>) -> int {
    if s.len() > 0 && s[0] == MINUS {
        -1
    } else {
        1
    }
}

/// The text with an opening sign removed.
pub open spec fn body_of(s: Seq<u8>) -> Seq<u8> {
    if s.len() > 0 && (s[0] == MINUS || s[0] == PLUS) {
        s.drop_first()
    } else {
        s
    }
}

/// The digits before the first decimal separator of an unsigned body.
pub open spec fn int_part(b: Seq<u8>) -> Seq<u8> {
    let d = first_at(b, DOT);
    if d >= 0 {
        b.take(d)
    } else {
        b
    }
}

/// The digits after the first decimal separator of an unsigned body.
pub open spec fn frac_part(b: Seq<u8>) -> Seq<u8> {
    let d = first_at(b, DOT);
    if d >= 0 {
        b.skip(d + 1)
    } else {
        Seq::empty()
    }
}

/// A decimal text: an optional sign, then digits with at most one decimal
/// separator anywhere among them, and at least one digit in all.
pub open spec fn well_formed_decimal(s: Seq<u8>) -> bool {
    let b = body_of(s);
    all_digits(int_part(b)) && all_digits(frac_part(b)) && int_part(b).len() + frac_part(b).len()
        >= 1
}

/// The fraction digits read as micro-units: the first six fraction digits,
/// padded with zeros up to six places.
pub open spec fn frac_micro(f: Seq<u8>) -> int {
    if f.len() >= 6 {
        digits_value(f.take(6))
    } else {
        digits_value(f) * pow10((6 - f.len()) as nat)
    }
}

pub open spec fn pow10(n: nat) -> int
    decreases n,
{
    if n == 0 {
        1
    } else {
        10 * pow10((n - 1) as nat)
    }
}

/// The signed micro-unit value a well-formed decimal text denotes.
pub open spec fn decimal_micro(s: Seq<u8>) -> int {
    sign_of(s) * (digits_value(int_part(body_of(s))) * MICRO + frac_micro(frac_part(body_of(s))))
}

/// Whether the whole-unit part stays inside the fixed-point range.
pub open spec fn decimal_in_range(s: Seq<u8>) -> bool {
    digits_value(int_part(body_of(s))) < RANGE_LIMIT
}

/// What parsing a decimal text yields: its micro-unit value, or nothing when
/// the text is malformed or out of range.
pub open spec fn parse_decimal_spec(s: Seq<u8>) -> Option<int> {
    if well_formed_decimal(s) && decimal_in_range(s) {
        Some(decimal_micro(s))
    } else {
        None
    }
}

/// Parsing with the permissive fallback the driver applies to device fields
/// and operator input alike: a value that does not parse reads as zero.
pub open spec fn decimal_or_zero(s: Seq<u8>) -> int {
    match parse_decimal_spec(s) {
        Some(v) => v,
        None => 0,
    }
}

/// Scan the digit run `v[0 .. ip_len]` that forms the whole-unit part.
///
/// Yields its value when every byte is a digit and the value stays inside
/// the fixed-point range; yields nothing on a non-digit byte or on a value
/// at or above the range limit.
fn scan_int_part(v: &[u8], ip_len: usize) -> (r: Option<u64>)
    requires
        ip_len <= v@.len(),
    ensures
        r is Some ==> all_digits(v@.take(ip_len as int)) && r.unwrap() < RANGE_LIMIT
            && r.unwrap() as int == digits_value(v@.take(ip_len as int)),
        r is None ==> !all_digits(v@.take(ip_len as int)) || digits_value(
            v@.take(ip_len as int),
        ) >= RANGE_LIMIT,
{
    let part = slice_subrange(v, 0, ip_len);
    proof {
        assert(part@ =~= v@.take(ip_len as int));
    }
    let mut acc: u64 = 0;
    let mut i: usize = 0;
    while i < ip_len
        invariant
            0 <= i <= ip_len,
            ip_len as int == part@.len(),
            part@ == v@.take(ip_len as int),
            acc < RANGE_LIMIT,
            acc as int == digits_value(part@.take(i as int)),
            all_digits(part@.take(i as int)),
        decreases ip_len - i,
    {
        let b = *slice_index_get(part, i);
        proof {
            assert(part@.take(i + 1).drop_last() =~= part@.take(i as int));
            assert(part@.take(i + 1).last() == part@[i as int]);
        }
        if b < 48 || b > 57 {
            proof {
                assert(!is_digit(part@[i as int]));
                assert(!all_digits(part@));
            }
            return None;
        }
        proof {
            assert forall|j: int| 0 <= j < i + 1 implies is_digit(
                #[trigger] part@.take(i + 1)[j],
            ) by {
                assert(part@.take(i + 1)[j] == part@[j]);
                if j < i {
                    assert(part@.take(i as int)[j] == part@[j]);
                }
            }
        }
        let next: u64 = acc * 10 + (b - 48) as u64;
        if next >= RANGE_LIMIT {
            // Any digits that follow only enlarge the whole-unit part.
            proof {
                if all_digits(part@) {
                    lemma_digits_value_prefix(part@, i + 1);
                }
            }
            return None;
        }
        acc = next;
        i = i + 1;
    }
    proof {
        assert(part@.take(ip_len as int) =~= part@);
    }
    Some(acc)
}

/// Scan the digit run `v[f_start ..]` that forms the fraction.
///
/// Yields the fraction read as micro-units when every byte is a digit;
/// yields nothing on a non-digit byte.
fn scan_frac_part(v: &[u8], f_start: usize) -> (r: Option<u64>)
    requires
        f_start <= v@.len(),
    ensures
        r is Some ==> all_digits(v@.skip(f_start as int)) && r.unwrap() < 1_000_000
            && r.unwrap() as int == frac_micro(v@.skip(f_start as int)),
        r is None ==> !all_digits(v@.skip(f_start as int)),
{
    let flen = v.len() - f_start;
    let f = slice_subrange(v, f_start, v.len());
    proof {
        assert(f@ =~= v@.skip(f_start as int));
    }
    let mut fr: u64 = 0;
    let mut k: usize = 0;
    while k < flen
        invariant
            0 <= k <= flen,
            flen as int == f@.len(),
            f@ == v@.skip(f_start as int),
            all_digits(f@.take(k as int)),
            k <= 6 ==> fr as int == digits_value(f@.take(k as int)),
            k > 6 ==> fr as int == digits_value(f@.take(6)),
            fr < 1_000_000,
        decreases flen - k,
    {
        let b = *slice_index_get(f, k);
        proof {
            assert(f@.take(k + 1).drop_last() =~= f@.take(k as int));
            assert(f@.take(k + 1).last() == f@[k as int]);
        }
        if b < 48 || b > 57 {
            proof {
                assert(!is_digit(f@[k as int]));
                assert(!all_digits(f@));
            }
            return None;
        }
        proof {
            assert forall|j: int| 0 <= j < k + 1 implies is_digit(
                #[trigger] f@.take(k + 1)[j],
            ) by {
                assert(f@.take(k + 1)[j] == f@[j]);
                if j < k {
                    assert(f@.take(k as int)[j] == f@[j]);
                }
            }
        }
        if k < 6 {
            proof {
                lemma_digits_value_bound(f@.take(k as int));
                lemma_pow10_mono(f@.take(k as int).len() as nat, 5);
                reveal_with_fuel(pow10, 7);
            }
            fr = fr * 10 + (b - 48) as u64;
            proof {
                if k + 1 == 6 {
                    assert(f@.take(6) =~= f@.take(k + 1));
                }
            }
        }
        k = k + 1;
    }
    proof {
        assert(f@.take(flen as int) =~= f@);
    }
    // Pad a short fraction out to six places; the multiplier for each short
    // length is the matching power of ten.
    if flen < 6 {
        proof {
            lemma_digits_value_bound(f@);
            lemma_digits_value_nonneg(f@);
            reveal_with_fuel(pow10, 7);
        }
        if flen == 0 {
            fr = fr * 1_000_000;
        } else if flen == 1 {
            fr = fr * 100_000;
        } else if flen == 2 {
            fr = fr * 10_000;
        } else if flen == 3 {
            fr = fr * 1_000;
        } else if flen == 4 {
            fr = fr * 100;
        } else {
            fr = fr * 10;
        }
    } else {
        proof {
            assert(all_digits(f@.take(6))) by {
                assert forall|j: int| 0 <= j < 6 implies is_digit(#[trigger] f@.take(6)[j]) by {
                    assert(f@.take(6)[j] == f@[j]);
                }
            }
            lemma_digits_value_bound(f@.take(6));
            reveal_with_fuel(pow10, 7);
        }
    }
    Some(fr)
}

/// Parse a decimal text into signed micro-units.
pub fn parse_decimal_micro(v: &[u8]) -> (r: Option<i64>)
    ensures
        r is Some <==> parse_decimal_spec(v@) is Some,
        r is Some ==> r.unwrap() as int == parse_decimal_spec(v@).unwrap(),
        r is Some ==> -1_000_000_000_000_000_000 < r.unwrap() < 1_000_000_000_000_000_000,
{
    let n = v.len();
    let signed: bool = n > 0 && (*slice_index_get(v, 0) == MINUS || *slice_index_get(v, 0)
        == PLUS);
    let neg: bool = n > 0 && *slice_index_get(v, 0) == MINUS;
    let start: usize = if signed {
        1
    } else {
        0
    };
    let body = slice_subrange(v, start, n);
    proof {
        assert(body_of(v@) =~= body@);
        assert(body_of(v@) == body@);
    }
    let blen = body.len();
    let dot = crate::codec::find_byte(body, DOT);
    let ip_len: usize = dot;
    let f_start: usize = if dot < blen {
        dot + 1
    } else {
        blen
    };
    proof {
        if dot < blen {
            assert(int_part(body@) =~= body@.take(dot as int));
            assert(frac_part(body@) =~= body@.skip(dot + 1));
        } else {
            assert(int_part(body@) =~= body@.take(blen as int));
            assert(frac_part(body@) =~= body@.skip(blen as int));
        }
        assert(int_part(body@) == body@.take(ip_len as int));
        assert(frac_part(body@) == body@.skip(f_start as int));
    }
    if ip_len == 0 && f_start == blen {
        // No digit anywhere: the text is malformed.
        return None;
    }
    let whole = match scan_int_part(body, ip_len) {
        Some(w) => w,
        None => {
            return None;
        },
    };
    let fr = match scan_frac_part(body, f_start) {
        Some(f) => f,
        None => {
            return None;
        },
    };
    let magnitude: i64 = (whole * MICRO + fr) as i64;
    proof {
        assert(all_digits(int_part(body_of(v@))));
        assert(all_digits(frac_part(body_of(v@))));
        assert(int_part(body_of(v@)).len() + frac_part(body_of(v@)).len() >= 1);
        assert(well_formed_decimal(v@));
        assert(decimal_in_range(v@));
        assert(whole * MICRO + fr < 1_000_000_000_000_000_000);
        assert(magnitude as int == digits_value(int_part(body_of(v@))) * MICRO + frac_micro(
            frac_part(body_of(v@)),
        ));
    }
    if neg {
        proof {
            assert(sign_of(v@) == -1);
        }
        Some(-magnitude)
    } else {
        proof {
            assert(sign_of(v@) == 1);
        }
        Some(magnitude)
    }
}

/// Parse a decimal text, reading a malformed or out-of-range value as zero.
pub fn parse_decimal_or_zero(v: &[u8]) -> (r: i64)
    ensures
        r as int == decimal_or_zero(v@),
        -1_000_000_000_000_000_000 < r < 1_000_000_000_000_000_000,
{
    match parse_decimal_micro(v) {
        Some(x) => x,
        None => 0,
    }
}

/// What parsing an unsigned integer text yields: its value, or nothing when
/// a byte is not a digit, the text is empty, or the value overflows the
/// machine word.
pub open spec fn parse_u64_spec(s: Seq<u8>) -> Option<int> {
    if s.len() >= 1 && all_digits(s) && digits_value(s) <= u64::MAX {
        Some(digits_value(s))
    } else {
        None
    }
}

/// Parse an unsigned integer text, digits only.
pub fn parse_u64(v: &[u8]) -> (r: Option<u64>)
    ensures
        r is Some <==> parse_u64_spec(v@) is Some,
        r is Some ==> r.unwrap() as int == parse_u64_spec(v@).unwrap(),
{
    let n = v.len();
    if n == 0 {
        return None;
    }
    let mut acc: u64 = 0;
    let mut i: usize = 0;
    while i < n
        invariant
            0 <= i <= n,
            n == v@.len(),
            acc as int == digits_value(v@.take(i as int)),
            all_digits(v@.take(i as int)),
        decreases n - i,
    {
        let b = *slice_index_get(v, i);
        proof {
            assert(v@.take(i + 1).drop_last() =~= v@.take(i as int));
            assert(v@.take(i + 1).last() == v@[i as int]);
        }
        if b < 48 || b > 57 {
            proof {
                assert(!is_digit(v@[i as int]));
                assert(!all_digits(v@));
            }
            return None;
        }
        proof {
            assert forall|j: int| 0 <= j < i + 1 implies is_digit(
                #[trigger] v@.take(i + 1)[j],
            ) by {
                assert(v@.take(i + 1)[j] == v@[j]);
                if j < i {
                    assert(v@.take(i as int)[j] == v@[j]);
                }
            }
        }
        let d: u64 = (b - 48) as u64;
        if acc > 1_844_674_407_370_955_161 || (acc == 1_844_674_407_370_955_161 && d > 5) {
            // The next digit pushes the value past the machine word; later
            // digits only enlarge it further.
            proof {
                if all_digits(v@) {
                    lemma_digits_value_prefix(v@, i + 1);
                }
            }
            return None;
        }
        acc = acc * 10 + d;
        i = i + 1;
    }
    proof {
        assert(v@.take(n as int) =~= v@);
    }
    Some(acc)
}

/// Nudge a textual set point by a signed micro-unit step, clamping at zero
/// as the panel's adjustment buttons do.
pub open spec fn adjusted_setpoint(s: Seq<u8>, step_micro: int) -> int {
    let v = decimal_or_zero(s) + step_micro;
    if v < 0 {
        0
    } else {
        v
    }
}

/// Apply an adjustment step to a textual set point.
pub fn adjust_setpoint(text: &[u8], step_micro: i64) -> (r: i64)
    requires
        -1_000_000_000_000_000_000 <= step_micro <= 1_000_000_000_000_000_000,
    ensures
        r as int == adjusted_setpoint(text@, step_micro as int),
{
    let v = parse_decimal_or_zero(text);
    let s = v + step_micro;
    if s < 0 {
        0
    } else {
        s
    }
}

} // verus!
