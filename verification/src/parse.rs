//! Parsing of the interval and frame-rate command-line values.
//!
//! An interval is either a whole number of seconds or a decimal number of
//! seconds (`42`, `0.42`); a frame rate is a whole number.  All contracts
//! are stated over the byte sequence of the input string.  Decimal seconds
//! are converted to whole milliseconds exactly, rounding to the nearest
//! millisecond with halves rounded up.

use vstd::prelude::*;
use vstd::string::StringSliceAdditionalSpecFns;

use crate::config::ConfigError;

verus! {

pub const ASCII_ZERO: u8 = 48;

pub const ASCII_FIVE: u8 = 53;

pub const ASCII_NINE: u8 = 57;

pub const ASCII_PLUS: u8 = 43;

pub const ASCII_MINUS: u8 = 45;

pub const ASCII_DOT: u8 = 46;

pub open spec fn is_digit(b: u8) -> bool {
    ASCII_ZERO <= b <= ASCII_NINE
}

pub open spec fn digit_val(b: u8) -> nat
    recommends
        is_digit(b),
{
    (b - ASCII_ZERO) as nat
}

pub open spec fn all_digits(s: Seq<u8>) -> bool {
    forall|i: int| 0 <= i < s.len() ==> is_digit(#[trigger] s[i])
}

/// The number a sequence of decimal digit bytes denotes.
pub open spec fn digits_val(s: Seq<u8>) -> nat
    decreases s.len(),
{
    if s.len() == 0 {
        0
    } else {
        digits_val(s.drop_last()) * 10 + digit_val(s.last())
    }
}

/// Appending a digit multiplies the value by ten and adds the digit.
proof fn lemma_digits_val_push(s: Seq<u8>, b: u8)
    ensures
        digits_val(s.push(b)) == digits_val(s) * 10 + digit_val(b),
{
    assert(s.push(b).drop_last() =~= s);
    assert(s.push(b).last() == b);
}

/// A prefix of a digit string never denotes more than the whole string.
proof fn lemma_digits_val_take_le(s: Seq<u8>, k: int)
    requires
        all_digits(s),
        0 <= k <= s.len(),
    ensures
        digits_val(s.take(k)) <= digits_val(s),
    decreases s.len(),
{
    if k == s.len() {
        assert(s.take(k) =~= s);
    } else {
        let dl = s.drop_last();
        assert forall|i: int| 0 <= i < dl.len() implies is_digit(#[trigger] dl[i]) by {
            assert(dl[i] == s[i]);
        }
        assert(s.take(k) =~= dl.take(k));
        lemma_digits_val_take_le(dl, k);
    }
}

/// A digit string denotes zero exactly when every digit is `0`.
proof fn lemma_digits_val_zero(s: Seq<u8>)
    requires
        all_digits(s),
    ensures
        digits_val(s) == 0 <==> (forall|i: int| 0 <= i < s.len() ==> s[i] == ASCII_ZERO),
    decreases s.len(),
{
    if s.len() > 0 {
        let dl = s.drop_last();
        assert forall|i: int| 0 <= i < dl.len() implies is_digit(#[trigger] dl[i]) by {
            assert(dl[i] == s[i]);
        }
        lemma_digits_val_zero(dl);
        if digits_val(s) == 0 {
            assert forall|i: int| 0 <= i < s.len() implies s[i] == ASCII_ZERO by {
                if i < s.len() - 1 {
                    assert(dl[i] == s[i]);
                } else {
                    assert(s[i] == s.last());
                }
            }
        } else {
            if forall|i: int| 0 <= i < s.len() ==> s[i] == ASCII_ZERO {
                assert forall|i: int| 0 <= i < dl.len() implies dl[i] == ASCII_ZERO by {
                    assert(dl[i] == s[i]);
                }
                assert(s.last() == s[s.len() - 1]);
                assert(digits_val(s) == digits_val(dl) * 10 + digit_val(s.last()));
            }
        }
    }
}

/// Leading zeros do not change the value a digit string denotes.
proof fn lemma_digits_val_strip_zeros(s: Seq<u8>, k: int)
    requires
        0 <= k <= s.len(),
        forall|i: int| 0 <= i < k ==> s[i] == ASCII_ZERO,
    ensures
        digits_val(s.skip(k)) == digits_val(s),
    decreases s.len(),
{
    if k == s.len() {
        assert(s.skip(k) =~= Seq::<u8>::empty());
        assert forall|i: int| 0 <= i < s.len() implies is_digit(#[trigger] s[i]) by {
            assert(s[i] == ASCII_ZERO);
        }
        lemma_digits_val_zero(s);
    } else {
        let dl = s.drop_last();
        assert forall|i: int| 0 <= i < k implies dl[i] == ASCII_ZERO by {
            assert(dl[i] == s[i]);
        }
        lemma_digits_val_strip_zeros(dl, k);
        assert(s.skip(k).drop_last() =~= dl.skip(k));
        assert(s.skip(k).last() == s.last());
    }
}

/// Reads the digits `bytes[from..to]` into a value, if they are all digits
/// and the value fits a `u64`.
fn scan_digits(bytes: &[u8], from: usize, to: usize) -> (r: Option<u64>)
    requires
        from <= to <= bytes@.len(),
    ensures
        r is Some <==> ({
            let d = bytes@.subrange(from as int, to as int);
            to > from && all_digits(d) && digits_val(d) <= u64::MAX
        }),
        r matches Some(v) ==> v == digits_val(bytes@.subrange(from as int, to as int)),
{
    if from == to {
        return None;
    }
    let ghost whole = bytes@.subrange(from as int, to as int);
    let mut acc: u64 = 0;
    let mut i: usize = from;
    while i < to
        invariant
            from <= i <= to,
            to <= bytes@.len(),
            whole == bytes@.subrange(from as int, to as int),
            all_digits(bytes@.subrange(from as int, i as int)),
            acc == digits_val(bytes@.subrange(from as int, i as int)),
        decreases to - i,
    {
        let ghost cur = bytes@.subrange(from as int, i as int);
        let b = bytes[i];
        proof {
            assert(bytes@.subrange(from as int, i as int + 1) =~= cur.push(bytes@[i as int]));
            lemma_digits_val_push(cur, bytes@[i as int]);
        }
        if b < ASCII_ZERO || b > ASCII_NINE {
            proof {
                assert(whole[i - from] == bytes@[i as int]);
            }
            return None;
        }
        let d: u64 = (b - ASCII_ZERO) as u64;
        if acc > u64::MAX / 10 || (acc == u64::MAX / 10 && d > u64::MAX % 10) {
            proof {
                assert(digits_val(bytes@.subrange(from as int, i as int + 1)) > u64::MAX);
                if all_digits(whole) {
                    assert(whole.take(i + 1 - from) =~= bytes@.subrange(
                        from as int,
                        i as int + 1,
                    ));
                    lemma_digits_val_take_le(whole, i + 1 - from);
                }
            }
            return None;
        }
        acc = acc * 10 + d;
        i = i + 1;
    }
    Some(acc)
}

/// Whether `bytes[from..to]` are all digits.
fn check_digits(bytes: &[u8], from: usize, to: usize) -> (ok: bool)
    requires
        from <= to <= bytes@.len(),
    ensures
        ok <==> all_digits(bytes@.subrange(from as int, to as int)),
{
    let ghost whole = bytes@.subrange(from as int, to as int);
    let mut i: usize = from;
    while i < to
        invariant
            from <= i <= to,
            to <= bytes@.len(),
            whole == bytes@.subrange(from as int, to as int),
            forall|j: int| 0 <= j < i - from ==> is_digit(#[trigger] whole[j]),
        decreases to - i,
    {
        let b = bytes[i];
        proof {
            assert(whole[i - from] == bytes@[i as int]);
        }
        if b < ASCII_ZERO || b > ASCII_NINE {
            return false;
        }
        i = i + 1;
    }
    true
}

/// Index of the first byte at or after `from` that is not a zero digit.
fn skip_zeros(bytes: &[u8], from: usize, to: usize) -> (z: usize)
    requires
        from <= to <= bytes@.len(),
    ensures
        from <= z <= to,
        forall|j: int| from <= j < z ==> bytes@[j] == ASCII_ZERO,
        z < to ==> bytes@[z as int] != ASCII_ZERO,
{
    let mut i: usize = from;
    while i < to
        invariant
            from <= i <= to,
            to <= bytes@.len(),
            forall|j: int| from <= j < i ==> bytes@[j] == ASCII_ZERO,
        decreases to - i,
    {
        if bytes[i] != ASCII_ZERO {
            return i;
        }
        i = i + 1;
    }
    i
}

/// Start of the number body: one past a leading `+`, else the start.
pub open spec fn unsigned_start(s: Seq<u8>) -> int {
    if s.len() > 0 && s[0] == ASCII_PLUS {
        1
    } else {
        0
    }
}

/// Start of the number body: one past a leading `+` or `-`, else the start.
pub open spec fn signed_start(s: Seq<u8>) -> int {
    if s.len() > 0 && (s[0] == ASCII_PLUS || s[0] == ASCII_MINUS) {
        1
    } else {
        0
    }
}

pub open spec fn has_minus(s: Seq<u8>) -> bool {
    s.len() > 0 && s[0] == ASCII_MINUS
}

/// `s` is an optionally `+`-signed, non-empty digit string whose value
/// fits a `u64`.
pub open spec fn is_u64_numeral(s: Seq<u8>) -> bool {
    let d = s.subrange(unsigned_start(s), s.len() as int);
    d.len() >= 1 && all_digits(d) && digits_val(d) <= u64::MAX
}

pub open spec fn u64_numeral_val(s: Seq<u8>) -> nat {
    digits_val(s.subrange(unsigned_start(s), s.len() as int))
}

/// `s` is an optionally signed, non-empty digit string whose magnitude
/// stays within the signed 64-bit range.
pub open spec fn is_i64_numeral(s: Seq<u8>) -> bool {
    let d = s.subrange(signed_start(s), s.len() as int);
    d.len() >= 1 && all_digits(d) && (if has_minus(s) {
        digits_val(d) <= 0x8000000000000000
    } else {
        digits_val(d) <= 0x7FFFFFFFFFFFFFFF
    })
}

pub open spec fn i64_numeral_val(s: Seq<u8>) -> int {
    let v = digits_val(s.subrange(signed_start(s), s.len() as int));
    if has_minus(s) {
        -(v as int)
    } else {
        v as int
    }
}

/// Index of the first dot at or after `i`, or the length if there is none.
pub open spec fn dot_pos_from(s: Seq<u8>, i: int) -> int
    recommends
        0 <= i <= s.len(),
    decreases s.len() - i when 0 <= i <= s.len()
{
    if i >= s.len() {
        i
    } else if s[i] == ASCII_DOT {
        i
    } else {
        dot_pos_from(s, i + 1)
    }
}

proof fn lemma_dot_pos_from(s: Seq<u8>, i: int, k: int)
    requires
        0 <= i <= k <= s.len(),
        forall|j: int| i <= j < k ==> s[j] != ASCII_DOT,
        k < s.len() ==> s[k] == ASCII_DOT,
    ensures
        dot_pos_from(s, i) == k,
    decreases k - i,
{
    if i < k {
        lemma_dot_pos_from(s, i + 1, k);
    }
}

/// The whole-seconds digits of a decimal numeral: between the sign and the
/// first dot.
pub open spec fn int_part(s: Seq<u8>) -> Seq<u8> {
    s.subrange(signed_start(s), dot_pos_from(s, signed_start(s)))
}

/// The fraction digits of a decimal numeral: after the first dot, if any.
pub open spec fn frac_part(s: Seq<u8>) -> Seq<u8> {
    let d = dot_pos_from(s, signed_start(s));
    if d < s.len() {
        s.subrange(d + 1, s.len() as int)
    } else {
        Seq::empty()
    }
}

/// `s` is an optionally signed decimal numeral: digits with at most one
/// dot, and at least one digit on one side of it.
pub open spec fn is_decimal_numeral(s: Seq<u8>) -> bool {
    int_part(s).len() + frac_part(s).len() >= 1 && all_digits(int_part(s)) && all_digits(
        frac_part(s),
    )
}

pub open spec fn decimal_is_zero(s: Seq<u8>) -> bool {
    digits_val(int_part(s)) == 0 && digits_val(frac_part(s)) == 0
}

/// The millisecond contribution of the fraction digits `f`: the exact
/// value of `0.f * 1000` rounded to the nearest integer, halves up.  Only
/// the first three digits and whether the fourth reaches five can matter:
/// the tail of the fraction is at least half a millisecond exactly when
/// the fourth digit is at least five.
pub open spec fn frac_ms_val(f: Seq<u8>) -> nat {
    let scaled: nat = if f.len() == 0 {
        0
    } else if f.len() == 1 {
        digits_val(f) * 100
    } else if f.len() == 2 {
        digits_val(f) * 10
    } else {
        digits_val(f.take(3))
    };
    scaled + if f.len() > 3 && f[3] >= ASCII_FIVE {
        1nat
    } else {
        0nat
    }
}

/// The whole milliseconds a decimal numeral of seconds denotes, rounded to
/// the nearest millisecond, halves up.
pub open spec fn decimal_ms(s: Seq<u8>) -> nat {
    digits_val(int_part(s)) * 1000 + frac_ms_val(frac_part(s))
}

/// Reads the fraction digits `bytes[from..to]`: their millisecond value
/// and whether they are all zero, if they are all digits.
fn scan_frac(bytes: &[u8], from: usize, to: usize) -> (r: Option<(u64, bool)>)
    requires
        from <= to <= bytes@.len(),
    ensures
        r is Some <==> all_digits(bytes@.subrange(from as int, to as int)),
        r matches Some((ms, zero)) ==> {
            let f = bytes@.subrange(from as int, to as int);
            &&& ms == frac_ms_val(f)
            &&& ms <= 1000
            &&& (zero <==> digits_val(f) == 0)
        },
{
    let ghost f = bytes@.subrange(from as int, to as int);
    if !check_digits(bytes, from, to) {
        return None;
    }
    let z = skip_zeros(bytes, from, to);
    let zero = z == to;
    proof {
        lemma_digits_val_zero(f);
        if zero {
            assert forall|i: int| 0 <= i < f.len() implies f[i] == ASCII_ZERO by {
                assert(f[i] == bytes@[from + i]);
            }
        } else {
            assert(f[z - from] == bytes@[z as int]);
        }
    }
    proof {
        if f.len() >= 1 {
            assert(f[0] == bytes@[from as int]);
        }
        if f.len() >= 2 {
            assert(f[1] == bytes@[from as int + 1]);
        }
        if f.len() >= 3 {
            assert(f[2] == bytes@[from as int + 2]);
        }
        if f.len() >= 4 {
            assert(f[3] == bytes@[from as int + 3]);
        }
        if f.len() == 1 {
            assert(f.drop_last() =~= Seq::<u8>::empty());
            assert(f.last() == f[0]);
        } else if f.len() == 2 {
            let f1 = f.drop_last();
            assert(f1.drop_last() =~= Seq::<u8>::empty());
            assert(f1.last() == f[0]);
            assert(f.last() == f[1]);
        } else if f.len() >= 3 {
            let t = f.take(3);
            assert(t.drop_last() =~= f.take(2));
            assert(t.last() == f[2]);
            assert(f.take(2).drop_last() =~= f.take(1));
            assert(f.take(2).last() == f[1]);
            assert(f.take(1).drop_last() =~= Seq::<u8>::empty());
            assert(f.take(1).last() == f[0]);
        }
    }
    let len = to - from;
    let d0: u64 = if len >= 1 {
        (bytes[from] - ASCII_ZERO) as u64
    } else {
        0
    };
    let d1: u64 = if len >= 2 {
        (bytes[from + 1] - ASCII_ZERO) as u64
    } else {
        0
    };
    let d2: u64 = if len >= 3 {
        (bytes[from + 2] - ASCII_ZERO) as u64
    } else {
        0
    };
    let up: u64 = if len >= 4 && bytes[from + 3] >= ASCII_FIVE {
        1
    } else {
        0
    };
    proof {
        reveal_with_fuel(digits_val, 5);
        if f.len() == 1 {
            assert(digits_val(f) == digit_val(f[0]));
        } else if f.len() == 2 {
            assert(digits_val(f) == digit_val(f[0]) * 10 + digit_val(f[1]));
        } else if f.len() >= 3 {
            assert(digits_val(f.take(3)) == (digit_val(f[0]) * 10 + digit_val(f[1])) * 10
                + digit_val(f[2]));
        }
    }
    Some((d0 * 100 + d1 * 10 + d2 + up, zero))
}

/// Parses a whole number of seconds (`42`) into milliseconds: accepted
/// exactly when the input is an unsigned numeral whose value is positive
/// and whose millisecond equivalent fits a `u64`.
pub fn parse_sec_int(s: &str) -> (r: Result<u64, ConfigError>)
    ensures
        !is_u64_numeral(s.spec_bytes()) ==> r == Err::<u64, ConfigError>(
            ConfigError::InvalidNumber,
        ),
        is_u64_numeral(s.spec_bytes()) && u64_numeral_val(s.spec_bytes()) == 0 ==> r == Err::<
            u64,
            ConfigError,
        >(ConfigError::NonPositiveInterval),
        is_u64_numeral(s.spec_bytes()) && u64_numeral_val(s.spec_bytes()) > 0 && u64_numeral_val(
            s.spec_bytes(),
        ) * 1000 > u64::MAX ==> r == Err::<u64, ConfigError>(ConfigError::IntervalOutOfRange),
        is_u64_numeral(s.spec_bytes()) && 0 < u64_numeral_val(s.spec_bytes()) && u64_numeral_val(
            s.spec_bytes(),
        ) * 1000 <= u64::MAX ==> r == Ok::<u64, ConfigError>(
            (u64_numeral_val(s.spec_bytes()) * 1000) as u64,
        ),
{
    let bytes = s.as_bytes();
    let n = bytes.len();
    let start: usize = if n > 0 && bytes[0] == ASCII_PLUS {
        1
    } else {
        0
    };
    match scan_digits(bytes, start, n) {
        None => Err(ConfigError::InvalidNumber),
        Some(v) => {
            if v == 0 {
                Err(ConfigError::NonPositiveInterval)
            } else if v > u64::MAX / 1000 {
                proof {
                    assert(v * 1000 > u64::MAX) by (nonlinear_arith)
                        requires v > u64::MAX as int / 1000;
                }
                Err(ConfigError::IntervalOutOfRange)
            } else {
                proof {
                    assert(v * 1000 <= u64::MAX) by (nonlinear_arith)
                        requires v <= u64::MAX as int / 1000;
                }
                Ok(v * 1000)
            }
        },
    }
}

/// Parses a decimal number of seconds (`0.42`) into milliseconds, rounded
/// to the nearest millisecond with halves up: accepted exactly when the
/// input is a decimal numeral whose value is positive (a minus sign or an
/// all-zero value is rejected) and whose millisecond equivalent fits a
/// `u64`.
pub fn parse_sec_decimal(s: &str) -> (r: Result<u64, ConfigError>)
    ensures
        !is_decimal_numeral(s.spec_bytes()) ==> r == Err::<u64, ConfigError>(
            ConfigError::InvalidNumber,
        ),
        is_decimal_numeral(s.spec_bytes()) && (has_minus(s.spec_bytes()) || decimal_is_zero(
            s.spec_bytes(),
        )) ==> r == Err::<u64, ConfigError>(ConfigError::NonPositiveInterval),
        is_decimal_numeral(s.spec_bytes()) && !has_minus(s.spec_bytes()) && !decimal_is_zero(
            s.spec_bytes(),
        ) && decimal_ms(s.spec_bytes()) > u64::MAX ==> r == Err::<u64, ConfigError>(
            ConfigError::IntervalOutOfRange,
        ),
        is_decimal_numeral(s.spec_bytes()) && !has_minus(s.spec_bytes()) && !decimal_is_zero(
            s.spec_bytes(),
        ) && decimal_ms(s.spec_bytes()) <= u64::MAX ==> r == Ok::<u64, ConfigError>(
            decimal_ms(s.spec_bytes()) as u64,
        ),
{
    let ghost bs = s.spec_bytes();
    let bytes = s.as_bytes();
    let n = bytes.len();
    let minus = n > 0 && bytes[0] == ASCII_MINUS;
    let start: usize = if n > 0 && (bytes[0] == ASCII_PLUS || bytes[0] == ASCII_MINUS) {
        1
    } else {
        0
    };
    // find the first dot
    let mut dp: usize = start;
    while dp < n
        invariant
            start <= dp <= n,
            n == bytes@.len(),
            forall|j: int| start <= j < dp ==> bytes@[j] != ASCII_DOT,
        ensures
            start <= dp <= n,
            forall|j: int| start <= j < dp ==> bytes@[j] != ASCII_DOT,
            dp < n ==> bytes@[dp as int] == ASCII_DOT,
        decreases n - dp,
    {
        if bytes[dp] == ASCII_DOT {
            break ;
        }
        dp = dp + 1;
    }
    proof {
        lemma_dot_pos_from(bs, start as int, dp as int);
    }
    if !check_digits(bytes, start, dp) {
        return Err(ConfigError::InvalidNumber);
    }
    let (fr_from, fr_to): (usize, usize) = if dp < n {
        (dp + 1, n)
    } else {
        (dp, dp)
    };
    proof {
        assert(frac_part(bs) =~= bytes@.subrange(fr_from as int, fr_to as int));
    }
    let frac = match scan_frac(bytes, fr_from, fr_to) {
        None => {
            return Err(ConfigError::InvalidNumber);
        },
        Some(fr) => fr,
    };
    let (fms, fzero) = frac;
    if dp == start && fr_to == fr_from {
        return Err(ConfigError::InvalidNumber);
    }
    if minus {
        return Err(ConfigError::NonPositiveInterval);
    }
    let z = skip_zeros(bytes, start, dp);
    proof {
        let ip = int_part(bs);
        assert(ip =~= bytes@.subrange(start as int, dp as int));
        assert forall|i: int| 0 <= i < z - start implies ip[i] == ASCII_ZERO by {
            assert(ip[i] == bytes@[start + i]);
        }
        lemma_digits_val_strip_zeros(ip, z - start);
        assert(ip.skip(z - start) =~= bytes@.subrange(z as int, dp as int));
        assert forall|i: int| 0 <= i < dp - z implies is_digit(
            #[trigger] bytes@.subrange(z as int, dp as int)[i],
        ) by {
            assert(bytes@.subrange(z as int, dp as int)[i] == bytes@[z + i]);
            assert(ip[z - start + i] == bytes@[z + i]);
        }
        lemma_digits_val_zero(ip);
        if z == dp {
            assert forall|i: int| 0 <= i < ip.len() implies ip[i] == ASCII_ZERO by {
                assert(ip[i] == bytes@[start + i]);
            }
        } else {
            assert(ip[z - start] == bytes@[z as int]);
        }
    }
    let int_zero = z == dp;
    if int_zero && fzero {
        return Err(ConfigError::NonPositiveInterval);
    }
    let iv: u64 = if int_zero {
        0
    } else {
        match scan_digits(bytes, z, dp) {
            None => {
                // the digits were already checked, so the value does not fit
                return Err(ConfigError::IntervalOutOfRange);
            },
            Some(v) => v,
        }
    };
    if iv > (u64::MAX - fms) / 1000 {
        proof {
            assert(iv * 1000 + fms > u64::MAX) by (nonlinear_arith)
                requires iv > (u64::MAX as int - fms) / 1000 && 0 <= fms <= 1000;
        }
        Err(ConfigError::IntervalOutOfRange)
    } else {
        proof {
            assert(iv * 1000 + fms <= u64::MAX) by (nonlinear_arith)
                requires iv <= (u64::MAX as int - fms) / 1000 && 0 <= fms <= 1000;
        }
        Ok(iv * 1000 + fms)
    }
}

/// Whether the input is accepted by the whole-seconds form of the
/// interval.
pub open spec fn interval_secs_ok(s: Seq<u8>) -> bool {
    is_u64_numeral(s) && u64_numeral_val(s) > 0 && u64_numeral_val(s) * 1000 <= u64::MAX
}

/// Whether the input is accepted by the decimal-seconds form of the
/// interval.
pub open spec fn interval_decimal_ok(s: Seq<u8>) -> bool {
    is_decimal_numeral(s) && !has_minus(s) && !decimal_is_zero(s) && decimal_ms(s) <= u64::MAX
}

/// Parses an interval: a positive whole number of seconds, or a positive
/// decimal number of seconds, converted to milliseconds.  Anything else is
/// rejected as unparseable.
pub fn parse_interval(s: &str) -> (r: Result<u64, ConfigError>)
    ensures
        interval_secs_ok(s.spec_bytes()) ==> r == Ok::<u64, ConfigError>(
            (u64_numeral_val(s.spec_bytes()) * 1000) as u64,
        ),
        !interval_secs_ok(s.spec_bytes()) && interval_decimal_ok(s.spec_bytes()) ==> r == Ok::<
            u64,
            ConfigError,
        >(decimal_ms(s.spec_bytes()) as u64),
        !interval_secs_ok(s.spec_bytes()) && !interval_decimal_ok(s.spec_bytes()) ==> r == Err::<
            u64,
            ConfigError,
        >(ConfigError::InvalidNumber),
{
    match parse_sec_int(s) {
        Ok(v) => {
            return Ok(v);
        },
        Err(_) => {},
    }
    match parse_sec_decimal(s) {
        Ok(v) => {
            return Ok(v);
        },
        Err(_) => {},
    }
    Err(ConfigError::InvalidNumber)
}

/// Parses the frame rate: an optionally signed whole number, which must be
/// positive and fit the 32-bit range.  A numeral outside the signed 64-bit
/// range is unparseable, mirroring how the value is read.
pub fn parse_fps(s: &str) -> (r: Result<u32, ConfigError>)
    ensures
        !is_i64_numeral(s.spec_bytes()) ==> r == Err::<u32, ConfigError>(
            ConfigError::InvalidNumber,
        ),
        is_i64_numeral(s.spec_bytes()) && i64_numeral_val(s.spec_bytes()) <= 0 ==> r == Err::<
            u32,
            ConfigError,
        >(ConfigError::NonPositiveFps),
        is_i64_numeral(s.spec_bytes()) && i64_numeral_val(s.spec_bytes()) > u32::MAX ==> r == Err::<
            u32,
            ConfigError,
        >(ConfigError::FpsOutOfRange),
        is_i64_numeral(s.spec_bytes()) && 0 < i64_numeral_val(s.spec_bytes()) <= u32::MAX ==> r
            == Ok::<u32, ConfigError>(i64_numeral_val(s.spec_bytes()) as u32),
{
    let bytes = s.as_bytes();
    let n = bytes.len();
    let minus = n > 0 && bytes[0] == ASCII_MINUS;
    let start: usize = if n > 0 && (bytes[0] == ASCII_PLUS || bytes[0] == ASCII_MINUS) {
        1
    } else {
        0
    };
    match scan_digits(bytes, start, n) {
        None => Err(ConfigError::InvalidNumber),
        Some(v) => {
            if minus {
                if v <= 0x8000000000000000 {
                    Err(ConfigError::NonPositiveFps)
                } else {
                    Err(ConfigError::InvalidNumber)
                }
            } else if v > 0x7FFFFFFFFFFFFFFF {
                Err(ConfigError::InvalidNumber)
            } else if v == 0 {
                Err(ConfigError::NonPositiveFps)
            } else if v > 0xFFFFFFFF {
                Err(ConfigError::FpsOutOfRange)
            } else {
                Ok(v as u32)
            }
        },
    }
}

} // verus!
