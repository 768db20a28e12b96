//! Non-negative fixed-point decimal amounts.
//!
//! Exchange rates, transfer amounts and the bridge fee are configured as
//! decimal strings. They are parsed into a `Decimal`: whole `units` plus
//! `nanos` billionths of a unit. The integer part may hold at most 18
//! digits and the fractional part at most 9, so every accepted value fits
//! without rounding.

use vstd::prelude::*;
use vstd::string::StringSliceAdditionalSpecFns;

verus! {

/// The UTF-8 bytes of a string view; what `str::as_bytes` returns.
pub open spec fn str_bytes(s: Seq<char>) -> Seq<u8> {
    vstd::utf8::encode_utf8(s)
}

/// A non-negative decimal amount: `units + nanos / 1_000_000_000`.
#[derive(Clone, Copy, Debug, PartialEq, Eq, Structural)]
pub struct Decimal {
    pub units: u64,
    pub nanos: u32,
}

/// A well-formed amount: the fractional part is a proper fraction and the
/// whole part has at most 18 decimal digits.
pub open spec fn dec_wf(d: Decimal) -> bool {
    d.nanos < 1_000_000_000 && d.units < 1_000_000_000_000_000_000
}

/// The amount measured in billionths of a unit.
pub open spec fn dec_value(d: Decimal) -> int {
    d.units * 1_000_000_000 + d.nanos
}

/// The byte is an ASCII decimal digit.
pub open spec fn is_digit(b: u8) -> bool {
    48 <= b && b <= 57
}

/// Numeric value of an ASCII digit byte.
pub open spec fn digit_val(b: u8) -> nat {
    (b - 48) as nat
}

/// Every byte of `s` is an ASCII digit.
pub open spec fn all_digits(s: Seq<u8>) -> bool {
    forall|i: int| 0 <= i < s.len() ==> is_digit(#[trigger] s[i])
}

/// The number denoted by a sequence of digit bytes, most significant first.
pub open spec fn digits_val(s: Seq<u8>) -> nat
    decreases s.len(),
{
    if s.len() == 0 {
        0
    } else {
        digits_val(s.drop_last()) * 10 + digit_val(s.last())
    }
}

/// Ten to the `n`th power.
pub open spec fn pow10(n: nat) -> nat
    decreases n,
{
    if n == 0 {
        1
    } else {
        10 * pow10((n - 1) as nat)
    }
}

/// Index of the first `.` in `s` at or after position `i`.
pub open spec fn first_dot_from(s: Seq<u8>, i: int) -> Option<int>
    decreases s.len() - i,
{
    if i < 0 || i >= s.len() {
        None
    } else if s[i] == 46 {
        Some(i)
    } else {
        first_dot_from(s, i + 1)
    }
}

/// The decimal denoted by the byte string `s`, if any.
///
/// Accepted forms are `D+` and `D+.D*` where `D` is a digit, the whole
/// part has 1 to 18 digits and the fractional part at most 9.
pub open spec fn spec_parse_decimal(s: Seq<u8>) -> Option<Decimal> {
    match first_dot_from(s, 0) {
        None => if 1 <= s.len() <= 18 && all_digits(s) {
            Some(Decimal { units: digits_val(s) as u64, nanos: 0 })
        } else {
            None
        },
        Some(i) => {
            let ip = s.subrange(0, i);
            let fp = s.subrange(i + 1, s.len() as int);
            if 1 <= ip.len() <= 18 && all_digits(ip) && fp.len() <= 9 && all_digits(fp) {
                Some(
                    Decimal {
                        units: digits_val(ip) as u64,
                        nanos: (digits_val(fp) * pow10((9 - fp.len()) as nat)) as u32,
                    },
                )
            } else {
                None
            }
        },
    }
}

pub proof fn lemma_pow10_mono(a: nat, b: nat)
    requires
        a <= b,
    ensures
        pow10(a) <= pow10(b),
    decreases b,
{
    if a < b {
        lemma_pow10_mono(a, (b - 1) as nat);
    }
}

pub proof fn lemma_pow10_add(a: nat, b: nat)
    ensures
        pow10(a + b) == pow10(a) * pow10(b),
    decreases a,
{
    if a == 0 {
        assert(pow10(0 + b) == 1 * pow10(b));
    } else {
        lemma_pow10_add((a - 1) as nat, b);
        assert(pow10(a + b) == 10 * pow10((a + b - 1) as nat));
        assert(10 * (pow10((a - 1) as nat) * pow10(b)) == (10 * pow10((a - 1) as nat)) * pow10(b))
            by (nonlinear_arith);
    }
}

pub proof fn lemma_pow10_values()
    ensures
        pow10(9) == 1_000_000_000,
        pow10(18) == 1_000_000_000_000_000_000,
{
    reveal_with_fuel(pow10, 19);
}

/// A string of `n` digits denotes a number below ten to the `n`.
pub proof fn lemma_digits_val_bound(s: Seq<u8>)
    requires
        all_digits(s),
    ensures
        digits_val(s) < pow10(s.len()),
    decreases s.len(),
{
    if s.len() > 0 {
        assert(all_digits(s.drop_last()));
        lemma_digits_val_bound(s.drop_last());
        assert(digit_val(s.last()) <= 9);
    }
}

proof fn lemma_digits_val_push(s: Seq<u8>, b: u8)
    ensures
        digits_val(s.push(b)) == digits_val(s) * 10 + digit_val(b),
{
    assert(s.push(b).drop_last() =~= s);
    assert(s.push(b).last() == b);
}

/// Parses the digit run `b[from..to]` as a number, or reports a non-digit.
fn parse_digits_u64(b: &[u8], from: usize, to: usize) -> (r: Option<u64>)
    requires
        from <= to <= b@.len(),
        to - from <= 18,
    ensures
        ({
            let sub = b@.subrange(from as int, to as int);
            match r {
                Some(v) => all_digits(sub) && v == digits_val(sub),
                None => !all_digits(sub),
            }
        }),
{
    let ghost sub = b@.subrange(from as int, to as int);
    let mut acc: u64 = 0;
    let mut i: usize = from;
    proof {
        lemma_pow10_values();
        assert(sub.subrange(0, 0) =~= Seq::<u8>::empty());
    }
    while i < to
        invariant
            from <= i <= to <= b@.len(),
            to - from <= 18,
            sub == b@.subrange(from as int, to as int),
            all_digits(sub.subrange(0, i - from)),
            acc == digits_val(sub.subrange(0, i - from)),
            acc < pow10((i - from) as nat),
            pow10(18) == 1_000_000_000_000_000_000,
        decreases to - i,
    {
        let d = b[i];
        if d < 48 || d > 57 {
            proof {
                assert(sub[i - from] == d);
                assert(!is_digit(sub[i - from]));
            }
            return None;
        }
        proof {
            let k = (i - from) as nat;
            lemma_pow10_mono(k + 1, 18);
            assert(pow10(k + 1) == 10 * pow10(k));
            assert(acc * 10 + (d - 48) < pow10(k + 1));
            lemma_digits_val_push(sub.subrange(0, i - from), d);
            assert(sub.subrange(0, i - from).push(d) =~= sub.subrange(0, i - from + 1));
        }
        acc = acc * 10 + (d - 48) as u64;
        i = i + 1;
    }
    proof {
        assert(sub.subrange(0, to - from) =~= sub);
    }
    Some(acc)
}

/// Ten to the `n`th power, for small `n`.
fn pow10_u64(n: u32) -> (r: u64)
    requires
        n <= 9,
    ensures
        r == pow10(n as nat),
{
    let mut r: u64 = 1;
    let mut j: u32 = 0;
    proof {
        lemma_pow10_values();
    }
    while j < n
        invariant
            j <= n <= 9,
            r == pow10(j as nat),
            pow10(9) == 1_000_000_000,
        decreases n - j,
    {
        proof {
            lemma_pow10_mono(j as nat + 1, 9);
        }
        r = r * 10;
        j = j + 1;
    }
    r
}

/// Parses a non-negative decimal string such as `"100"` or `"2.5"`.
///
/// Returns exactly what `spec_parse_decimal` denotes on the string's bytes,
/// and every accepted value is well formed.
pub fn parse_decimal(s: &str) -> (r: Option<Decimal>)
    ensures
        r == spec_parse_decimal(s.spec_bytes()),
        r matches Some(d) ==> dec_wf(d),
{
    let b: &[u8] = s.as_bytes();
    let ghost sb = s.spec_bytes();
    let n: usize = b.len();
    proof {
        lemma_pow10_values();
    }

    // Find the first dot, if any.
    let mut i: usize = 0;
    while i < n && b[i] != 46
        invariant
            i <= n == sb.len(),
            b@ == sb,
            first_dot_from(sb, 0) == first_dot_from(sb, i as int),
        decreases n - i,
    {
        proof {
            assert(first_dot_from(sb, i as int) == first_dot_from(sb, i + 1));
        }
        i = i + 1;
    }

    if i == n {
        // No fractional part.
        proof {
            assert(first_dot_from(sb, 0) is None);
        }
        if n < 1 || n > 18 {
            return None;
        }
        match parse_digits_u64(b, 0, n) {
            None => {
                proof {
                    assert(sb.subrange(0, n as int) =~= sb);
                }
                None
            },
            Some(v) => {
                proof {
                    assert(sb.subrange(0, n as int) =~= sb);
                    lemma_digits_val_bound(sb);
                    lemma_pow10_mono(sb.len(), 18);
                }
                Some(Decimal { units: v, nanos: 0 })
            },
        }
    } else {
        proof {
            assert(first_dot_from(sb, 0) == Some(i as int));
        }
        let ghost ip = sb.subrange(0, i as int);
        let ghost fp = sb.subrange(i as int + 1, sb.len() as int);
        if i < 1 || i > 18 || n - i - 1 > 9 {
            return None;
        }
        let iv = match parse_digits_u64(b, 0, i) {
            None => {
                return None;
            },
            Some(v) => v,
        };
        let fv = match parse_digits_u64(b, i + 1, n) {
            None => {
                return None;
            },
            Some(v) => v,
        };
        let flen: u32 = (n - i - 1) as u32;
        let scale = pow10_u64(9 - flen);
        proof {
            lemma_digits_val_bound(ip);
            lemma_pow10_mono(ip.len(), 18);
            lemma_digits_val_bound(fp);
            lemma_pow10_add(fp.len(), (9 - fp.len()) as nat);
            vstd::arithmetic::mul::lemma_mul_inequality(
                digits_val(fp) as int,
                pow10(fp.len()) as int - 1,
                pow10((9 - fp.len()) as nat) as int,
            );
            lemma_pow10_mono(0, (9 - fp.len()) as nat);
            assert((pow10(fp.len()) - 1) * pow10((9 - fp.len()) as nat) == pow10(fp.len()) * pow10(
                (9 - fp.len()) as nat,
            ) - pow10((9 - fp.len()) as nat)) by (nonlinear_arith);
            assert(digits_val(fp) * pow10((9 - fp.len()) as nat) < pow10(9));
        }
        let nanos64: u64 = fv * scale;
        Some(Decimal { units: iv, nanos: nanos64 as u32 })
    }
}

/// Compares two well-formed amounts.
pub fn dec_le(a: &Decimal, b: &Decimal) -> (r: bool)
    requires
        dec_wf(*a),
        dec_wf(*b),
    ensures
        r == (dec_value(*a) <= dec_value(*b)),
{
    if a.units < b.units {
        true
    } else if a.units == b.units {
        a.nanos <= b.nanos
    } else {
        false
    }
}

/// The amount is strictly positive.
pub fn dec_positive(a: &Decimal) -> (r: bool)
    ensures
        r == (dec_value(*a) > 0),
{
    a.units > 0 || a.nanos > 0
}

/// The number denoted by a digit string of at most 9 digits, as used for
/// confirmation-block counts.
pub open spec fn spec_parse_u32(s: Seq<u8>) -> Option<u32> {
    if 1 <= s.len() <= 9 && all_digits(s) {
        Some(digits_val(s) as u32)
    } else {
        None
    }
}

/// Parses an unsigned confirmation count of 1 to 9 digits.
pub fn parse_u32(s: &str) -> (r: Option<u32>)
    ensures
        r == spec_parse_u32(s.spec_bytes()),
{
    let b: &[u8] = s.as_bytes();
    let ghost sb = s.spec_bytes();
    let n: usize = b.len();
    if n < 1 || n > 9 {
        return None;
    }
    match parse_digits_u64(b, 0, n) {
        None => {
            proof {
                assert(sb.subrange(0, n as int) =~= sb);
            }
            None
        },
        Some(v) => {
            proof {
                assert(sb.subrange(0, n as int) =~= sb);
                lemma_digits_val_bound(sb);
                lemma_pow10_mono(sb.len(), 9);
                lemma_pow10_values();
            }
            Some(v as u32)
        },
    }
}

} // verus!
