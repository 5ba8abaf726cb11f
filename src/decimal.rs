//! Rendering of an IEEE-754 binary32 value, given by its bit pattern, with
//! exactly one digit after the decimal point.
//!
//! The value `sig * 2^exp` of a finite pattern is scaled by ten and rounded to
//! the nearest integer, ties going to the even neighbour; the text is that
//! number of tenths written as `whole.digit`, with a leading `-` whenever the
//! sign bit is set. Not-a-number reads `NaN`, the infinities `inf` and `-inf`.
use vstd::arithmetic::power2::{
    lemma2_to64, lemma2_to64_rest, lemma_pow2_adds, lemma_pow2_strictly_increases, lemma_pow2_unfold, pow2,
};
use vstd::prelude::*;
use vstd::string::StringExecFns;

verus! {

pub open spec fn sign_bit(bits: u32) -> bool {
    bits >= 0x8000_0000
}

pub open spec fn exponent_field(bits: u32) -> nat {
    ((bits as nat) / 0x80_0000) % 0x100
}

pub open spec fn fraction_field(bits: u32) -> nat {
    (bits as nat) % 0x80_0000
}

pub open spec fn is_nan(bits: u32) -> bool {
    exponent_field(bits) == 0xff && fraction_field(bits) != 0
}

pub open spec fn is_infinite(bits: u32) -> bool {
    exponent_field(bits) == 0xff && fraction_field(bits) == 0
}

pub open spec fn is_zero(bits: u32) -> bool {
    exponent_field(bits) == 0 && fraction_field(bits) == 0
}

/// The integer significand of a finite pattern.
pub open spec fn significand(bits: u32) -> nat {
    if exponent_field(bits) == 0 {
        fraction_field(bits)
    } else {
        fraction_field(bits) + 0x80_0000
    }
}

/// The power of two that scales the significand of a finite pattern.
pub open spec fn exponent(bits: u32) -> int {
    if exponent_field(bits) == 0 {
        -149
    } else {
        exponent_field(bits) - 150
    }
}

/// `n / d` rounded to the nearest integer, ties to even.
pub open spec fn round_half_even(n: nat, d: nat) -> nat
    recommends
        d > 0,
{
    let q = n / d;
    let r = n % d;
    if 2 * r > d || (2 * r == d && q % 2 == 1) {
        q + 1
    } else {
        q
    }
}

/// The magnitude of a finite pattern in tenths, rounded; only used where the
/// exponent is negative (otherwise the value is a whole number).
pub open spec fn rounded_tenths(bits: u32) -> nat {
    round_half_even(significand(bits) * 10, pow2((-exponent(bits)) as nat))
}

/// The whole part of the rounded magnitude.
pub open spec fn whole_part(bits: u32) -> nat {
    if exponent(bits) >= 0 {
        significand(bits) * pow2(exponent(bits) as nat)
    } else {
        rounded_tenths(bits) / 10
    }
}

/// The digit after the decimal point of the rounded magnitude.
pub open spec fn tenth_digit(bits: u32) -> nat {
    if exponent(bits) >= 0 {
        0
    } else {
        rounded_tenths(bits) % 10
    }
}

pub open spec fn digit_char(d: nat) -> char {
    if d == 0 {
        '0'
    } else if d == 1 {
        '1'
    } else if d == 2 {
        '2'
    } else if d == 3 {
        '3'
    } else if d == 4 {
        '4'
    } else if d == 5 {
        '5'
    } else if d == 6 {
        '6'
    } else if d == 7 {
        '7'
    } else if d == 8 {
        '8'
    } else {
        '9'
    }
}

/// Decimal digits of `n`, most significant first, without leading zeros.
pub open spec fn decimal_text(n: nat) -> Seq<char>
    decreases n,
{
    if n < 10 {
        seq![digit_char(n)]
    } else {
        decimal_text(n / 10).push(digit_char(n % 10))
    }
}

/// The text of a binary32 value with one digit after the decimal point.
pub open spec fn one_decimal_text(bits: u32) -> Seq<char> {
    if is_nan(bits) {
        seq!['N', 'a', 'N']
    } else if is_infinite(bits) {
        if sign_bit(bits) {
            seq!['-', 'i', 'n', 'f']
        } else {
            seq!['i', 'n', 'f']
        }
    } else {
        (if sign_bit(bits) {
            seq!['-']
        } else {
            seq![]
        }) + decimal_text(whole_part(bits)) + seq!['.', digit_char(tenth_digit(bits))]
    }
}

fn digit_str(d: u128) -> (r: &'static str)
    requires
        d < 10,
    ensures
        r@ == seq![digit_char(d as nat)],
{
    proof {
        reveal_strlit("0");
        reveal_strlit("1");
        reveal_strlit("2");
        reveal_strlit("3");
        reveal_strlit("4");
        reveal_strlit("5");
        reveal_strlit("6");
        reveal_strlit("7");
        reveal_strlit("8");
        reveal_strlit("9");
    }
    if d == 0 {
        "0"
    } else if d == 1 {
        "1"
    } else if d == 2 {
        "2"
    } else if d == 3 {
        "3"
    } else if d == 4 {
        "4"
    } else if d == 5 {
        "5"
    } else if d == 6 {
        "6"
    } else if d == 7 {
        "7"
    } else if d == 8 {
        "8"
    } else {
        "9"
    }
}

/// Appends the decimal digits of `n` to `out`.
pub fn push_decimal(out: &mut String, n: u128)
    ensures
        final(out)@ == old(out)@ + decimal_text(n as nat),
    decreases n,
{
    if n >= 10 {
        push_decimal(out, n / 10);
    }
    let d = digit_str(n % 10);
    out.append(d);
    assert(decimal_text(n as nat) =~= if n < 10 {
        seq![digit_char(n as nat)]
    } else {
        decimal_text((n / 10) as nat) + seq![digit_char((n % 10) as nat)]
    });
}

proof fn lemma_pow2_128()
    ensures
        pow2(128) == 0x1_0000_0000_0000_0000_0000_0000_0000_0000,
{
    lemma2_to64_rest();
    lemma_pow2_adds(64, 64);
}

/// `2^k` for a small `k`.
fn pow2_u64(k: u32) -> (p: u64)
    requires
        k <= 63,
    ensures
        p == pow2(k as nat),
{
    proof {
        lemma2_to64();
        lemma2_to64_rest();
    }
    let mut p: u64 = 1;
    let mut i: u32 = 0;
    while i < k
        invariant
            i <= k <= 63,
            p == pow2(i as nat),
            pow2(64) == 0x1_0000_0000_0000_0000,
        decreases k - i,
    {
        proof {
            lemma_pow2_unfold((i + 1) as nat);
            lemma_pow2_strictly_increases((i + 1) as nat, 64);
        }
        p = p * 2;
        i = i + 1;
    }
    p
}

/// `sig * 2^e` for a significand below `2^24` and `e <= 104`.
fn scale_up(sig: u32, e: u32) -> (w: u128)
    requires
        sig < 0x100_0000,
        e <= 104,
    ensures
        w == sig as nat * pow2(e as nat),
{
    proof {
        lemma2_to64();
        lemma_pow2_128();
    }
    let mut w: u128 = sig as u128;
    let mut i: u32 = 0;
    while i < e
        invariant
            i <= e <= 104,
            sig < 0x100_0000,
            pow2(24) == 0x100_0000,
            pow2(128) == 0x1_0000_0000_0000_0000_0000_0000_0000_0000,
            w == sig as nat * pow2(i as nat),
            w < pow2((24 + i) as nat),
        decreases e - i,
    {
        proof {
            lemma_pow2_unfold((i + 1) as nat);
            lemma_pow2_unfold((25 + i) as nat);
            if 25 + i < 128 {
                lemma_pow2_strictly_increases((25 + i) as nat, 128);
            }
            let a = sig as nat;
            let b = pow2(i as nat);
            assert(a * b * 2 == a * (2 * b)) by (nonlinear_arith);
        }
        w = w * 2;
        i = i + 1;
    }
    w
}

/// The rounded magnitude of a finite pattern with a negative exponent, in tenths.
fn tenths_below_one(sig: u32, k: u32) -> (t: u64)
    requires
        sig < 0x100_0000,
        1 <= k <= 149,
    ensures
        t == round_half_even(sig as nat * 10, pow2(k as nat)),
{
    proof {
        lemma2_to64();
    }
    let n: u64 = sig as u64 * 10;
    if k > 28 {
        proof {
            if k > 29 {
                lemma_pow2_strictly_increases(29, k as nat);
            }
            let d = pow2(k as nat);
            let m = n as nat;
            assert(m / d == 0 && m % d == m) by (nonlinear_arith)
                requires
                    m < d,
                    d > 0,
            ;
        }
        0
    } else {
        let d = pow2_u64(k);
        proof {
            lemma_pow2_strictly_increases(k as nat, 29);
        }
        let q = n / d;
        let r = n % d;
        if 2 * r > d || (2 * r == d && q % 2 == 1) {
            q + 1
        } else {
            q
        }
    }
}

/// Renders a binary32 value, given by its bits, with one digit after the
/// decimal point.
pub fn one_decimal(bits: u32) -> (r: String)
    ensures
        r@ == one_decimal_text(bits),
{
    let exp_field: u32 = bits / 0x80_0000 % 0x100;
    let frac: u32 = bits % 0x80_0000;
    let negative = bits >= 0x8000_0000;
    if exp_field == 0xff {
        proof {
            reveal_strlit("NaN");
            reveal_strlit("-inf");
            reveal_strlit("inf");
        }
        if frac != 0 {
            String::from_str("NaN")
        } else if negative {
            String::from_str("-inf")
        } else {
            String::from_str("inf")
        }
    } else {
        let sig: u32 = if exp_field == 0 {
            frac
        } else {
            frac + 0x80_0000
        };
        let mut whole: u128;
        let digit: u128;
        if exp_field >= 150 {
            whole = scale_up(sig, exp_field - 150);
            digit = 0;
        } else {
            let k: u32 = if exp_field == 0 {
                149
            } else {
                150 - exp_field
            };
            let t = tenths_below_one(sig, k);
            whole = (t / 10) as u128;
            digit = (t % 10) as u128;
        }
        proof {
            reveal_strlit("-");
            reveal_strlit(".");
        }
        let mut out = String::new();
        if negative {
            out.append("-");
        }
        push_decimal(&mut out, whole);
        out.append(".");
        out.append(digit_str(digit));
        assert(out@ =~= one_decimal_text(bits));
        out
    }
}

} // verus!
