//! Single-precision binary numbers, read from their 32 bits: whether they
//! are finite, whether they lie below zero, and their size in thousandths,
//! rounded to the nearest with ties going to the even neighbour.
//!
//! A finite number of these is its significand times a power of two, so
//! all of this is exact integer arithmetic.

use vstd::prelude::*;

verus! {

/// Two to the power `n`.
pub open spec fn two_to(n: nat) -> nat
    decreases n,
{
    if n == 0 {
        1
    } else {
        2 * two_to((n - 1) as nat)
    }
}

/// The eight exponent bits.
pub open spec fn exponent_field(bits: u32) -> nat {
    (bits as nat / 0x80_0000) % 256
}

/// The twenty-three fraction bits.
pub open spec fn fraction_field(bits: u32) -> nat {
    bits as nat % 0x80_0000
}

/// Whether the sign bit is set.
pub open spec fn sign_set(bits: u32) -> bool {
    bits >= 0x8000_0000
}

/// Whether the bits stand for a number, and not for an infinity or a NaN.
pub open spec fn is_finite(bits: u32) -> bool {
    exponent_field(bits) != 255
}

/// The significand of a finite number: the fraction bits, with the hidden
/// bit in front unless the number is subnormal.
pub open spec fn significand(bits: u32) -> nat {
    if exponent_field(bits) == 0 {
        fraction_field(bits)
    } else {
        fraction_field(bits) + 0x80_0000
    }
}

/// The power of two by which the significand of a finite number is scaled:
/// the size of the number is `significand * 2^binary_exponent`.
pub open spec fn binary_exponent(bits: u32) -> int {
    if exponent_field(bits) == 0 {
        -149
    } else {
        exponent_field(bits) - 150
    }
}

/// Whether a finite number lies below zero. Minus zero does not.
pub open spec fn below_zero(bits: u32) -> bool {
    sign_set(bits) && significand(bits) != 0
}

/// `a / d` rounded to the nearest whole number; of two equally near, the
/// even one.
pub open spec fn nearest_quotient(a: nat, d: nat) -> nat {
    let q = a / d;
    let r = a % d;
    if 2 * r > d || (2 * r == d && q % 2 == 1) {
        q + 1
    } else {
        q
    }
}

/// The size of a finite number in thousandths, rounded to the nearest with
/// ties to even.
pub open spec fn size_in_thousandths(bits: u32) -> nat {
    let m = significand(bits) * 1000;
    let e = binary_exponent(bits);
    if e >= 0 {
        m * two_to(e as nat)
    } else {
        nearest_quotient(m, two_to((-e) as nat))
    }
}

/// Powers of two are positive and never shrink.
pub proof fn lemma_two_to_grows(i: nat, j: nat)
    requires
        i <= j,
    ensures
        0 < two_to(i) <= two_to(j),
    decreases j,
{
    if i < j {
        lemma_two_to_grows(i, (j - 1) as nat);
    } else if i > 0 {
        lemma_two_to_grows((i - 1) as nat, (i - 1) as nat);
    }
}

/// The rounded quotient is a nearest whole number to `a / d`: it misses by
/// half at most, and where it misses by exactly half it is even.
pub proof fn lemma_nearest_quotient(a: nat, d: nat)
    requires
        d > 0,
    ensures
        2 * (nearest_quotient(a, d) * d) <= 2 * a + d,
        2 * a <= 2 * (nearest_quotient(a, d) * d) + d,
        2 * (nearest_quotient(a, d) * d) == 2 * a + d || 2 * a == 2 * (nearest_quotient(a, d) * d)
            + d ==> nearest_quotient(a, d) % 2 == 0,
{
    let q = a / d;
    let r = a % d;
    assert(a == q * d + r && r < d && (q + 1) * d == q * d + d) by (nonlinear_arith)
        requires
            q == a / d,
            r == a % d,
            d > 0,
    ;
}

/// `a * 2^shift`, where that fits.
pub fn scale_up(a: u64, shift: u32) -> (t: Option<u64>)
    ensures
        t is Some <==> a * two_to(shift as nat) <= u64::MAX,
        t is Some ==> t.unwrap() == a * two_to(shift as nat),
{
    let mut t: u64 = a;
    let mut i: u32 = 0;
    assert(two_to(0) == 1);
    while i < shift
        invariant
            i <= shift,
            t == a * two_to(i as nat),
        decreases shift - i,
    {
        if t > u64::MAX / 2 {
            proof {
                lemma_two_to_grows((i + 1) as nat, shift as nat);
                let lo = two_to((i + 1) as nat);
                let hi = two_to(shift as nat);
                assert(a * lo == 2 * (a * two_to(i as nat))) by (nonlinear_arith)
                    requires
                        lo == 2 * two_to(i as nat),
                ;
                assert(a * lo <= a * hi) by (nonlinear_arith)
                    requires
                        lo <= hi,
                ;
            }
            return None;
        }
        proof {
            assert(a * two_to((i + 1) as nat) == 2 * (a * two_to(i as nat))) by (nonlinear_arith)
                requires
                    two_to((i + 1) as nat) == 2 * two_to(i as nat),
            ;
        }
        t = t * 2;
        i += 1;
    }
    Some(t)
}

/// `a / 2^shift`, rounded to the nearest with ties to even.
pub fn scale_down(a: u64, shift: u32) -> (t: u64)
    ensures
        t == nearest_quotient(a as nat, two_to(shift as nat)),
{
    let mut d: u128 = 1;
    let mut i: u32 = 0;
    while i < shift && d <= 2 * (a as u128)
        invariant
            i <= shift,
            d == two_to(i as nat),
            1 <= d <= 4 * a + 1,
        decreases shift - i,
    {
        d = d * 2;
        i += 1;
    }
    let wide: u128 = a as u128;
    if d > 2 * wide {
        proof {
            lemma_two_to_grows(i as nat, shift as nat);
            let full = two_to(shift as nat);
            assert(a as nat / full == 0 && a as nat % full == a) by (nonlinear_arith)
                requires
                    a < full,
            ;
        }
        0
    } else {
        let q: u128 = wide / d;
        let r: u128 = wide % d;
        proof {
            assert(q * d + r == wide && r < d) by (nonlinear_arith)
                requires
                    q == wide / d,
                    r == wide % d,
                    d > 0,
            ;
            assert(d >= 2 ==> 2 * q <= wide) by (nonlinear_arith)
                requires
                    q * d + r == wide,
                    r >= 0,
                    q >= 0,
            ;
        }
        if 2 * r > d || (2 * r == d && q % 2 == 1) {
            (q + 1) as u64
        } else {
            q as u64
        }
    }
}

/// Whether the bits stand for a number, and not for an infinity or a NaN.
pub fn finite(bits: u32) -> (b: bool)
    ensures
        b == is_finite(bits),
{
    (bits / 0x80_0000) % 256 != 255
}

/// Whether a finite number lies below zero. Minus zero does not.
pub fn negative(bits: u32) -> (b: bool)
    ensures
        b == below_zero(bits),
{
    let field: u32 = (bits / 0x80_0000) % 256;
    bits >= 0x8000_0000 && (field != 0 || bits % 0x80_0000 != 0)
}

/// The size of a finite number in thousandths, rounded to the nearest with
/// ties to even: `None` for an infinity or a NaN, and for a size that no
/// `u64` holds.
pub fn thousandths(bits: u32) -> (t: Option<u64>)
    ensures
        t is Some <==> is_finite(bits) && size_in_thousandths(bits) <= u64::MAX,
        t is Some ==> t.unwrap() == size_in_thousandths(bits),
{
    let field: u32 = (bits / 0x80_0000) % 256;
    let fraction: u32 = bits % 0x80_0000;
    if field == 255 {
        return None;
    }
    let m: u64 = if field == 0 {
        fraction as u64
    } else {
        fraction as u64 + 0x80_0000
    };
    let scaled: u64 = m * 1000;
    if field >= 150 {
        scale_up(scaled, field - 150)
    } else if field == 0 {
        Some(scale_down(scaled, 149))
    } else {
        Some(scale_down(scaled, 150 - field))
    }
}

} // verus!
