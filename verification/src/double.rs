//! IEEE 754 numbers of double precision, held as their bits, and their
//! narrowing to single precision.

use vstd::prelude::*;

verus! {

/// The distance between the exponents of the two formats: 1023 - 127.
pub const REBIAS: u64 = 896;

/// `n / d`, rounded to the nearest integer; halfway, to the even one.
pub open spec fn nearest_even(n: int, d: int) -> int {
    let q = n / d;
    let r = n % d;
    if 2 * r < d || (2 * r == d && q % 2 == 0) {
        q
    } else {
        q + 1
    }
}

/// `n`, doubled `k` times.
pub open spec fn doubled(n: int, k: nat) -> int
    decreases k,
{
    if k == 0 {
        n
    } else {
        2 * doubled(n, (k - 1) as nat)
    }
}

/// The sign bit.
pub open spec fn sign_of(bits: u64) -> int {
    bits as int / 0x8000_0000_0000_0000
}

/// The exponent, as it is stored.
pub open spec fn exponent_of(bits: u64) -> int {
    bits as int / 0x10_0000_0000_0000 % 0x800
}

/// The digits behind the leading one.
pub open spec fn fraction_of(bits: u64) -> int {
    bits as int % 0x10_0000_0000_0000
}

/// The bits, without the sign, of the single nearest to a double; halfway, of
/// the even one. A number too large for a single becomes infinite. Of what is
/// no number only the leading digits stay, and it stays no number.
///
/// Exponent and fraction of a single are next to each other, so that a fraction
/// that is rounded up to the next power of two carries into the exponent.
pub open spec fn narrowed_magnitude(bits: u64) -> int {
    let e = exponent_of(bits);
    let f = fraction_of(bits);
    let digits = 0x10_0000_0000_0000 + f;
    if e == 0x7ff {
        if f == 0 {
            0x7f80_0000
        } else {
            0x7fc0_0000 + (f / 0x2000_0000) % 0x40_0000
        }
    } else if e >= REBIAS + 255 {
        0x7f80_0000
    } else if e > REBIAS {
        (e - REBIAS - 1) * 0x80_0000 + nearest_even(digits, 0x2000_0000)
    } else if e >= REBIAS - 23 {
        nearest_even(digits, doubled(0x4000_0000, (REBIAS - e) as nat))
    } else {
        0
    }
}

/// The single nearest to a double.
pub open spec fn narrowed(bits: u64) -> int {
    sign_of(bits) * 0x8000_0000 + narrowed_magnitude(bits)
}

/// `n / d`, rounded to the nearest integer; halfway, to the even one.
fn round_even(n: u64, d: u64) -> (r: u64)
    requires
        0 < d <= 0x7fff_ffff_ffff_ffff,
    ensures
        r == nearest_even(n as int, d as int),
{
    let q: u64 = n / d;
    let r: u64 = n % d;
    if r < d - r || (r == d - r && q % 2 == 0) {
        q
    } else {
        proof {
            vstd::arithmetic::div_mod::lemma_fundamental_div_mod(n as int, d as int);
            assert(q < n) by (nonlinear_arith)
                requires
                    n == d * q + r,
                    r >= d - r,
                    d > 0,
                    q >= 0,
                    r < d,
            ;
        }
        q + 1
    }
}

proof fn lemma_doubled(k: nat)
    requires
        k <= 23,
    ensures
        0x4000_0000 <= doubled(0x4000_0000, k) <= 0x20_0000_0000_0000,
{
    reveal_with_fuel(doubled, 24);
}

/// The bits of a double, narrowed to those of the nearest single.
pub fn narrow(bits: u64) -> (r: u32)
    ensures
        r == narrowed(bits),
{
    let negative: bool = bits >= 0x8000_0000_0000_0000;
    let e: u64 = bits / 0x10_0000_0000_0000 % 0x800;
    let f: u64 = bits % 0x10_0000_0000_0000;
    let digits: u64 = 0x10_0000_0000_0000 + f;
    let magnitude: u64 = if e == 0x7ff {
        if f == 0 {
            0x7f80_0000
        } else {
            0x7fc0_0000 + (f / 0x2000_0000) % 0x40_0000
        }
    } else if e >= REBIAS + 255 {
        0x7f80_0000
    } else if e > REBIAS {
        (e - REBIAS - 1) * 0x80_0000 + round_even(digits, 0x2000_0000)
    } else if e >= REBIAS - 23 {
        let steps: u64 = REBIAS - e;
        let mut d: u64 = 0x4000_0000;
        let mut k: u64 = 0;
        while k < steps
            invariant
                k <= steps <= 23,
                d == doubled(0x4000_0000, k as nat),
            decreases steps - k,
        {
            proof {
                lemma_doubled(k as nat);
            }
            d = 2 * d;
            k = k + 1;
        }
        proof {
            lemma_doubled(k as nat);
        }
        round_even(digits, d)
    } else {
        0
    };
    proof {
        lemma_fits(bits);
    }
    if negative {
        (0x8000_0000 + magnitude) as u32
    } else {
        magnitude as u32
    }
}

proof fn lemma_fits(bits: u64)
    ensures
        0 <= narrowed_magnitude(bits) < 0x8000_0000,
        sign_of(bits) == if bits >= 0x8000_0000_0000_0000 {
            1int
        } else {
            0int
        },
{
    let e = exponent_of(bits);
    let digits = 0x10_0000_0000_0000 + fraction_of(bits);
    if REBIAS - 23 <= e <= REBIAS {
        let d = doubled(0x4000_0000, (REBIAS - e) as nat);
        lemma_doubled((REBIAS - e) as nat);
        assert(digits / d <= digits / 0x4000_0000) by {
            vstd::arithmetic::div_mod::lemma_div_is_ordered_by_denominator(
                digits,
                0x4000_0000,
                d,
            );
        }
        assert(0 <= digits / d) by (nonlinear_arith)
            requires
                digits >= 0,
                d > 0,
        ;
    }
}

/// No integer is nearer to `n / d` than the one that it is rounded to, and where
/// another one is as near, that one is odd.
pub proof fn law_nearest_even(n: int, d: int, other: int)
    requires
        d > 0,
    ensures
        ({
            let r = nearest_even(n, d);
            let error = if n >= d * r {
                n - d * r
            } else {
                d * r - n
            };
            let there = if n >= d * other {
                n - d * other
            } else {
                d * other - n
            };
            &&& error <= there
            &&& error == there && other != r ==> r % 2 == 0
        }),
{
    let q = n / d;
    let r = nearest_even(n, d);
    vstd::arithmetic::div_mod::lemma_fundamental_div_mod(n, d);
    vstd::arithmetic::div_mod::lemma_mod_bound(n, d);
    assert(d * (q + 1) == d * q + d) by (nonlinear_arith);
    if other < q {
        assert(d * other <= d * q - d) by (nonlinear_arith)
            requires
                other < q,
                d > 0,
        ;
    } else if other > q + 1 {
        assert(d * other >= d * q + 2 * d) by (nonlinear_arith)
            requires
                other > q + 1,
                d > 0,
        ;
    }
}

/// A number is not narrowed into something that is none, and the sign stays.
pub proof fn law_narrowing_keeps_sign_and_kind(bits: u64)
    ensures
        0 <= narrowed(bits) <= u32::MAX,
        narrowed(bits) / 0x8000_0000 == sign_of(bits),
        narrowed_magnitude(bits) > 0x7f80_0000 <==> exponent_of(bits) == 0x7ff && fraction_of(bits)
            != 0,
{
    lemma_fits(bits);
    let e = exponent_of(bits);
    let digits = 0x10_0000_0000_0000 + fraction_of(bits);
    if REBIAS - 23 <= e <= REBIAS {
        let d = doubled(0x4000_0000, (REBIAS - e) as nat);
        lemma_doubled((REBIAS - e) as nat);
        vstd::arithmetic::div_mod::lemma_div_is_ordered_by_denominator(digits, 0x4000_0000, d);
    }
}

/// A number that has no more digits than a single one keeps every one of them,
/// and its exponent but for the difference of the biases.
pub proof fn law_narrowing_keeps_short_numbers(bits: u64)
    requires
        896 < exponent_of(bits) < 1151,
        fraction_of(bits) % 0x2000_0000 == 0,
    ensures
        narrowed_magnitude(bits) == (exponent_of(bits) - 896) * 0x80_0000 + fraction_of(bits)
            / 0x2000_0000,
{
    let f = fraction_of(bits);
    assert((0x10_0000_0000_0000 + f) / 0x2000_0000 == 0x80_0000 + f / 0x2000_0000);
    assert((0x10_0000_0000_0000 + f) % 0x2000_0000 == 0);
}

} // verus!
