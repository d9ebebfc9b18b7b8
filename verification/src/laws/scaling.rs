//! How coordinates are scaled.

use crate::renderer::scale;
use vstd::arithmetic::div_mod::*;
use vstd::prelude::*;

verus! {

/// A quotient is rounded to the nearest whole number: it is off by half at the
/// most, and where it is off by just half it is even.
pub proof fn law_nearest(n: nat, d: nat)
    requires
        d > 0,
    ensures
        ({
            let off = scale::nearest(n, d) * d - n;
            &&& -(d as int) <= 2 * off <= d
            &&& 2 * off == d || 2 * off == -(d as int) ==> scale::nearest(n, d) % 2 == 0
        }),
{
    let q = n / d;
    let r = n % d;
    lemma_fundamental_div_mod(n as int, d as int);
    assert(q * d + r == n) by (nonlinear_arith)
        requires
            n == d * q + r,
    ;
    assert((q + 1) * d == q * d + d) by (nonlinear_arith);
}

proof fn lemma_unit(n: nat, d: nat, u: nat)
    requires
        n > 0,
        d > 0,
        u > 0,
        u > 1 ==> u % 2 == 0 && n * (u / 2) < d * scale::MANTISSA,
    ensures
        ({
            let v = scale::unit_from(n, d, u);
            &&& v > 0
            &&& n * v >= d * scale::MANTISSA
            &&& v > 1 ==> v % 2 == 0 && n * (v / 2) < d * scale::MANTISSA
        }),
    decreases (if n * u < d * scale::MANTISSA { d * scale::MANTISSA - n * u } else { 0 }),
{
    if n * u < d * scale::MANTISSA {
        assert(n * (2 * u) > n * u) by (nonlinear_arith)
            requires
                n > 0,
                u > 0,
        ;
        assert(n * u >= 0) by (nonlinear_arith);
        lemma_unit(n, d, 2 * u);
    }
}

/// A ratio is a mantissa over a unit: the least of one, two, four and so on over
/// which the mantissa has its full 53 bits.
pub proof fn law_ratio(n: nat, d: nat)
    requires
        n > 0,
        d > 0,
    ensures
        ({
            let u = scale::ratio_unit(n, d);
            &&& n * u >= d * 0x10_0000_0000_0000
            &&& u > 1 ==> u % 2 == 0 && n * (u / 2) < d * 0x10_0000_0000_0000
            &&& scale::ratio_mantissa(n, d) == scale::nearest(n * u, d)
        }),
{
    lemma_unit(n, d, 1);
}

proof fn lemma_spacing(p: nat, t: nat)
    requires
        t > 0,
        t > 1 ==> t % 2 == 0 && scale::MANTISSA * t <= p,
    ensures
        ({
            let s = scale::spacing_from(p, t);
            &&& s > 0
            &&& p < 2 * scale::MANTISSA * s
            &&& s > 1 ==> s % 2 == 0 && scale::MANTISSA * s <= p
        }),
    decreases (if 2 * scale::MANTISSA * t <= p { p - 2 * scale::MANTISSA * t + 1 } else { 0 }),
{
    if p >= 2 * scale::MANTISSA * t {
        assert(2 * scale::MANTISSA * (2 * t) > 2 * scale::MANTISSA * t) by (nonlinear_arith)
            requires
                t > 0,
                scale::MANTISSA == 0x10_0000_0000_0000,
        ;
        assert(scale::MANTISSA * (2 * t) == 2 * scale::MANTISSA * t) by (nonlinear_arith);
        lemma_spacing(p, 2 * t);
    }
}

/// A product keeps 53 bits: one that has no more is exact, and any other is rounded
/// to a multiple of the distance between doubles of its size.
pub proof fn law_product_is_rounded(p: nat)
    ensures
        p < 2 * 0x10_0000_0000_0000 ==> scale::rounded(p) == p,
        ({
            let t = scale::spacing_from(p, 1);
            let off = scale::rounded(p) - p;
            &&& p < 2 * 0x10_0000_0000_0000 * t
            &&& t > 1 ==> 0x10_0000_0000_0000 * t <= p
            &&& -(t as int) <= 2 * off <= t
        }),
{
    let t = scale::spacing_from(p, 1);
    lemma_spacing(p, 1);
    law_nearest(p, t);
    if p < 2 * scale::MANTISSA {
        lemma_fundamental_div_mod_converse(p as int, 1, p as int, 0);
    }
}

/// A scaled coordinate is cut down to whole pixels and a scaled length filled up to
/// them, as far as 32 bits go: of what is not whole, the one loses the part that
/// the other completes.
pub proof fn law_whole_pixels(x: nat, n: nat, d: nat)
    requires
        n > 0,
        d > 0,
    ensures
        ({
            let u = scale::ratio_unit(n, d);
            let p = scale::rounded(x * scale::ratio_mantissa(n, d));
            let down = scale::scaled_down(x, n, d);
            let up = scale::scaled_up(x, n, d);
            &&& down <= u32::MAX && up <= u32::MAX
            &&& down < u32::MAX ==> down * u <= p < (down + 1) * u
            &&& up < u32::MAX ==> p <= up * u && (up == 0 || (up - 1) * u < p)
            &&& down <= up <= down + 1
        }),
{
    let u = scale::ratio_unit(n, d);
    let p = scale::rounded(x * scale::ratio_mantissa(n, d));
    lemma_unit(n, d, 1);
    let q = p / u;
    let r = p % u;
    lemma_fundamental_div_mod(p as int, u as int);
    assert(q * u + r == p) by (nonlinear_arith)
        requires
            p == u * q + r,
    ;
    assert((q + 1) * u == q * u + u) by (nonlinear_arith);
    assert((q - 1) * u == q * u - u) by (nonlinear_arith);
    if r == 0 {
        lemma_fundamental_div_mod_converse(p + u - 1, u as int, q as int, u - 1);
    } else {
        lemma_fundamental_div_mod_converse(p + u - 1, u as int, (q + 1) as int, r - 1);
    }
}

} // verus!
