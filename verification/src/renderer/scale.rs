//! Scaling a coordinate by a ratio, in double precision.
//!
//! The ratio of two sizes is rounded to a double, the product of a coordinate
//! with it is rounded to a double again, and the result is cut to a whole number
//! of pixels. All of it is done here in integers: a double is a mantissa of 53
//! bits over a power of two.

use vstd::arithmetic::power2::*;
use vstd::prelude::*;

verus! {

/// The least mantissa of a normalised double.
pub const MANTISSA: u64 = 0x10_0000_0000_0000;

/// `n / d` to the nearest integer, a tie to the even one.
pub open spec fn nearest(n: nat, d: nat) -> nat {
    let q = n / d;
    let r = n % d;
    if 2 * r > d || (2 * r == d && q % 2 == 1) {
        q + 1
    } else {
        q
    }
}

/// The first of `u`, `2u`, `4u`, ... over which `n / d` has a full mantissa.
pub open spec fn unit_from(n: nat, d: nat, u: nat) -> nat
    decreases (if n * u < d * MANTISSA { d * MANTISSA - n * u } else { 0 }),
{
    if n == 0 || u == 0 || n * u >= d * MANTISSA {
        u
    } else {
        proof {
            assert(n * (2 * u) > n * u) by (nonlinear_arith)
                requires
                    n > 0,
                    u > 0,
            ;
            assert(n * u >= 0) by (nonlinear_arith);
        }
        unit_from(n, d, 2 * u)
    }
}

/// The denominator of the double nearest to `n / d`.
pub open spec fn ratio_unit(n: nat, d: nat) -> nat {
    unit_from(n, d, 1)
}

/// The mantissa of the double nearest to `n / d`.
pub open spec fn ratio_mantissa(n: nat, d: nat) -> nat {
    nearest(n * ratio_unit(n, d), d)
}

/// The first of `t`, `2t`, `4t`, ... in which `p` has at most a full mantissa:
/// the distance between doubles near `p`.
pub open spec fn spacing_from(p: nat, t: nat) -> nat
    decreases (if 2 * MANTISSA * t <= p { p - 2 * MANTISSA * t + 1 } else { 0 }),
{
    if t == 0 || p < 2 * MANTISSA * t {
        t
    } else {
        proof {
            assert(2 * MANTISSA * (2 * t) > 2 * MANTISSA * t) by (nonlinear_arith)
                requires
                    t > 0,
                    MANTISSA == 0x10_0000_0000_0000,
            ;
        }
        spacing_from(p, 2 * t)
    }
}

/// The double nearest to the whole number `p`.
pub open spec fn rounded(p: nat) -> nat {
    let t = spacing_from(p, 1);
    nearest(p, t) * t
}

/// `v`, or the greatest 32-bit number where it does not fit.
pub open spec fn saturated(v: nat) -> nat {
    if v <= u32::MAX {
        v
    } else {
        u32::MAX as nat
    }
}

/// `x` scaled by `n / d`, cut down to whole pixels.
pub open spec fn scaled_down(x: nat, n: nat, d: nat) -> nat {
    saturated(rounded(x * ratio_mantissa(n, d)) / ratio_unit(n, d))
}

/// `x` scaled by `n / d`, filled up to whole pixels.
pub open spec fn scaled_up(x: nat, n: nat, d: nat) -> nat {
    saturated(
        ((rounded(x * ratio_mantissa(n, d)) + ratio_unit(n, d) - 1) / ratio_unit(
            n,
            d,
        ) as int) as nat,
    )
}

/// The double nearest to a ratio: mantissa and denominator.
#[derive(Debug, Clone, Copy)]
pub struct Ratio {
    pub mantissa: u128,
    pub unit: u128,
}

/// `n / d` to the nearest integer, a tie to the even one.
fn round_div(n: u128, d: u128) -> (r: u128)
    requires
        0 < d <= 0x1_0000_0000_0000_0000_0000_0000,
        n <= 0x1_0000_0000_0000_0000_0000_0000,
    ensures
        r == nearest(n as nat, d as nat),
        r <= n / d + 1,
{
    let q: u128 = n / d;
    let rem: u128 = n % d;
    proof {
        assert(q <= n) by (nonlinear_arith)
            requires
                q == n / d,
                d > 0,
        ;
    }
    if 2 * rem > d || (2 * rem == d && q % 2 == 1) {
        q + 1
    } else {
        q
    }
}

impl Ratio {
    /// The mantissa is one, and the unit that of a ratio of 32-bit numbers.
    pub open spec fn wf(self) -> bool {
        &&& 0 < self.unit <= 0x20_0000_0000_0000_0000_0000
        &&& self.mantissa <= 2 * MANTISSA
    }

    /// The double nearest to `n / d`.
    pub fn new(n: u32, d: u32) -> (r: Self)
        requires
            d > 0,
        ensures
            r.wf(),
            r.mantissa == ratio_mantissa(n as nat, d as nat),
            r.unit == ratio_unit(n as nat, d as nat),
    {
        let full: u128 = d as u128 * MANTISSA as u128;
        let mut unit: u128 = 1;
        let mut scaled: u128 = n as u128;
        proof {
            assert(n < 2 * (d * MANTISSA)) by (nonlinear_arith)
                requires
                    d > 0,
                    n <= u32::MAX,
                    MANTISSA == 0x10_0000_0000_0000,
            ;
        }
        while n != 0 && scaled < full
            invariant
                0 < d <= u32::MAX,
                full == d * MANTISSA,
                MANTISSA == 0x10_0000_0000_0000,
                full <= 0x10_0000_0000_0000_0000_0000,
                0 < unit,
                scaled == n * unit,
                scaled < 2 * full,
                unit_from(n as nat, d as nat, unit as nat) == ratio_unit(n as nat, d as nat),
                unit == 1 || (n != 0 && unit <= scaled),
            decreases (if scaled < full { full - scaled } else { 0 }),
        {
            proof {
                assert(n * (2 * unit) == 2 * (n * unit)) by (nonlinear_arith);
                assert(n * unit >= unit) by (nonlinear_arith)
                    requires
                        n >= 1,
                        unit >= 0,
                ;
            }
            unit = unit * 2;
            scaled = scaled * 2;
        }
        let mantissa: u128 = round_div(scaled, d as u128);
        proof {
            assert((scaled / d as u128) < 2 * MANTISSA) by (nonlinear_arith)
                requires
                    scaled < 2 * (d * MANTISSA),
                    d > 0,
            ;
        }
        Ratio { mantissa, unit }
    }

    /// The double nearest to the product with `x`, over the unit.
    fn times(self, x: u32) -> (r: u128)
        requires
            self.wf(),
        ensures
            r == rounded((x * self.mantissa) as nat),
            r <= 0x80_0000_0000_0000_0000_0000,
    {
        proof {
            assert(x * self.mantissa <= 0x20_0000_0000_0000_0000_0000) by (nonlinear_arith)
                requires
                    0 <= x <= u32::MAX,
                    0 <= self.mantissa <= 2 * MANTISSA,
                    MANTISSA == 0x10_0000_0000_0000,
            ;
        }
        let p: u128 = x as u128 * self.mantissa;
        let mut t: u128 = 1;
        while p >= 2 * MANTISSA as u128 * t
            invariant
                0 < t <= p + 1,
                p <= 0x20_0000_0000_0000_0000_0000,
                MANTISSA == 0x10_0000_0000_0000,
                spacing_from(p as nat, t as nat) == spacing_from(p as nat, 1),
                2 * MANTISSA * t <= 0x100_0000_0000_0000_0000_0000_0000,
            decreases p - t,
        {
            t = t * 2;
        }
        let q: u128 = round_div(p, t);
        proof {
            assert(q * t <= p + t) by (nonlinear_arith)
                requires
                    q <= p / t + 1,
                    t > 0,
            ;
        }
        q * t
    }

    /// `x` scaled, cut down to whole pixels.
    pub fn down(self, x: u32) -> (r: u32)
        requires
            self.wf(),
        ensures
            r == saturated(rounded((x * self.mantissa) as nat) / self.unit as nat),
    {
        let p: u128 = self.times(x);
        let v: u128 = p / self.unit;
        if v <= u32::MAX as u128 {
            v as u32
        } else {
            u32::MAX
        }
    }

    /// `x` scaled, filled up to whole pixels.
    pub fn up(self, x: u32) -> (r: u32)
        requires
            self.wf(),
        ensures
            r == saturated(
                ((rounded((x * self.mantissa) as nat) + self.unit - 1) / self.unit as int) as nat,
            ),
    {
        let p: u128 = self.times(x);
        let v: u128 = (p + (self.unit - 1)) / self.unit;
        if v <= u32::MAX as u128 {
            v as u32
        } else {
            u32::MAX
        }
    }
}

/// The denominator of a ratio of equals is the least mantissa.
proof fn lemma_unit_of_equals(n: nat, e: nat)
    requires
        n > 0,
        e <= 52,
    ensures
        unit_from(n, n, pow2(e)) == MANTISSA,
    decreases 52 - e,
{
    lemma2_to64_rest();
    lemma_pow2_pos(e);
    if e < 52 {
        lemma_pow2_strictly_increases(e, 52);
        lemma_pow2_unfold((e + 1) as nat);
        assert(n * pow2(e) < n * MANTISSA) by (nonlinear_arith)
            requires
                n > 0,
                pow2(e) < MANTISSA,
        ;
        lemma_unit_of_equals(n, (e + 1) as nat);
    }
}

/// The distance between doubles is a power of two.
proof fn lemma_spacing(p: nat, e: nat) -> (k: nat)
    requires
        p < 2 * MANTISSA * 0x1_0000_0000,
        e <= 32,
    ensures
        e <= k <= 32,
        spacing_from(p, pow2(e)) == pow2(k),
    decreases 32 - e,
{
    lemma2_to64();
    lemma_pow2_pos(e);
    if p < 2 * MANTISSA * pow2(e) {
        e
    } else {
        if e == 32 {
            assert(pow2(32) == 0x1_0000_0000);
        }
        lemma_pow2_unfold((e + 1) as nat);
        lemma_spacing(p, (e + 1) as nat)
    }
}

/// A whole number of units is a double.
proof fn lemma_whole_is_double(x: u32)
    ensures
        rounded((x * MANTISSA) as nat) == x * MANTISSA,
{
    let p = (x * MANTISSA) as nat;
    lemma2_to64();
    lemma2_to64_rest();
    let k = lemma_spacing(p, 0);
    let t = pow2(k);
    let rest = pow2((52 - k) as nat);
    lemma_pow2_pos(k);
    lemma_pow2_adds(k, (52 - k) as nat);
    let q = x * rest;
    assert(q * t == p) by (nonlinear_arith)
        requires
            q == x * rest,
            t * rest == MANTISSA,
            p == x * MANTISSA,
    ;
    assert(q >= 0) by (nonlinear_arith)
        requires
            q == x * rest,
            rest >= 0,
            x >= 0,
    ;
    vstd::arithmetic::div_mod::lemma_fundamental_div_mod_converse(p as int, t as int, q, 0);
}

/// Scaling by a ratio of equals changes nothing.
pub proof fn law_equal_sizes(x: u32, n: nat)
    requires
        n > 0,
    ensures
        scaled_down(x as nat, n, n) == x,
        scaled_up(x as nat, n, n) == x,
{
    lemma2_to64();
    lemma_unit_of_equals(n, 0);
    let m = MANTISSA as int;
    vstd::arithmetic::div_mod::lemma_fundamental_div_mod_converse(n * m, n as int, m, 0);
    assert(n * m == m * n) by (nonlinear_arith);
    assert(ratio_mantissa(n, n) == MANTISSA);
    lemma_whole_is_double(x);
    vstd::arithmetic::div_mod::lemma_fundamental_div_mod_converse(x * m, m, x as int, 0);
    vstd::arithmetic::div_mod::lemma_fundamental_div_mod_converse(
        x * m + m - 1,
        m,
        x as int,
        m - 1,
    );
}

} // verus!
