//! Single-precision numbers, held as their bit patterns.
//!
//! Scale factors and pointer coordinates reach this crate as single-precision
//! numbers. They are carried as the 32 bits of their IEEE 754 encoding, which
//! loses nothing: the order of positive numbers is the order of their bits, and
//! the nearest pixel can be worked out exactly from exponent and significand.

use vstd::arithmetic::mul::*;
use vstd::arithmetic::power2::*;
use vstd::prelude::*;

verus! {

/// The bits of `1.0`.
pub const ONE_BITS: u32 = 0x3f80_0000;

/// The bits of positive infinity: every positive finite number is below it.
pub const INFINITY_BITS: u32 = 0x7f80_0000;

/// Whether the sign bit is set.
pub open spec fn is_negative(bits: u32) -> bool {
    bits >= 0x8000_0000
}

/// The eight exponent bits.
pub open spec fn exponent_field(bits: u32) -> nat {
    ((bits as nat) / 0x80_0000) % 0x100
}

/// The twenty-three bits of the fraction.
pub open spec fn fraction_field(bits: u32) -> nat {
    (bits as nat) % 0x80_0000
}

/// Neither an infinity nor a NaN.
pub open spec fn is_finite(bits: u32) -> bool {
    exponent_field(bits) < 0xff
}

/// The significand, with the leading one that normal numbers leave out.
pub open spec fn significand(bits: u32) -> nat {
    if exponent_field(bits) == 0 {
        fraction_field(bits)
    } else {
        0x80_0000 + fraction_field(bits)
    }
}

/// How often the significand is doubled to reach the number's magnitude,
/// counted from the smallest step there is.
pub open spec fn doublings(bits: u32) -> nat {
    if exponent_field(bits) == 0 {
        0
    } else {
        (exponent_field(bits) - 1) as nat
    }
}

/// The magnitude of a finite number in units of two to the minus 149, the
/// smallest step of the format: an exact integer.
pub open spec fn magnitude(bits: u32) -> nat {
    significand(bits) * pow2(doublings(bits))
}

/// The integer nearest to a finite number, with halves rounded away from zero.
pub open spec fn nearest(bits: u32) -> int {
    let rounded = (2 * magnitude(bits) + pow2(149)) / pow2(150);
    if is_negative(bits) {
        -(rounded as int)
    } else {
        rounded as int
    }
}

/// Whether a finite number lies in `[-2^31, 2^31]`, the range of pixel
/// coordinates.
pub open spec fn fits_grid(bits: u32) -> bool {
    magnitude(bits) <= pow2(180)
}

/// The pixel coordinate of a number that [`fits_grid`]. The one coordinate
/// that does not exist, `2^31`, becomes the last one.
pub open spec fn snapped(bits: u32) -> int {
    if nearest(bits) > i32::MAX {
        i32::MAX as int
    } else {
        nearest(bits)
    }
}

/// A finite number above zero.
pub open spec fn is_positive_finite(bits: u32) -> bool {
    0 < bits < INFINITY_BITS
}

fn power(k: u32) -> (p: u64)
    requires
        k <= 32,
    ensures
        p == pow2(k as nat),
{
    proof {
        lemma2_to64();
    }
    let mut p: u64 = 1;
    let mut i: u32 = 0;
    while i < k
        invariant
            i <= k <= 32,
            p == pow2(i as nat),
        decreases k - i,
    {
        proof {
            lemma2_to64();
            lemma_pow2_unfold((i + 1) as nat);
            if i < 31 {
                lemma_pow2_strictly_increases((i + 1) as nat, 32);
            }
        }
        p = p * 2;
        i = i + 1;
    }
    p
}

/// Multiplying out: a bound on `sig` in steps of `2^k` is a bound on the
/// magnitude.
proof fn lemma_round_down(sig: nat, k: nat, r: nat)
    requires
        1 <= k <= 149,
        r * pow2(k) <= sig + pow2((k - 1) as nat) < (r + 1) * pow2(k),
    ensures
        r == (2 * (sig * pow2((149 - k) as nat)) + pow2(149)) / pow2(150),
{
    let up = pow2((150 - k) as nat);
    lemma_pow2_pos((150 - k) as nat);
    lemma_pow2_pos(150);
    lemma_pow2_adds(k, (150 - k) as nat);
    lemma_pow2_adds((k - 1) as nat, (150 - k) as nat);
    lemma_pow2_unfold((150 - k) as nat);
    let low = pow2((149 - k) as nat);
    let pk = pow2(k);
    let half = pow2((k - 1) as nat);
    let total = 2 * (sig * low) + pow2(149);
    assert((sig + half) * up == total) by (nonlinear_arith)
        requires
            up == 2 * low,
            half * up == pow2(149),
            total == 2 * (sig * low) + pow2(149),
    ;
    assert(r * pow2(150) <= total) by (nonlinear_arith)
        requires
            r * pk <= sig + half,
            (sig + half) * up == total,
            pk * up == pow2(150),
            up > 0,
    ;
    assert(total < (r + 1) * pow2(150)) by (nonlinear_arith)
        requires
            sig + half < (r + 1) * pk,
            (sig + half) * up == total,
            pk * up == pow2(150),
            up > 0,
    ;
    assert((r + 1) * pow2(150) == r * pow2(150) + pow2(150)) by (nonlinear_arith);
    vstd::arithmetic::div_mod::lemma_fundamental_div_mod_converse(
        total as int,
        pow2(150) as int,
        r as int,
        total - r * pow2(150),
    );
}

/// A whole number is its own nearest integer.
proof fn lemma_whole(sig: nat, extra: nat)
    ensures
        (2 * (sig * pow2(149 + extra)) + pow2(149)) / pow2(150) == sig * pow2(extra),
{
    lemma_pow2_adds(149, extra);
    lemma_pow2_unfold(150);
    lemma_pow2_pos(149);
    let p = pow2(extra);
    let q = pow2(149);
    let r = sig * p;
    assert(2 * (sig * (q * p)) + q == r * (2 * q) + q) by (nonlinear_arith)
        requires
            r == sig * p,
    ;
    vstd::arithmetic::div_mod::lemma_fundamental_div_mod_converse(
        (2 * (sig * pow2(149 + extra)) + q) as int,
        (2 * q) as int,
        r as int,
        q as int,
    );
}

/// A coordinate snapped to the pixel grid, or `None` when it is not finite or
/// lies outside `[-2^31, 2^31]`.
pub fn snap(bits: u32) -> (pixel: Option<i32>)
    ensures
        match pixel {
            Some(p) => is_finite(bits) && fits_grid(bits) && p == snapped(bits),
            None => !(is_finite(bits) && fits_grid(bits)),
        },
{
    let exponent: u32 = (bits / 0x80_0000) % 0x100;
    let fraction: u32 = bits % 0x80_0000;
    if exponent == 0xff {
        return None;
    }
    let sig: u64 = if exponent == 0 { fraction as u64 } else { 0x80_0000 + fraction as u64 };
    let steps: u32 = if exponent == 0 { 0 } else { exponent - 1 };
    assert(sig == significand(bits) && steps == doublings(bits));
    proof {
        lemma2_to64();
    }
    let rounded: u64 = if steps >= 149 {
        let extra: u32 = steps - 149;
        proof {
            lemma_pow2_adds(149, extra as nat);
            lemma_whole(sig as nat, extra as nat);
        }
        // A normal number: the significand is at least 2^23.
        if extra > 8 {
            proof {
                lemma_pow2_pos(149);
                lemma_pow2_strictly_increases(180, 181);
                lemma_pow2_adds(23, 158);
                if extra > 9 {
                    lemma_pow2_strictly_increases(158, steps as nat);
                }
                lemma_mul_inequality(0x80_0000, sig as int, pow2(steps as nat) as int);
                lemma_mul_inequality(
                    pow2(158) as int,
                    pow2(steps as nat) as int,
                    0x80_0000,
                );
                lemma_mul_is_commutative(0x80_0000, pow2(158) as int);
                lemma_mul_is_commutative(0x80_0000, pow2(steps as nat) as int);
            }
            return None;
        }
        let p: u64 = power(extra);
        assert(sig * p <= 0x100_0000 * 256) by (nonlinear_arith)
            requires
                sig <= 0x100_0000,
                p <= 256,
        ;
        sig * p
    } else {
        let k: u32 = 149 - steps;
        if k > 25 {
            proof {
                if k > 26 {
                    lemma_pow2_strictly_increases(25, (k - 1) as nat);
                }
                lemma_pow2_unfold(k as nat);
                assert(sig < pow2((k - 1) as nat));
                assert(0 * pow2(k as nat) == 0 && (0 + 1) * pow2(k as nat) == pow2(k as nat))
                    by (nonlinear_arith);
                lemma_round_down(sig as nat, k as nat, 0);
            }
            0
        } else {
            let step: u64 = power(k);
            let half: u64 = power(k - 1);
            let r: u64 = (sig + half) / step;
            proof {
                if k < 25 {
                    lemma_pow2_strictly_increases(k as nat, 25);
                }
                lemma_pow2_unfold(k as nat);
                vstd::arithmetic::div_mod::lemma_fundamental_div_mod(
                    (sig + half) as int,
                    step as int,
                );
                let rest = (sig + half) % (step as int);
                assert(r * step <= sig + half < (r + 1) * step) by (nonlinear_arith)
                    requires
                        sig + half == step * r + rest,
                        0 <= rest < step,
                ;
                lemma_round_down(sig as nat, k as nat, r as nat);
            }
            r
        }
    };
    if rounded > 0x8000_0000 {
        proof {
            lemma_grid_limit(magnitude(bits), rounded as nat);
        }
        return None;
    }
    proof {
        lemma_on_grid(bits, rounded as nat);
    }
    if bits >= 0x8000_0000 {
        Some((-(rounded as i64)) as i32)
    } else if rounded == 0x8000_0000 {
        Some(i32::MAX)
    } else {
        Some(rounded as i32)
    }
}

/// A magnitude that rounds past `2^31` is past `2^31` itself.
proof fn lemma_grid_limit(m: nat, rounded: nat)
    requires
        rounded == (2 * m + pow2(149)) / pow2(150),
        rounded > 0x8000_0000,
    ensures
        m > pow2(180),
{
    lemma2_to64();
    lemma_pow2_adds(31, 150);
    lemma_pow2_unfold(150);
    lemma_pow2_unfold(181);
    lemma_pow2_pos(149);
    vstd::arithmetic::div_mod::lemma_fundamental_div_mod(
        (2 * m + pow2(149)) as int,
        pow2(150) as int,
    );
    let q = pow2(150);
    assert(q * rounded >= q * 0x8000_0001) by (nonlinear_arith)
        requires
            rounded >= 0x8000_0001,
    ;
}

/// A single-precision magnitude that rounds to at most `2^31` is at most
/// `2^31`: between `2^31` and the next pixel there is no such number.
proof fn lemma_on_grid(bits: u32, rounded: nat)
    requires
        is_finite(bits),
        rounded == (2 * magnitude(bits) + pow2(149)) / pow2(150),
        rounded <= 0x8000_0000,
    ensures
        fits_grid(bits),
{
    lemma2_to64();
    let steps = doublings(bits);
    let sig = significand(bits);
    lemma_pow2_adds(31, 149);
    lemma_pow2_pos(149);
    if steps >= 149 {
        let extra = (steps - 149) as nat;
        lemma_whole(sig, extra);
        lemma_pow2_adds(149, extra);
        let r = sig * pow2(extra);
        let q = pow2(149);
        assert(sig * (q * pow2(extra)) == r * q) by (nonlinear_arith)
            requires
                r == sig * pow2(extra),
        ;
        lemma_mul_inequality(r as int, 0x8000_0000, q as int);
    } else {
        lemma_mul_inequality(sig as int, 0x100_0000, pow2(steps) as int);
        lemma_pow2_strictly_increases(steps, 149);
        lemma_mul_inequality(pow2(steps) as int, pow2(149) as int, 0x100_0000);
        lemma_mul_is_commutative(0x100_0000, pow2(steps) as int);
        lemma_mul_is_commutative(0x100_0000, pow2(149) as int);
    }
}

/// The numbers above zero are as far apart as their exponent says: the bits
/// count the smallest steps up to the first doubling, and every next exponent
/// doubles the step. The sign bit changes no magnitude.
pub proof fn law_bits_count_steps(bits: u32)
    requires
        bits + 1 < 0x7f80_0000,
    ensures
        magnitude(0) == 0,
        magnitude((bits + 1) as u32) - magnitude(bits) == pow2(
            if bits < 0x80_0000 {
                0
            } else {
                (bits / 0x80_0000 - 1) as nat
            },
        ),
        magnitude((bits + 0x8000_0000) as u32) == magnitude(bits),
        !is_negative(bits),
        is_negative((bits + 0x8000_0000) as u32),
        is_finite(bits) && is_finite((bits + 0x8000_0000) as u32),
{
    lemma2_to64();
    let next = (bits + 1) as u32;
    let e = bits / 0x80_0000;
    let f = bits % 0x80_0000;
    let s = significand(bits) as int;
    let p = pow2(doublings(bits)) as int;
    assert(0 * pow2(0) == 0) by (nonlinear_arith);
    assert(magnitude(0) == 0);
    let other = (bits + 0x8000_0000) as u32;
    assert(exponent_field(other) == exponent_field(bits));
    assert(fraction_field(other) == fraction_field(bits));
    if f + 1 < 0x80_0000 {
        assert((s + 1) * p - s * p == p) by (nonlinear_arith);
        assert(significand(next) == s + 1 && doublings(next) == doublings(bits));
    } else if e == 0 {
        assert(significand(next) == 0x80_0000 && doublings(next) == 0);
        assert(0x80_0000 * pow2(0) - 0x7f_ffff * pow2(0) == pow2(0)) by (nonlinear_arith);
    } else {
        assert(significand(next) == 0x80_0000 && doublings(next) == doublings(bits) + 1);
        lemma_pow2_unfold(doublings(next));
        assert(0x80_0000 * (2 * p) - 0xff_ffff * p == p) by (nonlinear_arith);
    }
}

/// A number snaps to the nearest pixel: it is at most half a pixel away, and
/// where two pixels are as near, the one further from zero is taken. Numbers
/// below zero mirror those above. The one coordinate that does not exist becomes
/// the last one.
pub proof fn law_snapping_goes_to_the_nearest_pixel(bits: u32)
    ensures
        ({
            let m = magnitude(bits) as int;
            let pixel = pow2(149) as int;
            let n = if bits < 0x8000_0000 {
                nearest(bits)
            } else {
                -nearest(bits)
            };
            &&& 2 * m - pixel < 2 * (n * pixel) <= 2 * m + pixel
            &&& n >= 0
        }),
        nearest(bits) < 0x8000_0000 ==> snapped(bits) == nearest(bits),
        nearest(bits) >= 0x8000_0000 ==> snapped(bits) == 0x7fff_ffff,
        fits_grid(bits) <==> magnitude(bits) <= 0x8000_0000 * pow2(149),
{
    lemma2_to64();
    let m = magnitude(bits) as int;
    let pixel = pow2(149) as int;
    lemma_pow2_unfold(150);
    lemma_pow2_pos(149);
    lemma_pow2_adds(31, 149);
    vstd::arithmetic::div_mod::lemma_fundamental_div_mod(2 * m + pixel, 2 * pixel);
    let n = (2 * m + pixel) / (2 * pixel);
    let rest = (2 * m + pixel) % (2 * pixel);
    assert((2 * pixel) * n == 2 * (n * pixel)) by (nonlinear_arith);
    assert(n >= 0) by (nonlinear_arith)
        requires
            2 * m + pixel == (2 * pixel) * n + rest,
            0 <= rest < 2 * pixel,
            m >= 0,
            pixel > 0,
    ;
}

/// Factors above zero and below infinity stay as they are; everything else
/// becomes 1.0.
pub proof fn law_unusable_factors_become_one(bits: u32)
    ensures
        1 <= bits <= 0x7f7f_ffff ==> ScaleFactor::sanitized(bits).bits == bits,
        bits == 0 || bits > 0x7f7f_ffff ==> ScaleFactor::sanitized(bits).bits == 0x3f80_0000,
{
}

/// The larger of two factors is one of them, and neither is above it.
pub proof fn law_the_larger_factor_is_the_larger(a: ScaleFactor, b: ScaleFactor)
    requires
        a.wf(),
        b.wf(),
    ensures
        a.larger_of(b) == a || a.larger_of(b) == b,
        magnitude(a.bits) <= magnitude(a.larger_of(b).bits),
        magnitude(b.bits) <= magnitude(a.larger_of(b).bits),
{
    law_order_of_bits(a.bits, b.bits);
    law_order_of_bits(b.bits, a.bits);
}

/// The order of positive finite numbers is the order of their bits.
pub proof fn law_order_of_bits(a: u32, b: u32)
    requires
        is_positive_finite(a),
        is_positive_finite(b),
    ensures
        magnitude(a) < magnitude(b) <==> a < b,
{
    if a < b {
        lemma_order_of_bits(a, b);
    } else if b < a {
        lemma_order_of_bits(b, a);
    }
}

proof fn lemma_order_of_bits(a: u32, b: u32)
    requires
        is_positive_finite(a),
        is_positive_finite(b),
        a < b,
    ensures
        magnitude(a) < magnitude(b),
{
    let sa = significand(a);
    let sb = significand(b);
    let pa = pow2(doublings(a));
    let pb = pow2(doublings(b));
    lemma_pow2_pos(doublings(a));
    lemma_pow2_pos(doublings(b));
    if doublings(a) == doublings(b) {
        assert(sa < sb);
        lemma_mul_strict_inequality(sa as int, sb as int, pa as int);
    } else {
        assert(doublings(a) < doublings(b));
        assert(sa < 0x100_0000 <= 2 * sb);
        lemma_pow2_adds(1, doublings(a));
        lemma2_to64();
        if doublings(a) + 1 < doublings(b) {
            lemma_pow2_strictly_increases(1 + doublings(a), doublings(b));
        }
        assert(pow2(1 + doublings(a)) <= pb);
        assert(sa * pa < sb * pb) by (nonlinear_arith)
            requires
                sa < 2 * sb,
                2 * pa <= pb,
                pa > 0,
        ;
    }
}

/// A positive scale factor: 1.0 is 100%, 1.5 is 150%.
#[derive(Debug, Clone, Copy, PartialEq, Eq, Structural)]
pub struct ScaleFactor {
    /// The factor's single-precision encoding.
    pub bits: u32,
}

impl ScaleFactor {
    /// A finite factor above zero.
    pub open spec fn wf(self) -> bool {
        is_positive_finite(self.bits)
    }

    /// What [`ScaleFactor::from_bits`] makes of `bits`.
    pub open spec fn sanitized(bits: u32) -> ScaleFactor {
        if is_positive_finite(bits) {
            ScaleFactor { bits }
        } else {
            ScaleFactor { bits: ONE_BITS }
        }
    }

    /// The larger of the two factors.
    pub open spec fn larger_of(self, other: ScaleFactor) -> ScaleFactor {
        if self.bits < other.bits {
            other
        } else {
            self
        }
    }

    /// The unscaled factor, 1.0.
    pub fn one() -> (scale: ScaleFactor)
        ensures
            scale == (ScaleFactor { bits: ONE_BITS }),
            scale.wf(),
    {
        ScaleFactor { bits: ONE_BITS }
    }

    /// Zero, negative and non-finite factors would poison every later division:
    /// they become 1.0.
    pub fn from_bits(bits: u32) -> (scale: ScaleFactor)
        ensures
            scale == ScaleFactor::sanitized(bits),
            scale.wf(),
    {
        if bits > 0 && bits < INFINITY_BITS {
            ScaleFactor { bits }
        } else {
            ScaleFactor::one()
        }
    }

    /// The larger of the two factors.
    pub fn larger(self, other: ScaleFactor) -> (scale: ScaleFactor)
        ensures
            scale == self.larger_of(other),
    {
        if self.bits < other.bits {
            other
        } else {
            self
        }
    }
}

} // verus!
