//! Square root of a binary64 bit pattern, computed and proved over integer
//! arithmetic alone.
//!
//! For a positive finite operand the result is the square root rounded to
//! the nearest representable binary64 value. The rounding is expressed with
//! the integer square root: writing the operand as m·2^e and scaling it to
//! g = m·2^k with an even remaining exponent and 106 to 108 significant
//! bits, the rounded significand is ceil(isqrt(g) / 2). A tie between two
//! neighbouring significands would need g to be the square of an odd
//! number, while g carries the factor 2^k with k at least 54, so no tie can
//! occur and this is round-to-nearest.

use vstd::prelude::*;

use vstd::arithmetic::div_mod::lemma_fundamental_div_mod;
use vstd::arithmetic::mul::lemma_mul_inequality;
use vstd::arithmetic::power2::{
    lemma2_to64, lemma2_to64_rest, lemma_pow2_adds, lemma_pow2_pos,
    lemma_pow2_strictly_increases, lemma_pow2_unfold, pow2,
};

verus! {

/// The canonical quiet NaN, returned for a NaN or negative operand.
pub const SC_QNAN: u64 = 0x7FF8_0000_0000_0000;

/// `r` is the integer square root of `n`.
pub open spec fn is_int_sqrt(n: nat, r: nat) -> bool {
    r * r <= n && n < (r + 1) * (r + 1)
}

/// The integer square root of `n`.
pub open spec fn spec_int_sqrt(n: nat) -> nat {
    choose|r: nat| is_int_sqrt(n, r)
}

proof fn lemma_int_sqrt_exists(n: nat)
    ensures
        is_int_sqrt(n, spec_int_sqrt(n)),
    decreases n,
{
    if n == 0 {
        assert(0 * 0 <= 0 && 0 < (0 + 1) * (0 + 1)) by (nonlinear_arith);
        assert(is_int_sqrt(0, 0));
    } else {
        lemma_int_sqrt_exists((n - 1) as nat);
        let r = spec_int_sqrt((n - 1) as nat);
        if n < (r + 1) * (r + 1) {
            assert(is_int_sqrt(n, r));
        } else {
            // n - 1 < (r + 1)^2 <= n forces n == (r + 1)^2
            assert((r + 1) * (r + 1) <= n);
            assert(n == (r + 1) * (r + 1));
            assert((r + 1) * (r + 1) < (r + 2) * (r + 2)) by (nonlinear_arith);
            assert(is_int_sqrt(n, r + 1));
        }
    }
    assert(exists|r: nat| is_int_sqrt(n, r));
}

proof fn lemma_int_sqrt_unique(n: nat, a: nat, b: nat)
    requires
        is_int_sqrt(n, a),
        is_int_sqrt(n, b),
    ensures
        a == b,
{
    if a < b {
        assert((a + 1) * (a + 1) <= b * b) by (nonlinear_arith)
            requires
                a + 1 <= b,
        ;
    }
    if b < a {
        assert((b + 1) * (b + 1) <= a * a) by (nonlinear_arith)
            requires
                b + 1 <= a,
        ;
    }
}

/// The integer square root, by bisection.
pub fn int_sqrt(n: u128) -> (r: u128)
    ensures
        is_int_sqrt(n as nat, r as nat),
        r < 0x1_0000_0000_0000_0000,
{
    let mut lo: u128 = 0;
    let mut hi: u128 = 0x1_0000_0000_0000_0000;
    proof {
        assert((0x1_0000_0000_0000_0000 as int) * (0x1_0000_0000_0000_0000 as int) == (
        0xFFFF_FFFF_FFFF_FFFF_FFFF_FFFF_FFFF_FFFFu128 as int) + 1) by (nonlinear_arith);
    }
    while hi - lo > 1
        invariant
            lo < hi <= 0x1_0000_0000_0000_0000,
            (lo as nat) * (lo as nat) <= n as nat,
            (n as int) < (hi as int) * (hi as int),
        decreases hi - lo,
    {
        let mid = lo + (hi - lo) / 2;
        proof {
            assert((mid as int) * (mid as int) <= (0xFFFF_FFFF_FFFF_FFFF as int) * (
            0xFFFF_FFFF_FFFF_FFFF as int)) by (nonlinear_arith)
                requires
                    0 <= mid as int <= 0xFFFF_FFFF_FFFF_FFFF as int,
            ;
            assert((0xFFFF_FFFF_FFFF_FFFF as int) * (0xFFFF_FFFF_FFFF_FFFF as int)
                <= 0xFFFF_FFFF_FFFF_FFFF_FFFF_FFFF_FFFF_FFFFu128 as int) by (nonlinear_arith);
        }
        if mid * mid <= n {
            lo = mid;
        } else {
            hi = mid;
        }
    }
    lo
}

/// The index of the most significant set bit.
pub open spec fn msb(m: nat) -> nat
    decreases m,
{
    if m < 2 {
        0
    } else {
        1 + msb(m / 2)
    }
}

proof fn lemma_msb_bounds(m: nat)
    requires
        m >= 1,
    ensures
        pow2(msb(m)) <= m < pow2(msb(m) + 1),
    decreases m,
{
    if m < 2 {
        assert(pow2(0) == 1 && pow2(1) == 2) by {
            lemma2_to64();
        }
    } else {
        lemma_msb_bounds(m / 2);
        lemma_pow2_unfold(msb(m));
        lemma_pow2_unfold(msb(m) + 1);
        lemma_fundamental_div_mod(m as int, 2);
    }
}

/// The index of the most significant set bit of a positive word.
fn msb_index(m: u64) -> (t: u64)
    requires
        m >= 1,
    ensures
        t == msb(m as nat),
        t < 64,
{
    proof {
        lemma_msb_bounds(m as nat);
        lemma2_to64();
        if msb(m as nat) >= 64 {
            if msb(m as nat) > 64 {
                lemma_pow2_strictly_increases(64, msb(m as nat));
            }
            assert(false);
        }
    }
    let mut t: u64 = 0;
    let mut cur: u64 = m;
    while cur >= 2
        invariant
            cur >= 1,
            msb(m as nat) == t + msb(cur as nat),
            msb(m as nat) < 64,
        decreases cur,
    {
        cur = cur / 2;
        t = t + 1;
    }
    proof {
        assert(msb(cur as nat) == 0);
    }
    t
}

/// The square root of the positive finite value m·2^e, rounded to nearest,
/// as the bit pattern of the resulting binary64 value.
///
/// `d` is the floor of (e + t − 104)/2, written with an even offset so that
/// the dividend stays nonnegative; the remaining exponent k = e + 2 − 2d is
/// then 106 − t or 107 − t, which places g = m·2^k in [2^106, 2^108) and
/// the rounded significand in [2^52, 2^53].
pub open spec fn sqrt_pos_bits(m: nat, e: int) -> u64
    recommends
        1 <= m < 0x20_0000_0000_0000,
        -1074 <= e <= 971,
{
    let t = msb(m);
    let a = e + t;
    let d = (a + 3896) / 2 - 2000;
    let k = (e + 2 - 2 * d) as nat;
    let g = m * pow2(k);
    let q = spec_int_sqrt(g);
    let r0 = (q + 1) / 2;
    let r = if r0 == 0x20_0000_0000_0000 {
        0x10_0000_0000_0000 as nat
    } else {
        r0
    };
    let d2 = if r0 == 0x20_0000_0000_0000 {
        d + 1
    } else {
        d
    };
    (((d2 + 1075) * 0x10_0000_0000_0000) + (r - 0x10_0000_0000_0000)) as u64
}

/// The square root of a binary64 bit pattern: zeros keep their sign, a
/// positive infinity stays, a NaN or a negative nonzero operand gives the
/// canonical quiet NaN, and a positive finite operand is rounded to
/// nearest as `sqrt_pos_bits` states.
pub open spec fn sqrt_bits(b: u64) -> u64 {
    let sign = b / 0x8000_0000_0000_0000;
    let biased = (b / 0x10_0000_0000_0000) % 0x800;
    let frac = b % 0x10_0000_0000_0000;
    if biased == 0x7FF {
        if frac == 0 && sign == 0 {
            b
        } else {
            SC_QNAN
        }
    } else if b == 0 || b == 0x8000_0000_0000_0000 {
        b
    } else if sign == 1 {
        SC_QNAN
    } else {
        let m = if biased == 0 {
            frac as nat
        } else {
            (0x10_0000_0000_0000 + frac) as nat
        };
        let e = (if biased == 0 {
            1
        } else {
            biased as int
        }) - 1075;
        sqrt_pos_bits(m, e)
    }
}

/// The square root of the positive finite value m·2^e.
fn sqrt_pos(m: u64, e: i64) -> (res: u64)
    requires
        1 <= m < 0x20_0000_0000_0000,
        -1074 <= e <= 971,
    ensures
        res == sqrt_pos_bits(m as nat, e as int),
{
    let t: u64 = msb_index(m);
    proof {
        lemma_msb_bounds(m as nat);
        lemma2_to64();
        lemma2_to64_rest();
        if t >= 53 {
            if t > 53 {
                lemma_pow2_strictly_increases(53, t as nat);
            }
            assert(false);
        }
    }
    let a: i64 = e + t as i64;
    let an: u64 = (a + 3896) as u64;
    let dn: u64 = an / 2;
    let d: i64 = dn as i64 - 2000;
    proof {
        lemma_fundamental_div_mod(an as int, 2);
    }
    // k == 106 - t + (an % 2), so 54 <= k <= 107
    let k: u64 = (e + 2 - 2 * d) as u64;
    let ghost gk = (m as nat) * pow2(k as nat);
    proof {
        // pow2(106) and pow2(108) as literals
        lemma_pow2_adds(53, 53);
        lemma_pow2_adds(54, 54);
        assert(pow2(106) == 0x4_0000000000000_0000000000000) by (nonlinear_arith)
            requires
                pow2(106) == pow2(53) * pow2(53),
                pow2(53) == 0x20000000000000,
        ;
        assert(pow2(108) == 0x10_0000000000000_0000000000000) by (nonlinear_arith)
            requires
                pow2(108) == pow2(54) * pow2(54),
                pow2(54) == 0x40000000000000,
        ;
        // gk < pow2(t + 1 + k) <= pow2(108)
        lemma_pow2_pos(k as nat);
        lemma_pow2_adds((t + 1) as nat, k as nat);
        assert(gk < pow2((t + 1 + k) as nat)) by (nonlinear_arith)
            requires
                gk == (m as nat) * pow2(k as nat),
                (m as nat) < pow2((t + 1) as nat),
                pow2(k as nat) > 0,
                pow2((t + 1 + k) as nat) == pow2((t + 1) as nat) * pow2(k as nat),
        ;
        if t + 1 + k < 108 {
            lemma_pow2_strictly_increases((t + 1 + k) as nat, 108);
        }
        // gk >= pow2(t + k) >= pow2(106)
        lemma_pow2_adds(t as nat, k as nat);
        assert(gk >= pow2((t + k) as nat)) by (nonlinear_arith)
            requires
                gk == (m as nat) * pow2(k as nat),
                (m as nat) >= pow2(t as nat),
                pow2(k as nat) > 0,
                pow2((t + k) as nat) == pow2(t as nat) * pow2(k as nat),
        ;
        if 106 < t + k {
            lemma_pow2_strictly_increases(106, (t + k) as nat);
        }
        assert(gk >= 0x4_0000000000000_0000000000000);
        assert(gk < 0x10_0000000000000_0000000000000);
        assert(pow2(0) == 1);
    }
    let mut g: u128 = m as u128;
    let mut i: u64 = 0;
    while i < k
        invariant
            i <= k,
            1 <= m,
            g == (m as nat) * pow2(i as nat),
            gk == (m as nat) * pow2(k as nat),
            gk < 0x10_0000000000000_0000000000000,
        decreases k - i,
    {
        proof {
            lemma_pow2_unfold((i + 1) as nat);
            if i + 1 < k {
                lemma_pow2_strictly_increases((i + 1) as nat, k as nat);
            }
            assert(2 * ((m as nat) * pow2(i as nat)) <= (m as nat) * pow2(k as nat))
                by (nonlinear_arith)
                requires
                    pow2((i + 1) as nat) == 2 * pow2(i as nat),
                    pow2((i + 1) as nat) <= pow2(k as nat),
                    m >= 1,
            ;
            assert((m as nat) * pow2((i + 1) as nat) == 2 * ((m as nat) * pow2(i as nat)))
                by (nonlinear_arith)
                requires
                    pow2((i + 1) as nat) == 2 * pow2(i as nat),
            ;
        }
        g = g * 2;
        i = i + 1;
    }
    let q: u128 = int_sqrt(g);
    proof {
        assert(is_int_sqrt(gk, q as nat));
        assert(is_int_sqrt(gk, spec_int_sqrt(gk)));
        lemma_int_sqrt_unique(gk, q as nat, spec_int_sqrt(gk));
        // 2^53 <= q < 2^54 since (q+1)^2 > gk >= 2^106 and q^2 <= gk < 2^108
        assert(q >= 0x20000000000000) by (nonlinear_arith)
            requires
                ((q as int) + 1) * ((q as int) + 1) > gk,
                gk >= 0x4_0000000000000_0000000000000,
                q >= 0,
        ;
        assert(q < 0x40000000000000) by (nonlinear_arith)
            requires
                (q as int) * (q as int) <= gk,
                gk < 0x10_0000000000000_0000000000000,
                q >= 0,
        ;
    }
    let r0: u128 = (q + 1) / 2;
    let (r, d2): (u64, i64) = if r0 == 0x20_0000_0000_0000 {
        (0x10_0000_0000_0000u64, d + 1)
    } else {
        (r0 as u64, d)
    };
    ((d2 + 1075) as u64) * 0x10_0000_0000_0000 + (r - 0x10_0000_0000_0000)
}

/// The square root of a binary64 bit pattern, rounded to nearest.
pub fn sqrt_scalar(b: u64) -> (r: u64)
    ensures
        r == sqrt_bits(b),
{
    let sign: u64 = b / 0x8000_0000_0000_0000;
    let biased: u64 = (b / 0x10_0000_0000_0000) % 0x800;
    let frac: u64 = b % 0x10_0000_0000_0000;
    if biased == 0x7FF {
        if frac == 0 && sign == 0 {
            b
        } else {
            SC_QNAN
        }
    } else if b == 0 || b == 0x8000_0000_0000_0000 {
        b
    } else if sign == 1 {
        SC_QNAN
    } else {
        let m: u64 = if biased == 0 {
            frac
        } else {
            0x10_0000_0000_0000 + frac
        };
        let e: i64 = (if biased == 0 {
            1i64
        } else {
            biased as i64
        }) - 1075;
        proof {
            if m == 0 {
                assert(false);
            }
        }
        sqrt_pos(m, e)
    }
}

} // verus!

verus! {

/// The integer significand of a positive finite bit pattern: the fraction
/// field, with the implicit leading bit added for a normal value.
pub open spec fn pos_sig(b: u64) -> nat {
    let biased = (b / 0x10_0000_0000_0000) % 0x800;
    let frac = b % 0x10_0000_0000_0000;
    if biased == 0 {
        frac as nat
    } else {
        (0x10_0000_0000_0000 + frac) as nat
    }
}

/// The exponent of a positive finite bit pattern, placed so that the
/// encoded value is pos_sig(b)·2^pos_exp(b).
pub open spec fn pos_exp(b: u64) -> int {
    let biased = (b / 0x10_0000_0000_0000) % 0x800;
    (if biased == 0 {
        1
    } else {
        biased as int
    }) - 1075
}

/// The square root is rounded to nearest: writing the operand as m·2^e and
/// the result as r·2^d, the square of the result less half an ulp is at
/// most the operand, and the square of the result plus half an ulp exceeds
/// it. Every power of two is shifted up by 2152 so that the exponents stay
/// nonnegative; the operand side carries the two extra doublings of the
/// half-ulp scale.
pub proof fn lemma_sqrt_rounds_to_nearest(b: u64)
    requires
        0 < b < 0x7FF0_0000_0000_0000,
    ensures
        ({
            let m = pos_sig(b);
            let e = pos_exp(b);
            let rr = pos_sig(sqrt_bits(b));
            let dd = pos_exp(sqrt_bits(b));
            &&& rr >= 0x10_0000_0000_0000
            &&& (2 * rr - 1) * (2 * rr - 1) * pow2((2 * dd + 2152) as nat) <= m * pow2(
                (e + 2154) as nat,
            )
            &&& m * pow2((e + 2154) as nat) < (2 * rr + 1) * (2 * rr + 1) * pow2(
                (2 * dd + 2152) as nat,
            )
        }),
{
    lemma2_to64();
    lemma2_to64_rest();
    let biased = (b / 0x10_0000_0000_0000) % 0x800;
    let frac = b % 0x10_0000_0000_0000;
    let m = pos_sig(b);
    let e = pos_exp(b);
    assert(b / 0x8000_0000_0000_0000 == 0);
    assert(biased < 0x7FF);
    assert(m >= 1);
    assert(m < 0x20_0000_0000_0000);
    assert(-1074 <= e <= 971);
    assert(sqrt_bits(b) == sqrt_pos_bits(m, e));

    // the quantities of the definition
    let t = msb(m);
    lemma_msb_bounds(m);
    if t >= 53 {
        if t > 53 {
            lemma_pow2_strictly_increases(53, t);
        }
        assert(false);
    }
    let a = e + t;
    let d = (a + 3896) / 2 - 2000;
    lemma_fundamental_div_mod(a + 3896, 2);
    let k = (e + 2 - 2 * d) as nat;
    assert(k + 2 * d == e + 2);
    let g = m * pow2(k);
    let q = spec_int_sqrt(g);
    lemma_int_sqrt_exists(g);

    // 2^106 <= g < 2^108, so 2^53 <= q < 2^54
    lemma_pow2_adds(53, 53);
    lemma_pow2_adds(54, 54);
    assert(pow2(106) == 0x4_0000000000000_0000000000000) by (nonlinear_arith)
        requires
            pow2(106) == pow2(53) * pow2(53),
            pow2(53) == 0x20000000000000,
    ;
    assert(pow2(108) == 0x10_0000000000000_0000000000000) by (nonlinear_arith)
        requires
            pow2(108) == pow2(54) * pow2(54),
            pow2(54) == 0x40000000000000,
    ;
    lemma_pow2_pos(k);
    lemma_pow2_adds((t + 1) as nat, k);
    assert(g < pow2(((t + 1) + k) as nat)) by (nonlinear_arith)
        requires
            g == m * pow2(k),
            (m as nat) < pow2((t + 1) as nat),
            pow2(k) > 0,
            pow2(((t + 1) + k) as nat) == pow2((t + 1) as nat) * pow2(k),
    ;
    if t + 1 + k < 108 {
        lemma_pow2_strictly_increases((t + 1 + k) as nat, 108);
    }
    lemma_pow2_adds(t, k);
    assert(g >= pow2((t + k) as nat)) by (nonlinear_arith)
        requires
            g == m * pow2(k),
            (m as nat) >= pow2(t),
            pow2(k) > 0,
            pow2((t + k) as nat) == pow2(t) * pow2(k),
    ;
    if 106 < t + k {
        lemma_pow2_strictly_increases(106, (t + k) as nat);
    }
    assert(q >= 0x20000000000000) by (nonlinear_arith)
        requires
            ((q as int) + 1) * ((q as int) + 1) > g,
            g >= 0x4_0000000000000_0000000000000,
            q >= 0,
    ;
    assert(q < 0x40000000000000) by (nonlinear_arith)
        requires
            (q as int) * (q as int) <= g,
            g < 0x10_0000000000000_0000000000000,
            q >= 0,
    ;

    let r0 = (q + 1) / 2;
    lemma_fundamental_div_mod((q + 1) as int, 2);
    assert(2 * r0 - 1 <= q);
    assert(q + 1 <= 2 * r0 + 1);
    let rs: nat = if r0 == 0x20_0000_0000_0000 {
        0x10_0000_0000_0000 as nat
    } else {
        r0
    };
    let ds: int = if r0 == 0x20_0000_0000_0000 {
        d + 1
    } else {
        d
    };
    let res = sqrt_pos_bits(m, e);
    assert(res == (((ds + 1075) * 0x10_0000_0000_0000) + (rs - 0x10_0000_0000_0000)) as u64);

    // the result decodes back to (rs, ds)
    assert(486 <= ds + 1075 <= 1535);
    assert(0x10_0000_0000_0000 <= rs < 0x20_0000_0000_0000);
    let resv = ((ds + 1075) * 0x10_0000_0000_0000) + (rs - 0x10_0000_0000_0000);
    assert(resv < 0x8000_0000_0000_0000) by (nonlinear_arith)
        requires
            ds + 1075 <= 1535,
            rs < 0x20_0000_0000_0000,
            resv == ((ds + 1075) * 0x10_0000_0000_0000) + (rs - 0x10_0000_0000_0000),
    ;
    assert(res == resv);
    assert(resv / 0x10_0000_0000_0000 == ds + 1075 && resv % 0x10_0000_0000_0000 == rs
        - 0x10_0000_0000_0000) by (nonlinear_arith)
        requires
            resv == ((ds + 1075) * 0x10_0000_0000_0000) + (rs - 0x10_0000_0000_0000),
            0 <= rs - 0x10_0000_0000_0000 < 0x10_0000_0000_0000,
            ds + 1075 >= 0,
    ;
    assert(pos_sig(res) == rs);
    assert(pos_exp(res) == ds);

    // (2rs - 1)^2 <= g and g < (2rs + 1)^2, in both branches
    let lo = 2 * rs - 1;
    let hi = 2 * rs + 1;
    if r0 == 0x20_0000_0000_0000 {
        // q can only be 2^54 - 1 here, and rs renormalizes to 2^52
        assert(q == 0x40000000000000 - 1);
        assert(lo == 0x1F_FFFF_FFFF_FFFF);
        assert(hi == 0x20_0000_0000_0001);
        assert(g >= (0x40000000000000i128 - 1) * (0x40000000000000i128 - 1)) by (nonlinear_arith)
            requires
                (q as int) * (q as int) <= g,
                q == 0x40000000000000 - 1,
        ;
    } else {
        assert(lo * lo <= (q as int) * (q as int)) by (nonlinear_arith)
            requires
                0 <= lo <= q,
        ;
        assert(((q as int) + 1) * ((q as int) + 1) <= hi * hi) by (nonlinear_arith)
            requires
                0 <= (q as int) + 1 <= hi,
        ;
    }

    // the renormalized branch doubles the scale once on each side
    let scale = pow2((2 * ds + 2152) as nat);
    let gscale = pow2((2 * d + 2152) as nat);
    if r0 == 0x20_0000_0000_0000 {
        // careful: lo and hi shrink by half while the scale quadruples
        lemma_pow2_adds((2 * d + 2152) as nat, 2);
        assert(scale == gscale * 4);
    } else {
        assert(scale == gscale);
    }

    // g * 2^(2d + 2152) == m * 2^(e + 2154)
    lemma_pow2_adds(k, (2 * d + 2152) as nat);
    assert(g * gscale == m * pow2((e + 2154) as nat)) by (nonlinear_arith)
        requires
            g == m * pow2(k),
            pow2(k) * pow2((2 * d + 2152) as nat) == pow2((k + 2 * d + 2152) as nat),
            gscale == pow2((2 * d + 2152) as nat),
            pow2((k + 2 * d + 2152) as nat) == pow2((e + 2154) as nat),
    ;

    lemma_pow2_pos((2 * d + 2152) as nat);
    if r0 == 0x20_0000_0000_0000 {
        assert(lo * lo * 4 <= g) by (nonlinear_arith)
            requires
                lo == 0x1F_FFFF_FFFF_FFFF,
                g >= (0x40000000000000i128 - 1) * (0x40000000000000i128 - 1),
        ;
        assert(lo * lo * scale <= g * gscale) by (nonlinear_arith)
            requires
                lo * lo * 4 <= g,
                scale == gscale * 4,
                gscale > 0,
        ;
        assert(g < hi * hi * 4) by (nonlinear_arith)
            requires
                hi == 0x20_0000_0000_0001,
                g < 0x10_0000000000000_0000000000000,
        ;
        assert(g * gscale < hi * hi * scale) by (nonlinear_arith)
            requires
                g < hi * hi * 4,
                scale == gscale * 4,
                gscale > 0,
        ;
    } else {
        assert(lo * lo * scale <= g * gscale) by (nonlinear_arith)
            requires
                lo * lo <= g,
                scale == gscale,
                gscale > 0,
        ;
        assert(g * gscale < hi * hi * scale) by (nonlinear_arith)
            requires
                g < hi * hi,
                scale == gscale,
                gscale > 0,
        ;
    }
    assert((2 * rs - 1) * (2 * rs - 1) * pow2((2 * ds + 2152) as nat) <= m * pow2(
        (e + 2154) as nat,
    ));
    assert(m * pow2((e + 2154) as nat) < (2 * rs + 1) * (2 * rs + 1) * pow2(
        (2 * ds + 2152) as nat,
    ));
}

} // verus!
