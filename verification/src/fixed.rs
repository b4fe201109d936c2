//! Exact fixed-point arithmetic: every value is an `i64` holding the real
//! number scaled by [`crate::data::FX_SCALE`]. Operations truncate toward
//! zero and saturate at [`crate::data::FX_MAX`], so each is a total,
//! deterministic function of its operands.

use vstd::prelude::*;
use crate::data::{FX_MAX, FX_SCALE};

verus! {

/// Magnitude of an integer.
pub open spec fn abs_i(a: int) -> int {
    if a < 0 {
        -a
    } else {
        a
    }
}

/// Saturation of a mathematical integer into the fixed-point range.
pub open spec fn fx_clamp_i(v: int) -> int {
    if v > FX_MAX as int {
        FX_MAX as int
    } else if v < -(FX_MAX as int) {
        -(FX_MAX as int)
    } else {
        v
    }
}

/// Division truncating toward zero, as machine division does.
pub open spec fn div_tz(a: int, b: int) -> int
    recommends
        b != 0,
{
    let q = abs_i(a) / abs_i(b);
    if (a < 0) != (b < 0) {
        -q
    } else {
        q
    }
}

/// Saturating fixed-point addition.
pub open spec fn fx_add_s(a: i64, b: i64) -> i64 {
    fx_clamp_i(a + b) as i64
}

/// Saturating fixed-point subtraction.
pub open spec fn fx_sub_s(a: i64, b: i64) -> i64 {
    fx_clamp_i(a - b) as i64
}

/// Saturating fixed-point negation.
pub open spec fn fx_neg_s(a: i64) -> i64 {
    fx_clamp_i(-a) as i64
}

/// Fixed-point magnitude.
pub open spec fn fx_abs_s(a: i64) -> i64 {
    fx_clamp_i(abs_i(a as int)) as i64
}

/// Saturating fixed-point multiplication: the double-width product is
/// rescaled with truncation toward zero.
pub open spec fn fx_mul_s(a: i64, b: i64) -> i64 {
    fx_clamp_i(div_tz(a * b, FX_SCALE as int)) as i64
}

/// Saturating fixed-point division. A zero divisor saturates to the largest
/// value of the dividend's sign, standing in for an infinite quotient.
pub open spec fn fx_div_s(a: i64, b: i64) -> i64 {
    if b == 0 {
        if a >= 0 {
            FX_MAX
        } else {
            (-FX_MAX) as i64
        }
    } else {
        fx_clamp_i(div_tz(a * FX_SCALE, b as int)) as i64
    }
}

/// Division of a fixed-point value by a plain positive integer count.
pub open spec fn fx_divc_s(a: i64, c: i64) -> i64
    recommends
        c >= 1,
{
    div_tz(a as int, c as int) as i64
}

pub(crate) proof fn lemma_mul_bound(a: int, b: int, m: int, n: int)
    by (nonlinear_arith)
    requires
        -m <= a <= m,
        -n <= b <= n,
        0 <= m,
        0 <= n,
    ensures
        -(m * n) <= a * b <= m * n,
{
}

proof fn lemma_div_tz_bound(a: int, b: int)
    requires
        b != 0,
    ensures
        abs_i(div_tz(a, b)) <= abs_i(a),
{
    let q = abs_i(a) / abs_i(b);
    assert(abs_i(a) >= 0);
    assert(abs_i(b) >= 1);
    assert(q <= abs_i(a) && q >= 0) by (nonlinear_arith)
        requires
            q == abs_i(a) / abs_i(b),
            abs_i(a) >= 0,
            abs_i(b) >= 1,
    ;
}

/// Truncating division on double-width integers; the workhorse behind the
/// fixed-point operations.
pub(crate) fn i128_div_tz(a: i128, b: i128) -> (r: i128)
    requires
        b != 0,
        a >= -(0x7fff_ffff_ffff_ffff_ffff_ffff_ffff_ffff as i128),
        b >= -(0x7fff_ffff_ffff_ffff_ffff_ffff_ffff_ffff as i128),
    ensures
        r as int == div_tz(a as int, b as int),
        abs_i(r as int) <= abs_i(a as int),
{
    let ma: u128 = if a >= 0 {
        a as u128
    } else {
        (-a) as u128
    };
    let mb: u128 = if b >= 0 {
        b as u128
    } else {
        (-b) as u128
    };
    let q: u128 = ma / mb;
    proof {
        assert(ma as int == abs_i(a as int));
        assert(mb as int == abs_i(b as int));
        lemma_div_tz_bound(a as int, b as int);
    }
    if (a < 0) != (b < 0) {
        -(q as i128)
    } else {
        q as i128
    }
}

/// Saturation of a double-width intermediate into an `i64` fixed-point value.
pub(crate) fn clamp128(v: i128) -> (r: i64)
    ensures
        r as int == fx_clamp_i(v as int),
{
    if v > FX_MAX as i128 {
        FX_MAX
    } else if v < -(FX_MAX as i128) {
        -FX_MAX
    } else {
        v as i64
    }
}

/// Saturating addition.
pub fn fx_add(a: i64, b: i64) -> (r: i64)
    ensures
        r == fx_add_s(a, b),
{
    let s: i128 = a as i128 + b as i128;
    let r = clamp128(s);
    proof {
        assert(-(FX_MAX as int) <= fx_clamp_i(s as int) <= FX_MAX as int);
    }
    r
}

/// Saturating subtraction.
pub fn fx_sub(a: i64, b: i64) -> (r: i64)
    ensures
        r == fx_sub_s(a, b),
{
    let s: i128 = a as i128 - b as i128;
    let r = clamp128(s);
    proof {
        assert(-(FX_MAX as int) <= fx_clamp_i(s as int) <= FX_MAX as int);
    }
    r
}

/// Saturating negation.
pub fn fx_neg(a: i64) -> (r: i64)
    ensures
        r == fx_neg_s(a),
{
    let s: i128 = -(a as i128);
    let r = clamp128(s);
    proof {
        assert(-(FX_MAX as int) <= fx_clamp_i(s as int) <= FX_MAX as int);
    }
    r
}

/// Magnitude.
pub fn fx_abs(a: i64) -> (r: i64)
    ensures
        r == fx_abs_s(a),
{
    let s: i128 = if a < 0 {
        -(a as i128)
    } else {
        a as i128
    };
    let r = clamp128(s);
    proof {
        assert(-(FX_MAX as int) <= fx_clamp_i(s as int) <= FX_MAX as int);
    }
    r
}

/// Saturating multiplication with rescaling.
pub fn fx_mul(a: i64, b: i64) -> (r: i64)
    ensures
        r == fx_mul_s(a, b),
{
    proof {
        lemma_mul_bound(
            a as int,
            b as int,
            0x8000_0000_0000_0000,
            0x8000_0000_0000_0000,
        );
    }
    let p: i128 = (a as i128) * (b as i128);
    let q: i128 = i128_div_tz(p, FX_SCALE as i128);
    let r = clamp128(q);
    proof {
        assert(-(FX_MAX as int) <= fx_clamp_i(q as int) <= FX_MAX as int);
    }
    r
}

/// Saturating division; a zero divisor saturates.
pub fn fx_div(a: i64, b: i64) -> (r: i64)
    ensures
        r == fx_div_s(a, b),
{
    if b == 0 {
        if a >= 0 {
            FX_MAX
        } else {
            -FX_MAX
        }
    } else {
        proof {
            lemma_mul_bound(a as int, FX_SCALE as int, 0x8000_0000_0000_0000, 0x1000000);
        }
        let p: i128 = (a as i128) * (FX_SCALE as i128);
        let q: i128 = i128_div_tz(p, b as i128);
        let r = clamp128(q);
        proof {
            assert(-(FX_MAX as int) <= fx_clamp_i(q as int) <= FX_MAX as int);
        }
        r
    }
}

/// Fixed-point approximation of pi.
pub const FX_PI: i64 = 3_141_593;

/// Fixed-point approximation of two pi.
pub const FX_TWO_PI: i64 = 6_283_186;

/// Reduction of an angle into `[-FX_PI, FX_PI]`.
pub open spec fn fx_reduce_s(x: i64) -> i64 {
    let m = abs_i(x as int) % (FX_TWO_PI as int);
    let r0 = if x < 0 {
        -m
    } else {
        m
    };
    if r0 > FX_PI as int {
        (r0 - FX_TWO_PI) as i64
    } else if r0 < -(FX_PI as int) {
        (r0 + FX_TWO_PI) as i64
    } else {
        r0 as i64
    }
}

/// Sine: the angle is reduced, then a degree-eleven alternating series is
/// evaluated in fixed point.
pub open spec fn fx_sin_s(x: i64) -> i64 {
    let r = fx_reduce_s(x);
    let r2 = fx_mul_s(r, r);
    let r3 = fx_mul_s(r2, r);
    let r5 = fx_mul_s(r3, r2);
    let r7 = fx_mul_s(r5, r2);
    let r9 = fx_mul_s(r7, r2);
    let r11 = fx_mul_s(r9, r2);
    let s1 = fx_sub_s(r, fx_divc_s(r3, 6));
    let s2 = fx_add_s(s1, fx_divc_s(r5, 120));
    let s3 = fx_sub_s(s2, fx_divc_s(r7, 5040));
    let s4 = fx_add_s(s3, fx_divc_s(r9, 362880));
    fx_sub_s(s4, fx_divc_s(r11, 39916800))
}

/// Cosine, by the even-power series over the reduced angle.
pub open spec fn fx_cos_s(x: i64) -> i64 {
    let r = fx_reduce_s(x);
    let r2 = fx_mul_s(r, r);
    let r4 = fx_mul_s(r2, r2);
    let r6 = fx_mul_s(r4, r2);
    let r8 = fx_mul_s(r6, r2);
    let r10 = fx_mul_s(r8, r2);
    let c1 = fx_sub_s(FX_SCALE, fx_divc_s(r2, 2));
    let c2 = fx_add_s(c1, fx_divc_s(r4, 24));
    let c3 = fx_sub_s(c2, fx_divc_s(r6, 720));
    let c4 = fx_add_s(c3, fx_divc_s(r8, 40320));
    fx_sub_s(c4, fx_divc_s(r10, 3628800))
}

/// Tangent as the saturating quotient of sine by cosine.
pub open spec fn fx_tan_s(x: i64) -> i64 {
    fx_div_s(fx_sin_s(x), fx_cos_s(x))
}

/// Square-and-multiply accumulator for integer powers of a fixed-point base.
pub open spec fn fx_ipow_acc_s(acc: i64, b: i64, n: nat) -> i64
    decreases n,
{
    if n == 0 {
        acc
    } else if n % 2 == 1 {
        fx_ipow_acc_s(fx_mul_s(acc, b), fx_mul_s(b, b), n / 2)
    } else {
        fx_ipow_acc_s(acc, fx_mul_s(b, b), n / 2)
    }
}

/// One Newton step toward the square root of `m`; the same step the general
/// root iteration takes at degree two, written out directly.
pub open spec fn sqrt_step_s(m: i64, x0: i64) -> i64 {
    fx_div_s(
        fx_add_s(fx_mul_s(FX_SCALE, x0), fx_div_s(m, fx_mul_s(FX_SCALE, x0))),
        2_000_000,
    )
}

/// `k` square-root Newton steps from the starting guess `x0`.
pub open spec fn sqrt_iter_s(m: i64, x0: i64, k: nat) -> i64
    decreases k,
{
    if k == 0 {
        x0
    } else {
        sqrt_iter_s(m, sqrt_step_s(m, x0), (k - 1) as nat)
    }
}

/// The principal square root of `m`: Newton's method from the guess `m / 2`,
/// run for [`crate::data::ROOT_MAX_RECURSION`] steps. Equal to the general
/// root at degree two; see [`lemma_sqrt_is_root`].
pub open spec fn fx_sqrt_s(m: i64) -> i64 {
    sqrt_iter_s(m, fx_div_s(m, 2_000_000), crate::data::ROOT_MAX_RECURSION as nat)
}

/// The factor a fractional exponent contributes: one factor of the repeated
/// square root of the base for each set bit of the fraction's binary
/// expansion, `k` bits deep. `t` is the square root of the base at the
/// current bit's depth, and `f` the remaining fraction scaled by the
/// fixed-point unit.
pub open spec fn fx_fracpow_s(t: i64, f: int, k: nat) -> i64
    decreases k,
{
    if k == 0 || f <= 0 {
        FX_SCALE
    } else {
        let f2 = f * 2;
        if f2 >= FX_SCALE as int {
            fx_mul_s(t, fx_fracpow_s(fx_sqrt_s(t), f2 - FX_SCALE as int, (k - 1) as nat))
        } else {
            fx_fracpow_s(fx_sqrt_s(t), f2, (k - 1) as nat)
        }
    }
}

/// A fixed-point base raised to a fixed-point exponent: the exponent's
/// integer part by square-and-multiply, its fractional part by repeated
/// square roots, twenty bits deep; a negative exponent inverts the result.
pub open spec fn fx_pow_s(b: i64, e: i64) -> i64 {
    let m = abs_i(e as int);
    let n = m / (FX_SCALE as int);
    let f = m % (FX_SCALE as int);
    let ip = fx_ipow_acc_s(FX_SCALE, b, n as nat);
    let tot = if f == 0 {
        ip
    } else {
        fx_mul_s(ip, fx_fracpow_s(fx_sqrt_s(b), f, 20))
    };
    if e < 0 {
        fx_div_s(FX_SCALE, tot)
    } else {
        tot
    }
}

/// One Newton step toward the `e`-th root of `m`.
pub open spec fn newton_step_s(e: i64, m: i64, x0: i64) -> i64 {
    let em1 = fx_sub_s(e, FX_SCALE);
    let t1 = fx_mul_s(em1, x0);
    let t2 = fx_div_s(m, fx_pow_s(x0, em1));
    fx_div_s(fx_add_s(t1, t2), e)
}

/// `k` Newton steps from the starting guess `x0`.
pub open spec fn root_iter_s(e: i64, m: i64, x0: i64, k: nat) -> i64
    decreases k,
{
    if k == 0 {
        x0
    } else {
        root_iter_s(e, m, newton_step_s(e, m, x0), (k - 1) as nat)
    }
}

/// The principal `e`-th root of `m`: Newton's method from the guess `m / e`,
/// run for [`crate::data::ROOT_MAX_RECURSION`] steps. A relative step
/// tolerance would lie below one fixed-point unit, so the iteration always
/// runs the full count.
pub open spec fn fx_root_s(e: i64, m: i64) -> i64 {
    root_iter_s(e, m, fx_div_s(m, e), crate::data::ROOT_MAX_RECURSION as nat)
}

/// Whether a fixed-point degree counts as even: an exact even integer.
/// Roots of negative radicands exist only for degrees that are not even.
pub open spec fn fx_is_even_s(y: i64) -> bool {
    abs_i(y as int) % (2 * FX_SCALE as int) == 0
}

proof fn lemma_root_iter_snoc(e: i64, m: i64, x0: i64, k: nat)
    ensures
        root_iter_s(e, m, x0, k + 1) == newton_step_s(e, m, root_iter_s(e, m, x0, k)),
    decreases k,
{
    let x1 = newton_step_s(e, m, x0);
    assert(root_iter_s(e, m, x0, k + 1) == root_iter_s(e, m, x1, k));
    if k == 0 {
        assert(root_iter_s(e, m, x1, 0) == x1);
        assert(root_iter_s(e, m, x0, 0) == x0);
    } else {
        lemma_root_iter_snoc(e, m, x1, (k - 1) as nat);
        assert(root_iter_s(e, m, x1, ((k - 1) + 1) as nat) == newton_step_s(
            e,
            m,
            root_iter_s(e, m, x1, (k - 1) as nat),
        ));
        assert(root_iter_s(e, m, x0, k) == root_iter_s(e, m, x1, (k - 1) as nat));
    }
}

/// Reduction of an angle into `[-FX_PI, FX_PI]`.
pub fn fx_reduce(x: i64) -> (r: i64)
    ensures
        r == fx_reduce_s(x),
{
    let mx: u64 = if x >= 0 {
        x as u64
    } else {
        (-(x as i128)) as u64
    };
    let m: u64 = mx % (FX_TWO_PI as u64);
    let r0: i64 = if x < 0 {
        -(m as i64)
    } else {
        m as i64
    };
    if r0 > FX_PI {
        r0 - FX_TWO_PI
    } else if r0 < -FX_PI {
        r0 + FX_TWO_PI
    } else {
        r0
    }
}

/// Sine.
pub fn fx_sin(x: i64) -> (r: i64)
    ensures
        r == fx_sin_s(x),
{
    let r = fx_reduce(x);
    let r2 = fx_mul(r, r);
    let r3 = fx_mul(r2, r);
    let r5 = fx_mul(r3, r2);
    let r7 = fx_mul(r5, r2);
    let r9 = fx_mul(r7, r2);
    let r11 = fx_mul(r9, r2);
    let s1 = fx_sub(r, fx_divc(r3, 6));
    let s2 = fx_add(s1, fx_divc(r5, 120));
    let s3 = fx_sub(s2, fx_divc(r7, 5040));
    let s4 = fx_add(s3, fx_divc(r9, 362880));
    fx_sub(s4, fx_divc(r11, 39916800))
}

/// Cosine.
pub fn fx_cos(x: i64) -> (r: i64)
    ensures
        r == fx_cos_s(x),
{
    let r = fx_reduce(x);
    let r2 = fx_mul(r, r);
    let r4 = fx_mul(r2, r2);
    let r6 = fx_mul(r4, r2);
    let r8 = fx_mul(r6, r2);
    let r10 = fx_mul(r8, r2);
    let c1 = fx_sub(FX_SCALE, fx_divc(r2, 2));
    let c2 = fx_add(c1, fx_divc(r4, 24));
    let c3 = fx_sub(c2, fx_divc(r6, 720));
    let c4 = fx_add(c3, fx_divc(r8, 40320));
    fx_sub(c4, fx_divc(r10, 3628800))
}

/// Tangent.
pub fn fx_tan(x: i64) -> (r: i64)
    ensures
        r == fx_tan_s(x),
{
    fx_div(fx_sin(x), fx_cos(x))
}

/// Integer power by squaring.
fn fx_ipow(b: i64, n: u64) -> (r: i64)
    ensures
        r == fx_ipow_acc_s(FX_SCALE, b, n as nat),
{
    let mut acc: i64 = FX_SCALE;
    let mut base: i64 = b;
    let mut k: u64 = n;
    while k > 0
        invariant
            fx_ipow_acc_s(acc, base, k as nat) == fx_ipow_acc_s(FX_SCALE, b, n as nat),
        decreases k,
    {
        if k % 2 == 1 {
            let acc2 = fx_mul(acc, base);
            base = fx_mul(base, base);
            acc = acc2;
        } else {
            base = fx_mul(base, base);
        }
        k = k / 2;
    }
    acc
}

proof fn lemma_sqrt_iter_snoc(m: i64, x0: i64, k: nat)
    ensures
        sqrt_iter_s(m, x0, k + 1) == sqrt_step_s(m, sqrt_iter_s(m, x0, k)),
    decreases k,
{
    let x1 = sqrt_step_s(m, x0);
    assert(sqrt_iter_s(m, x0, k + 1) == sqrt_iter_s(m, x1, k));
    if k == 0 {
        assert(sqrt_iter_s(m, x1, 0) == x1);
        assert(sqrt_iter_s(m, x0, 0) == x0);
    } else {
        lemma_sqrt_iter_snoc(m, x1, (k - 1) as nat);
        assert(sqrt_iter_s(m, x1, ((k - 1) + 1) as nat) == sqrt_step_s(
            m,
            sqrt_iter_s(m, x1, (k - 1) as nat),
        ));
        assert(sqrt_iter_s(m, x0, k) == sqrt_iter_s(m, x1, (k - 1) as nat));
    }
}

proof fn lemma_sqrt_step_is_newton(m: i64, x0: i64)
    ensures
        sqrt_step_s(m, x0) == newton_step_s(2_000_000i64, m, x0),
{
    assert(fx_sub_s(2_000_000i64, FX_SCALE) == 1_000_000i64);
    let p = fx_pow_s(x0, 1_000_000i64);
    assert(abs_i(1_000_000int) % (FX_SCALE as int) == 0);
    assert(p == fx_ipow_acc_s(FX_SCALE, x0, 1));
    assert(fx_ipow_acc_s(FX_SCALE, x0, 1) == fx_ipow_acc_s(
        fx_mul_s(FX_SCALE, x0),
        fx_mul_s(x0, x0),
        0,
    ));
}

proof fn lemma_sqrt_iter_is_root_iter(m: i64, x0: i64, k: nat)
    ensures
        sqrt_iter_s(m, x0, k) == root_iter_s(2_000_000i64, m, x0, k),
    decreases k,
{
    if k > 0 {
        lemma_sqrt_step_is_newton(m, x0);
        lemma_sqrt_iter_is_root_iter(m, sqrt_step_s(m, x0), (k - 1) as nat);
    }
}

/// The dedicated square root agrees with the general root at degree two.
pub proof fn lemma_sqrt_is_root(m: i64)
    ensures
        fx_sqrt_s(m) == fx_root_s(2_000_000i64, m),
{
    lemma_sqrt_iter_is_root_iter(m, fx_div_s(m, 2_000_000), crate::data::ROOT_MAX_RECURSION as nat);
}

/// The principal square root by Newton's method.
pub fn fx_sqrt(m: i64) -> (r: i64)
    ensures
        r == fx_sqrt_s(m),
{
    let x_init = fx_div(m, 2_000_000);
    let mut x: i64 = x_init;
    let mut i: u32 = 0;
    while i < crate::data::ROOT_MAX_RECURSION
        invariant
            i <= crate::data::ROOT_MAX_RECURSION,
            x == sqrt_iter_s(m, x_init, i as nat),
        decreases crate::data::ROOT_MAX_RECURSION - i,
    {
        proof {
            lemma_sqrt_iter_snoc(m, x_init, i as nat);
        }
        let t = fx_mul(FX_SCALE, x);
        x = fx_div(fx_add(t, fx_div(m, t)), 2_000_000);
        i = i + 1;
    }
    x
}

/// The fractional exponent's factor, one square-root bit at a time.
fn fx_fracpow(t: i64, f: i64, k: u32) -> (r: i64)
    requires
        0 <= f < 1_000_000,
    ensures
        r == fx_fracpow_s(t, f as int, k as nat),
    decreases k,
{
    if k == 0 || f <= 0 {
        FX_SCALE
    } else {
        let f2 = f * 2;
        let s = fx_sqrt(t);
        if f2 >= 1_000_000 {
            fx_mul(t, fx_fracpow(s, f2 - 1_000_000, k - 1))
        } else {
            fx_fracpow(s, f2, k - 1)
        }
    }
}

/// Power with a fixed-point exponent.
pub fn fx_pow(b: i64, e: i64) -> (r: i64)
    ensures
        r == fx_pow_s(b, e),
{
    let m: u64 = if e >= 0 {
        e as u64
    } else {
        (-(e as i128)) as u64
    };
    let n: u64 = m / (FX_SCALE as u64);
    let f: u64 = m % (FX_SCALE as u64);
    proof {
        assert(m as int == abs_i(e as int));
        assert(n as int == abs_i(e as int) / (FX_SCALE as int));
        assert(f as int == abs_i(e as int) % (FX_SCALE as int));
    }
    let ip = fx_ipow(b, n);
    let tot = if f == 0 {
        ip
    } else {
        let s0 = fx_sqrt(b);
        fx_mul(ip, fx_fracpow(s0, f as i64, 20))
    };
    if e < 0 {
        fx_div(FX_SCALE, tot)
    } else {
        tot
    }
}

/// One Newton step toward the `e`-th root of `m`.
pub fn newton_step(e: i64, m: i64, x0: i64) -> (r: i64)
    ensures
        r == newton_step_s(e, m, x0),
{
    let em1 = fx_sub(e, FX_SCALE);
    let t1 = fx_mul(em1, x0);
    let t2 = fx_div(m, fx_pow(x0, em1));
    fx_div(fx_add(t1, t2), e)
}

/// The principal `e`-th root of `m` by Newton's method.
pub fn fx_root(e: i64, m: i64) -> (r: i64)
    ensures
        r == fx_root_s(e, m),
{
    let x_init = fx_div(m, e);
    let mut x: i64 = x_init;
    let mut i: u32 = 0;
    while i < crate::data::ROOT_MAX_RECURSION
        invariant
            i <= crate::data::ROOT_MAX_RECURSION,
            x == root_iter_s(e, m, x_init, i as nat),
        decreases crate::data::ROOT_MAX_RECURSION - i,
    {
        proof {
            lemma_root_iter_snoc(e, m, x_init, i as nat);
        }
        x = newton_step(e, m, x);
        i = i + 1;
    }
    x
}

/// Whether a fixed-point degree is an exact even integer.
pub fn fx_is_even(y: i64) -> (r: bool)
    ensures
        r == fx_is_even_s(y),
{
    let m: u64 = if y >= 0 {
        y as u64
    } else {
        (-(y as i128)) as u64
    };
    m % (2 * FX_SCALE as u64) == 0
}

/// Division by a plain positive count, used for the series coefficients.
pub fn fx_divc(a: i64, c: i64) -> (r: i64)
    requires
        c >= 1,
    ensures
        r == fx_divc_s(a, c),
{
    let q: i128 = i128_div_tz(a as i128, c as i128);
    proof {
        assert(abs_i(q as int) <= abs_i(a as int));
    }
    q as i64
}

} // verus!
