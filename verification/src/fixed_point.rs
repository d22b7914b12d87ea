//! Signed fixed-point arithmetic with 16 fractional bits.
//!
//! All world-space quantities of this crate (coordinates, heights,
//! velocities, angles, durations) are stored as `i64` values holding
//! `value * FP_ONE`.  Every executable operation here is specified
//! exactly, in terms of mathematical integers, so the rest of the crate
//! can state precise contracts about the numbers it computes.

use vstd::prelude::*;

verus! {

/// One whole unit in fixed-point representation (2^16).
pub const FP_ONE: i64 = 65536;

/// Truncating (round-toward-zero) division, the semantics of Rust's `/`
/// on signed integers, expressed over mathematical integers.
/// Meaningful for `b > 0`.
pub open spec fn tdiv(a: int, b: int) -> int
    recommends
        b > 0,
{
    if a >= 0 {
        a / b
    } else {
        -((-a) / b)
    }
}

/// Fixed-point product: `a * b` scaled back down by `FP_ONE`.
pub open spec fn fmul(a: int, b: int) -> int {
    tdiv(a * b, FP_ONE as int)
}

/// Fixed-point quotient: `a / b` scaled up by `FP_ONE`.
/// Meaningful for `b > 0`.
pub open spec fn fdiv(a: int, b: int) -> int
    recommends
        b > 0,
{
    tdiv(a * FP_ONE, b)
}

/// Absolute value over mathematical integers.
pub open spec fn abs_i(a: int) -> int {
    if a >= 0 {
        a
    } else {
        -a
    }
}

/// Minimum of two mathematical integers.
pub open spec fn min_i(a: int, b: int) -> int {
    if a <= b {
        a
    } else {
        b
    }
}

/// Maximum of two mathematical integers.
pub open spec fn max_i(a: int, b: int) -> int {
    if a >= b {
        a
    } else {
        b
    }
}

/// `a` clamped to the closed interval `[lo, hi]`.
pub open spec fn clip(a: int, lo: int, hi: int) -> int
    recommends
        lo <= hi,
{
    if a < lo {
        lo
    } else if a > hi {
        hi
    } else {
        a
    }
}

/// A 2-component fixed-point vector (the world XZ plane).
#[derive(Clone, Copy, Debug, PartialEq, Eq, Structural)]
pub struct FpVec2 {
    pub x: i64,
    pub z: i64,
}

/// A 3-component fixed-point vector (world space; `y` is up).
#[derive(Clone, Copy, Debug, PartialEq, Eq, Structural)]
pub struct FpVec3 {
    pub x: i64,
    pub y: i64,
    pub z: i64,
}

impl FpVec2 {
    pub fn zeros() -> (r: FpVec2)
        ensures
            r.x == 0 && r.z == 0,
    {
        FpVec2 { x: 0, z: 0 }
    }
}

impl FpVec3 {
    pub fn zeros() -> (r: FpVec3)
        ensures
            r.x == 0 && r.y == 0 && r.z == 0,
    {
        FpVec3 { x: 0, y: 0, z: 0 }
    }
}

/// Truncating division of a wide product: returns `tdiv(a * b, d)`.
/// The workhorse of every fixed-point operation in the crate; the
/// intermediate product is taken at 128 bits, so it never wraps.
pub fn fx_mul_div(a: i64, b: i64, d: i64) -> (r: i64)
    requires
        d > 0,
        -0x7fff_ffff_ffff_ffff <= tdiv(a as int * b as int, d as int)
            <= 0x7fff_ffff_ffff_ffff,
    ensures
        r == tdiv(a as int * b as int, d as int),
{
    proof {
        assert(-0x4000_0000_0000_0000_0000_0000_0000_0000 <= a as int * b as int
            <= 0x4000_0000_0000_0000_0000_0000_0000_0000) by (nonlinear_arith)
            requires
                -0x8000_0000_0000_0000 <= a as int <= 0x7fff_ffff_ffff_ffff,
                -0x8000_0000_0000_0000 <= b as int <= 0x7fff_ffff_ffff_ffff,
        ;
    }
    let p: i128 = (a as i128) * (b as i128);
    let q: i128 = p / (d as i128);
    q as i64
}

/// Fixed-point multiply: `tdiv(a * b, FP_ONE)`.
pub fn fx_mul(a: i64, b: i64) -> (r: i64)
    requires
        -0x7fff_ffff_ffff_ffff <= fmul(a as int, b as int) <= 0x7fff_ffff_ffff_ffff,
    ensures
        r == fmul(a as int, b as int),
{
    fx_mul_div(a, b, FP_ONE)
}

/// Fixed-point divide: `tdiv(a * FP_ONE, b)` for `b > 0`.
pub fn fx_div(a: i64, b: i64) -> (r: i64)
    requires
        b > 0,
        -0x7fff_ffff_ffff_ffff <= fdiv(a as int, b as int) <= 0x7fff_ffff_ffff_ffff,
    ensures
        r == fdiv(a as int, b as int),
{
    fx_mul_div(a, FP_ONE, b)
}

/// The magnitude of a truncating quotient is the floor quotient of the
/// magnitudes: `|tdiv(a, b)| == |a| / b`.
pub proof fn lemma_tdiv_mag(a: int, b: int)
    requires
        b >= 1,
    ensures
        abs_i(tdiv(a, b)) == abs_i(a) / b,
        abs_i(tdiv(a, b)) <= abs_i(a),
        a >= 0 ==> tdiv(a, b) >= 0,
        a <= 0 ==> tdiv(a, b) <= 0,
{
    if a >= 0 {
        vstd::arithmetic::div_mod::lemma_div_pos_is_pos(a, b);
        vstd::arithmetic::div_mod::lemma_div_nonincreasing(a, b);
    } else {
        vstd::arithmetic::div_mod::lemma_div_pos_is_pos(-a, b);
        vstd::arithmetic::div_mod::lemma_div_nonincreasing(-a, b);
    }
}

/// Truncating division by a positive divisor is monotone in the dividend.
pub proof fn lemma_tdiv_mono(a1: int, a2: int, b: int)
    requires
        b >= 1,
        a1 <= a2,
    ensures
        tdiv(a1, b) <= tdiv(a2, b),
{
    if a1 >= 0 {
        vstd::arithmetic::div_mod::lemma_div_is_ordered(a1, a2, b);
    } else if a2 < 0 {
        vstd::arithmetic::div_mod::lemma_div_is_ordered(-a2, -a1, b);
    } else {
        lemma_tdiv_mag(a1, b);
        lemma_tdiv_mag(a2, b);
    }
}

/// Dividing an exact multiple recovers the factor: `tdiv(a * b, b) == a`.
pub proof fn lemma_tdiv_exact(a: int, b: int)
    requires
        b >= 1,
    ensures
        tdiv(a * b, b) == a,
{
    if a >= 0 {
        vstd::arithmetic::div_mod::lemma_div_by_multiple(a, b);
    } else {
        assert(-(a * b) == (-a) * b) by (nonlinear_arith);
        vstd::arithmetic::div_mod::lemma_div_by_multiple(-a, b);
    }
}

/// Scaling a nonnegative value by a ratio `c / d` with `c <= d` does not
/// increase it.
pub proof fn lemma_tdiv_scale_le(a: int, c: int, d: int)
    requires
        a >= 0,
        0 <= c <= d,
        d >= 1,
    ensures
        0 <= tdiv(a * c, d) <= a,
{
    assert(a * c >= 0) by (nonlinear_arith)
        requires
            a >= 0,
            c >= 0,
    ;
    assert(a * c <= a * d) by (nonlinear_arith)
        requires
            a >= 0,
            c <= d,
    ;
    vstd::arithmetic::div_mod::lemma_div_pos_is_pos(a * c, d);
    vstd::arithmetic::div_mod::lemma_div_is_ordered(a * c, a * d, d);
    lemma_tdiv_exact(a, d);
}

/// Multiplying by one in fixed point is the identity.
pub proof fn lemma_fmul_one(a: int)
    ensures
        fmul(a, FP_ONE as int) == a,
{
    lemma_tdiv_exact(a, FP_ONE as int);
}

/// The magnitude of a product is the product of the magnitudes.
pub proof fn lemma_mul_abs(a: int, b: int)
    ensures
        abs_i(a * b) == abs_i(a) * abs_i(b),
{
    assert(abs_i(a * b) == abs_i(a) * abs_i(b)) by (nonlinear_arith);
}

/// A fixed-point factor of magnitude at most one shrinks magnitudes:
/// `|b| <= FP_ONE` gives `|fmul(a, b)| <= |a|`.
pub proof fn lemma_fmul_shrink(a: int, b: int)
    requires
        abs_i(b) <= FP_ONE as int,
    ensures
        abs_i(fmul(a, b)) <= abs_i(a),
        a >= 0 && b >= 0 ==> fmul(a, b) >= 0,
{
    lemma_mul_abs(a, b);
    lemma_tdiv_mag(a * b, FP_ONE as int);
    lemma_tdiv_scale_le(abs_i(a), abs_i(b), FP_ONE as int);
    if a >= 0 && b >= 0 {
        assert(a * b >= 0) by (nonlinear_arith)
            requires
                a >= 0,
                b >= 0,
        ;
    }
}

/// `2^k` over mathematical integers (`1` for `k <= 0`).
pub open spec fn pow2i(k: int) -> int
    decreases k,
{
    if k <= 0 {
        1
    } else {
        2 * pow2i(k - 1)
    }
}

/// The floor base-2 logarithm (`0` for `n < 2`).
pub open spec fn floor_log2(n: int) -> int
    decreases n,
{
    if n < 2 {
        0
    } else {
        1 + floor_log2(n / 2)
    }
}

/// Powers of two are positive and grow faster than the exponent.
pub proof fn lemma_pow2_pos(k: int)
    ensures
        pow2i(k) >= 1,
        pow2i(k) > k,
    decreases k,
{
    if k > 0 {
        lemma_pow2_pos(k - 1);
    }
}

/// Powers of two are monotone in the exponent.
pub proof fn lemma_pow2_mono(k1: int, k2: int)
    requires
        k1 <= k2,
    ensures
        pow2i(k1) <= pow2i(k2),
    decreases k2 - k1,
{
    if k1 < k2 {
        lemma_pow2_mono(k1, k2 - 1);
        lemma_pow2_pos(k2 - 1);
    }
}

/// The floor logarithm is nonnegative, and positive from 2 on.
pub proof fn lemma_floor_log2_bounds(n: int)
    ensures
        floor_log2(n) >= 0,
        n >= 2 ==> floor_log2(n) >= 1,
    decreases n,
{
    if n >= 2 {
        lemma_floor_log2_bounds(n / 2);
    }
}

/// `2^(floor_log2 n) <= n` for positive `n`.
pub proof fn lemma_pow2_floor_log2(n: int)
    requires
        n >= 1,
    ensures
        pow2i(floor_log2(n)) <= n,
    decreases n,
{
    if n >= 2 {
        lemma_pow2_floor_log2(n / 2);
        assert(2 * (n / 2) <= n);
    }
}

/// The integer square root: the unique `r >= 0` with
/// `r * r <= n < (r + 1) * (r + 1)`.
pub open spec fn int_sqrt(n: int) -> int
    recommends
        n >= 0,
{
    choose|r: int| 0 <= r && #[trigger] (r * r) <= n && n < (r + 1) * (r + 1)
}

/// An integer square root exists for every nonnegative integer.
proof fn lemma_sqrt_exists(n: int) -> (r: int)
    requires
        n >= 0,
    ensures
        0 <= r,
        r * r <= n,
        n < (r + 1) * (r + 1),
    decreases n,
{
    if n == 0 {
        0
    } else {
        let p = lemma_sqrt_exists(n - 1);
        if (p + 1) * (p + 1) <= n {
            assert(n < (p + 2) * (p + 2)) by (nonlinear_arith)
                requires
                    n - 1 < (p + 1) * (p + 1),
                    0 <= p,
            ;
            p + 1
        } else {
            p
        }
    }
}

/// The defining property pins `int_sqrt` down uniquely.
pub proof fn lemma_int_sqrt(n: int)
    requires
        n >= 0,
    ensures
        0 <= int_sqrt(n),
        int_sqrt(n) * int_sqrt(n) <= n,
        n < (int_sqrt(n) + 1) * (int_sqrt(n) + 1),
{
    let w = lemma_sqrt_exists(n);
    assert(0 <= w && w * w <= n && n < (w + 1) * (w + 1));
    let r = int_sqrt(n);
    assert(0 <= r && r * r <= n && n < (r + 1) * (r + 1));
}

/// Any witness of the square-root property equals `int_sqrt`.
pub proof fn lemma_int_sqrt_unique(n: int, r: int)
    requires
        0 <= r,
        r * r <= n,
        n < (r + 1) * (r + 1),
    ensures
        r == int_sqrt(n),
{
    lemma_int_sqrt(n);
    let s = int_sqrt(n);
    assert(r == s) by (nonlinear_arith)
        requires
            0 <= r,
            r * r <= n,
            n < (r + 1) * (r + 1),
            0 <= s,
            s * s <= n,
            n < (s + 1) * (s + 1),
    ;
}

/// Square-root of a square: `int_sqrt(a * a) == a` for `a >= 0`.
pub proof fn lemma_int_sqrt_square(a: int)
    requires
        a >= 0,
    ensures
        int_sqrt(a * a) == a,
{
    assert(a * a < (a + 1) * (a + 1)) by (nonlinear_arith)
        requires
            a >= 0,
    ;
    lemma_int_sqrt_unique(a * a, a);
}

/// A product of bounded factors has a bounded fixed-point product.
pub proof fn lemma_fmul_bound(a: int, b: int, ca: int, cb: int)
    requires
        abs_i(a) <= ca,
        abs_i(b) <= cb,
        0 <= ca,
        0 <= cb,
    ensures
        abs_i(fmul(a, b)) <= (ca * cb) / (FP_ONE as int),
{
    lemma_mul_abs(a, b);
    lemma_tdiv_mag(a * b, FP_ONE as int);
    assert(abs_i(a) * abs_i(b) <= ca * cb) by (nonlinear_arith)
        requires
            0 <= abs_i(a) <= ca,
            0 <= abs_i(b) <= cb,
    ;
    vstd::arithmetic::div_mod::lemma_div_is_ordered(abs_i(a) * abs_i(b), ca * cb, FP_ONE as int);
}

/// Scaling a vector component by `s2 / s1` with `s2 <= s1` keeps it
/// within `s2` whenever the component is within `s1`.
pub proof fn lemma_scale_component(c: int, s2: int, s1: int)
    requires
        abs_i(c) <= s1,
        0 <= s2,
        1 <= s1,
    ensures
        abs_i(tdiv(c * s2, s1)) <= s2,
        c >= 0 ==> tdiv(c * s2, s1) >= 0,
        c <= 0 ==> tdiv(c * s2, s1) <= 0,
{
    lemma_mul_abs(c, s2);
    lemma_tdiv_mag(c * s2, s1);
    assert(abs_i(c) * s2 <= s1 * s2) by (nonlinear_arith)
        requires
            abs_i(c) <= s1,
            s2 >= 0,
    ;
    vstd::arithmetic::div_mod::lemma_div_is_ordered(abs_i(c) * s2, s1 * s2, s1);
    assert(s1 * s2 == s2 * s1) by (nonlinear_arith);
    lemma_tdiv_exact(s2, s1);
    if c >= 0 {
        assert(c * s2 >= 0) by (nonlinear_arith)
            requires
                c >= 0,
                s2 >= 0,
        ;
    } else {
        assert(c * s2 <= 0) by (nonlinear_arith)
            requires
                c <= 0,
                s2 >= 0,
        ;
    }
}

/// The integer square root is monotone.
pub proof fn lemma_int_sqrt_mono(a: int, b: int)
    requires
        0 <= a <= b,
    ensures
        int_sqrt(a) <= int_sqrt(b),
{
    lemma_int_sqrt(a);
    lemma_int_sqrt(b);
    let ra = int_sqrt(a);
    let rb = int_sqrt(b);
    if ra > rb {
        assert(false) by (nonlinear_arith)
            requires
                ra >= rb + 1,
                rb >= 0,
                ra * ra <= a,
                a <= b,
                b < (rb + 1) * (rb + 1),
        ;
    }
}

/// Euclidean norm of a fixed-point 2D vector, rounded down.
/// Because `(v * FP_ONE) * (v * FP_ONE) == (v * v) * FP_ONE * FP_ONE`,
/// the result of applying this to fixed-point components is itself the
/// fixed-point norm.
pub open spec fn norm2(x: int, z: int) -> int {
    int_sqrt(x * x + z * z)
}

/// No component exceeds the norm, and the norm of a nonzero vector is
/// positive.
pub proof fn lemma_norm2_bounds(x: int, z: int)
    ensures
        0 <= norm2(x, z),
        abs_i(x) <= norm2(x, z),
        abs_i(z) <= norm2(x, z),
        x == 0 && z == 0 ==> norm2(x, z) == 0,
        x != 0 || z != 0 ==> norm2(x, z) >= 1,
{
    assert(x * x == abs_i(x) * abs_i(x) && z * z == abs_i(z) * abs_i(z) && x * x >= 0 && z * z
        >= 0) by (nonlinear_arith);
    lemma_int_sqrt_square(abs_i(x));
    lemma_int_sqrt_square(abs_i(z));
    lemma_int_sqrt_mono(x * x, x * x + z * z);
    lemma_int_sqrt_mono(z * z, x * x + z * z);
    if x == 0 && z == 0 {
        lemma_int_sqrt_square(0);
    }
    if x != 0 || z != 0 {
        assert(x * x + z * z >= 1) by (nonlinear_arith)
            requires
                x != 0 || z != 0,
        ;
        lemma_int_sqrt_mono(1, x * x + z * z);
        lemma_int_sqrt_square(1);
    }
}

/// Computes `norm2` of two fixed-point components by 128-bit binary search.
pub fn fx_norm2(x: i64, z: i64) -> (n: i64)
    requires
        abs_i(x as int) <= 0x8000_0000_0000,
        abs_i(z as int) <= 0x8000_0000_0000,
    ensures
        n == norm2(x as int, z as int),
        0 <= n <= 0x1_0000_0000_0000,
{
    proof {
        assert(x as int * x as int + z as int * z as int
            <= 2 * 0x8000_0000_0000 * 0x8000_0000_0000) by (nonlinear_arith)
            requires
                abs_i(x as int) <= 0x8000_0000_0000,
                abs_i(z as int) <= 0x8000_0000_0000,
        ;
        assert(x as int * x as int >= 0) by (nonlinear_arith);
        assert(z as int * z as int >= 0) by (nonlinear_arith);
    }
    let xs: u128 = (x as i128 * x as i128) as u128;
    let zs: u128 = (z as i128 * z as i128) as u128;
    let s: u128 = xs + zs;
    // binary search for the floor square root of s
    let mut lo: u128 = 0;
    let mut hi: u128 = 0x2_0000_0000_0000;
    proof {
        assert((0x2_0000_0000_0000 as int) * (0x2_0000_0000_0000 as int) > s as int)
            by (nonlinear_arith)
            requires
                s as int <= 2 * 0x8000_0000_0000 * 0x8000_0000_0000,
        ;
    }
    while lo + 1 < hi
        invariant
            0 <= lo < hi <= 0x2_0000_0000_0000,
            (lo as int) * (lo as int) <= s as int,
            (s as int) < (hi as int) * (hi as int),
            s == x as int * x as int + z as int * z as int,
        decreases hi - lo,
    {
        let mid: u128 = lo + (hi - lo) / 2;
        proof {
            assert((mid as int) * (mid as int)
                <= 0x2_0000_0000_0000 * 0x2_0000_0000_0000) by (nonlinear_arith)
                requires
                    0 <= mid as int <= 0x2_0000_0000_0000,
            ;
        }
        if mid * mid <= s {
            lo = mid;
        } else {
            hi = mid;
        }
    }
    proof {
        lemma_int_sqrt_unique(s as int, lo as int);
        assert(lo as int <= 0x1_0000_0000_0000) by (nonlinear_arith)
            requires
                (lo as int) * (lo as int) <= s as int,
                s as int <= 2 * 0x8000_0000_0000 * 0x8000_0000_0000,
                lo as int >= 0,
        ;
    }
    lo as u64 as i64
}

} // verus!
