//! 16.16 fixed-point scalar arithmetic.
//!
//! Every coordinate, depth and light intensity in the renderer is an `i64`
//! holding a multiple of `1/FX_ONE`.  Division rounds toward zero and a zero
//! divisor yields zero: the renderer's documented fallback for degenerate
//! edges (a zero edge length is treated as zero slope instead of letting an
//! undefined quotient spread into pixel writes).  Results out of the `i64`
//! range saturate.

use vstd::prelude::*;
use vstd::arithmetic::div_mod::lemma_fundamental_div_mod_converse;

verus! {

/// Number of fixed-point steps per unit.
pub const FX_ONE: i64 = 65536;

pub open spec fn abs_int(a: int) -> int {
    if a < 0 {
        -a
    } else {
        a
    }
}

/// Division rounding toward zero, total: a zero divisor gives zero.
pub open spec fn tdiv(a: int, b: int) -> int {
    if b == 0 {
        0
    } else if (a < 0) == (b < 0) {
        abs_int(a) / abs_int(b)
    } else {
        -(abs_int(a) / abs_int(b))
    }
}

/// Saturation of a mathematical integer into the `i64` range.
pub open spec fn sat64(a: int) -> int {
    if a < i64::MIN {
        i64::MIN as int
    } else if a > i64::MAX {
        i64::MAX as int
    } else {
        a
    }
}

pub open spec fn spec_fx_add(a: int, b: int) -> int {
    sat64(a + b)
}

pub open spec fn spec_fx_sub(a: int, b: int) -> int {
    sat64(a - b)
}

pub open spec fn spec_fx_mul(a: int, b: int) -> int {
    sat64(tdiv(a * b, FX_ONE as int))
}

pub open spec fn spec_fx_div(a: int, b: int) -> int {
    sat64(tdiv(a * FX_ONE, b))
}

pub open spec fn spec_fx_of_int(a: int) -> int {
    sat64(a * FX_ONE)
}

/// The largest integer at or below the fixed-point value `a`.
pub open spec fn spec_fx_floor(a: int) -> int {
    a / (FX_ONE as int)
}

/// The pixel index a fixed-point coordinate lands on: negative values
/// saturate to zero and huge values to `usize::MAX`, as a cast from a float
/// coordinate to `usize` would.
pub open spec fn spec_fx_to_pixel(a: int) -> int {
    if a <= 0 {
        0
    } else if a / (FX_ONE as int) > usize::MAX {
        usize::MAX as int
    } else {
        a / (FX_ONE as int)
    }
}

pub(crate) fn sat_to_i64(a: i128) -> (r: i64)
    ensures
        r == sat64(a as int),
{
    if a < i64::MIN as i128 {
        i64::MIN
    } else if a > i64::MAX as i128 {
        i64::MAX
    } else {
        a as i64
    }
}

pub(crate) fn tdiv_i128(a: i128, b: i128) -> (r: i128)
    requires
        i128::MIN < a,
        i128::MIN < b,
    ensures
        r == tdiv(a as int, b as int),
{
    if b == 0 {
        return 0;
    }
    let na: u128 = if a < 0 {
        (-a) as u128
    } else {
        a as u128
    };
    let nb: u128 = if b < 0 {
        (-b) as u128
    } else {
        b as u128
    };
    assert(na == abs_int(a as int));
    assert(nb == abs_int(b as int));
    let q: u128 = na / nb;
    assert(q <= na) by {
        assert(na / nb <= na) by (nonlinear_arith)
            requires
                nb >= 1,
        ;
    };
    if (a < 0) == (b < 0) {
        q as i128
    } else {
        -(q as i128)
    }
}

pub fn fx_add(a: i64, b: i64) -> (r: i64)
    ensures
        r == spec_fx_add(a as int, b as int),
{
    sat_to_i64(a as i128 + b as i128)
}

pub fn fx_sub(a: i64, b: i64) -> (r: i64)
    ensures
        r == spec_fx_sub(a as int, b as int),
{
    sat_to_i64(a as i128 - b as i128)
}

pub(crate) fn mul_i64_wide(a: i64, b: i64) -> (r: i128)
    ensures
        r == a as int * b as int,
        i128::MIN < r,
{
    proof {
        assert(-0x4000_0000_0000_0000_0000_0000_0000_0000 <= a as int * b as int
            <= 0x4000_0000_0000_0000_0000_0000_0000_0000) by (nonlinear_arith)
            requires
                -0x8000_0000_0000_0000 <= a as int <= 0x7fff_ffff_ffff_ffff,
                -0x8000_0000_0000_0000 <= b as int <= 0x7fff_ffff_ffff_ffff,
        ;
    }
    a as i128 * b as i128
}

pub fn fx_mul(a: i64, b: i64) -> (r: i64)
    ensures
        r == spec_fx_mul(a as int, b as int),
{
    sat_to_i64(tdiv_i128(mul_i64_wide(a, b), FX_ONE as i128))
}

pub fn fx_div(a: i64, b: i64) -> (r: i64)
    ensures
        r == spec_fx_div(a as int, b as int),
{
    sat_to_i64(tdiv_i128(mul_i64_wide(a, FX_ONE), b as i128))
}

pub fn fx_of_int(a: i64) -> (r: i64)
    ensures
        r == spec_fx_of_int(a as int),
{
    sat_to_i64(mul_i64_wide(a, FX_ONE))
}

pub fn fx_floor(a: i64) -> (r: i64)
    ensures
        r == spec_fx_floor(a as int),
{
    if a >= 0 {
        let q: u64 = (a as u64) / (FX_ONE as u64);
        q as i64
    } else {
        let n: u128 = (-(a as i128)) as u128;
        let q: u128 = (n + (FX_ONE as u128) - 1) / (FX_ONE as u128);
        proof {
            let s = FX_ONE as int;
            let m = -(a as int);
            assert(q * s <= m + s - 1 && m + s - 1 < (q + 1) * s) by {
                lemma_fundamental_div_mod_converse_auto(m + s - 1, s);
            };
            assert(0 <= q * s - m < s);
            lemma_fundamental_div_mod_converse(a as int, s, -(q as int), q * s - m);
        }
        let qi: i128 = -(q as i128);
        qi as i64
    }
}

/// Restates what euclidean division means, in the shape `fx_floor` needs.
proof fn lemma_fundamental_div_mod_converse_auto(x: int, d: int)
    requires
        d > 0,
        x >= 0,
    ensures
        (x / d) * d <= x < (x / d + 1) * d,
{
    assert(x == d * (x / d) + x % d) by {
        vstd::arithmetic::div_mod::lemma_fundamental_div_mod(x, d);
    };
    assert((x / d) * d == d * (x / d)) by (nonlinear_arith);
    assert((x / d + 1) * d == d * (x / d) + d) by (nonlinear_arith);
}

pub fn fx_to_pixel(a: i64) -> (r: usize)
    ensures
        r == spec_fx_to_pixel(a as int),
        r <= 0x7fff_ffff_ffff,
{
    if a <= 0 {
        0
    } else {
        let q: u64 = (a as u64) / (FX_ONE as u64);
        proof {
            vstd::arithmetic::div_mod::lemma_div_is_ordered(
                a as int,
                0x7fff_ffff_ffff_ffff,
                65536,
            );
            assert(0x7fff_ffff_ffff_ffffint / 65536 == 0x7fff_ffff_ffff);
        }
        if q > usize::MAX as u64 {
            usize::MAX
        } else {
            q as usize
        }
    }
}

/// `r` is the floor of the square root of `n`.
pub open spec fn is_sqrt_floor(n: int, r: int) -> bool {
    0 <= r && r * r <= n && n < (r + 1) * (r + 1)
}

/// The floor of the square root, as a function; `lemma_sqrt_floor` shows it
/// meets `is_sqrt_floor` on every nonnegative argument.
pub open spec fn sqrt_floor(n: int) -> int {
    choose|r: int| #[trigger] is_sqrt_floor(n, r)
}

pub proof fn lemma_sqrt_floor_exists(n: nat)
    ensures
        exists|r: int| #[trigger] is_sqrt_floor(n as int, r),
    decreases n,
{
    if n == 0 {
        assert(is_sqrt_floor(0, 0));
    } else {
        lemma_sqrt_floor_exists((n - 1) as nat);
        let p = choose|r: int| #[trigger] is_sqrt_floor(n - 1, r);
        if (p + 1) * (p + 1) <= n {
            assert(is_sqrt_floor(n as int, p + 1)) by (nonlinear_arith)
                requires
                    is_sqrt_floor(n - 1, p),
                    (p + 1) * (p + 1) <= n,
            ;
        } else {
            assert(is_sqrt_floor(n as int, p));
        }
    }
}

pub proof fn lemma_sqrt_floor(n: int)
    requires
        n >= 0,
    ensures
        is_sqrt_floor(n, sqrt_floor(n)),
{
    lemma_sqrt_floor_exists(n as nat);
}

pub proof fn lemma_sqrt_floor_unique(n: int, r: int)
    requires
        is_sqrt_floor(n, r),
    ensures
        r == sqrt_floor(n),
{
    lemma_sqrt_floor(n);
    let s = sqrt_floor(n);
    assert(r == s) by (nonlinear_arith)
        requires
            0 <= r && r * r <= n && n < (r + 1) * (r + 1),
            0 <= s && s * s <= n && n < (s + 1) * (s + 1),
    ;
}

/// Binary search for the floor of the square root.
pub fn isqrt_u128(n: u128) -> (r: u128)
    ensures
        is_sqrt_floor(n as int, r as int),
{
    let mut lo: u128 = 0;
    let mut hi: u128 = if n < 0xffff_ffff_ffff_ffff {
        n
    } else {
        0xffff_ffff_ffff_ffff
    };
    proof {
        assert((hi + 1) * (hi + 1) > n) by (nonlinear_arith)
            requires
                hi == n < 0xffff_ffff_ffff_ffff || hi == 0xffff_ffff_ffff_ffff
                    >= 0xffff_ffff_ffff_ffff,
                n <= u128::MAX,
                hi >= n || hi == 0xffff_ffff_ffff_ffff,
        ;
    }
    while lo < hi
        invariant
            lo <= hi,
            lo * lo <= n,
            n < (hi + 1) * (hi + 1),
            hi <= 0xffff_ffff_ffff_ffff,
        decreases hi - lo,
    {
        let mid: u128 = lo + (hi - lo + 1) / 2;
        assert(lo < mid <= hi);
        assert(mid * mid <= 0xffff_ffff_ffff_ffff * 0xffff_ffff_ffff_ffff) by (nonlinear_arith)
            requires
                mid <= 0xffff_ffff_ffff_ffff,
        ;
        if mid * mid <= n {
            lo = mid;
        } else {
            hi = mid - 1;
        }
    }
    lo
}

} // verus!
