//! Three-component vectors in 16.16 fixed point.
//!
//! `normalize` on a zero-length vector returns the zero vector instead of an
//! undefined quotient, so no ill-defined value can reach a pixel write.

use vstd::prelude::*;
use crate::fixed::FX_ONE;
use crate::fixed::abs_int;
use crate::fixed::fx_add;
use crate::fixed::lemma_sqrt_floor;
use crate::fixed::tdiv;
use crate::fixed::fx_div;
use crate::fixed::fx_mul;
use crate::fixed::fx_of_int;
use crate::fixed::fx_sub;
use crate::fixed::fx_to_pixel;
use crate::fixed::is_sqrt_floor;
use crate::fixed::isqrt_u128;
use crate::fixed::lemma_sqrt_floor_unique;
use crate::fixed::mul_i64_wide;
use crate::fixed::sat64;
use crate::fixed::spec_fx_add;
use crate::fixed::spec_fx_div;
use crate::fixed::spec_fx_floor;
use crate::fixed::spec_fx_mul;
use crate::fixed::spec_fx_of_int;
use crate::fixed::spec_fx_sub;
use crate::fixed::spec_fx_to_pixel;
use crate::fixed::sqrt_floor;

verus! {

#[derive(Debug, Copy, Clone, PartialEq, Eq, Structural)]
pub struct Vector {
    pub x: i64,
    pub y: i64,
    pub z: i64,
}

pub open spec fn spec_plus(a: Vector, b: Vector) -> Vector {
    Vector {
        x: spec_fx_add(a.x as int, b.x as int) as i64,
        y: spec_fx_add(a.y as int, b.y as int) as i64,
        z: spec_fx_add(a.z as int, b.z as int) as i64,
    }
}

pub open spec fn spec_minus(a: Vector, b: Vector) -> Vector {
    Vector {
        x: spec_fx_sub(a.x as int, b.x as int) as i64,
        y: spec_fx_sub(a.y as int, b.y as int) as i64,
        z: spec_fx_sub(a.z as int, b.z as int) as i64,
    }
}

pub open spec fn spec_scale(a: Vector, s: int) -> Vector {
    Vector {
        x: spec_fx_mul(a.x as int, s) as i64,
        y: spec_fx_mul(a.y as int, s) as i64,
        z: spec_fx_mul(a.z as int, s) as i64,
    }
}

pub open spec fn spec_div_scalar(a: Vector, s: int) -> Vector {
    Vector {
        x: spec_fx_div(a.x as int, s) as i64,
        y: spec_fx_div(a.y as int, s) as i64,
        z: spec_fx_div(a.z as int, s) as i64,
    }
}

pub open spec fn spec_cross(a: Vector, b: Vector) -> Vector {
    Vector {
        x: spec_fx_sub(
            spec_fx_mul(a.y as int, b.z as int),
            spec_fx_mul(a.z as int, b.y as int),
        ) as i64,
        y: spec_fx_sub(
            spec_fx_mul(a.z as int, b.x as int),
            spec_fx_mul(a.x as int, b.z as int),
        ) as i64,
        z: spec_fx_sub(
            spec_fx_mul(a.x as int, b.y as int),
            spec_fx_mul(a.y as int, b.x as int),
        ) as i64,
    }
}

pub open spec fn spec_dot(a: Vector, b: Vector) -> int {
    spec_fx_add(
        spec_fx_add(
            spec_fx_mul(a.x as int, b.x as int),
            spec_fx_mul(a.y as int, b.y as int),
        ),
        spec_fx_mul(a.z as int, b.z as int),
    )
}

/// Exact squared length, before any saturation.
pub open spec fn spec_len_sq(a: Vector) -> int {
    a.x as int * a.x as int + a.y as int * a.y as int + a.z as int * a.z as int
}

pub open spec fn spec_length(a: Vector) -> int {
    sat64(sqrt_floor(spec_len_sq(a)))
}

pub open spec fn spec_normalize(a: Vector) -> Vector {
    spec_div_scalar(a, spec_length(a))
}

pub open spec fn spec_to_plane(a: Vector, height: int, width: int) -> Vector {
    Vector {
        x: spec_fx_mul(
            spec_fx_div(spec_fx_add(a.x as int, FX_ONE as int), 2 * FX_ONE),
            spec_fx_of_int(width),
        ) as i64,
        y: spec_fx_mul(
            spec_fx_div(spec_fx_add(a.y as int, FX_ONE as int), 2 * FX_ONE),
            spec_fx_of_int(height),
        ) as i64,
        z: spec_fx_mul(
            spec_fx_div(spec_fx_add(a.z as int, FX_ONE as int), 2 * FX_ONE),
            spec_fx_of_int(width),
        ) as i64,
    }
}

/// A zero-length vector normalizes to the zero vector: no undefined value
/// leaves `normalize`, whatever the input.
pub proof fn lemma_normalize_zero(v: Vector)
    requires
        spec_len_sq(v) == 0,
    ensures
        spec_normalize(v) == (Vector { x: 0, y: 0, z: 0 }),
{
    lemma_sqrt_floor_unique(0, 0);
    assert(spec_length(v) == 0);
}

proof fn lemma_tdiv_by_positive(x: int, l: int, s: int)
    requires
        l > 0,
        s > 0,
        abs_int(x) <= l,
    ensures
        ({
            let d = abs_int(x) * s / l;
            &&& tdiv(x * s, l) == (if x >= 0 {
                d
            } else {
                -d
            })
            &&& 0 <= d <= s
            &&& d * l <= abs_int(x) * s < (d + 1) * l
        }),
{
    let a = abs_int(x);
    let d = a * s / l;
    assert(a * s >= 0) by (nonlinear_arith)
        requires
            a >= 0,
            s > 0,
    ;
    assert(abs_int(x * s) == a * s) by (nonlinear_arith)
        requires
            a == abs_int(x),
            s > 0,
    ;
    assert(d * l <= a * s < (d + 1) * l) by {
        vstd::arithmetic::div_mod::lemma_fundamental_div_mod(a * s, l);
        assert((a * s / l) * l == l * (a * s / l)) by (nonlinear_arith);
        assert((a * s / l + 1) * l == l * (a * s / l) + l) by (nonlinear_arith);
    };
    assert(d >= 0) by (nonlinear_arith)
        requires
            a * s >= 0,
            l > 0,
            d == a * s / l,
    ;
    assert(d <= s) by (nonlinear_arith)
        requires
            d * l <= a * s,
            a <= l,
            s > 0,
            l > 0,
            d >= 0,
    ;
    if x >= 0 {
        assert(x * s >= 0) by (nonlinear_arith)
            requires
                x >= 0,
                s > 0,
        ;
        assert(tdiv(x * s, l) == d);
    } else {
        assert(x * s < 0) by (nonlinear_arith)
            requires
                x < 0,
                s > 0,
        ;
        assert(tdiv(x * s, l) == -d);
    }
}

/// Squaring keeps order on nonnegative values.
proof fn lemma_square_le(p: int, r: int)
    requires
        0 <= p <= r,
    ensures
        p * p <= r * r,
{
    assert(p * p <= r * r) by (nonlinear_arith)
        requires
            0 <= p <= r,
    ;
}

proof fn lemma_square_lt(p: int, r: int)
    requires
        0 <= p < r,
    ensures
        p * p < r * r,
{
    assert(p * p < r * r) by (nonlinear_arith)
        requires
            0 <= p < r,
    ;
}

/// Normalizing a vector of length at least one yields a vector of unit
/// length up to the fixed-point grain: its squared length differs from one
/// by less than a ten-thousandth.
pub proof fn lemma_normalize_unit_length(v: Vector)
    requires
        spec_len_sq(v) >= FX_ONE * FX_ONE,
        abs_int(v.x as int) <= 0x100_0000_0000,
        abs_int(v.y as int) <= 0x100_0000_0000,
        abs_int(v.z as int) <= 0x100_0000_0000,
    ensures
        ({
            let u = spec_normalize(v);
            let s = FX_ONE as int;
            s * s - 6 * s - 3 <= spec_len_sq(u) <= s * s + 3 * s
        }),
{
    let s = FX_ONE as int;
    let q = spec_len_sq(v);
    let xl = v.x as int;
    let yl = v.y as int;
    let zl = v.z as int;
    assert(q >= 0 && xl * xl <= q && yl * yl <= q && zl * zl <= q) by (nonlinear_arith)
        requires
            q == xl * xl + yl * yl + zl * zl,
    ;
    lemma_sqrt_floor(q);
    let l = sqrt_floor(q);
    assert(l >= s) by (nonlinear_arith)
        requires
            q < (l + 1) * (l + 1),
            q >= s * s,
            l >= 0,
            s > 0,
    ;
    assert(l <= 0x200_0000_0000) by (nonlinear_arith)
        requires
            l * l <= q,
            q == xl * xl + yl * yl + zl * zl,
            abs_int(xl) <= 0x100_0000_0000,
            abs_int(yl) <= 0x100_0000_0000,
            abs_int(zl) <= 0x100_0000_0000,
            l >= 0,
    ;
    assert(spec_length(v) == l);
    assert(abs_int(xl) <= l && abs_int(yl) <= l && abs_int(zl) <= l) by (nonlinear_arith)
        requires
            xl * xl <= q,
            yl * yl <= q,
            zl * zl <= q,
            q < (l + 1) * (l + 1),
            l >= 0,
    ;
    lemma_tdiv_by_positive(xl, l, s);
    lemma_tdiv_by_positive(yl, l, s);
    lemma_tdiv_by_positive(zl, l, s);
    let ax = abs_int(xl);
    let ay = abs_int(yl);
    let az = abs_int(zl);
    let dx = ax * s / l;
    let dy = ay * s / l;
    let dz = az * s / l;
    assert(ax * ax == xl * xl) by (nonlinear_arith)
        requires
            ax == abs_int(xl),
    ;
    assert(ay * ay == yl * yl) by (nonlinear_arith)
        requires
            ay == abs_int(yl),
    ;
    assert(az * az == zl * zl) by (nonlinear_arith)
        requires
            az == abs_int(zl),
    ;
    let u = spec_normalize(v);
    assert(u.x as int == tdiv(xl * s, l) && u.y as int == tdiv(yl * s, l) && u.z as int == tdiv(
        zl * s,
        l,
    ));
    assert(u.x as int * (u.x as int) == dx * dx) by (nonlinear_arith)
        requires
            u.x as int == dx || u.x as int == -dx,
    ;
    assert(u.y as int * (u.y as int) == dy * dy) by (nonlinear_arith)
        requires
            u.y as int == dy || u.y as int == -dy,
    ;
    assert(u.z as int * (u.z as int) == dz * dz) by (nonlinear_arith)
        requires
            u.z as int == dz || u.z as int == -dz,
    ;
    let dsq = dx * dx + dy * dy + dz * dz;
    assert(spec_len_sq(u) == dsq);
    // lower bounds per component, squared
    lemma_square_le(dx * l, ax * s);
    lemma_square_le(dy * l, ay * s);
    lemma_square_le(dz * l, az * s);
    assert((dx * l) * (dx * l) == l * l * (dx * dx)) by (nonlinear_arith);
    assert((dy * l) * (dy * l) == l * l * (dy * dy)) by (nonlinear_arith);
    assert((dz * l) * (dz * l) == l * l * (dz * dz)) by (nonlinear_arith);
    assert((ax * s) * (ax * s) == s * s * (ax * ax)) by (nonlinear_arith);
    assert((ay * s) * (ay * s) == s * s * (ay * ay)) by (nonlinear_arith);
    assert((az * s) * (az * s) == s * s * (az * az)) by (nonlinear_arith);
    assert(l * l * dsq <= s * s * q) by (nonlinear_arith)
        requires
            l * l * (dx * dx) <= s * s * (ax * ax),
            l * l * (dy * dy) <= s * s * (ay * ay),
            l * l * (dz * dz) <= s * s * (az * az),
            dsq == dx * dx + dy * dy + dz * dz,
            q == xl * xl + yl * yl + zl * zl,
            ax * ax == xl * xl,
            ay * ay == yl * yl,
            az * az == zl * zl,
    ;
    // upper bounds per component, squared
    lemma_square_lt(ax * s, (dx + 1) * l);
    lemma_square_lt(ay * s, (dy + 1) * l);
    lemma_square_lt(az * s, (dz + 1) * l);
    assert(((dx + 1) * l) * ((dx + 1) * l) == l * l * ((dx + 1) * (dx + 1))) by (nonlinear_arith);
    assert(((dy + 1) * l) * ((dy + 1) * l) == l * l * ((dy + 1) * (dy + 1))) by (nonlinear_arith);
    assert(((dz + 1) * l) * ((dz + 1) * l) == l * l * ((dz + 1) * (dz + 1))) by (nonlinear_arith);
    assert((dx + 1) * (dx + 1) + (dy + 1) * (dy + 1) + (dz + 1) * (dz + 1) <= dsq + 6 * s + 3)
        by (nonlinear_arith)
        requires
            0 <= dx <= s,
            0 <= dy <= s,
            0 <= dz <= s,
            dsq == dx * dx + dy * dy + dz * dz,
    ;
    let ua = (dx + 1) * (dx + 1);
    let ub = (dy + 1) * (dy + 1);
    let uc = (dz + 1) * (dz + 1);
    assert(s * s * q == s * s * (ax * ax) + s * s * (ay * ay) + s * s * (az * az))
        by (nonlinear_arith)
        requires
            q == xl * xl + yl * yl + zl * zl,
            ax * ax == xl * xl,
            ay * ay == yl * yl,
            az * az == zl * zl,
    ;
    assert(s * s * q < l * l * ua + l * l * ub + l * l * uc);
    assert(l * l * ua + l * l * ub + l * l * uc == l * l * (ua + ub + uc)) by (nonlinear_arith);
    assert(l * l * (ua + ub + uc) <= l * l * (dsq + 6 * s + 3)) by (nonlinear_arith)
        requires
            ua + ub + uc <= dsq + 6 * s + 3,
            l > 0,
    ;
    assert(s * s * q < l * l * (dsq + 6 * s + 3));
    assert(dsq > s * s - 6 * s - 3) by (nonlinear_arith)
        requires
            s * s * q < l * l * (dsq + 6 * s + 3),
            l * l <= q,
            l > 0,
            s > 0,
    ;
    assert(dsq <= s * s + 3 * s) by (nonlinear_arith)
        requires
            l * l * dsq <= s * s * q,
            q < (l + 1) * (l + 1),
            l >= s,
            s > 0,
    ;
}

impl Vector {
    pub fn new(x: i64, y: i64, z: i64) -> (v: Vector)
        ensures
            v == (Vector { x, y, z }),
    {
        Vector { x, y, z }
    }

    pub fn add(self, rhs: Vector) -> (r: Vector)
        ensures
            r == spec_plus(self, rhs),
    {
        Vector { x: fx_add(self.x, rhs.x), y: fx_add(self.y, rhs.y), z: fx_add(self.z, rhs.z) }
    }

    pub fn sub(self, rhs: Vector) -> (r: Vector)
        ensures
            r == spec_minus(self, rhs),
    {
        Vector { x: fx_sub(self.x, rhs.x), y: fx_sub(self.y, rhs.y), z: fx_sub(self.z, rhs.z) }
    }

    /// Componentwise product with a fixed-point scalar.
    pub fn scale(self, rhs: i64) -> (r: Vector)
        ensures
            r == spec_scale(self, rhs as int),
    {
        Vector { x: fx_mul(self.x, rhs), y: fx_mul(self.y, rhs), z: fx_mul(self.z, rhs) }
    }

    /// Componentwise quotient by a fixed-point scalar; a zero divisor gives
    /// the zero vector.
    pub fn div(self, rhs: i64) -> (r: Vector)
        ensures
            r == spec_div_scalar(self, rhs as int),
    {
        Vector { x: fx_div(self.x, rhs), y: fx_div(self.y, rhs), z: fx_div(self.z, rhs) }
    }

    /// Cross product.
    pub fn vector_prod(self, vector: Vector) -> (r: Vector)
        ensures
            r == spec_cross(self, vector),
    {
        Vector {
            x: fx_sub(fx_mul(self.y, vector.z), fx_mul(self.z, vector.y)),
            y: fx_sub(fx_mul(self.z, vector.x), fx_mul(self.x, vector.z)),
            z: fx_sub(fx_mul(self.x, vector.y), fx_mul(self.y, vector.x)),
        }
    }

    /// Dot product.
    pub fn scalar_prod(&self, vector: &Vector) -> (r: i64)
        ensures
            r == spec_dot(*self, *vector),
    {
        fx_add(
            fx_add(fx_mul(self.x, vector.x), fx_mul(self.y, vector.y)),
            fx_mul(self.z, vector.z),
        )
    }

    /// Fixed-point length: the floor of the square root of the squared
    /// length, saturated into `i64`.
    pub fn length(&self) -> (r: i64)
        ensures
            r == spec_length(*self),
            r >= 0,
    {
        let sx: i128 = mul_i64_wide(self.x, self.x);
        let sy: i128 = mul_i64_wide(self.y, self.y);
        let sz: i128 = mul_i64_wide(self.z, self.z);
        proof {
            assert(sx >= 0 && sy >= 0 && sz >= 0) by (nonlinear_arith)
                requires
                    sx == self.x as int * self.x as int,
                    sy == self.y as int * self.y as int,
                    sz == self.z as int * self.z as int,
            ;
            assert(sx <= 0x4000_0000_0000_0000_0000_0000_0000_0000 && sy
                <= 0x4000_0000_0000_0000_0000_0000_0000_0000 && sz
                <= 0x4000_0000_0000_0000_0000_0000_0000_0000) by (nonlinear_arith)
                requires
                    sx == self.x as int * self.x as int,
                    sy == self.y as int * self.y as int,
                    sz == self.z as int * self.z as int,
                    -0x8000_0000_0000_0000 <= self.x as int <= 0x7fff_ffff_ffff_ffff,
                    -0x8000_0000_0000_0000 <= self.y as int <= 0x7fff_ffff_ffff_ffff,
                    -0x8000_0000_0000_0000 <= self.z as int <= 0x7fff_ffff_ffff_ffff,
            ;
        }
        let n: u128 = sx as u128 + sy as u128 + sz as u128;
        let root: u128 = isqrt_u128(n);
        proof {
            lemma_sqrt_floor_unique(n as int, root as int);
        }
        if root > i64::MAX as u128 {
            i64::MAX
        } else {
            root as i64
        }
    }

    /// Unit vector in the same direction; the zero vector stays zero.
    ///
    /// `lemma_normalize_unit_length` bounds the result's length for inputs
    /// of length at least one.  Below the fixed-point unit the grain
    /// dominates and the result can be far from unit length — the smallest
    /// nonzero diagonal normalizes to a length near one and a half — an
    /// inherent cost of the 16.16 model.
    pub fn normalize(&self) -> (r: Vector)
        ensures
            r == spec_normalize(*self),
    {
        let len: i64 = self.length();
        self.div(len)
    }

    pub fn set(&mut self, index: usize, val: i64)
        ensures
            index == 0 ==> *final(self) == (Vector { x: val, ..*old(self) }),
            index == 1 ==> *final(self) == (Vector { y: val, ..*old(self) }),
            index >= 2 ==> *final(self) == (Vector { z: val, ..*old(self) }),
    {
        match index {
            0 => self.x = val,
            1 => self.y = val,
            _ => self.z = val,
        }
    }

    /// Component by position, as the indexing operator read.
    pub fn get(&self, index: usize) -> (r: i64)
        ensures
            index == 0 ==> r == self.x,
            index == 1 ==> r == self.y,
            index >= 2 ==> r == self.z,
    {
        match index {
            0 => self.x,
            1 => self.y,
            _ => self.z,
        }
    }

    /// Pixel coordinates of a screen-space point; all components must be
    /// nonnegative and small enough to index with.
    pub fn round(&self) -> (r: (usize, usize, usize))
        requires
            self.x >= 0,
            self.y >= 0,
            self.z >= 0,
            spec_fx_floor(self.x as int) <= usize::MAX,
            spec_fx_floor(self.y as int) <= usize::MAX,
            spec_fx_floor(self.z as int) <= usize::MAX,
        ensures
            r.0 == spec_fx_floor(self.x as int),
            r.1 == spec_fx_floor(self.y as int),
            r.2 == spec_fx_floor(self.z as int),
    {
        (fx_to_pixel(self.x), fx_to_pixel(self.y), fx_to_pixel(self.z))
    }

    /// The homogeneous 4-by-1 column of this point.
    pub fn to_matrix(&self) -> (r: crate::matrix::Matrix)
        ensures
            r.wf(),
            r.rows == 4,
            r.col == 1,
            r.grid()[0][0] == self.x,
            r.grid()[1][0] == self.y,
            r.grid()[2][0] == self.z,
            r.grid()[3][0] == FX_ONE,
    {
        crate::matrix::Matrix::from_vector(self)
    }

    /// Maps a point from the normalized box `[-1, 1]` into the pixel
    /// rectangle of an image of the given extent.
    pub fn to_plane(&self, height: usize, width: usize) -> (r: Vector)
        requires
            height <= 0x7fff_ffff,
            width <= 0x7fff_ffff,
        ensures
            r == spec_to_plane(*self, height as int, width as int),
    {
        let two: i64 = 2 * FX_ONE;
        let w: i64 = fx_of_int(width as i64);
        let h: i64 = fx_of_int(height as i64);
        Vector {
            x: fx_mul(fx_div(fx_add(self.x, FX_ONE), two), w),
            y: fx_mul(fx_div(fx_add(self.y, FX_ONE), two), h),
            z: fx_mul(fx_div(fx_add(self.z, FX_ONE), two), w),
        }
    }
}

} // verus!
