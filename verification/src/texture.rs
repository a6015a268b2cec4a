//! Read-only texture maps: a flat byte buffer addressed by pixel coordinate.

use vstd::prelude::*;
use crate::colors::Colors;
use crate::colors::TGAColor;
use crate::fixed::FX_ONE;
use crate::fixed::tdiv;

verus! {

pub struct Texture {
    pub height: usize,
    pub width: usize,
    pub arr: Vec<u8>,
    pub color_type: Colors,
}

/// The color stored at `(x, y)` of a four-channel texture.
pub open spec fn spec_texel(t: Texture, x: int, y: int) -> TGAColor {
    let base = 4 * (y * t.width + x);
    TGAColor {
        red: t.bytes()[base],
        green: t.bytes()[base + 1],
        blue: t.bytes()[base + 2],
        alpha: t.bytes()[base + 3],
    }
}

/// The grey value stored at `(x, y)` of a one-channel texture, scaled into
/// `[0, 1]` fixed point.
pub open spec fn spec_texel_grey(t: Texture, x: int, y: int) -> int {
    tdiv(t.bytes()[y * t.width + x] * FX_ONE, 255)
}

impl Texture {
    /// The raw byte buffer.
    pub open spec fn bytes(&self) -> Seq<u8> {
        self.arr@
    }

    /// The declared channel layout.
    pub open spec fn kind(&self) -> Colors {
        self.color_type
    }

    /// A well-formed four-channel map: four bytes per texel, nothing empty.
    pub open spec fn wf_rgba(&self) -> bool {
        &&& self.height > 0
        &&& self.width > 0
        &&& self.bytes().len() == 4 * self.height * self.width
    }

    /// A well-formed one-channel map: one byte per texel, nothing empty.
    pub open spec fn wf_grey(&self) -> bool {
        &&& self.height > 0
        &&& self.width > 0
        &&& self.bytes().len() == self.height * self.width
    }

    pub fn new(height: usize, width: usize, arr: Vec<u8>, color_type: Colors) -> (t: Texture)
        ensures
            t.height == height,
            t.width == width,
            t.bytes() == arr@,
            t.kind() == color_type,
    {
        Texture { height, width, arr, color_type }
    }

    /// Color lookup in a four-channel texture; the coordinate must address a
    /// texel whose four bytes exist.
    pub fn get_pixel(&self, x: usize, y: usize) -> (c: TGAColor)
        requires
            4 * (y * self.width + x) + 4 <= self.bytes().len(),
        ensures
            c == spec_texel(*self, x as int, y as int),
    {
        let n: usize = self.arr.len();
        proof {
            assert(4 * (y * self.width + x) + 4 <= n);
        }
        let index: usize = y * self.width + x;
        let base: usize = index * 4;
        TGAColor {
            red: self.arr[base],
            green: self.arr[base + 1],
            blue: self.arr[base + 2],
            alpha: self.arr[base + 3],
        }
    }

    /// Grey lookup in a one-channel texture, as a fixed-point weight in
    /// `[0, 1]`.
    pub fn get_pixel_grey(&self, x: usize, y: usize) -> (r: i64)
        requires
            y * self.width + x < self.bytes().len(),
        ensures
            r == spec_texel_grey(*self, x as int, y as int),
            0 <= r <= FX_ONE,
    {
        let n: usize = self.arr.len();
        proof {
            assert(y * self.width + x < n);
        }
        let index: usize = y * self.width + x;
        let b: u64 = self.arr[index] as u64;
        let v: u64 = (b * (FX_ONE as u64)) / 255;
        proof {
            assert(b * (FX_ONE as u64) <= 255 * 65536) by (nonlinear_arith)
                requires
                    b <= 255,
                    FX_ONE as u64 == 65536,
            ;
            assert(v == tdiv(self.bytes()[y * self.width + x] * FX_ONE, 255));
            assert(v <= 65536) by (nonlinear_arith)
                requires
                    v == b * 65536 / 255,
                    b <= 255,
            ;
        }
        v as i64
    }
}

} // verus!
