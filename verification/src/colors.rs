//! RGBA pixel colors and the per-pixel intensity step of shading.

use vstd::prelude::*;
use crate::dimensional::Vector;
use crate::fixed::FX_ONE;
use crate::fixed::sat64;
use crate::fixed::sat_to_i64;
use crate::fixed::tdiv;
use crate::fixed::tdiv_i128;

verus! {

/// Byte layout of a texture: four channels per texel, or one grey channel.
#[derive(Debug, Copy, Clone, PartialEq, Eq, Structural)]
pub enum Colors {
    RGBA,
    Gray,
}

#[derive(Debug, Copy, Clone, PartialEq, Eq, Structural)]
pub struct TGAColor {
    pub red: u8,
    pub green: u8,
    pub blue: u8,
    pub alpha: u8,
}

/// One color channel scaled by a nonnegative fixed-point intensity, truncated
/// and capped at the channel maximum.
pub open spec fn spec_scaled_channel(c: int, intensity: int) -> int {
    let v = tdiv(c * intensity, FX_ONE as int);
    if v > 255 {
        255
    } else {
        v
    }
}

/// The color after `add_intensity`: black for a negative intensity, otherwise
/// each of red, green and blue scaled; alpha passes through unchanged.
pub open spec fn spec_with_intensity(c: TGAColor, intensity: int) -> TGAColor {
    if intensity < 0 {
        TGAColor { red: 0, green: 0, blue: 0, alpha: c.alpha }
    } else {
        TGAColor {
            red: spec_scaled_channel(c.red as int, intensity) as u8,
            green: spec_scaled_channel(c.green as int, intensity) as u8,
            blue: spec_scaled_channel(c.blue as int, intensity) as u8,
            alpha: c.alpha,
        }
    }
}

/// Decode of a red or green normal-map channel into `[-1, 1]`:
/// `c / 127.5 - 1`, that is `(2 c - 255) / 255`, in fixed point.
pub open spec fn spec_decode_rg(c: int) -> int {
    sat64(tdiv((2 * c - 255) * FX_ONE, 255))
}

/// Decode of the blue normal-map channel: `(c - 128) / 127` negated, in
/// fixed point.  The blue channel deliberately uses a different scale and
/// sign than red and green.
pub open spec fn spec_decode_b(c: int) -> int {
    sat64(tdiv((128 - c) * FX_ONE, 127))
}

/// The direction a normal-map color decodes to.
pub open spec fn spec_to_vector(c: TGAColor) -> Vector {
    Vector {
        x: spec_decode_rg(c.red as int) as i64,
        y: spec_decode_rg(c.green as int) as i64,
        z: spec_decode_b(c.blue as int) as i64,
    }
}

fn scaled_channel(c: u8, intensity: i64) -> (r: u8)
    requires
        intensity >= 0,
    ensures
        r == spec_scaled_channel(c as int, intensity as int),
{
    proof {
        assert((c as u128) as int * (intensity as u128) as int <= 255 * 0x7fff_ffff_ffff_ffff)
            by (nonlinear_arith)
            requires
                0 <= (c as u128) as int <= 255,
                0 <= (intensity as u128) as int <= 0x7fff_ffff_ffff_ffff,
        ;
    }
    let p: u128 = (c as u128) * (intensity as u128);
    let v: u128 = p / (FX_ONE as u128);
    proof {
        assert(v == tdiv(c as int * intensity as int, FX_ONE as int));
    }
    if v > 255 {
        255
    } else {
        v as u8
    }
}

impl TGAColor {
    pub fn new(red: u8, green: u8, blue: u8, alpha: u8) -> (c: TGAColor)
        ensures
            c == (TGAColor { red, green, blue, alpha }),
    {
        TGAColor { red, green, blue, alpha }
    }

    pub fn to_array(&self) -> (r: [u8; 4])
        ensures
            r@ == seq![self.red, self.green, self.blue, self.alpha],
    {
        let r = [self.red, self.green, self.blue, self.alpha];
        proof {
            assert(r@ =~= seq![self.red, self.green, self.blue, self.alpha]);
        }
        r
    }

    /// Flattens colors into their byte stream, four bytes per color.
    pub fn from_arr_to_arr(array: &[TGAColor]) -> (r: Vec<u8>)
        ensures
            r@.len() == 4 * array@.len(),
            forall|i: int|
                0 <= i < array@.len() ==> {
                    &&& r@[4 * i] == #[trigger] array@[i].red
                    &&& r@[4 * i + 1] == array@[i].green
                    &&& r@[4 * i + 2] == array@[i].blue
                    &&& r@[4 * i + 3] == array@[i].alpha
                },
    {
        let mut respond: Vec<u8> = Vec::new();
        let mut k: usize = 0;
        while k < array.len()
            invariant
                k <= array@.len(),
                respond@.len() == 4 * k,
                forall|i: int|
                    0 <= i < k ==> {
                        &&& respond@[4 * i] == #[trigger] array@[i].red
                        &&& respond@[4 * i + 1] == array@[i].green
                        &&& respond@[4 * i + 2] == array@[i].blue
                        &&& respond@[4 * i + 3] == array@[i].alpha
                    },
            decreases array@.len() - k,
        {
            let tga = array[k];
            respond.push(tga.red);
            respond.push(tga.green);
            respond.push(tga.blue);
            respond.push(tga.alpha);
            k = k + 1;
        }
        respond
    }

    /// Scales red, green and blue by a fixed-point light intensity; a
    /// negative intensity blacks the color out.  Channels truncate and cap
    /// at 255; alpha is untouched.
    pub fn add_intensity(&mut self, intensity: i64)
        ensures
            *final(self) == spec_with_intensity(*old(self), intensity as int),
    {
        if intensity < 0 {
            self.red = 0;
            self.green = 0;
            self.blue = 0;
        } else {
            self.red = scaled_channel(self.red, intensity);
            self.green = scaled_channel(self.green, intensity);
            self.blue = scaled_channel(self.blue, intensity);
        }
    }

    /// Decodes an RGB triple sampled from a normal map into a direction
    /// vector with components in `[-1, 1]` fixed point.
    pub fn to_vector(&self) -> (v: Vector)
        ensures
            v == spec_to_vector(*self),
    {
        Vector { x: decode_rg(self.red), y: decode_rg(self.green), z: decode_b(self.blue) }
    }
}

fn decode_rg(c: u8) -> (r: i64)
    ensures
        r == spec_decode_rg(c as int),
{
    let n: i128 = 2 * (c as i128) - 255;
    proof {
        assert(-255 * 65536 <= n as int * (FX_ONE as i128) as int <= 255 * 65536)
            by (nonlinear_arith)
            requires
                -255 <= n as int <= 255,
                (FX_ONE as i128) as int == 65536,
        ;
    }
    sat_to_i64(tdiv_i128(n * (FX_ONE as i128), 255))
}

fn decode_b(c: u8) -> (r: i64)
    ensures
        r == spec_decode_b(c as int),
{
    let n: i128 = 128 - (c as i128);
    proof {
        assert(-255 * 65536 <= n as int * (FX_ONE as i128) as int <= 255 * 65536)
            by (nonlinear_arith)
            requires
                -127 <= n as int <= 128,
                (FX_ONE as i128) as int == 65536,
        ;
    }
    sat_to_i64(tdiv_i128(n * (FX_ONE as i128), 127))
}

} // verus!
