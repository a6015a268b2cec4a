//! The depth-buffered framebuffer and the scanline triangle rasterizer.
//!
//! Every pixel write goes through one arbiter: an offer `(position, color)`
//! is accepted only if its position lands inside the image and its depth is
//! strictly greater than the depth already stored for that pixel.  Offers
//! outside the image are discarded, never written.

use vstd::prelude::*;
use crate::colors::TGAColor;
use crate::colors::spec_to_vector;
use crate::colors::spec_with_intensity;
use crate::dimensional::Vector;
use crate::dimensional::spec_div_scalar;
use crate::dimensional::spec_dot;
use crate::dimensional::spec_minus;
use crate::dimensional::spec_normalize;
use crate::dimensional::spec_plus;
use crate::dimensional::spec_scale;
use crate::fixed::FX_ONE;
use crate::fixed::abs_int;
use crate::fixed::fx_add;
use crate::fixed::fx_div;
use crate::fixed::fx_mul;
use crate::fixed::fx_of_int;
use crate::fixed::fx_sub;
use crate::fixed::fx_to_pixel;
use crate::fixed::spec_fx_add;
use crate::fixed::spec_fx_div;
use crate::fixed::spec_fx_floor;
use crate::fixed::spec_fx_mul;
use crate::fixed::spec_fx_of_int;
use crate::fixed::spec_fx_sub;
use crate::fixed::spec_fx_to_pixel;
use crate::fixed::sat64;
use crate::fixed::tdiv;
use crate::texture::Texture;
use crate::texture::spec_texel;
use crate::texture::spec_texel_grey;

verus! {

/// A pixel coordinate pair.
#[derive(Debug, Clone, PartialEq, Eq, Structural)]
pub struct Point {
    pub x: usize,
    pub y: usize,
}

impl Point {
    pub fn new(x: usize, y: usize) -> (p: Point)
        ensures
            p == (Point { x, y }),
    {
        Point { x, y }
    }
}

pub struct TGAImage {
    pub height: usize,
    pub width: usize,
    pub pixels: Vec<TGAColor>,
    pub z_buff: Vec<i64>,
}

/// An offered position lands inside an image of the given extent.
pub open spec fn spec_in_bounds(p: Vector, height: int, width: int) -> bool {
    &&& 0 <= p.x
    &&& 0 <= p.y
    &&& spec_fx_floor(p.x as int) < width
    &&& spec_fx_floor(p.y as int) < height
}

/// The row-major buffer index an offered position addresses.
pub open spec fn spec_pix_index(p: Vector, width: int) -> int {
    spec_fx_floor(p.y as int) * width + spec_fx_floor(p.x as int)
}

/// One offer against the depth test: accepted only in bounds and strictly
/// deeper than what is stored.
pub open spec fn spec_apply_offer(
    cs: Seq<TGAColor>,
    zs: Seq<i64>,
    height: int,
    width: int,
    p: Vector,
    c: TGAColor,
) -> (Seq<TGAColor>, Seq<i64>) {
    if spec_in_bounds(p, height, width) && zs[spec_pix_index(p, width)] < p.z {
        (cs.update(spec_pix_index(p, width), c), zs.update(spec_pix_index(p, width), p.z))
    } else {
        (cs, zs)
    }
}

/// A whole batch of offers, applied first to last.
pub open spec fn spec_apply_batch(
    cs: Seq<TGAColor>,
    zs: Seq<i64>,
    height: int,
    width: int,
    offers: Seq<(Vector, TGAColor)>,
) -> (Seq<TGAColor>, Seq<i64>)
    decreases offers.len(),
{
    if offers.len() == 0 {
        (cs, zs)
    } else {
        let t = spec_apply_offer(cs, zs, height, width, offers[0].0, offers[0].1);
        spec_apply_batch(t.0, t.1, height, width, offers.drop_first())
    }
}

/// The greatest depth offered to buffer index `idx` by a batch, starting
/// from `acc`.
pub open spec fn spec_offers_max(
    offers: Seq<(Vector, TGAColor)>,
    height: int,
    width: int,
    idx: int,
    acc: int,
) -> int
    decreases offers.len(),
{
    if offers.len() == 0 {
        acc
    } else {
        let p = offers[0].0;
        let hit = spec_in_bounds(p, height, width) && spec_pix_index(p, width) == idx;
        let acc2 = if hit && p.z > acc {
            p.z as int
        } else {
            acc
        };
        spec_offers_max(offers.drop_first(), height, width, idx, acc2)
    }
}

/// No offer of the batch addresses buffer index `idx` from inside the image.
pub open spec fn spec_no_offer_at(
    offers: Seq<(Vector, TGAColor)>,
    height: int,
    width: int,
    idx: int,
) -> bool {
    forall|k: int|
        0 <= k < offers.len() ==> !(spec_in_bounds(#[trigger] offers[k].0, height, width)
            && spec_pix_index(offers[k].0, width) == idx)
}

/// The color buffer with each row `y` exchanged with row `height - 1 - y`.
pub open spec fn spec_flip(cs: Seq<TGAColor>, height: int, width: int) -> Seq<TGAColor> {
    Seq::new((height * width) as nat, |i: int| cs[(height - 1 - i / width) * width + i % width])
}

pub proof fn lemma_in_bounds_index(p: Vector, height: int, width: int)
    requires
        spec_in_bounds(p, height, width),
    ensures
        0 <= spec_pix_index(p, width) < height * width,
{
    let fy = spec_fx_floor(p.y as int);
    let fx = spec_fx_floor(p.x as int);
    assert(fy >= 0 && fx >= 0) by {
        assert(p.x as int / (FX_ONE as int) >= 0) by (nonlinear_arith)
            requires
                p.x as int >= 0,
        ;
        assert(p.y as int / (FX_ONE as int) >= 0) by (nonlinear_arith)
            requires
                p.y as int >= 0,
        ;
    };
    assert(fy * width + fx < height * width) by (nonlinear_arith)
        requires
            0 <= fy < height,
            0 <= fx < width,
    ;
    assert(fy * width + fx >= 0) by (nonlinear_arith)
        requires
            fy >= 0,
            fx >= 0,
            width > 0,
    ;
}

/// A batch then one more offer is the batch extended by that offer.
pub proof fn lemma_batch_snoc(
    cs: Seq<TGAColor>,
    zs: Seq<i64>,
    height: int,
    width: int,
    offers: Seq<(Vector, TGAColor)>,
    p: Vector,
    c: TGAColor,
)
    ensures
        ({
            let t = spec_apply_batch(cs, zs, height, width, offers);
            let u = spec_apply_offer(t.0, t.1, height, width, p, c);
            spec_apply_batch(cs, zs, height, width, offers.push((p, c))).0 == u.0
                && spec_apply_batch(cs, zs, height, width, offers.push((p, c))).1 == u.1
        }),
    decreases offers.len(),
{
    let ext = offers.push((p, c));
    if offers.len() == 0 {
        assert(ext[0] == (p, c));
        assert(ext.drop_first() =~= Seq::<(Vector, TGAColor)>::empty());
        let t1 = spec_apply_offer(cs, zs, height, width, p, c);
        assert(spec_apply_batch(t1.0, t1.1, height, width, ext.drop_first()).0 == t1.0);
        assert(spec_apply_batch(cs, zs, height, width, ext).0 == t1.0);
        assert(spec_apply_batch(cs, zs, height, width, offers).0 == cs);
        assert(spec_apply_offer(cs, zs, height, width, p, c).0 == t1.0);
    } else {
        let t = spec_apply_offer(cs, zs, height, width, offers[0].0, offers[0].1);
        assert(ext[0] == offers[0]);
        assert(ext.drop_first() =~= offers.drop_first().push((p, c)));
        lemma_batch_snoc(t.0, t.1, height, width, offers.drop_first(), p, c);
        assert(spec_apply_batch(cs, zs, height, width, ext).0 == spec_apply_batch(
            t.0,
            t.1,
            height,
            width,
            ext.drop_first(),
        ).0);
        assert(spec_apply_batch(cs, zs, height, width, offers).0 == spec_apply_batch(
            t.0,
            t.1,
            height,
            width,
            offers.drop_first(),
        ).0);
    }
}

/// Depth-test soundness: after a batch, the stored depth of a pixel is the
/// greatest depth ever offered to it, or what was stored before if nothing
/// deeper was offered.
pub proof fn lemma_batch_depth_max(
    cs: Seq<TGAColor>,
    zs: Seq<i64>,
    height: int,
    width: int,
    offers: Seq<(Vector, TGAColor)>,
    idx: int,
)
    requires
        0 <= idx < zs.len(),
        zs.len() == height * width,
    ensures
        spec_apply_batch(cs, zs, height, width, offers).1[idx] == spec_offers_max(
            offers,
            height,
            width,
            idx,
            zs[idx] as int,
        ),
    decreases offers.len(),
{
    if offers.len() > 0 {
        let p = offers[0].0;
        let c = offers[0].1;
        let t = spec_apply_offer(cs, zs, height, width, p, c);
        if spec_in_bounds(p, height, width) {
            lemma_in_bounds_index(p, height, width);
        }
        assert(t.1.len() == zs.len());
        lemma_batch_depth_max(t.0, t.1, height, width, offers.drop_first(), idx);
    }
}

/// A pixel that no offer of the batch addresses keeps both its color and
/// its depth.
pub proof fn lemma_batch_untouched(
    cs: Seq<TGAColor>,
    zs: Seq<i64>,
    height: int,
    width: int,
    offers: Seq<(Vector, TGAColor)>,
    idx: int,
)
    requires
        0 <= idx < zs.len(),
        zs.len() == height * width,
        cs.len() == height * width,
        spec_no_offer_at(offers, height, width, idx),
    ensures
        spec_apply_batch(cs, zs, height, width, offers).0[idx] == cs[idx],
        spec_apply_batch(cs, zs, height, width, offers).1[idx] == zs[idx],
    decreases offers.len(),
{
    if offers.len() > 0 {
        let p = offers[0].0;
        let c = offers[0].1;
        let t = spec_apply_offer(cs, zs, height, width, p, c);
        if spec_in_bounds(p, height, width) {
            lemma_in_bounds_index(p, height, width);
        }
        assert(spec_no_offer_at(offers.drop_first(), height, width, idx)) by {
            assert(forall|k: int|
                0 <= k < offers.drop_first().len() ==> offers.drop_first()[k] == offers[k + 1]);
        };
        lemma_batch_untouched(t.0, t.1, height, width, offers.drop_first(), idx);
    }
}

/// The pixels of a frame that nothing has been drawn into: all white.
pub open spec fn spec_fresh_colors(n: nat) -> Seq<TGAColor> {
    Seq::new(n, |i: int| (TGAColor { red: 255, green: 255, blue: 255, alpha: 255 }))
}

/// The depths of a frame that nothing has been drawn into: the sentinel
/// floor that any finite offer beats.
pub open spec fn spec_fresh_depths(n: nat) -> Seq<i64> {
    Seq::new(n, |i: int| i64::MIN)
}

/// Applying a concatenation is applying the two batches in turn.
pub proof fn lemma_batch_concat(
    cs: Seq<TGAColor>,
    zs: Seq<i64>,
    height: int,
    width: int,
    a: Seq<(Vector, TGAColor)>,
    b: Seq<(Vector, TGAColor)>,
)
    ensures
        ({
            let t = spec_apply_batch(cs, zs, height, width, a);
            spec_apply_batch(cs, zs, height, width, a + b).0 == spec_apply_batch(
                t.0,
                t.1,
                height,
                width,
                b,
            ).0 && spec_apply_batch(cs, zs, height, width, a + b).1 == spec_apply_batch(
                t.0,
                t.1,
                height,
                width,
                b,
            ).1
        }),
    decreases a.len(),
{
    if a.len() == 0 {
        assert(a + b =~= b);
    } else {
        let t1 = spec_apply_offer(cs, zs, height, width, a[0].0, a[0].1);
        assert((a + b)[0] == a[0]);
        assert((a + b).drop_first() =~= a.drop_first() + b);
        lemma_batch_concat(t1.0, t1.1, height, width, a.drop_first(), b);
        assert(spec_apply_batch(cs, zs, height, width, a + b).0 == spec_apply_batch(
            t1.0,
            t1.1,
            height,
            width,
            (a + b).drop_first(),
        ).0);
        assert(spec_apply_batch(cs, zs, height, width, a).0 == spec_apply_batch(
            t1.0,
            t1.1,
            height,
            width,
            a.drop_first(),
        ).0);
    }
}

/// A batch whose offers all miss the image changes nothing.
pub proof fn lemma_batch_all_outside(
    cs: Seq<TGAColor>,
    zs: Seq<i64>,
    height: int,
    width: int,
    offers: Seq<(Vector, TGAColor)>,
)
    requires
        forall|k: int|
            0 <= k < offers.len() ==> !spec_in_bounds(#[trigger] offers[k].0, height, width),
    ensures
        spec_apply_batch(cs, zs, height, width, offers).0 == cs,
        spec_apply_batch(cs, zs, height, width, offers).1 == zs,
    decreases offers.len(),
{
    if offers.len() > 0 {
        assert(forall|k: int|
            0 <= k < offers.drop_first().len() ==> offers.drop_first()[k] == offers[k + 1]);
        lemma_batch_all_outside(cs, zs, height, width, offers.drop_first());
    }
}

proof fn lemma_rowcol(i: int, height: int, width: int)
    requires
        0 < width,
        0 <= i < height * width,
    ensures
        (i / width) * width + i % width == i,
        0 <= i / width < height,
        0 <= i % width < width,
{
    vstd::arithmetic::div_mod::lemma_fundamental_div_mod(i, width);
    assert((i / width) * width == width * (i / width)) by (nonlinear_arith);
    if i / width >= height {
        assert((i / width) * width >= height * width) by (nonlinear_arith)
            requires
                i / width >= height,
                width > 0,
        ;
        assert(false);
    }
    if i / width < 0 {
        assert((i / width) * width <= -width) by (nonlinear_arith)
            requires
                i / width <= -1,
                width > 0,
        ;
        assert(false);
    }
}

proof fn lemma_rowcol_inverse(q: int, r: int, height: int, width: int)
    requires
        0 < width,
        0 <= q < height,
        0 <= r < width,
    ensures
        (q * width + r) / width == q,
        (q * width + r) % width == r,
        0 <= q * width + r < height * width,
{
    assert(q * width + r == width * q + r) by (nonlinear_arith);
    vstd::arithmetic::div_mod::lemma_fundamental_div_mod_converse(q * width + r, width, q, r);
    assert(0 <= q * width + r < height * width) by (nonlinear_arith)
        requires
            0 <= q < height,
            0 <= r < width,
    ;
}

/// Flipping the rows twice restores the original color buffer.
pub proof fn lemma_flip_involution(cs: Seq<TGAColor>, height: int, width: int)
    requires
        height >= 0,
        0 <= width,
        cs.len() == height * width,
    ensures
        spec_flip(spec_flip(cs, height, width), height, width) == cs,
{
    if width == 0 {
        assert(height * width == 0) by (nonlinear_arith)
            requires
                width == 0,
        ;
        assert(spec_flip(spec_flip(cs, height, width), height, width) =~= cs);
    } else {
        let once = spec_flip(cs, height, width);
        let twice = spec_flip(once, height, width);
        assert forall|i: int| 0 <= i < height * width implies twice[i] == cs[i] by {
            lemma_rowcol(i, height, width);
            let q = i / width;
            let r = i % width;
            lemma_rowcol_inverse(height - 1 - q, r, height, width);
            assert(once[(height - 1 - q) * width + r] == cs[(height - 1 - (height - 1 - q)) * width
                + r]) by {
                lemma_rowcol_inverse(height - 1 - q, r, height, width);
            };
        };
        assert(twice =~= cs);
    }
}

impl TGAImage {
    /// The color buffer, row-major.
    pub open spec fn colors(&self) -> Seq<TGAColor> {
        self.pixels@
    }

    /// The depth buffer, row-major, parallel to the color buffer.
    pub open spec fn depths(&self) -> Seq<i64> {
        self.z_buff@
    }

    /// Both buffers cover exactly `height * width` pixels and the extent is
    /// small enough for fixed-point coordinates.
    pub open spec fn wf(&self) -> bool {
        &&& self.colors().len() == self.height * self.width
        &&& self.depths().len() == self.height * self.width
        &&& self.height <= 0x7fff_ffff
        &&& self.width <= 0x7fff_ffff
    }

    /// A fresh image: every pixel white, every depth at the sentinel floor
    /// so any finite offer wins the first test.
    pub fn new(height: usize, width: usize) -> (img: TGAImage)
        requires
            height <= 0x7fff_ffff,
            width <= 0x7fff_ffff,
            height * width <= usize::MAX,
        ensures
            img.wf(),
            img.height == height,
            img.width == width,
            img.colors() =~= Seq::new((height * width) as nat, |i: int| (TGAColor {
                red: 255,
                green: 255,
                blue: 255,
                alpha: 255,
            })),
            img.depths() =~= Seq::new((height * width) as nat, |i: int| i64::MIN),
    {
        let n: usize = height * width;
        let mut pixels: Vec<TGAColor> = Vec::new();
        let mut z_buff: Vec<i64> = Vec::new();
        let mut k: usize = 0;
        while k < n
            invariant
                k <= n,
                pixels@.len() == k,
                z_buff@.len() == k,
                forall|i: int|
                    0 <= i < k ==> pixels@[i] == (TGAColor {
                        red: 255,
                        green: 255,
                        blue: 255,
                        alpha: 255,
                    }),
                forall|i: int| 0 <= i < k ==> z_buff@[i] == i64::MIN,
            decreases n - k,
        {
            pixels.push(TGAColor { red: 255, green: 255, blue: 255, alpha: 255 });
            z_buff.push(i64::MIN);
            k = k + 1;
        }
        TGAImage { height, width, pixels, z_buff }
    }

    /// The position lies inside the image: no negative component and the
    /// pixel it lands on within both extents.
    pub fn check_boundaries(&self, point: &Vector) -> (r: Result<(), String>)
        ensures
            r is Ok <==> spec_in_bounds(*point, self.height as int, self.width as int),
    {
        if point.x < 0 || point.y < 0 {
            return Err(String::from_str("out of image boundaries"));
        }
        let px: usize = fx_to_pixel(point.x);
        let py: usize = fx_to_pixel(point.y);
        proof {
            lemma_pixel_of_nonneg(point.x);
            lemma_pixel_of_nonneg(point.y);
        }
        if px >= self.width || py >= self.height {
            return Err(String::from_str("out of image boundaries"));
        }
        Ok(())
    }

    /// Depth-tested single write, after its bounds were checked.
    fn set_pixel_unchecked(&mut self, vec: &Vector, pixel: TGAColor)
        requires
            old(self).wf(),
            spec_in_bounds(*vec, old(self).height as int, old(self).width as int),
        ensures
            final(self).height == old(self).height,
            final(self).width == old(self).width,
            final(self).wf(),
            final(self).colors() == spec_apply_offer(
                old(self).colors(),
                old(self).depths(),
                old(self).height as int,
                old(self).width as int,
                *vec,
                pixel,
            ).0,
            final(self).depths() == spec_apply_offer(
                old(self).colors(),
                old(self).depths(),
                old(self).height as int,
                old(self).width as int,
                *vec,
                pixel,
            ).1,
    {
        proof {
            lemma_in_bounds_index(*vec, self.height as int, self.width as int);
            lemma_pixel_of_nonneg(vec.x);
            lemma_pixel_of_nonneg(vec.y);
        }
        let n: usize = self.z_buff.len();
        let px: usize = fx_to_pixel(vec.x);
        let py: usize = fx_to_pixel(vec.y);
        proof {
            assert(py == spec_fx_floor(vec.y as int) && px == spec_fx_floor(vec.x as int));
            assert(py * self.width + px == spec_pix_index(*vec, self.width as int));
        }
        let index: usize = py * self.width + px;
        if self.z_buff[index] < vec.z {
            self.pixels[index] = pixel;
            self.z_buff[index] = vec.z;
        }
    }

    /// Depth-tested single write; positions outside the image come back as a
    /// boundary error and write nothing.
    pub fn set_pixel(&mut self, point: Vector, pixel: TGAColor) -> (r: Result<(), String>)
        requires
            old(self).wf(),
        ensures
            final(self).height == old(self).height,
            final(self).width == old(self).width,
            final(self).wf(),
            r is Ok <==> spec_in_bounds(point, old(self).height as int, old(self).width as int),
            final(self).colors() == spec_apply_offer(
                old(self).colors(),
                old(self).depths(),
                old(self).height as int,
                old(self).width as int,
                point,
                pixel,
            ).0,
            final(self).depths() == spec_apply_offer(
                old(self).colors(),
                old(self).depths(),
                old(self).height as int,
                old(self).width as int,
                point,
                pixel,
            ).1,
    {
        let check = self.check_boundaries(&point);
        if let Err(e) = check {
            return Err(e);
        }
        self.set_pixel_unchecked(&point, pixel);
        Ok(())
    }

    /// Depth-tested batch write: every offer faces the same test, offers
    /// outside the image are skipped, and the whole batch lands as one
    /// indivisible step of the frame.
    pub fn set_pixels(&mut self, tulp: Vec<(Vector, TGAColor)>)
        requires
            old(self).wf(),
        ensures
            final(self).height == old(self).height,
            final(self).width == old(self).width,
            final(self).wf(),
            final(self).colors() == spec_apply_batch(
                old(self).colors(),
                old(self).depths(),
                old(self).height as int,
                old(self).width as int,
                tulp@,
            ).0,
            final(self).depths() == spec_apply_batch(
                old(self).colors(),
                old(self).depths(),
                old(self).height as int,
                old(self).width as int,
                tulp@,
            ).1,
    {
        let ghost cs0 = self.colors();
        let ghost zs0 = self.depths();
        let mut k: usize = 0;
        while k < tulp.len()
            invariant
                k <= tulp@.len(),
                self.height == old(self).height,
                self.width == old(self).width,
                self.wf(),
                self.colors() == spec_apply_batch(
                    cs0,
                    zs0,
                    old(self).height as int,
                    old(self).width as int,
                    tulp@.take(k as int),
                ).0,
                self.depths() == spec_apply_batch(
                    cs0,
                    zs0,
                    old(self).height as int,
                    old(self).width as int,
                    tulp@.take(k as int),
                ).1,
                cs0 == old(self).colors(),
                zs0 == old(self).depths(),
            decreases tulp@.len() - k,
        {
            let (point, pixel) = tulp[k];
            proof {
                assert(tulp@.take(k as int + 1) =~= tulp@.take(k as int).push(tulp@[k as int]));
                lemma_batch_snoc(
                    cs0,
                    zs0,
                    old(self).height as int,
                    old(self).width as int,
                    tulp@.take(k as int),
                    point,
                    pixel,
                );
            }
            if point.x >= 0 && point.y >= 0 {
                let px: usize = fx_to_pixel(point.x);
                let py: usize = fx_to_pixel(point.y);
                proof {
                    lemma_pixel_of_nonneg(point.x);
                    lemma_pixel_of_nonneg(point.y);
                }
                if px < self.width && py < self.height {
                    self.set_pixel_unchecked(&point, pixel);
                }
            }
            k = k + 1;
        }
        proof {
            assert(tulp@.take(tulp@.len() as int) =~= tulp@);
        }
    }

    /// The color buffer flattened to bytes, four per pixel.
    pub fn as_vec(&self) -> (r: Vec<u8>)
        ensures
            r@.len() == 4 * self.colors().len(),
            forall|i: int|
                0 <= i < self.colors().len() ==> {
                    &&& r@[4 * i] == #[trigger] self.colors()[i].red
                    &&& r@[4 * i + 1] == self.colors()[i].green
                    &&& r@[4 * i + 2] == self.colors()[i].blue
                    &&& r@[4 * i + 3] == self.colors()[i].alpha
                },
    {
        TGAColor::from_arr_to_arr(self.pixels.as_slice())
    }

    /// Depth-ignoring line between two in-bounds pixel points, stepped along
    /// the longer axis; out-of-bounds endpoints come back as a boundary
    /// error and write nothing.
    #[verifier::rlimit(100)]
    pub fn draw_line(&mut self, start: &Point, end: &Point, color: &TGAColor) -> (r: Result<
        (),
        String,
    >)
        requires
            old(self).wf(),
        ensures
            final(self).height == old(self).height,
            final(self).width == old(self).width,
            final(self).wf(),
            r is Ok <==> start.x < old(self).width && start.y < old(self).height && end.x < old(
                self,
            ).width && end.y < old(self).height,
            r is Ok ==> final(self).colors() == spec_apply_batch(
                old(self).colors(),
                old(self).depths(),
                old(self).height as int,
                old(self).width as int,
                spec_line_offers(*start, *end, *color),
            ).0 && final(self).depths() == spec_apply_batch(
                old(self).colors(),
                old(self).depths(),
                old(self).height as int,
                old(self).width as int,
                spec_line_offers(*start, *end, *color),
            ).1,
            r is Err ==> final(self).colors() == old(self).colors() && final(self).depths() == old(
                self,
            ).depths(),
    {
        if start.x >= self.width || start.y >= self.height {
            return Err(String::from_str("out of image boundaries"));
        }
        if end.x >= self.width || end.y >= self.height {
            return Err(String::from_str("out of image boundaries"));
        }
        let (miny, maxy) = if start.y > end.y {
            (end.y, start.y)
        } else {
            (start.y, end.y)
        };
        let (minx, maxx) = if start.x > end.x {
            (end.x, start.x)
        } else {
            (start.x, end.x)
        };
        let x_is_greater = maxx - minx > maxy - miny;
        let (mn, mx) = if x_is_greater {
            (minx, maxx)
        } else {
            (miny, maxy)
        };
        let ghost offers = spec_line_offers(*start, *end, *color);
        let mut batch: Vec<(Vector, TGAColor)> = Vec::new();
        let mut t: usize = mn;
        while t < mx
            invariant
                mn <= t,
                t <= mx || t == mn,
                mn < mx ==> mx - mn == offers.len(),
                start.x < self.width <= 0x7fff_ffff,
                start.y < self.height <= 0x7fff_ffff,
                end.x < self.width,
                end.y < self.height,
                offers == spec_line_offers(*start, *end, *color),
                ({
                    let (py, qy) = if start.y > end.y {
                        (end.y, start.y)
                    } else {
                        (start.y, end.y)
                    };
                    let (px, qx) = if start.x > end.x {
                        (end.x, start.x)
                    } else {
                        (start.x, end.x)
                    };
                    let (m1, m2) = if qx - px > qy - py {
                        (px, qx)
                    } else {
                        (py, qy)
                    };
                    mn == m1 && mx == m2
                }),
                batch@ == offers.take(t - mn),
            decreases mx - t,
        {
            let offer = line_offer_at(start, end, color, t, mn, mx);
            proof {
                assert(offer == offers[t - mn]);
                assert(offers.take(t + 1 - mn) =~= offers.take(t - mn).push(offers[t - mn]));
            }
            batch.push(offer);
            t = t + 1;
        }
        proof {
            if mn < mx {
                assert(offers.take(mx - mn) =~= offers);
            } else {
                assert(offers =~= Seq::<(Vector, TGAColor)>::empty());
                assert(batch@ =~= offers);
            }
        }
        self.set_pixels(batch);
        Ok(())
    }

    /// Scanline rasterization of one screen-space triangle with shading:
    /// walks the rows between the topmost and bottommost corner, makes one
    /// depth-tested offer per covered pixel, and leaves a triangle whose
    /// corners share one `y` untouched.  The right boundary column of each
    /// row is excluded, so neighbouring triangles never shade a shared edge
    /// twice.
    pub fn fill_triangle(
        &mut self,
        light: &Vector,
        coords: [Vector; 3],
        text_coords: [Vector; 3],
        texture: &Option<Texture>,
        norm_coords: [Vector; 3],
        norm_map: &Option<Texture>,
        sp_map: &Option<Texture>,
    )
        requires
            old(self).wf(),
            spec_maps_wf(*texture, *norm_map, *sp_map),
        ensures
            final(self).height == old(self).height,
            final(self).width == old(self).width,
            final(self).wf(),
            final(self).colors() == spec_apply_batch(
                old(self).colors(),
                old(self).depths(),
                old(self).height as int,
                old(self).width as int,
                spec_triangle_batch(
                    *light,
                    coords@,
                    text_coords@,
                    norm_coords@,
                    *texture,
                    *norm_map,
                    *sp_map,
                ),
            ).0,
            final(self).depths() == spec_apply_batch(
                old(self).colors(),
                old(self).depths(),
                old(self).height as int,
                old(self).width as int,
                spec_triangle_batch(
                    *light,
                    coords@,
                    text_coords@,
                    norm_coords@,
                    *texture,
                    *norm_map,
                    *sp_map,
                ),
            ).1,
            coords@[0].y == coords@[1].y && coords@[0].y == coords@[2].y ==> final(self).colors()
                == old(self).colors() && final(self).depths() == old(self).depths(),
    {
        if coords[0].y == coords[1].y && coords[0].y == coords[2].y {
            return ;
        }
        let v0 = TriAttr { c: coords[0], t: text_coords[0], n: norm_coords[0] };
        let v1 = TriAttr { c: coords[1], t: text_coords[1], n: norm_coords[1] };
        let v2 = TriAttr { c: coords[2], t: text_coords[2], n: norm_coords[2] };
        let (s0, s1, s2) = sort3(v0, v1, v2);
        let ghost inp = (TriInput {
            v0: s0,
            v1: s1,
            v2: s2,
            light: *light,
            texture: *texture,
            norm_map: *norm_map,
            sp_map: *sp_map,
        });
        let d20: i64 = fx_sub(s2.c.y, s0.c.y);
        let d10: i64 = fx_sub(s1.c.y, s0.c.y);
        let tg1_text: Vector = s2.t.sub(s0.t).div(d20);
        let tg1_norm: Vector = s2.n.sub(s0.n).div(d20);
        let tg_last: Vector = s2.c.sub(s0.c).div(d20);
        let mut st = WalkState {
            a: s0.c,
            b: s0.c,
            uva: s0.t,
            uvb: s0.t,
            una: s0.n,
            unb: s0.n,
            tg2_text: s1.t.sub(s0.t).div(d10),
            tg2_norm: s1.n.sub(s0.n).div(d10),
            tg_middle: s1.c.sub(s0.c).div(d10),
        };
        proof {
            assert(st == spec_init_state(inp));
            assert(tg1_text == spec_tg1_text(inp));
            assert(tg1_norm == spec_tg1_norm(inp));
            assert(tg_last == spec_tg_last(inp));
        }
        let y0p: usize = fx_to_pixel(s0.c.y);
        let y1p: usize = fx_to_pixel(s1.c.y);
        let y2p: usize = fx_to_pixel(s2.c.y);
        let mut pixels: Vec<(Vector, TGAColor)> = Vec::new();
        let mut dy: usize = y0p;
        while dy < y2p
            invariant
                y0p <= dy,
                dy <= y2p || dy == y0p,
                y0p == spec_y0p(inp),
                y1p == spec_y1p(inp),
                y2p == spec_y2p(inp),
                tg1_text == spec_tg1_text(inp),
                tg1_norm == spec_tg1_norm(inp),
                tg_last == spec_tg_last(inp),
                inp.v0 == s0,
                inp.v1 == s1,
                inp.v2 == s2,
                inp.texture == *texture,
                inp.norm_map == *norm_map,
                inp.sp_map == *sp_map,
                inp.light == *light,
                spec_maps_wf(*texture, *norm_map, *sp_map),
                st == spec_state_at(inp, (dy - y0p) as nat),
                pixels@ == spec_batch_upto(inp, (dy - y0p) as nat),
            decreases y2p - dy,
        {
            let ghost k = (dy - y0p) as nat;
            let ghost st_pre = st;
            if y1p == dy {
                st = WalkState {
                    b: s1.c,
                    uvb: s1.t,
                    unb: s1.n,
                    tg2_text: s2.t.sub(s1.t).div(fx_sub(s2.c.y, s1.c.y)),
                    tg2_norm: s2.n.sub(s1.n).div(fx_sub(s2.c.y, s1.c.y)),
                    tg_middle: s2.c.sub(s1.c).div(fx_sub(s2.c.y, s1.c.y)),
                    ..st
                };
                proof {
                    assert(st == spec_switched(inp, st_pre));
                }
            }
            proof {
                assert(y0p + k == dy);
                assert(st == spec_active(inp, spec_state_at(inp, k), y0p + k));
            }
            let ghost active = st;
            emit_scanline(&mut pixels, &st, texture, norm_map, sp_map, light);
            proof {
                assert(spec_batch_upto(inp, k + 1) == spec_batch_upto(inp, k) + spec_scanline(
                    spec_active(inp, spec_state_at(inp, k), spec_y0p(inp) + k),
                    inp.texture,
                    inp.norm_map,
                    inp.sp_map,
                    inp.light,
                ));
                assert(pixels@ == spec_batch_upto(inp, k + 1));
            }
            st = WalkState {
                a: st.a.add(tg_last),
                b: st.b.add(st.tg_middle),
                uva: st.uva.add(tg1_text),
                uvb: st.uvb.add(st.tg2_text),
                una: st.una.add(tg1_norm),
                unb: st.unb.add(st.tg2_norm),
                ..st
            };
            proof {
                assert(st == spec_advance(inp, active));
                assert(st == spec_state_at(inp, (k + 1) as nat));
            }
            dy = dy + 1;
        }
        proof {
            assert((dy - y0p) as nat == spec_row_count(inp) as nat);
            assert(pixels@ == spec_triangle_batch(
                *light,
                coords@,
                text_coords@,
                norm_coords@,
                *texture,
                *norm_map,
                *sp_map,
            ));
        }
        self.set_pixels(pixels);
    }

    /// Every written pixel of this frame as an offer at its stored depth,
    /// in row-major order.  Feeding the result to another frame's
    /// `set_pixels` merges the two frames under the same depth test.
    pub fn written_offers(&self) -> (r: Vec<(Vector, TGAColor)>)
        requires
            self.wf(),
        ensures
            r@ == spec_written_offers(
                self.colors(),
                self.depths(),
                self.width as int,
                (self.height * self.width) as int,
            ),
    {
        let mut offers: Vec<(Vector, TGAColor)> = Vec::new();
        let n: usize = self.pixels.len();
        let mut i: usize = 0;
        while i < n
            invariant
                i <= n,
                self.wf(),
                n == self.height * self.width,
                offers@ == spec_written_offers(
                    self.colors(),
                    self.depths(),
                    self.width as int,
                    i as int,
                ),
            decreases n - i,
        {
            let depth: i64 = self.z_buff[i];
            if depth != i64::MIN {
                proof {
                    assert(self.width > 0) by (nonlinear_arith)
                        requires
                            0 <= i < n,
                            n == self.height * self.width,
                            self.width >= 0,
                            self.height >= 0,
                    ;
                    lemma_rowcol(i as int, self.height as int, self.width as int);
                }
                let x: usize = i % self.width;
                let y: usize = i / self.width;
                let offer = (
                    Vector { x: fx_of_int(x as i64), y: fx_of_int(y as i64), z: depth },
                    self.pixels[i],
                );
                offers.push(offer);
            }
            i = i + 1;
        }
        offers
    }

    /// Exchanges row `y` with row `height - 1 - y` in the color buffer; the
    /// depth buffer is left alone.
    pub fn flip_vertically(&mut self)
        requires
            old(self).wf(),
        ensures
            final(self).height == old(self).height,
            final(self).width == old(self).width,
            final(self).wf(),
            final(self).colors() == spec_flip(
                old(self).colors(),
                old(self).height as int,
                old(self).width as int,
            ),
            final(self).depths() == old(self).depths(),
    {
        let h = self.height;
        let w = self.width;
        if w == 0 {
            proof {
                assert(h as int * w == 0) by (nonlinear_arith)
                    requires
                        w == 0,
                ;
                assert(self.colors() =~= spec_flip(self.colors(), h as int, w as int));
            }
            return ;
        }
        let n: usize = self.pixels.len();
        let mut flipped: Vec<TGAColor> = Vec::new();
        let mut y: usize = 0;
        while y < h
            invariant
                y <= h,
                h == self.height,
                w == self.width,
                self.wf(),
                self == old(self),
                n == h * w,
                flipped@.len() == y * w,
                w > 0,
                forall|j: int|
                    0 <= j < y * w ==> #[trigger] flipped@[j] == self.colors()[(h - 1 - j / (
                    w as int)) * w + j % (w as int)],
            decreases h - y,
        {
            let src_row: usize = h - 1 - y;
            let mut x: usize = 0;
            proof {
                assert(y * w + w <= h * w) by (nonlinear_arith)
                    requires
                        y < h,
                        w > 0,
                ;
            }
            while x < w
                invariant
                    x <= w,
                    h == self.height,
                    w == self.width,
                    self.wf(),
                    self == old(self),
                    n == h * w,
                    src_row == h - 1 - y,
                    y < h,
                    flipped@.len() == y * w + x,
                    w > 0,
                    y * w + w <= h * w,
                    forall|j: int|
                        0 <= j < y * w + x ==> #[trigger] flipped@[j] == self.colors()[(h - 1 - j
                            / (w as int)) * w + j % (w as int)],
                decreases w - x,
            {
                proof {
                    assert(src_row * w + x < h * w) by (nonlinear_arith)
                        requires
                            src_row < h,
                            0 <= x < w,
                    ;
                    lemma_rowcol_inverse(y as int, x as int, h as int, w as int);
                    lemma_rowcol_inverse(src_row as int, x as int, h as int, w as int);
                }
                let index: usize = src_row * w + x;
                flipped.push(self.pixels[index]);
                x = x + 1;
            }
            proof {
                assert((y + 1) * w == y * w + w) by (nonlinear_arith);
            }
            y = y + 1;
        }
        proof {
            assert forall|i: int| 0 <= i < h * w implies flipped@[i] == spec_flip(
                self.colors(),
                h as int,
                w as int,
            )[i] by {
                lemma_rowcol(i, h as int, w as int);
            };
            assert(flipped@ =~= spec_flip(self.colors(), h as int, w as int));
        }
        self.pixels = flipped;
    }
}

/// One step of a line walk: the pixel at ratio `(t - mn) / (mx - mn)`
/// between the endpoints, offered at the greatest possible depth.
pub open spec fn spec_line_offer(
    s: Point,
    e: Point,
    c: TGAColor,
    t: int,
    mn: int,
    mx: int,
) -> (Vector, TGAColor) {
    let phi = spec_fx_div(spec_fx_of_int(t - mn), spec_fx_of_int(mx - mn));
    let x = spec_fx_to_pixel(
        spec_fx_add(
            spec_fx_mul(spec_fx_of_int(s.x as int), spec_fx_sub(FX_ONE as int, phi)),
            spec_fx_mul(spec_fx_of_int(e.x as int), phi),
        ),
    );
    let y = spec_fx_to_pixel(
        spec_fx_add(
            spec_fx_mul(spec_fx_of_int(s.y as int), spec_fx_sub(FX_ONE as int, phi)),
            spec_fx_mul(spec_fx_of_int(e.y as int), phi),
        ),
    );
    (
        Vector {
            x: spec_fx_of_int(x) as i64,
            y: spec_fx_of_int(y) as i64,
            z: i64::MAX,
        },
        c,
    )
}

/// All offers of a line walk: one per step of the half-open range along the
/// longer axis.
pub open spec fn spec_line_offers(s: Point, e: Point, c: TGAColor) -> Seq<(Vector, TGAColor)> {
    let miny = if s.y > e.y {
        e.y as int
    } else {
        s.y as int
    };
    let maxy = if s.y > e.y {
        s.y as int
    } else {
        e.y as int
    };
    let minx = if s.x > e.x {
        e.x as int
    } else {
        s.x as int
    };
    let maxx = if s.x > e.x {
        s.x as int
    } else {
        e.x as int
    };
    let mn = if maxx - minx > maxy - miny {
        minx
    } else {
        miny
    };
    let mx = if maxx - minx > maxy - miny {
        maxx
    } else {
        maxy
    };
    if mx <= mn {
        Seq::empty()
    } else {
        Seq::new((mx - mn) as nat, |i: int| spec_line_offer(s, e, c, mn + i, mn, mx))
    }
}

fn line_offer_at(start: &Point, end: &Point, color: &TGAColor, t: usize, mn: usize, mx: usize) -> (r: (
    Vector,
    TGAColor,
))
    requires
        start.x <= 0x7fff_ffff,
        start.y <= 0x7fff_ffff,
        end.x <= 0x7fff_ffff,
        end.y <= 0x7fff_ffff,
        mn <= t < mx <= 0x7fff_ffff,
    ensures
        r == spec_line_offer(*start, *end, *color, t as int, mn as int, mx as int),
{
    let phi: i64 = fx_div(fx_of_int((t - mn) as i64), fx_of_int((mx - mn) as i64));
    let xf: i64 = fx_add(
        fx_mul(fx_of_int(start.x as i64), fx_sub(FX_ONE, phi)),
        fx_mul(fx_of_int(end.x as i64), phi),
    );
    let yf: i64 = fx_add(
        fx_mul(fx_of_int(start.y as i64), fx_sub(FX_ONE, phi)),
        fx_mul(fx_of_int(end.y as i64), phi),
    );
    let x: usize = fx_to_pixel(xf);
    let y: usize = fx_to_pixel(yf);
    (Vector { x: fx_of_int(x as i64), y: fx_of_int(y as i64), z: i64::MAX }, *color)
}

/// The offers a finished frame holds, walking the first `n` buffer cells
/// in row-major order: one offer per written pixel — its position, at the
/// stored depth, with the stored color.  Unwritten cells, still at the
/// sentinel, contribute nothing.
pub open spec fn spec_written_offers(cs: Seq<TGAColor>, zs: Seq<i64>, width: int, n: int) -> Seq<
    (Vector, TGAColor),
>
    decreases n,
{
    if n <= 0 {
        Seq::empty()
    } else {
        let prev = spec_written_offers(cs, zs, width, n - 1);
        if zs[n - 1] == i64::MIN {
            prev
        } else {
            prev.push(
                (
                    (Vector {
                        x: spec_fx_of_int((n - 1) % width) as i64,
                        y: spec_fx_of_int((n - 1) / width) as i64,
                        z: zs[n - 1],
                    }),
                    cs[n - 1],
                ),
            )
        }
    }
}

/// Fixed-point weight of the specular-map sample in the intensity sum,
/// about six tenths.
pub const SPECULAR_WEIGHT: i64 = 39322;

/// One triangle corner with its texture and normal-map coordinates.
#[derive(Debug, Copy, Clone, PartialEq, Eq, Structural)]
pub struct TriAttr {
    pub c: Vector,
    pub t: Vector,
    pub n: Vector,
}

/// The two active edges of the scanline walk, with the per-row increments
/// that change when the walk passes the middle corner.
#[derive(Debug, Copy, Clone, PartialEq, Eq, Structural)]
pub struct WalkState {
    pub a: Vector,
    pub b: Vector,
    pub uva: Vector,
    pub uvb: Vector,
    pub una: Vector,
    pub unb: Vector,
    pub tg2_text: Vector,
    pub tg2_norm: Vector,
    pub tg_middle: Vector,
}

/// A triangle sorted by ascending `y`, with the maps and light it is shaded
/// from.
pub struct TriInput {
    pub v0: TriAttr,
    pub v1: TriAttr,
    pub v2: TriAttr,
    pub light: Vector,
    pub texture: Option<Texture>,
    pub norm_map: Option<Texture>,
    pub sp_map: Option<Texture>,
}

/// The three corners ordered by ascending `y`, each carrying its attributes.
pub open spec fn spec_sort3(v0: TriAttr, v1: TriAttr, v2: TriAttr) -> (TriAttr, TriAttr, TriAttr) {
    let (a0, a1) = if v0.c.y > v1.c.y {
        (v1, v0)
    } else {
        (v0, v1)
    };
    let (b0, b2) = if a0.c.y > v2.c.y {
        (v2, a0)
    } else {
        (a0, v2)
    };
    let (c1, c2) = if a1.c.y > b2.c.y {
        (b2, a1)
    } else {
        (a1, b2)
    };
    (b0, c1, c2)
}

fn sort3(v0: TriAttr, v1: TriAttr, v2: TriAttr) -> (r: (TriAttr, TriAttr, TriAttr))
    ensures
        r == spec_sort3(v0, v1, v2),
{
    let mut s0 = v0;
    let mut s1 = v1;
    let mut s2 = v2;
    if s0.c.y > s1.c.y {
        let tmp = s0;
        s0 = s1;
        s1 = tmp;
    }
    if s0.c.y > s2.c.y {
        let tmp = s0;
        s0 = s2;
        s2 = tmp;
    }
    if s1.c.y > s2.c.y {
        let tmp = s1;
        s1 = s2;
        s2 = tmp;
    }
    (s0, s1, s2)
}

/// A coordinate clamped onto a texture extent: the sampling never reads
/// outside the map.
pub open spec fn spec_clamp_pix(a: i64, limit: int) -> int {
    if spec_fx_to_pixel(a as int) >= limit {
        limit - 1
    } else {
        spec_fx_to_pixel(a as int)
    }
}

/// Nearest-texel color sample of a four-channel map.
pub open spec fn spec_sample_color(t: Texture, uv: Vector) -> TGAColor {
    spec_texel(t, spec_clamp_pix(uv.x, t.width as int), spec_clamp_pix(uv.y, t.height as int))
}

/// Nearest-texel weight sample of a one-channel map.
pub open spec fn spec_sample_grey(t: Texture, uv: Vector) -> int {
    spec_texel_grey(t, spec_clamp_pix(uv.x, t.width as int), spec_clamp_pix(uv.y, t.height as int))
}

/// Every map that is present is well formed for its channel layout.
pub open spec fn spec_maps_wf(
    texture: Option<Texture>,
    norm_map: Option<Texture>,
    sp_map: Option<Texture>,
) -> bool {
    &&& (texture matches Some(t) ==> t.wf_rgba())
    &&& (norm_map matches Some(t) ==> t.wf_rgba())
    &&& (sp_map matches Some(t) ==> t.wf_grey())
}

/// The shaded color of one covered pixel: diffuse sample (or black without a
/// texture), lit by the normal-map direction against the light and by the
/// specular weight.
pub open spec fn spec_shade(
    texture: Option<Texture>,
    norm_map: Option<Texture>,
    sp_map: Option<Texture>,
    light: Vector,
    uvp: Vector,
    unp: Vector,
) -> TGAColor {
    let base = match texture {
        Some(t) => spec_sample_color(t, uvp),
        None => TGAColor { red: 0, green: 0, blue: 0, alpha: 255 },
    };
    let i1 = match norm_map {
        Some(nm) => spec_fx_add(
            0,
            spec_dot(spec_normalize(spec_to_vector(spec_sample_color(nm, unp))), light),
        ),
        None => 0,
    };
    let i2 = match sp_map {
        Some(sp) => spec_fx_add(i1, spec_fx_mul(spec_sample_grey(sp, unp), SPECULAR_WEIGHT as int)),
        None => i1,
    };
    spec_with_intensity(base, i2)
}

/// The offer the walk makes for pixel column `dx` of the current scanline:
/// position and attributes interpolated between the two active edges by a
/// clamped ratio.
pub open spec fn spec_pixel_at(
    st: WalkState,
    dx: int,
    texture: Option<Texture>,
    norm_map: Option<Texture>,
    sp_map: Option<Texture>,
    light: Vector,
) -> (Vector, TGAColor) {
    let phi_raw = spec_fx_div(
        spec_fx_sub(spec_fx_of_int(dx), st.a.x as int),
        spec_fx_sub(st.b.x as int, st.a.x as int),
    );
    let phi = if phi_raw > FX_ONE {
        FX_ONE as int
    } else if phi_raw < 0 {
        0
    } else {
        phi_raw
    };
    let p = spec_plus(st.a, spec_scale(spec_minus(st.b, st.a), phi));
    let uvp = spec_plus(st.uva, spec_scale(spec_minus(st.uvb, st.uva), phi));
    let unp = spec_plus(st.una, spec_scale(spec_minus(st.unb, st.una), phi));
    (p, spec_shade(texture, norm_map, sp_map, light, uvp, unp))
}

/// The half-open boundary rule of the scanline walk: with the active
/// edges ordered, every offer of the row sits at or right of the left
/// edge and strictly left of the right edge.  Two triangles meeting at a
/// vertical edge therefore never shade it twice: the one whose right
/// boundary it is stops strictly before it, the one whose left boundary
/// it is starts on it.
pub proof fn lemma_scanline_half_open(
    st: WalkState,
    texture: Option<Texture>,
    norm_map: Option<Texture>,
    sp_map: Option<Texture>,
    light: Vector,
)
    requires
        st.a.x < st.b.x,
        -0x2000_0000_0000_0000 <= st.a.x,
        st.b.x <= 0x2000_0000_0000_0000,
    ensures
        forall|i: int|
            0 <= i < spec_scanline(st, texture, norm_map, sp_map, light).len() ==> st.a.x <= (
            #[trigger] spec_scanline(st, texture, norm_map, sp_map, light)[i]).0.x < st.b.x,
{
    let row = spec_scanline(st, texture, norm_map, sp_map, light);
    let ax = st.a.x as int;
    let bx = st.b.x as int;
    let s = FX_ONE as int;
    let xs = spec_scan_xs(st);
    let xe = spec_scan_xe(st);
    let span = bx - ax;
    assert forall|i: int| 0 <= i < row.len() implies st.a.x <= (#[trigger] row[i]).0.x
        < st.b.x by {
        let dx = xs + i;
        assert(row[i] == spec_pixel_at(st, dx, texture, norm_map, sp_map, light));
        assert(0 <= xs && dx < xe);
        assert(xe >= 1);
        assert(bx > 0);
        let q = bx / s;
        assert(dx + 1 <= q);
        assert(q * s <= bx) by {
            vstd::arithmetic::div_mod::lemma_fundamental_div_mod(bx, s);
            assert((bx / s) * s == s * (bx / s)) by (nonlinear_arith);
        };
        assert((dx + 1) * s <= q * s) by (nonlinear_arith)
            requires
                dx + 1 <= q,
                s > 0,
        ;
        assert(dx * s + s <= bx) by (nonlinear_arith)
            requires
                (dx + 1) * s <= bx,
        ;
        assert(dx * s >= 0) by (nonlinear_arith)
            requires
                dx >= 0,
                s > 0,
        ;
        let dxv = spec_fx_of_int(dx);
        assert(dxv == dx * s);
        let num = spec_fx_sub(dxv, ax);
        assert(num == dx * s - ax);
        assert(num < span);
        let phi_raw = spec_fx_div(num, span);
        let t = tdiv(num * s, span);
        if num >= 0 {
            assert(num * s >= 0 && num * s < span * s) by (nonlinear_arith)
                requires
                    0 <= num < span,
                    s > 0,
            ;
            assert(t == num * s / span);
            assert(t < s) by {
                vstd::arithmetic::div_mod::lemma_fundamental_div_mod(num * s, span);
                if t >= s {
                    assert(t * span >= s * span) by (nonlinear_arith)
                        requires
                            t >= s,
                            span > 0,
                    ;
                    assert(t * span <= num * s) by {
                        assert(num * s == span * (num * s / span) + (num * s) % span);
                        assert((num * s / span) * span == span * (num * s / span))
                            by (nonlinear_arith);
                    };
                    assert(num * s < span * s) by (nonlinear_arith)
                        requires
                            num < span,
                            s > 0,
                    ;
                    assert(span * s == s * span) by (nonlinear_arith);
                    assert(false);
                }
            };
            assert(t >= 0) by (nonlinear_arith)
                requires
                    num * s >= 0,
                    span > 0,
                    t == num * s / span,
            ;
        } else {
            assert(num * s < 0) by (nonlinear_arith)
                requires
                    num < 0,
                    s > 0,
            ;
            assert(t <= 0) by {
                let an = abs_int(num * s);
                let asp = abs_int(span);
                assert(an >= 0 && asp == span);
                assert(an / asp >= 0) by (nonlinear_arith)
                    requires
                        an >= 0,
                        asp > 0,
                ;
                assert(t == -(an / asp));
            };
        }
        assert(phi_raw == sat64(t));
        let phi = if phi_raw > FX_ONE {
            FX_ONE as int
        } else if phi_raw < 0 {
            0
        } else {
            phi_raw
        };
        assert(0 <= phi < s);
        let sp = spec_fx_sub(bx, ax);
        assert(sp == span);
        let d = spec_fx_mul(sp, phi);
        let td = tdiv(span * phi, s);
        assert(span * phi >= 0 && span * phi < span * s) by (nonlinear_arith)
            requires
                span > 0,
                0 <= phi < s,
        ;
        assert(td == span * phi / s);
        assert(td < span) by {
            vstd::arithmetic::div_mod::lemma_fundamental_div_mod(span * phi, s);
            if td >= span {
                assert(td * s >= span * s) by (nonlinear_arith)
                    requires
                        td >= span,
                        s > 0,
                ;
                assert(td * s <= span * phi) by {
                    assert(span * phi == s * (span * phi / s) + (span * phi) % s);
                    assert((span * phi / s) * s == s * (span * phi / s)) by (nonlinear_arith);
                };
                assert(false);
            }
        };
        assert(td >= 0) by (nonlinear_arith)
            requires
                span * phi >= 0,
                s > 0,
                td == span * phi / s,
        ;
        assert(d == td);
        assert(row[i].0.x == spec_fx_add(ax, d));
        assert(ax + d < bx);
        assert(spec_fx_add(ax, d) == ax + d);
    };
}

/// First pixel column of the current scanline.
pub open spec fn spec_scan_xs(st: WalkState) -> int {
    if st.a.x < st.b.x {
        spec_fx_to_pixel(st.a.x as int)
    } else {
        spec_fx_to_pixel(st.b.x as int)
    }
}

/// One-past-the-last pixel column of the current scanline: the right
/// boundary itself is excluded, so an edge two triangles share is drawn by
/// only one of them.
pub open spec fn spec_scan_xe(st: WalkState) -> int {
    if st.a.x < st.b.x {
        spec_fx_to_pixel(st.b.x as int)
    } else {
        spec_fx_to_pixel(st.a.x as int)
    }
}

/// The offers of one scanline, for the half-open column range.
pub open spec fn spec_scanline(
    st: WalkState,
    texture: Option<Texture>,
    norm_map: Option<Texture>,
    sp_map: Option<Texture>,
    light: Vector,
) -> Seq<(Vector, TGAColor)> {
    let xs = spec_scan_xs(st);
    let xe = spec_scan_xe(st);
    if xe <= xs {
        Seq::empty()
    } else {
        Seq::new((xe - xs) as nat, |i: int| spec_pixel_at(st, xs + i, texture, norm_map, sp_map, light))
    }
}

/// Pixel row of the topmost corner.
pub open spec fn spec_y0p(inp: TriInput) -> int {
    spec_fx_to_pixel(inp.v0.c.y as int)
}

/// Pixel row of the middle corner, where the second active edge changes.
pub open spec fn spec_y1p(inp: TriInput) -> int {
    spec_fx_to_pixel(inp.v1.c.y as int)
}

/// Pixel row of the bottommost corner.
pub open spec fn spec_y2p(inp: TriInput) -> int {
    spec_fx_to_pixel(inp.v2.c.y as int)
}

/// Per-row increment of the long edge's texture coordinates.
pub open spec fn spec_tg1_text(inp: TriInput) -> Vector {
    spec_div_scalar(
        spec_minus(inp.v2.t, inp.v0.t),
        spec_fx_sub(inp.v2.c.y as int, inp.v0.c.y as int),
    )
}

/// Per-row increment of the long edge's normal-map coordinates.
pub open spec fn spec_tg1_norm(inp: TriInput) -> Vector {
    spec_div_scalar(
        spec_minus(inp.v2.n, inp.v0.n),
        spec_fx_sub(inp.v2.c.y as int, inp.v0.c.y as int),
    )
}

/// Per-row increment of the long edge's position.
pub open spec fn spec_tg_last(inp: TriInput) -> Vector {
    spec_div_scalar(
        spec_minus(inp.v2.c, inp.v0.c),
        spec_fx_sub(inp.v2.c.y as int, inp.v0.c.y as int),
    )
}

/// The walk before the first row: both active edges start at the top corner.
pub open spec fn spec_init_state(inp: TriInput) -> WalkState {
    WalkState {
        a: inp.v0.c,
        b: inp.v0.c,
        uva: inp.v0.t,
        uvb: inp.v0.t,
        una: inp.v0.n,
        unb: inp.v0.n,
        tg2_text: spec_div_scalar(
            spec_minus(inp.v1.t, inp.v0.t),
            spec_fx_sub(inp.v1.c.y as int, inp.v0.c.y as int),
        ),
        tg2_norm: spec_div_scalar(
            spec_minus(inp.v1.n, inp.v0.n),
            spec_fx_sub(inp.v1.c.y as int, inp.v0.c.y as int),
        ),
        tg_middle: spec_div_scalar(
            spec_minus(inp.v1.c, inp.v0.c),
            spec_fx_sub(inp.v1.c.y as int, inp.v0.c.y as int),
        ),
    }
}

/// The second active edge turns at the middle corner: it now runs from
/// there to the bottom corner.
pub open spec fn spec_switched(inp: TriInput, st: WalkState) -> WalkState {
    WalkState {
        b: inp.v1.c,
        uvb: inp.v1.t,
        unb: inp.v1.n,
        tg2_text: spec_div_scalar(
            spec_minus(inp.v2.t, inp.v1.t),
            spec_fx_sub(inp.v2.c.y as int, inp.v1.c.y as int),
        ),
        tg2_norm: spec_div_scalar(
            spec_minus(inp.v2.n, inp.v1.n),
            spec_fx_sub(inp.v2.c.y as int, inp.v1.c.y as int),
        ),
        tg_middle: spec_div_scalar(
            spec_minus(inp.v2.c, inp.v1.c),
            spec_fx_sub(inp.v2.c.y as int, inp.v1.c.y as int),
        ),
        ..st
    }
}

/// The walk state used for row `dy`: switched when that row is the middle
/// corner's row.
pub open spec fn spec_active(inp: TriInput, st: WalkState, dy: int) -> WalkState {
    if spec_y1p(inp) == dy {
        spec_switched(inp, st)
    } else {
        st
    }
}

/// Both active edges advanced by one row.
pub open spec fn spec_advance(inp: TriInput, st: WalkState) -> WalkState {
    WalkState {
        a: spec_plus(st.a, spec_tg_last(inp)),
        b: spec_plus(st.b, st.tg_middle),
        uva: spec_plus(st.uva, spec_tg1_text(inp)),
        uvb: spec_plus(st.uvb, st.tg2_text),
        una: spec_plus(st.una, spec_tg1_norm(inp)),
        unb: spec_plus(st.unb, st.tg2_norm),
        ..st
    }
}

/// The walk state when row `spec_y0p(inp) + k` begins.
pub open spec fn spec_state_at(inp: TriInput, k: nat) -> WalkState
    decreases k,
{
    if k == 0 {
        spec_init_state(inp)
    } else {
        spec_advance(
            inp,
            spec_active(inp, spec_state_at(inp, (k - 1) as nat), spec_y0p(inp) + k - 1),
        )
    }
}

/// All offers made by the first `k` rows of the walk.
pub open spec fn spec_batch_upto(inp: TriInput, k: nat) -> Seq<(Vector, TGAColor)>
    decreases k,
{
    if k == 0 {
        Seq::empty()
    } else {
        spec_batch_upto(inp, (k - 1) as nat) + spec_scanline(
            spec_active(inp, spec_state_at(inp, (k - 1) as nat), spec_y0p(inp) + k - 1),
            inp.texture,
            inp.norm_map,
            inp.sp_map,
            inp.light,
        )
    }
}

/// How many rows the walk covers.
pub open spec fn spec_row_count(inp: TriInput) -> int {
    if spec_y2p(inp) > spec_y0p(inp) {
        spec_y2p(inp) - spec_y0p(inp)
    } else {
        0
    }
}

/// Every offer `fill_triangle` makes for a triangle: none when the three
/// corners share one `y`, otherwise the corners are sorted by `y` and the
/// walk emits its rows.
pub open spec fn spec_triangle_batch(
    light: Vector,
    coords: Seq<Vector>,
    text_coords: Seq<Vector>,
    norm_coords: Seq<Vector>,
    texture: Option<Texture>,
    norm_map: Option<Texture>,
    sp_map: Option<Texture>,
) -> Seq<(Vector, TGAColor)> {
    if coords[0].y == coords[1].y && coords[0].y == coords[2].y {
        Seq::empty()
    } else {
        let s = spec_sort3(
            TriAttr { c: coords[0], t: text_coords[0], n: norm_coords[0] },
            TriAttr { c: coords[1], t: text_coords[1], n: norm_coords[1] },
            TriAttr { c: coords[2], t: text_coords[2], n: norm_coords[2] },
        );
        let inp = TriInput { v0: s.0, v1: s.1, v2: s.2, light, texture, norm_map, sp_map };
        spec_batch_upto(inp, spec_row_count(inp) as nat)
    }
}

/// A triangle whose corners all sit at or above the top edge makes no
/// offer at all: its walk covers no pixel row.  Together with
/// `lemma_batch_all_outside` — offers outside the image are discarded —
/// and the boundary guard of the batch write, no triangle outside the
/// image can touch a pixel or escalate a boundary miss into a failure.
pub proof fn lemma_triangle_above_writes_nothing(
    light: Vector,
    coords: Seq<Vector>,
    text_coords: Seq<Vector>,
    norm_coords: Seq<Vector>,
    texture: Option<Texture>,
    norm_map: Option<Texture>,
    sp_map: Option<Texture>,
)
    requires
        coords.len() == 3,
        coords[0].y <= 0,
        coords[1].y <= 0,
        coords[2].y <= 0,
    ensures
        spec_triangle_batch(light, coords, text_coords, norm_coords, texture, norm_map, sp_map)
            == Seq::<(Vector, TGAColor)>::empty(),
{
    if !(coords[0].y == coords[1].y && coords[0].y == coords[2].y) {
        let s = spec_sort3(
            TriAttr { c: coords[0], t: text_coords[0], n: norm_coords[0] },
            TriAttr { c: coords[1], t: text_coords[1], n: norm_coords[1] },
            TriAttr { c: coords[2], t: text_coords[2], n: norm_coords[2] },
        );
        let inp = TriInput { v0: s.0, v1: s.1, v2: s.2, light, texture, norm_map, sp_map };
        assert(s.2.c.y <= 0);
        assert(spec_y2p(inp) == 0);
        assert(spec_row_count(inp) == 0);
        assert(spec_batch_upto(inp, 0) == Seq::<(Vector, TGAColor)>::empty());
    }
}

fn clamp_pix(a: i64, limit: usize) -> (r: usize)
    requires
        limit >= 1,
    ensures
        r == spec_clamp_pix(a, limit as int),
{
    let p: usize = fx_to_pixel(a);
    if p >= limit {
        limit - 1
    } else {
        p
    }
}

fn sample_color(t: &Texture, uv: Vector) -> (c: TGAColor)
    requires
        t.wf_rgba(),
    ensures
        c == spec_sample_color(*t, uv),
{
    let px: usize = clamp_pix(uv.x, t.width);
    let py: usize = clamp_pix(uv.y, t.height);
    proof {
        assert(4 * (py * t.width + px) + 4 <= t.bytes().len()) by (nonlinear_arith)
            requires
                0 <= px < t.width,
                0 <= py < t.height,
                t.bytes().len() == 4 * t.height * t.width,
        ;
    }
    t.get_pixel(px, py)
}

fn sample_grey(t: &Texture, uv: Vector) -> (r: i64)
    requires
        t.wf_grey(),
    ensures
        r == spec_sample_grey(*t, uv),
{
    let px: usize = clamp_pix(uv.x, t.width);
    let py: usize = clamp_pix(uv.y, t.height);
    proof {
        assert(py * t.width + px < t.bytes().len()) by (nonlinear_arith)
            requires
                0 <= px < t.width,
                0 <= py < t.height,
                t.bytes().len() == t.height * t.width,
        ;
    }
    t.get_pixel_grey(px, py)
}

/// Appends the offers of one scanline: one per covered column of the
/// half-open range between the two active edges.
fn emit_scanline(
    pixels: &mut Vec<(Vector, TGAColor)>,
    st: &WalkState,
    texture: &Option<Texture>,
    norm_map: &Option<Texture>,
    sp_map: &Option<Texture>,
    light: &Vector,
)
    requires
        spec_maps_wf(*texture, *norm_map, *sp_map),
    ensures
        final(pixels)@ == old(pixels)@ + spec_scanline(
            *st,
            *texture,
            *norm_map,
            *sp_map,
            *light,
        ),
{
    let ghost row = spec_scanline(*st, *texture, *norm_map, *sp_map, *light);
    let (start_v, end_v) = if st.a.x < st.b.x {
        (st.a, st.b)
    } else {
        (st.b, st.a)
    };
    let xs: usize = fx_to_pixel(start_v.x);
    let xe: usize = fx_to_pixel(end_v.x);
    proof {
        assert(xs == spec_scan_xs(*st));
        assert(xe == spec_scan_xe(*st));
        if xe <= xs {
            assert(row =~= Seq::<(Vector, TGAColor)>::empty());
            assert(old(pixels)@ + row =~= old(pixels)@);
        }
    }
    let mut dx: usize = xs;
    while dx < xe
        invariant
            xs <= dx,
            dx <= xe || dx == xs,
            xe <= 0x7fff_ffff_ffff,
            xs == spec_scan_xs(*st),
            xe == spec_scan_xe(*st),
            spec_maps_wf(*texture, *norm_map, *sp_map),
            row == spec_scanline(*st, *texture, *norm_map, *sp_map, *light),
            pixels@ == old(pixels)@ + row.take(dx - xs),
        decreases xe - dx,
    {
        let offer = shade_at(st, dx, texture, norm_map, sp_map, light);
        proof {
            assert(row.len() == xe - xs);
            assert(row[dx - xs] == spec_pixel_at(
                *st,
                xs + (dx - xs),
                *texture,
                *norm_map,
                *sp_map,
                *light,
            ));
            assert(row.take(dx + 1 - xs) =~= row.take(dx - xs).push(row[dx - xs]));
        }
        pixels.push(offer);
        dx = dx + 1;
    }
    proof {
        if xs < xe {
            assert(row.take(xe - xs) =~= row);
        }
    }
}

/// Computes the offer for one pixel column of the current scanline.
fn shade_at(
    st: &WalkState,
    dx: usize,
    texture: &Option<Texture>,
    norm_map: &Option<Texture>,
    sp_map: &Option<Texture>,
    light: &Vector,
) -> (r: (Vector, TGAColor))
    requires
        dx <= 0x7fff_ffff_ffff,
        spec_maps_wf(*texture, *norm_map, *sp_map),
    ensures
        r == spec_pixel_at(*st, dx as int, *texture, *norm_map, *sp_map, *light),
{
    let phi_raw: i64 = fx_div(fx_sub(fx_of_int(dx as i64), st.a.x), fx_sub(st.b.x, st.a.x));
    let phi: i64 = if phi_raw > FX_ONE {
        FX_ONE
    } else if phi_raw < 0 {
        0
    } else {
        phi_raw
    };
    let p = st.a.add(st.b.sub(st.a).scale(phi));
    let uvp = st.uva.add(st.uvb.sub(st.uva).scale(phi));
    let unp = st.una.add(st.unb.sub(st.una).scale(phi));
    let mut pixel = match texture {
        Some(val) => sample_color(val, uvp),
        None => TGAColor::new(0, 0, 0, 255),
    };
    let mut intensity: i64 = 0;
    if let Some(val) = norm_map {
        let norm_pixel = sample_color(val, unp).to_vector().normalize();
        intensity = fx_add(intensity, norm_pixel.scalar_prod(light));
    }
    if let Some(val) = sp_map {
        intensity = fx_add(intensity, fx_mul(sample_grey(val, unp), SPECULAR_WEIGHT));
    }
    pixel.add_intensity(intensity);
    (p, pixel)
}

/// For a nonnegative coordinate the pixel cast is its floor, and staying
/// under an extent of at most `0x7fff_ffff` means the floor did too.
proof fn lemma_pixel_of_nonneg(a: i64)
    requires
        a >= 0,
    ensures
        spec_fx_floor(a as int) >= 0,
        spec_fx_floor(a as int) <= usize::MAX ==> spec_fx_to_pixel(a as int) == spec_fx_floor(
            a as int,
        ),
        spec_fx_floor(a as int) <= a,
{
    assert(a as int / (FX_ONE as int) >= 0) by (nonlinear_arith)
        requires
            a as int >= 0,
    ;
    assert(a as int / (FX_ONE as int) <= a as int) by (nonlinear_arith)
        requires
            a as int >= 0,
    ;
}

} // verus!
