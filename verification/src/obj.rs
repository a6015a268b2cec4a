//! Meshes, objects, the scene and its work-partitioning scheduler.
//!
//! A scene owns objects, one framebuffer and fixed camera parameters.  A
//! draw composes the viewport, projection and look-at matrices with each
//! object's accumulated rotation, transforms every corner into screen
//! space, culls triangles that face away, and rasterizes the rest through
//! the depth-tested batch write.  The scheduler slices the triangles into
//! contiguous chunks by index range; the chunking never changes which
//! offers are made nor their order, so splitting work across more jobs is
//! purely a matter of throughput.

use vstd::prelude::*;
use crate::colors::TGAColor;
use crate::dimensional::Vector;
use crate::dimensional::spec_cross;
use crate::dimensional::spec_dot;
use crate::dimensional::spec_minus;
use crate::dimensional::spec_normalize;
use crate::dimensional::spec_to_plane;
use crate::fixed::FX_ONE;
use crate::fixed::fx_div;
use crate::fixed::fx_mul;
use crate::fixed::fx_of_int;
use crate::fixed::spec_fx_div;
use crate::fixed::spec_fx_mul;
use crate::fixed::spec_fx_of_int;
use crate::matrix::Matrix;
use crate::matrix::spec_ident_entry;
use crate::matrix::spec_mat_mul;
use crate::matrix::spec_mul_acc;
use crate::matrix::spec_view_port_grid;
use crate::plane::TGAImage;
use crate::plane::spec_apply_batch;
use crate::plane::spec_fresh_colors;
use crate::plane::spec_fresh_depths;
use crate::plane::spec_maps_wf;
use crate::plane::spec_triangle_batch;
use crate::texture::Texture;

verus! {

/// Fewest triangles that justify a job of their own.
pub const MIN_ON_THREAD: usize = 200;

/// How many jobs a large scene is split into.
pub const NUM_OF_THREAD: usize = 4;

/// One triangle: three corners in object space with their texture and
/// normal-map coordinates, owned by exactly one object.
#[derive(Copy, Clone)]
pub struct Poly {
    pub coords: [Vector; 3],
    pub text_coords: [Vector; 3],
    pub norm_coords: [Vector; 3],
}

impl Poly {
    pub fn new(tulp: ([Vector; 3], [Vector; 3], [Vector; 3])) -> (p: Poly)
        ensures
            p.coords == tulp.0,
            p.text_coords == tulp.1,
            p.norm_coords == tulp.2,
    {
        Poly { coords: tulp.0, text_coords: tulp.1, norm_coords: tulp.2 }
    }
}

/// A contiguous run of triangle indices, handed to one job.
#[derive(Debug, Copy, Clone, PartialEq, Eq, Structural)]
pub struct PolyRange {
    pub first: usize,
    pub last: usize,
}

/// A resettable cursor that deals out the owner's elements in contiguous
/// portions.
pub trait PortionIterator {
    type Item;

    fn next(&mut self, portion: usize) -> Option<Self::Item>;

    fn rewind(&mut self);
}

pub struct Object {
    pub polygons: Vec<Poly>,
    pub position: Vector,
    pub mod_matrix: Option<Matrix>,
    pub text_map: Option<Texture>,
    pub norm_map: Option<Texture>,
    pub sp_map: Option<Texture>,
    pub pointer: usize,
}

/// A texture coordinate rescaled onto a map's pixel extent at build time.
pub open spec fn spec_scale_uv(v: Vector, height: int, width: int) -> Vector {
    Vector {
        x: spec_fx_mul(v.x as int, spec_fx_of_int(width)) as i64,
        y: spec_fx_mul(v.y as int, spec_fx_of_int(height)) as i64,
        z: 0,
    }
}

impl Object {
    /// An accumulated rotation, when present, is a well-formed 4-by-4
    /// matrix; every map present is well formed; and the position can be
    /// negated.
    pub open spec fn wf(&self) -> bool {
        &&& (self.mod_matrix matches Some(m) ==> m.wf() && m.rows == 4 && m.col == 4)
        &&& spec_maps_wf(self.text_map, self.norm_map, self.sp_map)
        &&& self.position.x > i64::MIN
        &&& self.position.y > i64::MIN
        &&& self.position.z > i64::MIN
    }

    pub fn new(position: Vector) -> (obj: Object)
        requires
            position.x > i64::MIN,
            position.y > i64::MIN,
            position.z > i64::MIN,
        ensures
            obj.wf(),
            obj.polygons@.len() == 0,
            obj.position == position,
            obj.mod_matrix is None,
            obj.text_map is None,
            obj.norm_map is None,
            obj.sp_map is None,
            obj.pointer == 0,
    {
        let polygons: Vec<Poly> = Vec::new();
        Object {
            polygons,
            mod_matrix: None,
            position,
            text_map: None,
            norm_map: None,
            sp_map: None,
            pointer: 0,
        }
    }

    pub fn set_text_map(self, text_map: Texture) -> (obj: Object)
        ensures
            obj == (Object { text_map: Some(text_map), ..self }),
    {
        Object { text_map: Some(text_map), ..self }
    }

    pub fn set_norm_map(self, norm_map: Texture) -> (obj: Object)
        ensures
            obj == (Object { norm_map: Some(norm_map), ..self }),
    {
        Object { norm_map: Some(norm_map), ..self }
    }

    pub fn set_sp_map(self, sp_map: Texture) -> (obj: Object)
        ensures
            obj == (Object { sp_map: Some(sp_map), ..self }),
    {
        Object { sp_map: Some(sp_map), ..self }
    }

    pub fn set_position(&mut self, position: Vector)
        ensures
            *final(self) == (Object { position, ..*old(self) }),
    {
        self.position = position;
    }

    /// Appends parsed triangles, rescaling texture and normal-map
    /// coordinates onto the bound maps' pixel extents once, here, never
    /// again during rendering.
    pub fn build(self, triangles: Vec<([Vector; 3], [Vector; 3], [Vector; 3])>) -> (obj: Object)
        requires
            self.text_map matches Some(t) ==> t.height <= 0x7fff_ffff && t.width <= 0x7fff_ffff,
            self.norm_map matches Some(t) ==> t.height <= 0x7fff_ffff && t.width <= 0x7fff_ffff,
        ensures
            obj.position == self.position,
            obj.mod_matrix == self.mod_matrix,
            obj.text_map == self.text_map,
            obj.norm_map == self.norm_map,
            obj.sp_map == self.sp_map,
            obj.pointer == self.pointer,
            obj.polygons@.len() == self.polygons@.len() + triangles@.len(),
            forall|k: int|
                0 <= k < self.polygons@.len() ==> obj.polygons@[k] == self.polygons@[k],
            forall|k: int|
                0 <= k < triangles@.len() ==> {
                    let p = #[trigger] obj.polygons@[self.polygons@.len() + k];
                    &&& p.coords@ == triangles@[k].0@
                    &&& p.text_coords@ == (match self.text_map {
                        Some(t) => triangles@[k].1@.map_values(
                            |v: Vector| spec_scale_uv(v, t.height as int, t.width as int),
                        ),
                        None => triangles@[k].1@,
                    })
                    &&& p.norm_coords@ == (match self.norm_map {
                        Some(t) => triangles@[k].2@.map_values(
                            |v: Vector| spec_scale_uv(v, t.height as int, t.width as int),
                        ),
                        None => triangles@[k].2@,
                    })
                },
    {
        let mut obj = self;
        let mut k: usize = 0;
        let ghost orig = obj;
        let ghost tris = triangles@;
        while k < triangles.len()
            invariant
                k <= tris.len(),
                triangles@ == tris,
                obj.position == orig.position,
                obj.mod_matrix == orig.mod_matrix,
                obj.text_map == orig.text_map,
                obj.norm_map == orig.norm_map,
                obj.sp_map == orig.sp_map,
                obj.pointer == orig.pointer,
                orig.text_map matches Some(t) ==> t.height <= 0x7fff_ffff && t.width
                    <= 0x7fff_ffff,
                orig.norm_map matches Some(t) ==> t.height <= 0x7fff_ffff && t.width
                    <= 0x7fff_ffff,
                obj.polygons@.len() == orig.polygons@.len() + k,
                forall|p: int|
                    0 <= p < orig.polygons@.len() ==> obj.polygons@[p] == orig.polygons@[p],
                forall|p: int|
                    0 <= p < k ==> {
                        let poly = #[trigger] obj.polygons@[orig.polygons@.len() + p];
                        &&& poly.coords@ == tris[p].0@
                        &&& poly.text_coords@ == (match orig.text_map {
                            Some(t) => tris[p].1@.map_values(
                                |v: Vector| spec_scale_uv(v, t.height as int, t.width as int),
                            ),
                            None => tris[p].1@,
                        })
                        &&& poly.norm_coords@ == (match orig.norm_map {
                            Some(t) => tris[p].2@.map_values(
                                |v: Vector| spec_scale_uv(v, t.height as int, t.width as int),
                            ),
                            None => tris[p].2@,
                        })
                    },
            decreases tris.len() - k,
        {
            let (coords, mut text, mut norm) = triangles[k];
            if let Some(text_map) = &obj.text_map {
                text = scale_uv3(text, text_map.height, text_map.width);
            }
            if let Some(norm_map) = &obj.norm_map {
                norm = scale_uv3(norm, norm_map.height, norm_map.width);
            }
            let poly = Poly { coords, text_coords: text, norm_coords: norm };
            obj.polygons.push(poly);
            k = k + 1;
        }
        obj
    }

    /// Hands out the next contiguous run of at most `portion` triangles,
    /// advancing the cursor; `None` once the cursor has passed the end.
    pub fn next_portion(&mut self, portion: usize) -> (r: Option<PolyRange>)
        ensures
            final(self).polygons == old(self).polygons,
            final(self).position == old(self).position,
            final(self).mod_matrix == old(self).mod_matrix,
            final(self).text_map == old(self).text_map,
            final(self).norm_map == old(self).norm_map,
            final(self).sp_map == old(self).sp_map,
            r is None <==> old(self).pointer >= old(self).polygons@.len(),
            r is None ==> final(self).pointer == old(self).pointer,
            r matches Some(rng) ==> {
                &&& rng.first == old(self).pointer
                &&& rng.last == (if old(self).polygons@.len() - old(self).pointer < portion {
                    old(self).polygons@.len() as int
                } else {
                    old(self).pointer + portion
                })
                &&& final(self).pointer == rng.last
            },
    {
        let len: usize = self.polygons.len();
        if self.pointer >= len {
            return None;
        }
        let last_index: usize = if len - self.pointer < portion {
            len
        } else {
            self.pointer + portion
        };
        let first_index: usize = self.pointer;
        self.pointer = last_index;
        Some(PolyRange { first: first_index, last: last_index })
    }

    /// Moves the cursor back to the first triangle.
    pub fn rewind_cursor(&mut self)
        ensures
            *final(self) == (Object { pointer: 0, ..*old(self) }),
    {
        self.pointer = 0;
    }

    /// Composes a rotation about the `x` axis, given the angle's cosine and
    /// sine, into the accumulated rotation.
    pub fn rotate_x(&mut self, cos: i64, sin: i64)
        requires
            old(self).wf(),
            sin > i64::MIN,
        ensures
            final(self).wf(),
            final(self).polygons == old(self).polygons,
            final(self).position == old(self).position,
            final(self).text_map == old(self).text_map,
            final(self).norm_map == old(self).norm_map,
            final(self).sp_map == old(self).sp_map,
            final(self).pointer == old(self).pointer,
            final(self).mod_matrix matches Some(m2) && m2.wf() && m2.rows == 4 && m2.col == 4
                && forall|i: int, j: int|
                0 <= i < 4 && 0 <= j < 4 ==> m2.grid()[i][j] == (match old(self).mod_matrix {
                    None => spec_rot_x_entry(cos as int, sin as int, i, j),
                    Some(m) => spec_mul_acc(m.grid(), spec_rot_x_grid(cos, sin), i, j, 4),
                }),
    {
        let rot = Matrix::rotate_x(cos, sin);
        proof {
            let g = spec_rot_x_grid(cos, sin);
            assert forall|i: int, j: int| 0 <= i < 4 && 0 <= j < 4 implies rot.grid()[i][j]
                == g[i][j] by {}
            assert forall|i: int| 0 <= i < 4 implies rot.grid()[i] =~= g[i] by {}
            assert(rot.grid() =~= g);
        }
        let next = match &self.mod_matrix {
            None => rot,
            Some(mat) => mat.multiply(&rot),
        };
        self.mod_matrix = Some(next);
    }

    /// Composes a rotation about the `y` axis, given the angle's cosine and
    /// sine, into the accumulated rotation.
    pub fn rotate_y(&mut self, cos: i64, sin: i64)
        requires
            old(self).wf(),
            sin > i64::MIN,
        ensures
            final(self).wf(),
            final(self).polygons == old(self).polygons,
            final(self).position == old(self).position,
            final(self).text_map == old(self).text_map,
            final(self).norm_map == old(self).norm_map,
            final(self).sp_map == old(self).sp_map,
            final(self).pointer == old(self).pointer,
            final(self).mod_matrix matches Some(m2) && m2.wf() && m2.rows == 4 && m2.col == 4
                && forall|i: int, j: int|
                0 <= i < 4 && 0 <= j < 4 ==> m2.grid()[i][j] == (match old(self).mod_matrix {
                    None => spec_rot_y_entry(cos as int, sin as int, i, j),
                    Some(m) => spec_mul_acc(m.grid(), spec_rot_y_grid(cos, sin), i, j, 4),
                }),
    {
        let rot = Matrix::rotate_y(cos, sin);
        proof {
            let g = spec_rot_y_grid(cos, sin);
            assert forall|i: int, j: int| 0 <= i < 4 && 0 <= j < 4 implies rot.grid()[i][j]
                == g[i][j] by {}
            assert forall|i: int| 0 <= i < 4 implies rot.grid()[i] =~= g[i] by {}
            assert(rot.grid() =~= g);
        }
        let next = match &self.mod_matrix {
            None => rot,
            Some(mat) => mat.multiply(&rot),
        };
        self.mod_matrix = Some(next);
    }

    /// Composes a rotation about the `z` axis, given the angle's cosine and
    /// sine, into the accumulated rotation.
    pub fn rotate_z(&mut self, cos: i64, sin: i64)
        requires
            old(self).wf(),
            sin > i64::MIN,
        ensures
            final(self).wf(),
            final(self).polygons == old(self).polygons,
            final(self).position == old(self).position,
            final(self).text_map == old(self).text_map,
            final(self).norm_map == old(self).norm_map,
            final(self).sp_map == old(self).sp_map,
            final(self).pointer == old(self).pointer,
            final(self).mod_matrix matches Some(m2) && m2.wf() && m2.rows == 4 && m2.col == 4
                && forall|i: int, j: int|
                0 <= i < 4 && 0 <= j < 4 ==> m2.grid()[i][j] == (match old(self).mod_matrix {
                    None => spec_rot_z_entry(cos as int, sin as int, i, j),
                    Some(m) => spec_mul_acc(m.grid(), spec_rot_z_grid(cos, sin), i, j, 4),
                }),
    {
        let rot = Matrix::rotate_z(cos, sin);
        proof {
            let g = spec_rot_z_grid(cos, sin);
            assert forall|i: int, j: int| 0 <= i < 4 && 0 <= j < 4 implies rot.grid()[i][j]
                == g[i][j] by {}
            assert forall|i: int| 0 <= i < 4 implies rot.grid()[i] =~= g[i] by {}
            assert(rot.grid() =~= g);
        }
        let next = match &self.mod_matrix {
            None => rot,
            Some(mat) => mat.multiply(&rot),
        };
        self.mod_matrix = Some(next);
    }
}

impl PortionIterator for Object {
    type Item = PolyRange;

    fn next(&mut self, portion: usize) -> Option<PolyRange> {
        self.next_portion(portion)
    }

    fn rewind(&mut self) {
        self.rewind_cursor();
    }
}

/// What the rotation about `x` holds at `(i, j)`.
pub open spec fn spec_rot_x_entry(cos: int, sin: int, i: int, j: int) -> int {
    if i == 0 && j == 0 {
        cos
    } else if i == 2 && j == 2 {
        cos
    } else if i == 0 && j == 2 {
        -sin
    } else if i == 2 && j == 0 {
        sin
    } else {
        spec_ident_entry(i, j)
    }
}

/// What the rotation about `y` holds at `(i, j)`.
pub open spec fn spec_rot_y_entry(cos: int, sin: int, i: int, j: int) -> int {
    if i == 1 && j == 1 {
        cos
    } else if i == 2 && j == 2 {
        cos
    } else if i == 1 && j == 2 {
        -sin
    } else if i == 2 && j == 1 {
        sin
    } else {
        spec_ident_entry(i, j)
    }
}

/// What the rotation about `z` holds at `(i, j)`.
pub open spec fn spec_rot_z_entry(cos: int, sin: int, i: int, j: int) -> int {
    if i == 0 && j == 0 {
        cos
    } else if i == 1 && j == 1 {
        cos
    } else if i == 0 && j == 1 {
        -sin
    } else if i == 1 && j == 0 {
        sin
    } else {
        spec_ident_entry(i, j)
    }
}

pub open spec fn spec_rot_x_grid(cos: i64, sin: i64) -> Seq<Seq<i64>> {
    Seq::new(4, |i: int| Seq::new(4, |j: int| spec_rot_x_entry(cos as int, sin as int, i, j) as i64))
}

pub open spec fn spec_rot_y_grid(cos: i64, sin: i64) -> Seq<Seq<i64>> {
    Seq::new(4, |i: int| Seq::new(4, |j: int| spec_rot_y_entry(cos as int, sin as int, i, j) as i64))
}

pub open spec fn spec_rot_z_grid(cos: i64, sin: i64) -> Seq<Seq<i64>> {
    Seq::new(4, |i: int| Seq::new(4, |j: int| spec_rot_z_entry(cos as int, sin as int, i, j) as i64))
}

/// The camera-basis rows of the look-at matrix.
pub open spec fn spec_camera_grid(x: Vector, y: Vector, z: Vector) -> Seq<Seq<i64>> {
    Seq::new(
        4,
        |i: int|
            Seq::new(
                4,
                |j: int|
                    if i == 0 && j == 0 {
                        x.x
                    } else if i == 0 && j == 1 {
                        x.y
                    } else if i == 0 && j == 2 {
                        x.z
                    } else if i == 1 && j == 0 {
                        y.x
                    } else if i == 1 && j == 1 {
                        y.y
                    } else if i == 1 && j == 2 {
                        y.z
                    } else if i == 2 && j == 0 {
                        z.x
                    } else if i == 2 && j == 1 {
                        z.y
                    } else if i == 2 && j == 2 {
                        z.z
                    } else {
                        spec_ident_entry(i, j) as i64
                    },
            ),
    )
}

/// Translation to the camera center, negated, in the last column.
pub open spec fn spec_center_grid(center: Vector) -> Seq<Seq<i64>> {
    Seq::new(
        4,
        |i: int|
            Seq::new(
                4,
                |j: int|
                    if i == 0 && j == 3 {
                        (-center.x) as i64
                    } else if i == 1 && j == 3 {
                        (-center.y) as i64
                    } else if i == 2 && j == 3 {
                        (-center.z) as i64
                    } else {
                        spec_ident_entry(i, j) as i64
                    },
            ),
    )
}

/// The view matrix: an orthonormal camera basis built from the eye, the
/// looked-at center and the up direction, times the translation that moves
/// the center to the origin.
pub open spec fn spec_look_at(eye: Vector, center: Vector, up: Vector) -> Seq<Seq<i64>> {
    let z_vec = spec_normalize(spec_minus(eye, center));
    let x = spec_normalize(spec_cross(up, z_vec));
    let y = spec_normalize(spec_cross(z_vec, x));
    spec_mat_mul(spec_camera_grid(x, y, z_vec), spec_center_grid(center), 4, 4)
}

/// Builds the view matrix for a camera at `eye` looking at `center`.  When
/// `up` is parallel to the view direction the basis degenerates to zero
/// rows; choosing a usable up vector is the caller's responsibility.
fn row4(a: i64, b: i64, c: i64, d: i64) -> (r: Vec<i64>)
    ensures
        r@ =~= seq![a, b, c, d],
{
    let mut r: Vec<i64> = Vec::new();
    r.push(a);
    r.push(b);
    r.push(c);
    r.push(d);
    r
}

fn camera_basis(x: Vector, y: Vector, z: Vector) -> (r: Matrix)
    ensures
        r.wf(),
        r.rows == 4,
        r.col == 4,
        r.grid() == spec_camera_grid(x, y, z),
{
    let mut rows: Vec<Vec<i64>> = Vec::new();
    rows.push(row4(x.x, x.y, x.z, 0));
    rows.push(row4(y.x, y.y, y.z, 0));
    rows.push(row4(z.x, z.y, z.z, 0));
    rows.push(row4(0, 0, 0, FX_ONE));
    let r = Matrix { matrix: rows, rows: 4, col: 4 };
    proof {
        let g = spec_camera_grid(x, y, z);
        assert forall|i: int| 0 <= i < 4 implies r.grid()[i] =~= g[i] by {}
        assert(r.grid() =~= g);
    }
    r
}

fn center_translation(center: Vector) -> (r: Matrix)
    requires
        center.x > i64::MIN,
        center.y > i64::MIN,
        center.z > i64::MIN,
    ensures
        r.wf(),
        r.rows == 4,
        r.col == 4,
        r.grid() == spec_center_grid(center),
{
    let mut rows: Vec<Vec<i64>> = Vec::new();
    rows.push(row4(FX_ONE, 0, 0, -center.x));
    rows.push(row4(0, FX_ONE, 0, -center.y));
    rows.push(row4(0, 0, FX_ONE, -center.z));
    rows.push(row4(0, 0, 0, FX_ONE));
    let r = Matrix { matrix: rows, rows: 4, col: 4 };
    proof {
        let g = spec_center_grid(center);
        assert forall|i: int| 0 <= i < 4 implies r.grid()[i] =~= g[i] by {}
        assert(r.grid() =~= g);
    }
    r
}

pub fn look_at(eye: Vector, center: Vector, up: Vector) -> (r: Matrix)
    requires
        center.x > i64::MIN,
        center.y > i64::MIN,
        center.z > i64::MIN,
    ensures
        r.wf(),
        r.rows == 4,
        r.col == 4,
        r.grid() == spec_look_at(eye, center, up),
{
    let z_vec = eye.sub(center).normalize();
    let x = up.vector_prod(z_vec).normalize();
    let y = z_vec.vector_prod(x).normalize();
    let camera_view = camera_basis(x, y, z_vec);
    let trans_matrix = center_translation(center);
    camera_view.multiply(&trans_matrix)
}

/// The homogeneous column of a point, as a grid.
pub open spec fn spec_col_grid(v: Vector) -> Seq<Seq<i64>> {
    Seq::new(
        4,
        |i: int|
            Seq::new(
                1,
                |j: int|
                    if i == 0 {
                        v.x
                    } else if i == 1 {
                        v.y
                    } else if i == 2 {
                        v.z
                    } else {
                        FX_ONE
                    },
            ),
    )
}

/// A corner carried through the whole pipeline: multiplied as a
/// homogeneous column, divided by `w`, and mapped onto the pixel plane.
pub open spec fn spec_transform_vertex(g: Seq<Seq<i64>>, v: Vector, height: int, width: int) -> Vector {
    let m = spec_mat_mul(g, spec_col_grid(v), 4, 1);
    let p = Vector {
        x: spec_fx_div(m[0][0] as int, m[3][0] as int) as i64,
        y: spec_fx_div(m[1][0] as int, m[3][0] as int) as i64,
        z: spec_fx_div(m[2][0] as int, m[3][0] as int) as i64,
    };
    spec_to_plane(p, height, width)
}

/// Transforms one corner into screen space through the composed matrix.
pub fn transform_vertex(mat: &Matrix, v: &Vector, height: usize, width: usize) -> (r: Vector)
    requires
        mat.wf(),
        mat.rows == 4,
        mat.col == 4,
        height <= 0x7fff_ffff,
        width <= 0x7fff_ffff,
    ensures
        r == spec_transform_vertex(mat.grid(), *v, height as int, width as int),
{
    let col = Matrix::from_vector(v);
    proof {
        assert(col.grid() =~~= spec_col_grid(*v));
    }
    let m = mat.multiply(&col);
    let p = m.to_vector();
    p.to_plane(height, width)
}

/// A triangle faces the camera when the normal of its screen-space corners
/// points along the sight direction.
pub open spec fn spec_visible(c0: Vector, c1: Vector, c2: Vector, sight: Vector) -> bool {
    spec_dot(spec_normalize(spec_cross(spec_minus(c0, c1), spec_minus(c0, c2))), sight) > 0
}

/// Back-face test on screen-space corners.
pub fn poly_visible(c0: Vector, c1: Vector, c2: Vector, sight: Vector) -> (r: bool)
    ensures
        r == spec_visible(c0, c1, c2, sight),
{
    let vec0 = c0.sub(c1);
    let vec1 = c0.sub(c2);
    let triangle_normal = vec0.vector_prod(vec1).normalize();
    let intensity: i64 = triangle_normal.scalar_prod(&sight);
    intensity > 0
}

/// Per-frame camera state, shared read-only by every job of a draw.
pub struct SceneContext {
    pub view_port: Matrix,
    pub projection: Matrix,
    pub light: Vector,
    pub eye: Vector,
    pub up: Vector,
    pub visible: Vector,
}

/// Both camera matrices are well-formed 4-by-4 matrices.
pub open spec fn spec_ctx_wf(ctx: SceneContext) -> bool {
    &&& ctx.view_port.wf()
    &&& ctx.view_port.rows == 4
    &&& ctx.view_port.col == 4
    &&& ctx.projection.wf()
    &&& ctx.projection.rows == 4
    &&& ctx.projection.col == 4
}

/// The one matrix an object's corners go through: viewport times
/// projection times view, times the object's accumulated rotation when it
/// has one.
pub open spec fn spec_object_matrix(ctx: SceneContext, obj: Object) -> Seq<Seq<i64>> {
    let base = spec_mat_mul(
        spec_mat_mul(ctx.view_port.grid(), ctx.projection.grid(), 4, 4),
        spec_look_at(ctx.eye, obj.position, ctx.up),
        4,
        4,
    );
    match obj.mod_matrix {
        None => base,
        Some(m) => spec_mat_mul(base, m.grid(), 4, 4),
    }
}

/// The offers one triangle makes: its corners transformed into screen
/// space, nothing if it faces away, else the rasterizer's batch.
pub open spec fn spec_poly_offers(
    ctx: SceneContext,
    obj: Object,
    height: int,
    width: int,
    poly: Poly,
) -> Seq<(Vector, TGAColor)> {
    let g = spec_object_matrix(ctx, obj);
    let c0 = spec_transform_vertex(g, poly.coords@[0], height, width);
    let c1 = spec_transform_vertex(g, poly.coords@[1], height, width);
    let c2 = spec_transform_vertex(g, poly.coords@[2], height, width);
    if spec_visible(c0, c1, c2, ctx.visible) {
        spec_triangle_batch(
            ctx.light,
            seq![c0, c1, c2],
            poly.text_coords@,
            poly.norm_coords@,
            obj.text_map,
            obj.norm_map,
            obj.sp_map,
        )
    } else {
        Seq::empty()
    }
}

/// The offers of the triangles `first .. last` of one object, in order.
pub open spec fn spec_range_offers(
    ctx: SceneContext,
    obj: Object,
    height: int,
    width: int,
    first: int,
    last: int,
) -> Seq<(Vector, TGAColor)>
    decreases last - first,
{
    if last <= first {
        Seq::empty()
    } else {
        spec_range_offers(ctx, obj, height, width, first, last - 1) + spec_poly_offers(
            ctx,
            obj,
            height,
            width,
            obj.polygons@[last - 1],
        )
    }
}

/// The offers of the first `n` objects, each drawn whole, in order.
pub open spec fn spec_objects_offers(
    ctx: SceneContext,
    objs: Seq<Object>,
    height: int,
    width: int,
    n: int,
) -> Seq<(Vector, TGAColor)>
    decreases n,
{
    if n <= 0 {
        Seq::empty()
    } else {
        spec_objects_offers(ctx, objs, height, width, n - 1) + spec_range_offers(
            ctx,
            objs[n - 1],
            height,
            width,
            0,
            objs[n - 1].polygons@.len() as int,
        )
    }
}

/// Every offer one frame makes, in scene order.  No partition of the work
/// appears here: how the triangles were split into jobs cannot change what
/// is offered nor in which order.
pub open spec fn spec_scene_offers(
    ctx: SceneContext,
    objs: Seq<Object>,
    height: int,
    width: int,
) -> Seq<(Vector, TGAColor)> {
    spec_objects_offers(ctx, objs, height, width, objs.len() as int)
}

/// The offers of a list of ranges, each `(object index, triangle range)`.
pub open spec fn spec_ranges_offers(
    ctx: SceneContext,
    objs: Seq<Object>,
    height: int,
    width: int,
    ranges: Seq<(usize, PolyRange)>,
) -> Seq<(Vector, TGAColor)>
    decreases ranges.len(),
{
    if ranges.len() == 0 {
        Seq::empty()
    } else {
        spec_ranges_offers(ctx, objs, height, width, ranges.drop_last()) + spec_range_offers(
            ctx,
            objs[ranges.last().0 as int],
            height,
            width,
            ranges.last().1.first as int,
            ranges.last().1.last as int,
        )
    }
}

/// The offers of the first `n` jobs.
pub open spec fn spec_jobs_offers(
    ctx: SceneContext,
    objs: Seq<Object>,
    height: int,
    width: int,
    jobs: Seq<Vec<(usize, PolyRange)>>,
    n: int,
) -> Seq<(Vector, TGAColor)>
    decreases n,
{
    if n <= 0 {
        Seq::empty()
    } else {
        spec_jobs_offers(ctx, objs, height, width, jobs, n - 1) + spec_ranges_offers(
            ctx,
            objs,
            height,
            width,
            jobs[n - 1]@,
        )
    }
}

/// A range may be cut anywhere without changing its offers.
#[verifier::rlimit(100)]
pub proof fn lemma_range_offers_split(
    ctx: SceneContext,
    obj: Object,
    height: int,
    width: int,
    a: int,
    b: int,
    c: int,
)
    requires
        a <= b <= c,
    ensures
        spec_range_offers(ctx, obj, height, width, a, c) == spec_range_offers(
            ctx,
            obj,
            height,
            width,
            a,
            b,
        ) + spec_range_offers(ctx, obj, height, width, b, c),
    decreases c - b,
{
    if c == b {
        assert(spec_range_offers(ctx, obj, height, width, b, c) =~= Seq::<(
            Vector,
            TGAColor,
        )>::empty());
        assert(spec_range_offers(ctx, obj, height, width, a, c) =~= spec_range_offers(
            ctx,
            obj,
            height,
            width,
            a,
            b,
        ) + spec_range_offers(ctx, obj, height, width, b, c));
    } else {
        lemma_range_offers_split(ctx, obj, height, width, a, b, c - 1);
        let p = spec_poly_offers(ctx, obj, height, width, obj.polygons@[c - 1]);
        assert((spec_range_offers(ctx, obj, height, width, a, b) + spec_range_offers(
            ctx,
            obj,
            height,
            width,
            b,
            c - 1,
        )) + p =~= spec_range_offers(ctx, obj, height, width, a, b) + (spec_range_offers(
            ctx,
            obj,
            height,
            width,
            b,
            c - 1,
        ) + p));
    }
}

/// Total number of triangles over a list of objects.
pub open spec fn spec_scene_total(objs: Seq<Object>) -> int
    decreases objs.len(),
{
    if objs.len() == 0 {
        0
    } else {
        spec_scene_total(objs.drop_last()) + objs.last().polygons@.len()
    }
}

/// What the fixed projection of a scene holds: the identity with the
/// perspective term `-1 / eye.z` at row 3, column 2.
pub open spec fn spec_scene_projection() -> Seq<Seq<i64>> {
    Seq::new(
        4,
        |i: int|
            Seq::new(
                4,
                |j: int|
                    if i == 3 && j == 2 {
                        spec_fx_div(-(FX_ONE as int), 3 * FX_ONE) as i64
                    } else {
                        spec_ident_entry(i, j) as i64
                    },
            ),
    )
}

pub struct Scene {
    pub objects: Vec<Object>,
    pub image: TGAImage,
    pub context: SceneContext,
    pub total_triangles: usize,
}

impl Scene {
    pub open spec fn wf(&self) -> bool {
        &&& self.image.wf()
        &&& spec_ctx_wf(self.context)
        &&& (forall|i: int| 0 <= i < self.objects@.len() ==> (#[trigger] self.objects@[i]).wf())
        &&& self.total_triangles == spec_scene_total(self.objects@)
    }

    /// An empty scene with a fresh framebuffer and the fixed camera: eye at
    /// `(-1, -1, 3)`, up along `y`, sight along `z`, a perspective term of
    /// `-1 / eye.z`, and a viewport over `[-2, 2]`.
    pub fn new(height: usize, width: usize, light: Vector) -> (s: Scene)
        requires
            height <= 0x7fff_ffff,
            width <= 0x7fff_ffff,
            height * width <= usize::MAX,
        ensures
            s.wf(),
            s.objects@.len() == 0,
            s.total_triangles == 0,
            s.image.height == height,
            s.image.width == width,
            s.image.colors() == spec_fresh_colors((height * width) as nat),
            s.image.depths() == spec_fresh_depths((height * width) as nat),
            s.context.light == light,
            s.context.eye == (Vector {
                x: (-FX_ONE) as i64,
                y: (-FX_ONE) as i64,
                z: (3 * FX_ONE) as i64,
            }),
            s.context.up == (Vector { x: 0, y: FX_ONE, z: 0 }),
            s.context.visible == (Vector { x: 0, y: 0, z: FX_ONE }),
            s.context.projection.grid() == spec_scene_projection(),
            s.context.view_port.grid() == spec_view_port_grid(
                (-2 * FX_ONE) as i64,
                (-2 * FX_ONE) as i64,
                (2 * FX_ONE) as i64,
                (2 * FX_ONE) as i64,
            ),
    {
        let eye = Vector::new(-FX_ONE, -FX_ONE, 3 * FX_ONE);
        let mut projection = Matrix::ident(4);
        projection.set_entry(3, 2, fx_div(-FX_ONE, eye.z));
        let up = Vector::new(0, FX_ONE, 0);
        let view_port = Matrix::view_port(-2 * FX_ONE, -2 * FX_ONE, 2 * FX_ONE, 2 * FX_ONE);
        let image = TGAImage::new(height, width);
        let visible = Vector::new(0, 0, FX_ONE);
        proof {
            assert(projection.grid() =~~= spec_scene_projection());
            assert(view_port.grid() =~~= spec_view_port_grid(
                (-2 * FX_ONE) as i64,
                (-2 * FX_ONE) as i64,
                (2 * FX_ONE) as i64,
                (2 * FX_ONE) as i64,
            ));
            assert(image.colors() =~= spec_fresh_colors((height * width) as nat));
            assert(image.depths() =~= spec_fresh_depths((height * width) as nat));
        }
        let context = SceneContext { light, eye, visible, projection, view_port, up };
        Scene { objects: Vec::new(), image, context, total_triangles: 0 }
    }

    /// Takes an object into the scene and counts its triangles toward the
    /// scheduler's total.
    pub fn add_obj(&mut self, obj: Object)
        requires
            old(self).wf(),
            obj.wf(),
            spec_scene_total(old(self).objects@) + obj.polygons@.len() <= usize::MAX,
        ensures
            final(self).wf(),
            final(self).objects@ == old(self).objects@.push(obj),
            final(self).image == old(self).image,
            final(self).context == old(self).context,
            final(self).total_triangles == old(self).total_triangles + obj.polygons@.len(),
    {
        proof {
            assert(spec_scene_total(self.objects@) >= 0) by {
                lemma_scene_total_nonneg(self.objects@);
            };
        }
        self.total_triangles = self.total_triangles + obj.polygons.len();
        self.objects.push(obj);
        proof {
            assert(self.objects@.drop_last() =~= old(self).objects@);
            assert(self.objects@.last() == obj);
            assert forall|i: int| 0 <= i < self.objects@.len() implies (
            #[trigger] self.objects@[i]).wf() by {
                if i < old(self).objects@.len() {
                    assert(self.objects@[i] == old(self).objects@[i]);
                }
            }
        }
    }
}

impl Scene {
    /// Rasterizes the triangles `first .. last` of one object into the
    /// scene's framebuffer, in order.
    #[verifier::rlimit(100)]
    fn render_range(&mut self, oi: usize, first: usize, last: usize)
        requires
            old(self).wf(),
            oi < old(self).objects@.len(),
            first <= last <= old(self).objects@[oi as int].polygons@.len(),
        ensures
            final(self).wf(),
            final(self).objects == old(self).objects,
            final(self).context == old(self).context,
            final(self).total_triangles == old(self).total_triangles,
            final(self).image.height == old(self).image.height,
            final(self).image.width == old(self).image.width,
            final(self).image.colors() == spec_apply_batch(
                old(self).image.colors(),
                old(self).image.depths(),
                old(self).image.height as int,
                old(self).image.width as int,
                spec_range_offers(
                    old(self).context,
                    old(self).objects@[oi as int],
                    old(self).image.height as int,
                    old(self).image.width as int,
                    first as int,
                    last as int,
                ),
            ).0,
            final(self).image.depths() == spec_apply_batch(
                old(self).image.colors(),
                old(self).image.depths(),
                old(self).image.height as int,
                old(self).image.width as int,
                spec_range_offers(
                    old(self).context,
                    old(self).objects@[oi as int],
                    old(self).image.height as int,
                    old(self).image.width as int,
                    first as int,
                    last as int,
                ),
            ).1,
    {
        let hh: usize = self.image.height;
        let ww: usize = self.image.width;
        let ghost ctx0 = self.context;
        let ghost obj0 = self.objects@[oi as int];
        let ghost cs0 = self.image.colors();
        let ghost zs0 = self.image.depths();
        let mut mat = self.context.view_port.multiply(&self.context.projection).multiply(
            &look_at(self.context.eye, self.objects[oi].position, self.context.up),
        );
        if let Some(m) = &self.objects[oi].mod_matrix {
            mat = mat.multiply(m);
        }
        proof {
            assert(mat.grid() == spec_object_matrix(ctx0, obj0));
        }
        let mut pi: usize = first;
        while pi < last
            invariant
                first <= pi,
                pi <= last,
                last <= obj0.polygons@.len(),
                oi < self.objects@.len(),
                self.wf(),
                self.objects == old(self).objects,
                self.context == old(self).context,
                self.total_triangles == old(self).total_triangles,
                self.image.height == old(self).image.height,
                self.image.width == old(self).image.width,
                hh == self.image.height,
                ww == self.image.width,
                ctx0 == self.context,
                obj0 == self.objects@[oi as int],
                cs0 == old(self).image.colors(),
                zs0 == old(self).image.depths(),
                mat.wf(),
                mat.rows == 4,
                mat.col == 4,
                mat.grid() == spec_object_matrix(ctx0, obj0),
                self.image.colors() == spec_apply_batch(
                    cs0,
                    zs0,
                    hh as int,
                    ww as int,
                    spec_range_offers(ctx0, obj0, hh as int, ww as int, first as int, pi as int),
                ).0,
                self.image.depths() == spec_apply_batch(
                    cs0,
                    zs0,
                    hh as int,
                    ww as int,
                    spec_range_offers(ctx0, obj0, hh as int, ww as int, first as int, pi as int),
                ).1,
            decreases last - pi,
        {
            let ghost done = spec_range_offers(
                ctx0,
                obj0,
                hh as int,
                ww as int,
                first as int,
                pi as int,
            );
            let poly = self.objects[oi].polygons[pi];
            let p0 = poly.coords[0];
            let p1 = poly.coords[1];
            let p2 = poly.coords[2];
            let c0 = transform_vertex(&mat, &p0, hh, ww);
            let c1 = transform_vertex(&mat, &p1, hh, ww);
            let c2 = transform_vertex(&mat, &p2, hh, ww);
            let ghost tri = spec_poly_offers(ctx0, obj0, hh as int, ww as int, poly);
            let vis = poly_visible(c0, c1, c2, self.context.visible);
            if vis {
                let screen: [Vector; 3] = [c0, c1, c2];
                proof {
                    assert(screen@ =~= seq![c0, c1, c2]);
                    crate::plane::lemma_batch_concat(cs0, zs0, hh as int, ww as int, done, tri);
                }
                self.image.fill_triangle(
                    &self.context.light,
                    screen,
                    poly.text_coords,
                    &self.objects[oi].text_map,
                    poly.norm_coords,
                    &self.objects[oi].norm_map,
                    &self.objects[oi].sp_map,
                );
                proof {
                    assert(spec_range_offers(
                        ctx0,
                        obj0,
                        hh as int,
                        ww as int,
                        first as int,
                        pi + 1,
                    ) == done + tri);
                }
            } else {
                proof {
                    assert(tri =~= Seq::<(Vector, TGAColor)>::empty());
                    assert(done + tri =~= done);
                    assert(spec_range_offers(
                        ctx0,
                        obj0,
                        hh as int,
                        ww as int,
                        first as int,
                        pi + 1,
                    ) == done + tri);
                }
            }
            pi = pi + 1;
        }
    }
}

/// A range entry addresses an existing object and a run inside it.
pub open spec fn spec_entry_valid(objs: Seq<Object>, e: (usize, PolyRange)) -> bool {
    &&& e.0 < objs.len()
    &&& e.1.first <= e.1.last <= objs[e.0 as int].polygons@.len()
}

pub open spec fn spec_ranges_valid(objs: Seq<Object>, ranges: Seq<(usize, PolyRange)>) -> bool {
    forall|k: int| 0 <= k < ranges.len() ==> spec_entry_valid(objs, #[trigger] ranges[k])
}

pub open spec fn spec_jobs_valid(objs: Seq<Object>, jobs: Seq<Vec<(usize, PolyRange)>>) -> bool {
    forall|j: int| 0 <= j < jobs.len() ==> spec_ranges_valid(objs, (#[trigger] jobs[j])@)
}

/// The offers of the first `n` jobs depend only on those jobs.
proof fn lemma_jobs_offers_prefix(
    ctx: SceneContext,
    objs: Seq<Object>,
    height: int,
    width: int,
    a: Seq<Vec<(usize, PolyRange)>>,
    b: Seq<Vec<(usize, PolyRange)>>,
    n: int,
)
    requires
        0 <= n <= a.len(),
        n <= b.len(),
        forall|i: int| 0 <= i < n ==> a[i] == b[i],
    ensures
        spec_jobs_offers(ctx, objs, height, width, a, n) == spec_jobs_offers(
            ctx,
            objs,
            height,
            width,
            b,
            n,
        ),
    decreases n,
{
    if n > 0 {
        lemma_jobs_offers_prefix(ctx, objs, height, width, a, b, n - 1);
    }
}

impl Scene {
    /// Slices the scene's triangles into contiguous jobs, sealing a chunk
    /// once it reaches the portion size: the triangle total over the worker
    /// count, or the minimum chunk floor for small scenes.  A job may span
    /// several objects' sub-ranges.  The tiling is outcome-neutral: the
    /// jobs' offers, taken in order, are exactly the scene's.
    #[verifier::rlimit(100)]
    pub fn partition_jobs(&self) -> (jobs: Vec<Vec<(usize, PolyRange)>>)
        requires
            self.wf(),
        ensures
            spec_jobs_valid(self.objects@, jobs@),
            spec_jobs_offers(
                self.context,
                self.objects@,
                self.image.height as int,
                self.image.width as int,
                jobs@,
                jobs@.len() as int,
            ) == spec_scene_offers(
                self.context,
                self.objects@,
                self.image.height as int,
                self.image.width as int,
            ),
    {
        let h: usize = self.image.height;
        let w: usize = self.image.width;
        let ghost ctx0 = self.context;
        let ghost objs0 = self.objects@;
        let portion: usize = if self.total_triangles / MIN_ON_THREAD >= NUM_OF_THREAD {
            self.total_triangles / NUM_OF_THREAD
        } else {
            MIN_ON_THREAD
        };
        proof {
            if self.total_triangles / MIN_ON_THREAD >= NUM_OF_THREAD {
                let t = self.total_triangles as int;
                vstd::arithmetic::div_mod::lemma_fundamental_div_mod(t, 200);
                assert(t >= 800);
                vstd::arithmetic::div_mod::lemma_div_is_ordered(200, t, 4);
                vstd::arithmetic::div_mod::lemma_div_is_ordered(t, usize::MAX as int, 4);
                assert(usize::MAX as int / 4 <= usize::MAX as int / 2) by {
                    vstd::arithmetic::div_mod::lemma_div_is_ordered_by_denominator(
                        usize::MAX as int,
                        2,
                        4,
                    );
                };
            }
            assert(1 <= portion);
            assert(portion <= usize::MAX / 2);
        }
        let mut jobs: Vec<Vec<(usize, PolyRange)>> = Vec::new();
        let mut job: Vec<(usize, PolyRange)> = Vec::new();
        let mut in_job: usize = 0;
        let mut oi: usize = 0;
        while oi < self.objects.len()
            invariant
                oi <= objs0.len(),
                self.wf(),
                self.objects@ == objs0,
                self.context == ctx0,
                1 <= portion <= usize::MAX / 2,
                in_job < portion,
                spec_jobs_valid(objs0, jobs@),
                spec_ranges_valid(objs0, job@),
                spec_jobs_offers(ctx0, objs0, h as int, w as int, jobs@, jobs@.len() as int)
                    + spec_ranges_offers(ctx0, objs0, h as int, w as int, job@)
                    == spec_objects_offers(ctx0, objs0, h as int, w as int, oi as int),
            decreases objs0.len() - oi,
        {
            let len: usize = self.objects[oi].polygons.len();
            let mut ptr: usize = 0;
            proof {
                assert(spec_range_offers(ctx0, objs0[oi as int], h as int, w as int, 0, 0) =~= Seq::<
                    (Vector, TGAColor),
                >::empty());
                assert(spec_objects_offers(ctx0, objs0, h as int, w as int, oi as int)
                    + spec_range_offers(ctx0, objs0[oi as int], h as int, w as int, 0, 0)
                    =~= spec_objects_offers(ctx0, objs0, h as int, w as int, oi as int));
            }
            while ptr < len
                invariant
                    ptr <= len,
                    oi < objs0.len(),
                    len == objs0[oi as int].polygons@.len(),
                    self.wf(),
                    self.objects@ == objs0,
                    self.context == ctx0,
                                                1 <= portion <= usize::MAX / 2,
                    in_job < portion,
                    spec_jobs_valid(objs0, jobs@),
                    spec_ranges_valid(objs0, job@),
                    spec_jobs_offers(ctx0, objs0, h as int, w as int, jobs@, jobs@.len() as int)
                        + spec_ranges_offers(ctx0, objs0, h as int, w as int, job@)
                        == spec_objects_offers(ctx0, objs0, h as int, w as int, oi as int)
                        + spec_range_offers(
                        ctx0,
                        objs0[oi as int],
                        h as int,
                        w as int,
                        0,
                        ptr as int,
                    ),
                decreases len - ptr,
            {
                let last: usize = if len - ptr < portion {
                    len
                } else {
                    ptr + portion
                };
                let ghost job_pre = job@;
                let ghost jo = spec_jobs_offers(
                    ctx0,
                    objs0,
                    h as int,
                    w as int,
                    jobs@,
                    jobs@.len() as int,
                );
                job.push((oi, PolyRange { first: ptr, last }));
                proof {
                    assert(job@.drop_last() =~= job_pre);
                    assert(job@.last() == (oi, (PolyRange { first: ptr, last })));
                    lemma_range_offers_split(
                        ctx0,
                        objs0[oi as int],
                        h as int,
                        w as int,
                        0,
                        ptr as int,
                        last as int,
                    );
                    let a = spec_ranges_offers(ctx0, objs0, h as int, w as int, job_pre);
                    let b = spec_range_offers(
                        ctx0,
                        objs0[oi as int],
                        h as int,
                        w as int,
                        ptr as int,
                        last as int,
                    );
                    let base = spec_objects_offers(ctx0, objs0, h as int, w as int, oi as int);
                    let r0 = spec_range_offers(
                        ctx0,
                        objs0[oi as int],
                        h as int,
                        w as int,
                        0,
                        ptr as int,
                    );
                    assert(jo + (a + b) =~= (jo + a) + b);
                    assert(base + (r0 + b) =~= (base + r0) + b);
                }
                in_job = in_job + (last - ptr);
                if in_job >= portion {
                    let ghost jobs_pre = jobs@;
                    let sealed = job;
                    jobs.push(sealed);
                    job = Vec::new();
                    in_job = 0;
                    proof {
                        assert(jobs@ == jobs_pre.push(sealed));
                        lemma_jobs_offers_prefix(
                            ctx0,
                            objs0,
                            h as int,
                            w as int,
                            jobs_pre,
                            jobs@,
                            jobs_pre.len() as int,
                        );
                        assert(jobs@[jobs_pre.len() as int] == sealed);
                        assert(spec_ranges_offers(ctx0, objs0, h as int, w as int, job@) =~= Seq::<
                            (Vector, TGAColor),
                        >::empty());
                        assert(spec_jobs_offers(
                            ctx0,
                            objs0,
                            h as int,
                            w as int,
                            jobs@,
                            jobs@.len() as int,
                        ) + spec_ranges_offers(ctx0, objs0, h as int, w as int, job@)
                            =~= spec_jobs_offers(
                            ctx0,
                            objs0,
                            h as int,
                            w as int,
                            jobs@,
                            jobs@.len() as int,
                        ));
                        assert forall|j: int| 0 <= j < jobs@.len() implies spec_ranges_valid(
                            objs0,
                            (#[trigger] jobs@[j])@,
                        ) by {
                            if j < jobs_pre.len() {
                                assert(jobs@[j] == jobs_pre[j]);
                            }
                        }
                    }
                }
                ptr = last;
            }
            proof {
                assert(spec_objects_offers(ctx0, objs0, h as int, w as int, oi + 1)
                    == spec_objects_offers(ctx0, objs0, h as int, w as int, oi as int)
                    + spec_range_offers(ctx0, objs0[oi as int], h as int, w as int, 0, len as int));
            }
            oi = oi + 1;
        }
        let ghost jobs_pre = jobs@;
        let ghost tail = job@;
        jobs.push(job);
        proof {
            lemma_jobs_offers_prefix(
                ctx0,
                objs0,
                h as int,
                w as int,
                jobs_pre,
                jobs@,
                jobs_pre.len() as int,
            );
            assert(jobs@[jobs_pre.len() as int]@ == tail);
            assert(spec_jobs_offers(ctx0, objs0, h as int, w as int, jobs@, jobs@.len() as int)
                == spec_scene_offers(ctx0, objs0, h as int, w as int));
            assert forall|j: int| 0 <= j < jobs@.len() implies spec_ranges_valid(
                objs0,
                (#[trigger] jobs@[j])@,
            ) by {
                if j < jobs_pre.len() {
                    assert(jobs@[j] == jobs_pre[j]);
                }
            }
        }
        jobs
    }

    /// Applies every job's ranges, in order, to the current framebuffer.
    #[verifier::rlimit(100)]
    fn apply_jobs(&mut self, jobs: &Vec<Vec<(usize, PolyRange)>>)
        requires
            old(self).wf(),
            spec_jobs_valid(old(self).objects@, jobs@),
        ensures
            final(self).wf(),
            final(self).objects == old(self).objects,
            final(self).context == old(self).context,
            final(self).total_triangles == old(self).total_triangles,
            final(self).image.height == old(self).image.height,
            final(self).image.width == old(self).image.width,
            final(self).image.colors() == spec_apply_batch(
                old(self).image.colors(),
                old(self).image.depths(),
                old(self).image.height as int,
                old(self).image.width as int,
                spec_jobs_offers(
                    old(self).context,
                    old(self).objects@,
                    old(self).image.height as int,
                    old(self).image.width as int,
                    jobs@,
                    jobs@.len() as int,
                ),
            ).0,
            final(self).image.depths() == spec_apply_batch(
                old(self).image.colors(),
                old(self).image.depths(),
                old(self).image.height as int,
                old(self).image.width as int,
                spec_jobs_offers(
                    old(self).context,
                    old(self).objects@,
                    old(self).image.height as int,
                    old(self).image.width as int,
                    jobs@,
                    jobs@.len() as int,
                ),
            ).1,
    {
        let h: usize = self.image.height;
        let w: usize = self.image.width;
        let ghost ctx0 = self.context;
        let ghost objs0 = self.objects@;
        let ghost base_cs = self.image.colors();
        let ghost base_zs = self.image.depths();
        let ghost all_jobs = jobs@;
        let mut ji: usize = 0;
        while ji < jobs.len()
            invariant
                ji <= all_jobs.len(),
                jobs@ == all_jobs,
                self.wf(),
                self.objects@ == objs0,
                self.context == ctx0,
                self.objects == old(self).objects,
                self.context == old(self).context,
                self.total_triangles == old(self).total_triangles,
                self.image.height == h,
                self.image.width == w,
                spec_jobs_valid(objs0, all_jobs),
                self.image.colors() == spec_apply_batch(
                    base_cs,
                    base_zs,
                    h as int,
                    w as int,
                    spec_jobs_offers(ctx0, objs0, h as int, w as int, all_jobs, ji as int),
                ).0,
                self.image.depths() == spec_apply_batch(
                    base_cs,
                    base_zs,
                    h as int,
                    w as int,
                    spec_jobs_offers(ctx0, objs0, h as int, w as int, all_jobs, ji as int),
                ).1,
            decreases all_jobs.len() - ji,
        {
            let m: usize = jobs[ji].len();
            let mut ei: usize = 0;
            proof {
                assert(all_jobs[ji as int]@.take(0) =~= Seq::<(usize, PolyRange)>::empty());
                assert(spec_ranges_offers(
                    ctx0,
                    objs0,
                    h as int,
                    w as int,
                    all_jobs[ji as int]@.take(0),
                ) =~= Seq::<(Vector, TGAColor)>::empty());
                assert(spec_jobs_offers(ctx0, objs0, h as int, w as int, all_jobs, ji as int)
                    + spec_ranges_offers(
                    ctx0,
                    objs0,
                    h as int,
                    w as int,
                    all_jobs[ji as int]@.take(0),
                ) =~= spec_jobs_offers(ctx0, objs0, h as int, w as int, all_jobs, ji as int));
            }
            while ei < m
                invariant
                    ei <= m,
                    ji < all_jobs.len(),
                    m == all_jobs[ji as int]@.len(),
                    jobs@ == all_jobs,
                    self.wf(),
                    self.objects@ == objs0,
                    self.context == ctx0,
                    self.objects == old(self).objects,
                    self.context == old(self).context,
                    self.total_triangles == old(self).total_triangles,
                    self.image.height == h,
                    self.image.width == w,
                    spec_jobs_valid(objs0, all_jobs),
                    self.image.colors() == spec_apply_batch(
                        base_cs,
                        base_zs,
                        h as int,
                        w as int,
                        spec_jobs_offers(ctx0, objs0, h as int, w as int, all_jobs, ji as int)
                            + spec_ranges_offers(
                            ctx0,
                            objs0,
                            h as int,
                            w as int,
                            all_jobs[ji as int]@.take(ei as int),
                        ),
                    ).0,
                    self.image.depths() == spec_apply_batch(
                        base_cs,
                        base_zs,
                        h as int,
                        w as int,
                        spec_jobs_offers(ctx0, objs0, h as int, w as int, all_jobs, ji as int)
                            + spec_ranges_offers(
                            ctx0,
                            objs0,
                            h as int,
                            w as int,
                            all_jobs[ji as int]@.take(ei as int),
                        ),
                    ).1,
                decreases m - ei,
            {
                let (roi, rng) = jobs[ji][ei];
                let ghost done = spec_jobs_offers(
                    ctx0,
                    objs0,
                    h as int,
                    w as int,
                    all_jobs,
                    ji as int,
                ) + spec_ranges_offers(
                    ctx0,
                    objs0,
                    h as int,
                    w as int,
                    all_jobs[ji as int]@.take(ei as int),
                );
                let ghost entry_offers = spec_range_offers(
                    ctx0,
                    objs0[roi as int],
                    h as int,
                    w as int,
                    rng.first as int,
                    rng.last as int,
                );
                proof {
                    assert(spec_entry_valid(objs0, all_jobs[ji as int]@[ei as int]));
                    crate::plane::lemma_batch_concat(
                        base_cs,
                        base_zs,
                        h as int,
                        w as int,
                        done,
                        entry_offers,
                    );
                }
                self.render_range(roi, rng.first, rng.last);
                proof {
                    let taken = all_jobs[ji as int]@.take(ei + 1);
                    assert(taken =~= all_jobs[ji as int]@.take(ei as int).push(
                        all_jobs[ji as int]@[ei as int],
                    ));
                    assert(taken.drop_last() =~= all_jobs[ji as int]@.take(ei as int));
                    assert(spec_ranges_offers(ctx0, objs0, h as int, w as int, taken)
                        == spec_ranges_offers(
                        ctx0,
                        objs0,
                        h as int,
                        w as int,
                        all_jobs[ji as int]@.take(ei as int),
                    ) + entry_offers);
                    assert(spec_jobs_offers(ctx0, objs0, h as int, w as int, all_jobs, ji as int)
                        + spec_ranges_offers(ctx0, objs0, h as int, w as int, taken) =~= done
                        + entry_offers);
                }
                ei = ei + 1;
            }
            proof {
                assert(all_jobs[ji as int]@.take(m as int) =~= all_jobs[ji as int]@);
                assert(spec_jobs_offers(ctx0, objs0, h as int, w as int, all_jobs, ji + 1)
                    == spec_jobs_offers(ctx0, objs0, h as int, w as int, all_jobs, ji as int)
                    + spec_ranges_offers(ctx0, objs0, h as int, w as int, all_jobs[ji as int]@));
            }
            ji = ji + 1;
        }
    }

    /// Renders one frame from scratch: resets the framebuffer, slices the
    /// scene's triangles into contiguous jobs, and rasterizes every job's
    /// ranges in order through the depth-tested batch write.  The
    /// resulting image is a function of the objects and the camera alone:
    /// the job partition never shows in the outcome.
    pub fn draw(&mut self)
        requires
            old(self).wf(),
        ensures
            final(self).wf(),
            final(self).objects == old(self).objects,
            final(self).context == old(self).context,
            final(self).total_triangles == old(self).total_triangles,
            final(self).image.height == old(self).image.height,
            final(self).image.width == old(self).image.width,
            final(self).image.colors() == spec_apply_batch(
                spec_fresh_colors((old(self).image.height * old(self).image.width) as nat),
                spec_fresh_depths((old(self).image.height * old(self).image.width) as nat),
                old(self).image.height as int,
                old(self).image.width as int,
                spec_scene_offers(
                    old(self).context,
                    old(self).objects@,
                    old(self).image.height as int,
                    old(self).image.width as int,
                ),
            ).0,
            final(self).image.depths() == spec_apply_batch(
                spec_fresh_colors((old(self).image.height * old(self).image.width) as nat),
                spec_fresh_depths((old(self).image.height * old(self).image.width) as nat),
                old(self).image.height as int,
                old(self).image.width as int,
                spec_scene_offers(
                    old(self).context,
                    old(self).objects@,
                    old(self).image.height as int,
                    old(self).image.width as int,
                ),
            ).1,
    {
        let h: usize = self.image.height;
        let w: usize = self.image.width;
        let n: usize = self.image.pixels.len();
        self.image = TGAImage::new(h, w);
        let ghost ctx0 = self.context;
        let ghost objs0 = self.objects@;
        let ghost fresh_cs = spec_fresh_colors((h * w) as nat);
        let ghost fresh_zs = spec_fresh_depths((h * w) as nat);
        proof {
            assert(self.image.colors() =~= fresh_cs);
            assert(self.image.depths() =~= fresh_zs);
        }
        let jobs = self.partition_jobs();
        proof {
            assert(spec_jobs_valid(objs0, jobs@));
            assert(spec_jobs_offers(ctx0, objs0, h as int, w as int, jobs@, jobs@.len() as int)
                == spec_scene_offers(ctx0, objs0, h as int, w as int));
        }
        self.apply_jobs(&jobs);
    }
}

/// Depth-test soundness for a whole frame: after `draw`, the depth stored
/// at any pixel is the greatest depth among every offer any triangle of
/// the scene made to that pixel, starting from the sentinel floor.  The
/// order in which jobs landed their batches cannot change it.
pub proof fn lemma_draw_depth_soundness(
    ctx: SceneContext,
    objs: Seq<Object>,
    height: int,
    width: int,
    idx: int,
)
    requires
        0 <= idx < height * width,
    ensures
        ({
            let offers = spec_scene_offers(ctx, objs, height, width);
            spec_apply_batch(
                spec_fresh_colors((height * width) as nat),
                spec_fresh_depths((height * width) as nat),
                height,
                width,
                offers,
            ).1[idx] == crate::plane::spec_offers_max(
                offers,
                height,
                width,
                idx,
                i64::MIN as int,
            )
        }),
{
    let offers = spec_scene_offers(ctx, objs, height, width);
    let zs = spec_fresh_depths((height * width) as nat);
    assert(zs.len() == height * width);
    assert(zs[idx] == i64::MIN);
    crate::plane::lemma_batch_depth_max(
        spec_fresh_colors((height * width) as nat),
        zs,
        height,
        width,
        offers,
        idx,
    );
}

proof fn lemma_scene_total_nonneg(objs: Seq<Object>)
    ensures
        spec_scene_total(objs) >= 0,
    decreases objs.len(),
{
    if objs.len() > 0 {
        lemma_scene_total_nonneg(objs.drop_last());
    }
}

fn scale_uv3(arr: [Vector; 3], height: usize, width: usize) -> (r: [Vector; 3])
    requires
        height <= 0x7fff_ffff,
        width <= 0x7fff_ffff,
    ensures
        r@ == arr@.map_values(|v: Vector| spec_scale_uv(v, height as int, width as int)),
{
    let h: i64 = fx_of_int(height as i64);
    let w: i64 = fx_of_int(width as i64);
    let r = [
        Vector { x: fx_mul(arr[0].x, w), y: fx_mul(arr[0].y, h), z: 0 },
        Vector { x: fx_mul(arr[1].x, w), y: fx_mul(arr[1].y, h), z: 0 },
        Vector { x: fx_mul(arr[2].x, w), y: fx_mul(arr[2].y, h), z: 0 },
    ];
    proof {
        assert(r@ =~= arr@.map_values(|v: Vector| spec_scale_uv(v, height as int, width as int)));
    }
    r
}

} // verus!
