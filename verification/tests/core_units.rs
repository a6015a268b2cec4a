use simple_open_gl::colors::Colors;
use simple_open_gl::colors::TGAColor;
use simple_open_gl::dimensional::Vector;
use simple_open_gl::fixed::FX_ONE;
use simple_open_gl::fixed::fx_add;
use simple_open_gl::fixed::fx_div;
use simple_open_gl::fixed::fx_floor;
use simple_open_gl::fixed::fx_mul;
use simple_open_gl::fixed::fx_of_int;
use simple_open_gl::fixed::fx_sub;
use simple_open_gl::fixed::fx_to_pixel;
use simple_open_gl::fixed::isqrt_u128;
use simple_open_gl::matrix::Matrix;
use simple_open_gl::obj::Object;
use simple_open_gl::obj::PolyRange;
use simple_open_gl::obj::PortionIterator;
use simple_open_gl::texture::Texture;

const S: i64 = FX_ONE;

#[test]
fn fixed_point_arithmetic() {
    assert_eq!(fx_of_int(3), 3 * S);
    assert_eq!(fx_add(2 * S, 3 * S), 5 * S);
    assert_eq!(fx_sub(2 * S, 3 * S), -S);
    assert_eq!(fx_mul(2 * S, 3 * S), 6 * S);
    assert_eq!(fx_mul(S / 2, 3 * S), 3 * S / 2);
    assert_eq!(fx_div(6 * S, 3 * S), 2 * S);
    // division rounds toward zero
    assert_eq!(fx_div(S, 3 * S), 21845);
    assert_eq!(fx_div(-S, 3 * S), -21845);
    // a zero divisor yields zero, the defined fallback
    assert_eq!(fx_div(5 * S, 0), 0);
    assert_eq!(fx_floor(3 * S + S / 2), 3);
    assert_eq!(fx_floor(-S / 2), -1);
    assert_eq!(fx_to_pixel(3 * S + 1), 3);
    assert_eq!(fx_to_pixel(-5), 0);
    // saturation instead of overflow
    assert_eq!(fx_add(i64::MAX, 1), i64::MAX);
    assert_eq!(fx_mul(i64::MAX, 2 * S), i64::MAX);
}

#[test]
fn integer_square_root() {
    assert_eq!(isqrt_u128(0), 0);
    assert_eq!(isqrt_u128(1), 1);
    assert_eq!(isqrt_u128(24), 4);
    assert_eq!(isqrt_u128(25), 5);
    assert_eq!(isqrt_u128(26), 5);
    assert_eq!(isqrt_u128(u128::from(u64::MAX) * u128::from(u64::MAX)), u128::from(u64::MAX));
}

#[test]
fn vector_operations() {
    let a = Vector::new(S, 2 * S, 3 * S);
    let b = Vector::new(4 * S, 5 * S, 6 * S);
    assert_eq!(a.add(b), Vector::new(5 * S, 7 * S, 9 * S));
    assert_eq!(b.sub(a), Vector::new(3 * S, 3 * S, 3 * S));
    assert_eq!(a.scale(2 * S), Vector::new(2 * S, 4 * S, 6 * S));
    assert_eq!(a.div(2 * S), Vector::new(S / 2, S, 3 * S / 2));
    // a zero divisor gives the zero vector
    assert_eq!(a.div(0), Vector::new(0, 0, 0));
    // cross product of the axes
    let x = Vector::new(S, 0, 0);
    let y = Vector::new(0, S, 0);
    assert_eq!(x.vector_prod(y), Vector::new(0, 0, S));
    assert_eq!(y.vector_prod(x), Vector::new(0, 0, -S));
    assert_eq!(a.scalar_prod(&b), 32 * S);
    let mut c = Vector::new(0, 0, 0);
    c.set(0, 7);
    c.set(1, 8);
    c.set(2, 9);
    assert_eq!((c.get(0), c.get(1), c.get(2)), (7, 8, 9));
    let d = Vector::new(3 * S + S / 2, 2 * S, 7 * S);
    assert_eq!(d.round(), (3, 2, 7));
}

#[test]
fn vector_length_and_normalize() {
    let v = Vector::new(3 * S, 4 * S, 0);
    assert_eq!(v.length(), 5 * S);
    let u = v.normalize();
    // 3/5 and 4/5 in fixed point, truncated
    assert_eq!(u, Vector::new(39321, 52428, 0));
    // squared length of the result is one within the fixed-point grain
    let len_sq = i128::from(u.x) * i128::from(u.x) + i128::from(u.y) * i128::from(u.y);
    let one_sq = i128::from(S) * i128::from(S);
    assert!((one_sq - len_sq).abs() <= i128::from(7 * S));
    // a zero vector stays zero: nothing undefined flows downstream
    assert_eq!(Vector::new(0, 0, 0).normalize(), Vector::new(0, 0, 0));
}

#[test]
fn color_flattening() {
    let arr = [TGAColor::new(1, 2, 3, 4), TGAColor::new(5, 6, 7, 8)];
    assert_eq!(TGAColor::from_arr_to_arr(&arr), vec![1, 2, 3, 4, 5, 6, 7, 8]);
    assert_eq!(TGAColor::new(9, 8, 7, 6).to_array(), [9, 8, 7, 6]);
}

#[test]
fn color_intensity() {
    let mut c = TGAColor::new(200, 100, 50, 123);
    c.add_intensity(S / 2);
    assert_eq!(c, TGAColor::new(100, 50, 25, 123));
    let mut dark = TGAColor::new(200, 100, 50, 9);
    dark.add_intensity(-1);
    assert_eq!(dark, TGAColor::new(0, 0, 0, 9));
    let mut bright = TGAColor::new(200, 100, 50, 1);
    bright.add_intensity(3 * S);
    // channels cap at 255, alpha passes through
    assert_eq!(bright, TGAColor::new(255, 255, 150, 1));
}

#[test]
fn normal_map_decode() {
    // red and green decode as c / 127.5 - 1; blue with its own scale, negated
    let v = TGAColor::new(127, 127, 1, 255).to_vector();
    assert_eq!(v, Vector::new(-257, -257, S));
    let w = TGAColor::new(255, 0, 255, 255).to_vector();
    assert_eq!(w, Vector::new(S, -S, -S));
}

#[test]
fn texture_lookup() {
    let bytes = vec![
        1, 2, 3, 4, 5, 6, 7, 8, //
        9, 10, 11, 12, 13, 14, 15, 16,
    ];
    let t = Texture::new(2, 2, bytes, Colors::RGBA);
    assert_eq!(t.get_pixel(0, 0), TGAColor::new(1, 2, 3, 4));
    assert_eq!(t.get_pixel(1, 0), TGAColor::new(5, 6, 7, 8));
    assert_eq!(t.get_pixel(0, 1), TGAColor::new(9, 10, 11, 12));
    assert_eq!(t.get_pixel(1, 1), TGAColor::new(13, 14, 15, 16));
    let g = Texture::new(1, 2, vec![255, 51], Colors::Gray);
    assert_eq!(g.get_pixel_grey(0, 0), S);
    assert_eq!(g.get_pixel_grey(1, 0), 13107);
}

#[test]
fn matrix_identity_multiply() {
    let id = Matrix::ident(4);
    let mut a = Matrix::new(4, 4);
    let mut v: i64 = S;
    for i in 0..4 {
        for j in 0..4 {
            a.set_entry(i, j, v);
            v += 1000;
        }
    }
    let left = id.multiply(&a);
    let right = a.multiply(&id);
    for i in 0..4 {
        for j in 0..4 {
            assert_eq!(left.get(i, j), a.get(i, j));
            assert_eq!(right.get(i, j), a.get(i, j));
        }
    }
}

#[test]
fn matrix_transpose_and_constructors() {
    let mut a = Matrix::new(2, 3);
    a.set_entry(0, 1, 42);
    a.set_entry(1, 2, 7);
    let t = a.transpose();
    assert_eq!(t.rows, 3);
    assert_eq!(t.col, 2);
    assert_eq!(t.get(1, 0), 42);
    assert_eq!(t.get(2, 1), 7);

    let z = Matrix::zoom(3 * S);
    assert_eq!(z.get(0, 0), 3 * S);
    assert_eq!(z.get(1, 1), 3 * S);
    assert_eq!(z.get(2, 2), 3 * S);
    assert_eq!(z.get(3, 3), S);
    assert_eq!(z.get(0, 1), 0);

    let tr = Matrix::translation(&Vector::new(S, 2 * S, 3 * S));
    assert_eq!(tr.get(0, 3), S);
    assert_eq!(tr.get(1, 3), 2 * S);
    assert_eq!(tr.get(2, 3), 3 * S);
    assert_eq!(tr.get(0, 0), S);

    let rx = Matrix::rotate_x(S, S / 2);
    assert_eq!(rx.get(0, 0), S);
    assert_eq!(rx.get(0, 2), -S / 2);
    assert_eq!(rx.get(2, 0), S / 2);
    assert_eq!(rx.get(1, 1), S);

    let vp = Matrix::view_port(-2 * S, -2 * S, 2 * S, 2 * S);
    assert_eq!(vp.get(0, 3), 0);
    assert_eq!(vp.get(1, 3), 0);
    assert_eq!(vp.get(2, 3), S);
    assert_eq!(vp.get(0, 0), S);
    assert_eq!(vp.get(1, 1), S);
}

#[test]
fn matrix_vector_round_trip() {
    let v = Vector::new(2 * S, 3 * S, 4 * S);
    let col = Matrix::from_vector(&v);
    assert_eq!(col.rows, 4);
    assert_eq!(col.col, 1);
    assert_eq!(col.get(3, 0), S);
    // w is one, so the perspective divide hands the point back
    assert_eq!(col.to_vector(), v);
}

#[test]
fn matrix_inverse_of_identity_and_diagonal() {
    let id = Matrix::ident(3);
    let inv = id.inverse();
    for i in 0..3 {
        for j in 0..3 {
            assert_eq!(inv.get(i, j), if i == j { S } else { 0 });
        }
    }
    let d = Matrix::zoom(2 * S);
    let dinv = d.inverse();
    assert_eq!(dinv.get(0, 0), S / 2);
    assert_eq!(dinv.get(1, 1), S / 2);
    assert_eq!(dinv.get(2, 2), S / 2);
    assert_eq!(dinv.get(3, 3), S);
    assert_eq!(dinv.get(0, 1), 0);
}

fn flat_triangle() -> ([Vector; 3], [Vector; 3], [Vector; 3]) {
    let c = [Vector::new(0, 0, S), Vector::new(S, 0, S), Vector::new(0, S, S)];
    let uv = [Vector::new(0, 0, 0); 3];
    (c, uv, uv)
}

#[test]
fn object_build_rescales_texture_coordinates() {
    let tex = Texture::new(8, 16, vec![0; 8 * 16 * 4], Colors::RGBA);
    let (c, _, _) = flat_triangle();
    let uv = [
        Vector::new(S / 2, S / 2, 0),
        Vector::new(S, 0, 0),
        Vector::new(0, S, 0),
    ];
    let obj = Object::new(Vector::new(0, 0, 0))
        .set_text_map(tex)
        .build(vec![(c, uv, uv)]);
    assert_eq!(obj.polygons.len(), 1);
    // u scales by the width, v by the height, and z is cleared
    assert_eq!(obj.polygons[0].text_coords[0], Vector::new(8 * S, 4 * S, 0));
    assert_eq!(obj.polygons[0].text_coords[1], Vector::new(16 * S, 0, 0));
    assert_eq!(obj.polygons[0].text_coords[2], Vector::new(0, 8 * S, 0));
    // without a bound normal map those coordinates pass through unscaled
    assert_eq!(obj.polygons[0].norm_coords[0], uv[0]);
}

#[test]
fn portion_iterator_chunks_and_rewinds() {
    let (c, uv, nv) = flat_triangle();
    let mut obj = Object::new(Vector::new(0, 0, 0)).build(vec![(c, uv, nv); 5]);
    assert_eq!(obj.next(2), Some(PolyRange { first: 0, last: 2 }));
    assert_eq!(obj.next(2), Some(PolyRange { first: 2, last: 4 }));
    assert_eq!(obj.next(2), Some(PolyRange { first: 4, last: 5 }));
    assert_eq!(obj.next(2), None);
    obj.rewind();
    assert_eq!(obj.next(10), Some(PolyRange { first: 0, last: 5 }));
    assert_eq!(obj.next(10), None);
}
