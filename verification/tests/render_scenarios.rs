use simple_open_gl::colors::Colors;
use simple_open_gl::colors::TGAColor;
use simple_open_gl::dimensional::Vector;
use simple_open_gl::fixed::FX_ONE;
use simple_open_gl::obj::Object;
use simple_open_gl::obj::look_at;
use simple_open_gl::obj::poly_visible;
use simple_open_gl::obj::transform_vertex;
use simple_open_gl::obj::Scene;
use simple_open_gl::plane::Point;
use simple_open_gl::plane::TGAImage;
use simple_open_gl::texture::Texture;

const S: i64 = FX_ONE;
const WHITE: TGAColor = TGAColor { red: 255, green: 255, blue: 255, alpha: 255 };

fn solid_rgba(color: (u8, u8, u8)) -> Texture {
    Texture::new(1, 1, vec![color.0, color.1, color.2, 255], Colors::RGBA)
}

/// A one-texel normal map whose decoded direction points almost exactly at
/// the viewer.
fn normal_up() -> Texture {
    Texture::new(1, 1, vec![127, 127, 1, 255], Colors::RGBA)
}

fn v(x: i64, y: i64, z: i64) -> Vector {
    Vector::new(x, y, z)
}

fn uv_zero() -> [Vector; 3] {
    [v(0, 0, 0), v(0, 0, 0), v(0, 0, 0)]
}

fn light_at_viewer() -> Vector {
    v(0, 0, S)
}

#[test]
fn depth_test_single_writes() {
    let mut img = TGAImage::new(4, 4);
    let red = TGAColor::new(200, 0, 0, 255);
    let green = TGAColor::new(0, 200, 0, 255);
    assert!(img.set_pixel(v(S, 2 * S, 5 * S), red).is_ok());
    assert_eq!(img.pixels[2 * 4 + 1], red);
    assert_eq!(img.z_buff[2 * 4 + 1], 5 * S);
    // a shallower write is discarded
    assert!(img.set_pixel(v(S, 2 * S, 4 * S), green).is_ok());
    assert_eq!(img.pixels[2 * 4 + 1], red);
    // an equal depth does not overwrite: the first writer keeps the pixel
    assert!(img.set_pixel(v(S, 2 * S, 5 * S), green).is_ok());
    assert_eq!(img.pixels[2 * 4 + 1], red);
    // a deeper write lands
    assert!(img.set_pixel(v(S, 2 * S, 6 * S), green).is_ok());
    assert_eq!(img.pixels[2 * 4 + 1], green);
    assert_eq!(img.z_buff[2 * 4 + 1], 6 * S);
    // out of bounds: an error, and nothing written
    assert!(img.set_pixel(v(4 * S, 0, S), red).is_err());
    assert!(img.set_pixel(v(-S, 0, S), red).is_err());
}

#[test]
fn depth_of_batch_is_max_of_offers() {
    let mut img = TGAImage::new(3, 3);
    let c5 = TGAColor::new(5, 5, 5, 255);
    let c9 = TGAColor::new(9, 9, 9, 255);
    let c7 = TGAColor::new(7, 7, 7, 255);
    img.set_pixels(vec![
        (v(S, S, 5 * S), c5),
        (v(S, S, 9 * S), c9),
        (v(S, S, 7 * S), c7),
        // offers outside the image are skipped, never written
        (v(-S, S, 100 * S), c9),
        (v(S, 100 * S, 100 * S), c9),
    ]);
    assert_eq!(img.z_buff[1 * 3 + 1], 9 * S);
    assert_eq!(img.pixels[1 * 3 + 1], c9);
    for y in 0..3usize {
        for x in 0..3usize {
            if (x, y) != (1, 1) {
                assert_eq!(img.pixels[y * 3 + x], WHITE);
                assert_eq!(img.z_buff[y * 3 + x], i64::MIN);
            }
        }
    }
}

#[test]
fn flat_triangle_writes_nothing() {
    let mut img = TGAImage::new(8, 8);
    let tex = Some(solid_rgba((10, 20, 30)));
    // all three corners on one y: zero screen area, skipped outright
    let coords = [v(0, 3 * S, S), v(5 * S, 3 * S, S), v(2 * S, 3 * S, S)];
    img.fill_triangle(&light_at_viewer(), coords, uv_zero(), &tex, uv_zero(), &None, &None);
    for i in 0..64usize {
        assert_eq!(img.pixels[i], WHITE);
        assert_eq!(img.z_buff[i], i64::MIN);
    }
}

#[test]
fn offscreen_triangles_write_nothing() {
    let mut img = TGAImage::new(8, 8);
    let tex = Some(solid_rgba((10, 20, 30)));
    let cases = [
        // entirely left of the image
        [v(-10 * S, 0, S), v(-5 * S, 0, S), v(-7 * S, 6 * S, S)],
        // entirely above the image
        [v(0, -10 * S, S), v(5 * S, -10 * S, S), v(2 * S, -2 * S, S)],
        // entirely right of the image
        [v(20 * S, 0, S), v(30 * S, 0, S), v(25 * S, 6 * S, S)],
        // entirely below the image
        [v(0, 20 * S, S), v(5 * S, 20 * S, S), v(2 * S, 30 * S, S)],
    ];
    for coords in cases {
        img.fill_triangle(&light_at_viewer(), coords, uv_zero(), &tex, uv_zero(), &None, &None);
    }
    for i in 0..64usize {
        assert_eq!(img.pixels[i], WHITE);
        assert_eq!(img.z_buff[i], i64::MIN);
    }
}

#[test]
fn flip_vertically_is_an_involution() {
    let mut img = TGAImage::new(4, 3);
    // write a distinctive pattern with depths
    for y in 0..4usize {
        for x in 0..3usize {
            let c = TGAColor::new((10 * y + x) as u8, x as u8, y as u8, 255);
            img.set_pixel(v(x as i64 * S, y as i64 * S, (y + 1) as i64 * S), c).unwrap();
        }
    }
    let colors_before = img.pixels.clone();
    let depths_before = img.z_buff.clone();
    img.flip_vertically();
    // rows exchanged, depths untouched
    for y in 0..4usize {
        for x in 0..3usize {
            assert_eq!(img.pixels[y * 3 + x], colors_before[(3 - y) * 3 + x]);
        }
    }
    assert_eq!(img.z_buff, depths_before);
    img.flip_vertically();
    assert_eq!(img.pixels, colors_before);
    assert_eq!(img.z_buff, depths_before);
}

#[test]
fn flip_of_empty_image_is_a_no_op() {
    let mut img = TGAImage::new(4, 0);
    img.flip_vertically();
    assert!(img.pixels.is_empty());
    assert!(img.z_buff.is_empty());
    assert_eq!(img.height, 4);
    assert_eq!(img.width, 0);
}

#[test]
fn look_at_basis_is_orthonormal() {
    // an up vector of length two must not scale the basis: each row comes
    // out normalized
    let m = look_at(v(0, 0, 3 * S), v(0, 0, 0), v(0, 2 * S, 0));
    assert_eq!(m.get(0, 0), S);
    assert_eq!(m.get(1, 1), S);
    assert_eq!(m.get(2, 2), S);
    for i in 0..3usize {
        for j in 0..4usize {
            if i != j {
                assert_eq!(m.get(i, j), 0);
            }
        }
    }
    assert_eq!(m.get(3, 3), S);
}

#[test]
fn draw_line_writes_a_row() {
    let mut img = TGAImage::new(6, 6);
    let red = TGAColor::new(200, 0, 0, 255);
    img.draw_line(&Point::new(1, 2), &Point::new(5, 2), &red).unwrap();
    // half-open walk along x: the last column is excluded
    for x in 1..5usize {
        assert_eq!(img.pixels[2 * 6 + x], red);
    }
    assert_eq!(img.pixels[2 * 6 + 5], WHITE);
    assert_eq!(img.pixels[2 * 6 + 0], WHITE);
    assert!(img.draw_line(&Point::new(0, 6), &Point::new(2, 2), &red).is_err());
}

/// The single front-facing triangle scenario: a solid texture, a normal map
/// facing the viewer, and a light pointing at the viewer fill the footprint
/// with one shaded color and leave the rest at the background.
#[test]
fn single_triangle_scenario() {
    let mut img = TGAImage::new(20, 20);
    let tex = Some(solid_rgba((200, 100, 50)));
    let nm = Some(normal_up());
    let coords = [v(0, 0, S), v(10 * S, 0, S), v(5 * S, 10 * S, S)];
    img.fill_triangle(&light_at_viewer(), coords, uv_zero(), &tex, uv_zero(), &nm, &None);
    let shaded = TGAColor::new(199, 99, 49, 255);
    let mut count = 0usize;
    for y in 0..20usize {
        for x in 0..20usize {
            let c = img.pixels[y * 20 + x];
            if c != WHITE {
                assert_eq!(c, shaded);
                assert_eq!(img.z_buff[y * 20 + x], S);
                assert!(y < 10, "no pixel below the triangle may be written");
                count += 1;
            } else {
                assert_eq!(img.z_buff[y * 20 + x], i64::MIN);
            }
        }
    }
    // a solid region about half the bounding box
    assert!(count >= 35 && count <= 55, "covered {} pixels", count);
    assert_eq!(img.pixels[0], shaded);
    assert_eq!(img.pixels[5 * 20 + 5], shaded);
    assert_eq!(img.pixels[12], WHITE);
    assert_eq!(img.pixels[19 * 20 + 19], WHITE);
}

/// Two triangles sharing a vertical edge: the half-open column rule keeps
/// their pixels disjoint, so the draw order cannot matter, and on rows whose
/// spans divide the fixed-point scale exactly the seam is closed.
#[test]
fn shared_edge_scenario() {
    let red_tex = Some(solid_rgba((200, 0, 0)));
    let green_tex = Some(solid_rgba((0, 200, 0)));
    let nm = Some(normal_up());
    let light = light_at_viewer();
    let left = [v(0, 0, S), v(8 * S, 0, S), v(8 * S, 8 * S, S)];
    let right = [v(8 * S, 0, S), v(16 * S, 0, S), v(8 * S, 8 * S, S)];

    let mut ab = TGAImage::new(20, 20);
    ab.fill_triangle(&light, left, uv_zero(), &red_tex, uv_zero(), &nm, &None);
    ab.fill_triangle(&light, right, uv_zero(), &green_tex, uv_zero(), &nm, &None);

    let mut ba = TGAImage::new(20, 20);
    ba.fill_triangle(&light, right, uv_zero(), &green_tex, uv_zero(), &nm, &None);
    ba.fill_triangle(&light, left, uv_zero(), &red_tex, uv_zero(), &nm, &None);

    // no pixel is shaded by both triangles: the images agree whatever the order
    assert_eq!(ab.pixels, ba.pixels);
    assert_eq!(ab.z_buff, ba.z_buff);

    // on drift-free rows the covered run crosses the seam without a gap
    for y in [0usize, 4, 6, 7] {
        let row: Vec<bool> = (0..20).map(|x| ab.pixels[y * 20 + x] != WHITE).collect();
        let first = row.iter().position(|&b| b).unwrap();
        let last = row.iter().rposition(|&b| b).unwrap();
        assert!(first < 8 && last >= 8, "row {} must cover both sides", y);
        for x in first..=last {
            assert!(row[x], "gap at ({}, {})", x, y);
        }
    }
}

fn demo_scene(n: usize) -> Scene {
    let mut scene = Scene::new(64, 64, light_at_viewer());
    let mut triangles = Vec::new();
    for k in 0..n {
        let i = (k % 30) as i64;
        let j = (k / 30) as i64;
        let x0 = -S + i * S / 16;
        let y0 = -S + j * S / 16;
        let z = (k % 7) as i64 * S / 8;
        let c = [
            v(x0, y0, z),
            v(x0 + S / 16, y0, z),
            v(x0, y0 + S / 16, z + S / 32),
        ];
        let uv = [v(0, 0, 0), v(S, 0, 0), v(0, S, 0)];
        triangles.push((c, uv, uv));
    }
    let obj = Object::new(v(0, 0, 0))
        .set_text_map(solid_rgba((180, 90, 45)))
        .set_norm_map(normal_up())
        .build(triangles);
    scene.add_obj(obj);
    scene
}

/// Splitting the same triangles over one job or several cannot change the
/// frame: `draw` (which partitions into jobs) agrees pixel for pixel with a
/// plain triangle-by-triangle walk using the same camera.
#[test]
fn partitioning_does_not_change_the_frame() {
    // 900 triangles: enough that the scheduler splits them into four jobs
    let mut scene = demo_scene(900);
    scene.draw();
    let drawn_pixels = scene.image.pixels.clone();
    let drawn_depths = scene.image.z_buff.clone();

    // reference: every triangle in scene order, one job, no partitioning
    let mut reference = TGAImage::new(64, 64);
    let ctx = &scene.context;
    let obj = &scene.objects[0];
    let mat = ctx
        .view_port
        .multiply(&ctx.projection)
        .multiply(&look_at(ctx.eye, obj.position, ctx.up));
    for poly in &obj.polygons {
        let c0 = transform_vertex(&mat, &poly.coords[0], 64, 64);
        let c1 = transform_vertex(&mat, &poly.coords[1], 64, 64);
        let c2 = transform_vertex(&mat, &poly.coords[2], 64, 64);
        if poly_visible(c0, c1, c2, ctx.visible) {
            reference.fill_triangle(
                &ctx.light,
                [c0, c1, c2],
                poly.text_coords,
                &obj.text_map,
                poly.norm_coords,
                &obj.norm_map,
                &obj.sp_map,
            );
        }
    }
    assert_eq!(drawn_pixels, reference.pixels);
    assert_eq!(drawn_depths, reference.z_buff);

    // drawing again is deterministic
    scene.draw();
    assert_eq!(scene.image.pixels, drawn_pixels);
    assert_eq!(scene.image.z_buff, drawn_depths);
}

#[test]
fn scene_defaults_and_rotation() {
    let mut scene = Scene::new(32, 32, light_at_viewer());
    assert_eq!(scene.image.height, 32);
    assert_eq!(scene.image.width, 32);
    assert_eq!(scene.total_triangles, 0);
    assert_eq!(scene.context.eye, v(-S, -S, 3 * S));
    assert_eq!(scene.context.up, v(0, S, 0));
    assert_eq!(scene.context.visible, v(0, 0, S));
    // the perspective term is -1 / eye.z
    assert_eq!(scene.context.projection.get(3, 2), -21845);

    let uv = uv_zero();
    let c = [v(0, 0, 0), v(S / 8, 0, 0), v(0, S / 8, 0)];
    let mut obj = Object::new(v(0, 0, 0)).build(vec![(c, uv, uv); 3]);
    // compose a rotation from a cosine and sine pair and draw with it
    obj.rotate_y(S, 0);
    obj.rotate_x(0, S);
    scene.add_obj(obj);
    assert_eq!(scene.total_triangles, 3);
    scene.draw();
    assert_eq!(scene.total_triangles, 3);
    assert_eq!(scene.image.height, 32);
}

#[test]
fn specular_map_adds_intensity() {
    let tex = Some(solid_rgba((100, 100, 100)));
    let nm = Some(normal_up());
    let coords = [v(0, 0, S), v(8 * S, 0, S), v(4 * S, 8 * S, S)];

    let mut without = TGAImage::new(16, 16);
    without.fill_triangle(&light_at_viewer(), coords, uv_zero(), &tex, uv_zero(), &nm, &None);

    // a full-white one-channel specular map adds 0.6 to the intensity
    let sp = Some(Texture::new(1, 1, vec![255], Colors::Gray));
    let mut with = TGAImage::new(16, 16);
    with.fill_triangle(&light_at_viewer(), coords, uv_zero(), &tex, uv_zero(), &nm, &sp);

    let mut saw_pixel = false;
    for i in 0..256usize {
        if without.pixels[i] != WHITE {
            saw_pixel = true;
            let plain = without.pixels[i];
            let lit = with.pixels[i];
            assert!(lit.red > plain.red, "specular weight must brighten");
            assert_eq!(lit.alpha, plain.alpha);
        }
    }
    assert!(saw_pixel);
}
