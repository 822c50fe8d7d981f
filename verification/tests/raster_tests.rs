use rasterizer::fixed::{Fx, SCALE};
use rasterizer::geom::{Vec2, Vec3, Vec4};
use rasterizer::interpolate::Interpolate;
use rasterizer::pipeline::{SolidColorPipeline, VertexColorPipeline};
use rasterizer::raster::{channel_byte, inside, rasterize};

fn fx(raw: i64) -> Fx {
    Fx::from_raw(raw)
}

fn unit(v: f64) -> Fx {
    Fx::from_raw((v * SCALE as f64) as i64)
}

fn clip(x: f64, y: f64) -> Vec4 {
    Vec4::new(unit(x), unit(y), fx(0), Fx::one())
}

fn color(r: f64, g: f64, b: f64, a: f64) -> Vec4 {
    Vec4::new(unit(r), unit(g), unit(b), unit(a))
}

fn fresh_buffer(w: usize, h: usize) -> Vec<u8> {
    vec![7u8; w * h * 4]
}

#[test]
fn inside_needs_all_three_weight_bounds() {
    // v = w = 0.6 gives u = 1 - v - w = -0.2: outside, even though both
    // v and w lie in [0, 1].
    assert!(!inside(unit(0.6), unit(0.6)));
    assert!(inside(unit(0.2), unit(0.3)));
    // Edges are inclusive.
    assert!(inside(fx(0), fx(0)));
    assert!(inside(fx(0), Fx::one()));
    assert!(inside(Fx::one(), fx(0)));
    // Negative weights are outside.
    assert!(!inside(fx(-1), fx(0)));
    assert!(!inside(fx(0), fx(-1)));
}

#[test]
fn interpolate_identity_scalar() {
    let a = unit(0.7);
    let quarter = fx(SCALE / 4);
    let half = fx(SCALE / 2);
    let r = Fx::interpolate(a, a, a, quarter, quarter, half);
    assert_eq!(r, a);
}

#[test]
fn interpolate_identity_vec3() {
    let a = Vec3::new(unit(0.1), unit(-2.5), unit(31.0));
    let third_a = fx(21845);
    let third_b = fx(21845);
    let third_c = fx(SCALE - 21845 - 21845);
    let r = Vec3::interpolate(a, a, a, third_a, third_b, third_c);
    assert_eq!(r, a);
}

#[test]
fn interpolate_identity_vec2() {
    let a = Vec2::new(unit(4.5), unit(-0.125));
    let half = fx(SCALE / 2);
    let quarter = fx(SCALE / 4);
    let r = Vec2::interpolate(a, a, a, half, quarter, quarter);
    assert_eq!(r, a);
}

#[test]
fn interpolate_exact_at_vertices() {
    let a = unit(0.25);
    let b = unit(-1.5);
    let c = unit(3.0);
    assert_eq!(Fx::interpolate(a, b, c, Fx::one(), Fx::zero(), Fx::zero()), a);
    assert_eq!(Fx::interpolate(a, b, c, Fx::zero(), Fx::one(), Fx::zero()), b);
    assert_eq!(Fx::interpolate(a, b, c, Fx::zero(), Fx::zero(), Fx::one()), c);
}

#[test]
fn interpolate_midpoint_scalar() {
    // Halfway between 0 and 1 with weights (1/2, 1/2, 0).
    let r = Fx::interpolate(
        fx(0),
        Fx::one(),
        fx(0),
        fx(SCALE / 2),
        fx(SCALE / 2),
        fx(0),
    );
    assert_eq!(r, fx(SCALE / 2));
}

#[test]
fn channel_byte_mapping() {
    assert_eq!(channel_byte(Fx::one()), 255);
    assert_eq!(channel_byte(fx(0)), 0);
    // Values beyond [0, 1] saturate.
    assert_eq!(channel_byte(unit(2.0)), 255);
    assert_eq!(channel_byte(unit(-1.0)), 0);
    // 0.5 * 255 truncates to 127.
    assert_eq!(channel_byte(fx(SCALE / 2)), 127);
}

fn unit_square() -> Vec<[Vec4; 3]> {
    vec![
        [clip(0.0, 0.0), clip(1.0, 0.0), clip(0.0, 1.0)],
        [clip(1.0, 1.0), clip(1.0, 0.0), clip(0.0, 1.0)],
    ]
}

#[test]
fn full_coverage_unit_square() {
    // Two triangles covering the whole screen, solid red, 8x8: every
    // pixel must read [255, 0, 0] with the fourth byte untouched.
    let pipeline = SolidColorPipeline { color: color(1.0, 0.0, 0.0, 1.0) };
    let tris = unit_square();
    let mut buffer = fresh_buffer(8, 8);
    rasterize(&pipeline, &tris, &mut buffer, 8, 8, 8, 8);
    for j in 0..8 {
        for i in 0..8 {
            let off = (j * 8 + i) * 4;
            assert_eq!(&buffer[off..off + 4], &[255, 0, 0, 7], "pixel ({i},{j})");
        }
    }
}

#[test]
fn channel_order_and_offset() {
    // A solid green-blue mix at a known pixel: checks the channel order
    // (R, G, B) and the byte offset formula.
    let pipeline = SolidColorPipeline { color: color(0.0, 1.0, 0.5, 1.0) };
    let tris = unit_square();
    let mut buffer = fresh_buffer(8, 8);
    rasterize(&pipeline, &tris, &mut buffer, 8, 8, 8, 8);
    let off = (3 * 8 + 5) * 4;
    assert_eq!(&buffer[off..off + 4], &[0, 255, 127, 7]);
}

#[test]
fn black_fragment_writes_zero_bytes() {
    let pipeline = SolidColorPipeline { color: color(0.0, 0.0, 0.0, 1.0) };
    let tris = unit_square();
    let mut buffer = fresh_buffer(8, 8);
    rasterize(&pipeline, &tris, &mut buffer, 8, 8, 8, 8);
    let off = (2 * 8 + 2) * 4;
    assert_eq!(&buffer[off..off + 4], &[0, 0, 0, 7]);
}

fn colored_tri(a: Vec4, b: Vec4, c: Vec4, col: Vec4) -> [(Vec4, Vec4); 3] {
    [(a, col), (b, col), (c, col)]
}

#[test]
fn later_triangle_overwrites_earlier() {
    // Two overlapping triangles with different solid colors: the later
    // one in the list wins on the shared pixels, in either order.
    let red = color(1.0, 0.0, 0.0, 1.0);
    let green = color(0.0, 1.0, 0.0, 1.0);
    let a = clip(0.0, 0.0);
    let b = clip(1.0, 0.0);
    let c = clip(0.0, 1.0);
    let pipeline = VertexColorPipeline {};
    let off = (1 * 8 + 1) * 4;

    let tris = vec![colored_tri(a, b, c, red), colored_tri(a, b, c, green)];
    let mut buffer = fresh_buffer(8, 8);
    rasterize(&pipeline, &tris, &mut buffer, 8, 8, 8, 8);
    assert_eq!(&buffer[off..off + 3], &[0, 255, 0]);

    let tris = vec![colored_tri(a, b, c, green), colored_tri(a, b, c, red)];
    let mut buffer = fresh_buffer(8, 8);
    rasterize(&pipeline, &tris, &mut buffer, 8, 8, 8, 8);
    assert_eq!(&buffer[off..off + 3], &[255, 0, 0]);
}

#[test]
fn later_triangle_overwrites_on_shared_edge() {
    // The two halves of the unit square share the diagonal; the sample
    // at (0.5, 0.5) lies on it, covered by both. The later triangle in
    // the list decides the pixel, in either order.
    let red = color(1.0, 0.0, 0.0, 1.0);
    let green = color(0.0, 1.0, 0.0, 1.0);
    let lower = [clip(0.0, 0.0), clip(1.0, 0.0), clip(0.0, 1.0)];
    let upper = [clip(1.0, 1.0), clip(1.0, 0.0), clip(0.0, 1.0)];
    let pipeline = VertexColorPipeline {};
    let off = (4 * 8 + 4) * 4;

    let tris = vec![
        [(lower[0], red), (lower[1], red), (lower[2], red)],
        [(upper[0], green), (upper[1], green), (upper[2], green)],
    ];
    let mut buffer = fresh_buffer(8, 8);
    rasterize(&pipeline, &tris, &mut buffer, 8, 8, 8, 8);
    assert_eq!(&buffer[off..off + 3], &[0, 255, 0]);

    let tris = vec![
        [(upper[0], green), (upper[1], green), (upper[2], green)],
        [(lower[0], red), (lower[1], red), (lower[2], red)],
    ];
    let mut buffer = fresh_buffer(8, 8);
    rasterize(&pipeline, &tris, &mut buffer, 8, 8, 8, 8);
    assert_eq!(&buffer[off..off + 3], &[255, 0, 0]);
}

#[test]
fn from_int_scales_by_one_unit() {
    assert_eq!(Fx::from_int(3), unit(3.0));
    assert_eq!(Fx::from_int(-2), unit(-2.0));
    assert_eq!(Fx::from_int(0), Fx::zero());
}

#[test]
fn offscreen_triangle_writes_nothing() {
    // Entirely right of the unit square: clamped bounding box is empty.
    let pipeline = SolidColorPipeline { color: color(1.0, 1.0, 1.0, 1.0) };
    let tris = vec![[clip(1.5, 0.2), clip(2.0, 0.5), clip(1.25, 0.9)]];
    let mut buffer = fresh_buffer(8, 8);
    rasterize(&pipeline, &tris, &mut buffer, 8, 8, 8, 8);
    assert!(buffer.iter().all(|&b| b == 7));
}

#[test]
fn offscreen_diagonal_triangle_writes_nothing() {
    // Disjoint from the unit square but with a clamped bounding box
    // that still contains one pixel; its sample point fails the
    // coverage test.
    let pipeline = SolidColorPipeline { color: color(1.0, 1.0, 1.0, 1.0) };
    let tris = vec![[clip(1.25, 0.875), clip(0.875, 1.25), clip(1.25, 1.25)]];
    let mut buffer = fresh_buffer(8, 8);
    rasterize(&pipeline, &tris, &mut buffer, 8, 8, 8, 8);
    assert!(buffer.iter().all(|&b| b == 7));
}

#[test]
fn degenerate_triangle_is_skipped() {
    // Collinear vertices: zero barycentric denominator, silent skip.
    let pipeline = SolidColorPipeline { color: color(1.0, 0.0, 0.0, 1.0) };
    let tris = vec![[clip(0.0, 0.0), clip(0.5, 0.5), clip(1.0, 1.0)]];
    let mut buffer = fresh_buffer(8, 8);
    rasterize(&pipeline, &tris, &mut buffer, 8, 8, 8, 8);
    assert!(buffer.iter().all(|&b| b == 7));
}

#[test]
fn zero_w_vertex_is_skipped() {
    let pipeline = SolidColorPipeline { color: color(1.0, 0.0, 0.0, 1.0) };
    let bad = Vec4::new(unit(0.5), unit(0.5), fx(0), fx(0));
    let tris = vec![[bad, clip(1.0, 0.0), clip(0.0, 1.0)]];
    let mut buffer = fresh_buffer(8, 8);
    rasterize(&pipeline, &tris, &mut buffer, 8, 8, 8, 8);
    assert!(buffer.iter().all(|&b| b == 7));
}

#[test]
fn empty_triangle_list_writes_nothing() {
    let pipeline = SolidColorPipeline { color: color(1.0, 0.0, 0.0, 1.0) };
    let tris: Vec<[Vec4; 3]> = vec![];
    let mut buffer = fresh_buffer(8, 8);
    rasterize(&pipeline, &tris, &mut buffer, 8, 8, 8, 8);
    assert!(buffer.iter().all(|&b| b == 7));
}

#[test]
fn viewport_smaller_than_output() {
    // A 4x4 viewport renders into the top-left corner of an 8x8 buffer:
    // sample points still use the output dimensions.
    let pipeline = SolidColorPipeline { color: color(1.0, 0.0, 0.0, 1.0) };
    let tris = unit_square();
    let mut buffer = fresh_buffer(8, 8);
    rasterize(&pipeline, &tris, &mut buffer, 4, 4, 8, 8);
    for j in 0..8 {
        for i in 0..8 {
            let off = (j * 8 + i) * 4;
            if i < 4 && j < 4 {
                assert_eq!(&buffer[off..off + 4], &[255, 0, 0, 7], "pixel ({i},{j})");
            } else {
                assert_eq!(&buffer[off..off + 4], &[7, 7, 7, 7], "pixel ({i},{j})");
            }
        }
    }
}

#[test]
fn vertex_color_interpolates_across_triangle() {
    // Corners carrying red, green and blue: the corner pixels read the
    // corner colors exactly.
    let red = color(1.0, 0.0, 0.0, 1.0);
    let green = color(0.0, 1.0, 0.0, 1.0);
    let blue = color(0.0, 0.0, 1.0, 1.0);
    let pipeline = VertexColorPipeline {};
    let tris = vec![[
        (clip(0.0, 0.0), red),
        (clip(1.0, 0.0), green),
        (clip(0.0, 1.0), blue),
    ]];
    let mut buffer = fresh_buffer(8, 8);
    rasterize(&pipeline, &tris, &mut buffer, 8, 8, 8, 8);
    // Pixel (0,0) samples the first corner exactly: weights (1,0,0).
    assert_eq!(&buffer[0..4], &[255, 0, 0, 7]);
}

#[test]
fn fixed_point_arithmetic_is_exact_on_halves() {
    let three_halves = unit(1.5);
    let two = unit(2.0);
    assert_eq!(three_halves.times(two), unit(3.0));
    assert_eq!(unit(3.0).over(two), three_halves);
    assert_eq!(three_halves.plus(three_halves), unit(3.0));
    assert_eq!(two.minus(three_halves), unit(0.5));
    assert_eq!(unit(-0.5).clamp01(), fx(0));
    assert_eq!(unit(1.5).clamp01(), Fx::one());
    assert_eq!(unit(0.25).clamp01(), unit(0.25));
}
