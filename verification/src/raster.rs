//! The rasterization engine.
//!
//! For each triangle, the three vertices are run through the pipeline's
//! vertex stage, perspective-divided, and a clamped screen-space
//! bounding box is scanned: every pixel whose sample point lies inside
//! the triangle (barycentric coverage test, edges inclusive) gets its
//! interpolated attributes shaded by the fragment stage and its color
//! written into the output buffer. Triangles are processed in input
//! order, later writes overwriting earlier ones.
//!
//! The whole effect on the byte buffer is pinned down by
//! [`rasterize_spec`], a mathematical recomputation of the algorithm
//! over sequences, which [`rasterize`] is proved to match exactly.

use vstd::prelude::*;
use crate::fixed::{
    Fx, SCALE, tdiv, fsub, fmul, fdiv, fmin, fmax, fclamp01, lemma_tdiv_exact, lemma_tdiv_bound,
    lemma_tdiv_ordered, tdiv_wide,
};
use crate::interpolate::Interpolate;
use crate::pipeline::PipelineTrait;

verus! {

/// Screen-space geometry of one triangle: the stored fixed-point values
/// of the six projected vertex coordinates.
pub struct TriGeom {
    pub ax: int,
    pub ay: int,
    pub bx: int,
    pub by: int,
    pub cx: int,
    pub cy: int,
}

/// Stored coordinate of a pixel's normalized sample point: pixel index
/// `i` over output dimension `d`.
pub open spec fn sample_spec(i: int, d: int) -> int {
    tdiv(i * SCALE, d)
}

/// Smallest of three stored values.
pub open spec fn min3(a: int, b: int, c: int) -> int {
    fmin(a, fmin(b, c))
}

/// Largest of three stored values.
pub open spec fn max3(a: int, b: int, c: int) -> int {
    fmax(a, fmax(b, c))
}

/// A bounding-box edge in pixels: the coordinate is clamped into the
/// unit interval first, then scaled by the viewport dimension, with the
/// fractional part dropped.
pub open spec fn bbox_px(m: int, vp: int) -> int {
    tdiv(fclamp01(m) * vp, SCALE as int)
}

/// The barycentric denominator: the edge-vector determinant of the
/// triangle in screen space. Zero exactly for degenerate (collinear)
/// triangles.
pub open spec fn tri_den(g: TriGeom) -> int {
    fsub(
        fmul(fsub(g.bx, g.ax), fsub(g.cy, g.ay)),
        fmul(fsub(g.cx, g.ax), fsub(g.by, g.ay)),
    )
}

/// Barycentric weight of the second vertex at sample point `(sx, sy)`.
pub open spec fn bary_v(g: TriGeom, sx: int, sy: int) -> int {
    let v1x = fsub(g.cx, g.ax);
    let v1y = fsub(g.cy, g.ay);
    let v2x = fsub(sx, g.ax);
    let v2y = fsub(sy, g.ay);
    fdiv(fsub(fmul(v2x, v1y), fmul(v1x, v2y)), tri_den(g))
}

/// Barycentric weight of the third vertex at sample point `(sx, sy)`.
pub open spec fn bary_w(g: TriGeom, sx: int, sy: int) -> int {
    let v0x = fsub(g.bx, g.ax);
    let v0y = fsub(g.by, g.ay);
    let v2x = fsub(sx, g.ax);
    let v2y = fsub(sy, g.ay);
    fdiv(fsub(fmul(v0x, v2y), fmul(v2x, v0y)), tri_den(g))
}

/// The coverage test: a sample point is inside the closed triangle,
/// edges inclusive, when both computed weights and the implied first
/// weight `1 - v - w` are nonnegative. Testing only `v` and `w` against
/// `[0, 1]` would wrongly admit points with `v + w > 1`, which lie
/// beyond the edge opposite the first vertex; the `v + w <= 1` bound
/// closes that gap, so all three barycentric weights are checked.
pub open spec fn inside_spec(v: int, w: int) -> bool {
    0 <= v && 0 <= w && v <= SCALE as int && w <= SCALE as int && v + w <= SCALE as int
}

/// A color channel as a byte: the fixed-point channel times 255,
/// truncated, then clamped into `[0, 255]`.
pub open spec fn channel_byte_spec(c: int) -> int {
    let t = tdiv(c * 255, SCALE as int);
    if t < 0 {
        0
    } else if t > 255 {
        255
    } else {
        t
    }
}

/// Byte offset of pixel `(i, j)` in a row-major buffer with four bytes
/// per pixel and `ow` pixels per row.
pub open spec fn pixel_offset(ow: int, i: int, j: int) -> int {
    ((j * ow) + i) * 4
}

/// The interpolated, shaded color of the pixel at `(i, j)` for a
/// triangle with screen geometry `g` and corner attributes `f0..f2`.
pub open spec fn pixel_color<P: PipelineTrait>(
    p: P,
    g: TriGeom,
    f0: P::FragmentInput,
    f1: P::FragmentInput,
    f2: P::FragmentInput,
    ow: int,
    oh: int,
    i: int,
    j: int,
) -> crate::geom::Vec4 {
    let sx = sample_spec(i, ow);
    let sy = sample_spec(j, oh);
    let v = bary_v(g, sx, sy);
    let w = bary_w(g, sx, sy);
    let u = fsub(fsub(SCALE as int, v), w);
    p.fragment_spec(
        <P::FragmentInput as Interpolate>::interpolate_spec(
            f0,
            f1,
            f2,
            Fx { raw: u as i64 },
            Fx { raw: v as i64 },
            Fx { raw: w as i64 },
        ),
    )
}

/// Effect of visiting one pixel: if the sample point passes the
/// coverage test, the interpolated and shaded color's first three
/// channels are written at the pixel's offset; the fourth byte is never
/// touched. Otherwise the buffer is unchanged.
pub open spec fn pixel_apply<P: PipelineTrait>(
    p: P,
    g: TriGeom,
    f0: P::FragmentInput,
    f1: P::FragmentInput,
    f2: P::FragmentInput,
    ow: int,
    oh: int,
    buf: Seq<u8>,
    i: int,
    j: int,
) -> Seq<u8> {
    let sx = sample_spec(i, ow);
    let sy = sample_spec(j, oh);
    let v = bary_v(g, sx, sy);
    let w = bary_w(g, sx, sy);
    if inside_spec(v, w) {
        let col = pixel_color(p, g, f0, f1, f2, ow, oh, i, j);
        let off = pixel_offset(ow, i, j);
        buf.update(off, channel_byte_spec(col.x.raw as int) as u8).update(
            off + 1,
            channel_byte_spec(col.y.raw as int) as u8,
        ).update(off + 2, channel_byte_spec(col.z.raw as int) as u8)
    } else {
        buf
    }
}

/// Effect of one bounding-box row: pixels `i_from` up to `i_to` of row
/// `j`, visited left to right.
pub open spec fn row_apply<P: PipelineTrait>(
    p: P,
    g: TriGeom,
    f0: P::FragmentInput,
    f1: P::FragmentInput,
    f2: P::FragmentInput,
    ow: int,
    oh: int,
    buf: Seq<u8>,
    j: int,
    i_from: int,
    i_to: int,
) -> Seq<u8>
    decreases i_to - i_from,
{
    if i_from >= i_to {
        buf
    } else {
        row_apply(p, g, f0, f1, f2, ow, oh, pixel_apply(p, g, f0, f1, f2, ow, oh, buf, i_from, j), j, i_from + 1, i_to)
    }
}

/// Effect of the whole bounding box: rows `j_from` up to `j_to`,
/// visited top to bottom.
pub open spec fn rows_apply<P: PipelineTrait>(
    p: P,
    g: TriGeom,
    f0: P::FragmentInput,
    f1: P::FragmentInput,
    f2: P::FragmentInput,
    ow: int,
    oh: int,
    buf: Seq<u8>,
    j_from: int,
    j_to: int,
    i_from: int,
    i_to: int,
) -> Seq<u8>
    decreases j_to - j_from,
{
    if j_from >= j_to {
        buf
    } else {
        rows_apply(
            p,
            g,
            f0,
            f1,
            f2,
            ow,
            oh,
            row_apply(p, g, f0, f1, f2, ow, oh, buf, j_from, i_from, i_to),
            j_from + 1,
            j_to,
            i_from,
            i_to,
        )
    }
}

/// Screen-space geometry of a triangle: each vertex run through the
/// vertex stage and perspective-divided. Meaningful only when none of
/// the three homogeneous `w` coordinates is zero.
pub open spec fn tri_screen<P: PipelineTrait>(p: P, t: [P::VertexInput; 3]) -> TriGeom {
    let va = p.vertex_spec(t@[0]);
    let vb = p.vertex_spec(t@[1]);
    let vc = p.vertex_spec(t@[2]);
    TriGeom {
        ax: fdiv(va.0.x.raw as int, va.0.w.raw as int),
        ay: fdiv(va.0.y.raw as int, va.0.w.raw as int),
        bx: fdiv(vb.0.x.raw as int, vb.0.w.raw as int),
        by: fdiv(vb.0.y.raw as int, vb.0.w.raw as int),
        cx: fdiv(vc.0.x.raw as int, vc.0.w.raw as int),
        cy: fdiv(vc.0.y.raw as int, vc.0.w.raw as int),
    }
}

/// Whether rasterizing triangle `t` writes the pixel `(i, j)`: the
/// triangle is non-degenerate, the pixel lies in its clamped bounding
/// box, and the sample point passes the coverage test.
pub open spec fn tri_covers<P: PipelineTrait>(
    p: P,
    t: [P::VertexInput; 3],
    vw: int,
    vh: int,
    ow: int,
    oh: int,
    i: int,
    j: int,
) -> bool {
    let va = p.vertex_spec(t@[0]);
    let vb = p.vertex_spec(t@[1]);
    let vc = p.vertex_spec(t@[2]);
    let g = tri_screen(p, t);
    &&& va.0.w.raw != 0
    &&& vb.0.w.raw != 0
    &&& vc.0.w.raw != 0
    &&& tri_den(g) != 0
    &&& bbox_px(min3(g.ax, g.bx, g.cx), vw) <= i < bbox_px(max3(g.ax, g.bx, g.cx), vw)
    &&& bbox_px(min3(g.ay, g.by, g.cy), vh) <= j < bbox_px(max3(g.ay, g.by, g.cy), vh)
    &&& inside_spec(
        bary_v(g, sample_spec(i, ow), sample_spec(j, oh)),
        bary_w(g, sample_spec(i, ow), sample_spec(j, oh)),
    )
}

/// The color triangle `t` shades the pixel `(i, j)` with.
pub open spec fn tri_pixel_color<P: PipelineTrait>(
    p: P,
    t: [P::VertexInput; 3],
    ow: int,
    oh: int,
    i: int,
    j: int,
) -> crate::geom::Vec4 {
    let va = p.vertex_spec(t@[0]);
    let vb = p.vertex_spec(t@[1]);
    let vc = p.vertex_spec(t@[2]);
    pixel_color(p, tri_screen(p, t), va.1, vb.1, vc.1, ow, oh, i, j)
}

/// Effect of one triangle on the buffer. A triangle with a zero
/// homogeneous coordinate or a zero barycentric denominator contributes
/// no pixels and leaves the buffer unchanged (the silent-skip behavior
/// for degenerate input).
pub open spec fn tri_apply<P: PipelineTrait>(
    p: P,
    t: [P::VertexInput; 3],
    vw: int,
    vh: int,
    ow: int,
    oh: int,
    buf: Seq<u8>,
) -> Seq<u8> {
    let va = p.vertex_spec(t@[0]);
    let vb = p.vertex_spec(t@[1]);
    let vc = p.vertex_spec(t@[2]);
    if va.0.w.raw == 0 || vb.0.w.raw == 0 || vc.0.w.raw == 0 {
        buf
    } else {
        let g = tri_screen(p, t);
        if tri_den(g) == 0 {
            buf
        } else {
            let min_x = bbox_px(min3(g.ax, g.bx, g.cx), vw);
            let max_x = bbox_px(max3(g.ax, g.bx, g.cx), vw);
            let min_y = bbox_px(min3(g.ay, g.by, g.cy), vh);
            let max_y = bbox_px(max3(g.ay, g.by, g.cy), vh);
            rows_apply(p, g, va.1, vb.1, vc.1, ow, oh, buf, min_y, max_y, min_x, max_x)
        }
    }
}

/// Effect of a triangle list on the buffer: triangles applied strictly
/// in input order, so later triangles overwrite earlier ones wherever
/// they cover the same pixel.
pub open spec fn rasterize_spec<P: PipelineTrait>(
    p: P,
    tris: Seq<[P::VertexInput; 3]>,
    vw: int,
    vh: int,
    ow: int,
    oh: int,
    buf: Seq<u8>,
) -> Seq<u8>
    decreases tris.len(),
{
    if tris.len() == 0 {
        buf
    } else {
        rasterize_spec(p, tris.drop_first(), vw, vh, ow, oh, tri_apply(p, tris[0], vw, vh, ow, oh, buf))
    }
}

/// The coverage test on fixed-point weights.
pub fn inside(v: Fx, w: Fx) -> (r: bool)
    ensures
        r == inside_spec(v.raw as int, w.raw as int),
{
    v.raw >= 0 && w.raw >= 0 && v.raw <= SCALE && w.raw <= SCALE && v.raw + w.raw <= SCALE
}

/// A color channel scaled to a byte.
pub fn channel_byte(c: Fx) -> (r: u8)
    ensures
        r as int == channel_byte_spec(c.raw as int),
{
    let p: i128 = c.raw as i128 * 255i128;
    let t: i128 = tdiv_wide(p, 65536i128);
    if t < 0 {
        0
    } else if t > 255 {
        255
    } else {
        t as u8
    }
}

/// Normalized sample coordinate of pixel index `i` in dimension `d`.
fn sample_coord(i: usize, d: usize) -> (r: Fx)
    requires
        1 <= d,
        i <= d,
    ensures
        r.raw as int == sample_spec(i as int, d as int),
        0 <= r.raw <= SCALE,
{
    let p: i128 = i as i128 * 65536i128;
    let q: i128 = tdiv_wide(p, d as i128);
    proof {
        lemma_tdiv_bound(p as int, d as int);
        assert((i as int) * (SCALE as int) <= (d as int) * (SCALE as int)) by (nonlinear_arith)
            requires i as int <= d as int, 0 < SCALE as int;
        lemma_tdiv_ordered(p as int, (d as int) * (SCALE as int), d as int);
        lemma_tdiv_exact(SCALE as int, d as int);
        assert((SCALE as int) * (d as int) == (d as int) * (SCALE as int)) by (nonlinear_arith);
    }
    Fx { raw: q as i64 }
}

/// A bounding-box edge in pixels.
fn px_bound(m: Fx, vp: usize) -> (r: usize)
    requires
        1 <= vp,
    ensures
        r as int == bbox_px(m.raw as int, vp as int),
        r <= vp,
{
    let c = m.clamp01();
    proof {
        assert(0 <= (c.raw as int) * (vp as int) <= 65536 * (vp as int)) by (nonlinear_arith)
            requires 0 <= c.raw as int <= 65536, 1 <= vp as int;
    }
    let p: i128 = c.raw as i128 * vp as i128;
    let q: i128 = tdiv_wide(p, 65536i128);
    proof {
        lemma_tdiv_bound(p as int, SCALE as int);
        lemma_tdiv_ordered(p as int, (vp as int) * (SCALE as int), SCALE as int);
        lemma_tdiv_exact(vp as int, SCALE as int);
        assert(65536 * (vp as int) == (vp as int) * (SCALE as int)) by (nonlinear_arith);
    }
    q as usize
}

/// A bounding-box edge always lands inside the viewport: between zero
/// and the viewport dimension.
pub proof fn lemma_bbox_px_range(m: int, vp: int)
    requires
        1 <= vp,
    ensures
        0 <= bbox_px(m, vp) <= vp,
{
    let c = fclamp01(m);
    assert(0 <= c * vp && c * vp <= 65536 * vp) by (nonlinear_arith)
        requires 0 <= c <= 65536, 1 <= vp;
    lemma_tdiv_bound(c * vp, SCALE as int);
    lemma_tdiv_ordered(c * vp, vp * (SCALE as int), SCALE as int);
    lemma_tdiv_exact(vp, SCALE as int);
    assert(65536 * vp == vp * (SCALE as int)) by (nonlinear_arith);
}

/// A bounding-box edge computed from a smaller coordinate never lies
/// right of one computed from a larger coordinate.
pub proof fn lemma_bbox_px_mono(m1: int, m2: int, vp: int)
    requires
        m1 <= m2,
        1 <= vp,
    ensures
        bbox_px(m1, vp) <= bbox_px(m2, vp),
{
    let c1 = fclamp01(m1);
    let c2 = fclamp01(m2);
    assert(0 <= c1 * vp && c1 * vp <= c2 * vp) by (nonlinear_arith)
        requires 0 <= c1 <= c2, 1 <= vp;
    lemma_tdiv_ordered(c1 * vp, c2 * vp, SCALE as int);
}

/// Rasterize one triangle into the buffer: the verified engine's inner
/// step, whose whole effect is [`tri_apply`].
#[verifier::loop_isolation(false)]
pub fn raster_triangle<P: PipelineTrait>(
    pipeline: &P,
    vertex_input: &[P::VertexInput; 3],
    output: &mut Vec<u8>,
    viewport_width: usize,
    viewport_height: usize,
    output_width: usize,
    output_height: usize,
)
    requires
        1 <= viewport_width <= output_width,
        1 <= viewport_height <= output_height,
        old(output).len() >= output_width * output_height * 4,
    ensures
        final(output)@ == tri_apply(
            *pipeline,
            *vertex_input,
            viewport_width as int,
            viewport_height as int,
            output_width as int,
            output_height as int,
            old(output)@,
        ),
        final(output)@.len() == old(output)@.len(),
{
    let ghost pre = output@;
    let (ca, f0) = pipeline.vertex(&vertex_input[0]);
    let (cb, f1) = pipeline.vertex(&vertex_input[1]);
    let (cc, f2) = pipeline.vertex(&vertex_input[2]);
    if ca.w.raw == 0 || cb.w.raw == 0 || cc.w.raw == 0 {
        return;
    }
    let ax = ca.x.over(ca.w);
    let ay = ca.y.over(ca.w);
    let bx = cb.x.over(cb.w);
    let by = cb.y.over(cb.w);
    let cx = cc.x.over(cc.w);
    let cy = cc.y.over(cc.w);
    let ghost g = TriGeom {
        ax: ax.raw as int,
        ay: ay.raw as int,
        bx: bx.raw as int,
        by: by.raw as int,
        cx: cx.raw as int,
        cy: cy.raw as int,
    };
    let v0x = bx.minus(ax);
    let v0y = by.minus(ay);
    let v1x = cx.minus(ax);
    let v1y = cy.minus(ay);
    let den = v0x.times(v1y).minus(v1x.times(v0y));
    if den.raw == 0 {
        return;
    }
    let min_x = px_bound(ax.min(bx.min(cx)), viewport_width);
    let max_x = px_bound(ax.max(bx.max(cx)), viewport_width);
    let min_y = px_bound(ay.min(by.min(cy)), viewport_height);
    let max_y = px_bound(ay.max(by.max(cy)), viewport_height);
    proof {
        lemma_bbox_px_mono(min3(g.ax, g.bx, g.cx), max3(g.ax, g.bx, g.cx), viewport_width as int);
        lemma_bbox_px_mono(min3(g.ay, g.by, g.cy), max3(g.ay, g.by, g.cy), viewport_height as int);
    }
    let ghost ow = output_width as int;
    let ghost oh = output_height as int;
    let mut j = min_y;
    while j < max_y
        invariant
            min_y <= j <= max_y,
            output@.len() == pre.len(),
            rows_apply(*pipeline, g, f0, f1, f2, ow, oh, output@, j as int, max_y as int, min_x as int, max_x as int)
                == rows_apply(*pipeline, g, f0, f1, f2, ow, oh, pre, min_y as int, max_y as int, min_x as int, max_x as int),
        decreases max_y as int - j as int,
    {
        let ghost row_entry = output@;
        let sy = sample_coord(j, output_height);
        let mut i = min_x;
        while i < max_x
            invariant
                min_x <= i <= max_x,
                output@.len() == pre.len(),
                row_apply(*pipeline, g, f0, f1, f2, ow, oh, output@, j as int, i as int, max_x as int)
                    == row_apply(*pipeline, g, f0, f1, f2, ow, oh, row_entry, j as int, min_x as int, max_x as int),
            decreases max_x as int - i as int,
        {
            let sx = sample_coord(i, output_width);
            let v2x = sx.minus(ax);
            let v2y = sy.minus(ay);
            let vnum = v2x.times(v1y).minus(v1x.times(v2y));
            let wnum = v0x.times(v2y).minus(v2x.times(v0y));
            let v = vnum.over(den);
            let w = wnum.over(den);
            let ghost before = output@;
            if inside(v, w) {
                let u = Fx::one().minus(v).minus(w);
                let fi = <P::FragmentInput as Interpolate>::interpolate(f0, f1, f2, u, v, w);
                let o = pipeline.fragment(&fi);
                proof {
                    assert((j as int) * ow + (i as int) < oh * ow) by (nonlinear_arith)
                        requires
                            0 <= (j as int) && (j as int) < oh,
                            0 <= (i as int) && (i as int) < ow,
                    ;
                    assert(oh * ow * 4 == ow * oh * 4) by (nonlinear_arith);
                }
                let off = (j * output_width + i) * 4;
                output[off] = channel_byte(o.x);
                output[off + 1] = channel_byte(o.y);
                output[off + 2] = channel_byte(o.z);
                proof {
                    assert(output@ == pixel_apply(*pipeline, g, f0, f1, f2, ow, oh, before, i as int, j as int));
                }
            } else {
                proof {
                    assert(output@ == pixel_apply(*pipeline, g, f0, f1, f2, ow, oh, before, i as int, j as int));
                }
            }
            proof {
                assert(row_apply(*pipeline, g, f0, f1, f2, ow, oh, before, j as int, i as int, max_x as int)
                    == row_apply(*pipeline, g, f0, f1, f2, ow, oh, output@, j as int, i as int + 1, max_x as int));
            }
            i = i + 1;
        }
        proof {
            assert(rows_apply(*pipeline, g, f0, f1, f2, ow, oh, row_entry, j as int, max_y as int, min_x as int, max_x as int)
                == rows_apply(*pipeline, g, f0, f1, f2, ow, oh, output@, j as int + 1, max_y as int, min_x as int, max_x as int));
        }
        j = j + 1;
    }
}

/// Rasterize a list of triangles into the output buffer.
///
/// The buffer is row-major with four bytes per pixel; for each covered
/// pixel the first three bytes hold the fragment color's first three
/// channels scaled to `[0, 255]`, and the fourth byte is never written.
/// The viewport dimensions size the bounding boxes, the output
/// dimensions size the buffer and the sample grid; requiring the
/// viewport to fit within the output keeps every write inside the
/// buffer.
pub fn rasterize<P: PipelineTrait>(
    pipeline: &P,
    vertex_input_data: &Vec<[P::VertexInput; 3]>,
    output: &mut Vec<u8>,
    viewport_width: usize,
    viewport_height: usize,
    output_width: usize,
    output_height: usize,
)
    requires
        1 <= viewport_width <= output_width,
        1 <= viewport_height <= output_height,
        old(output).len() >= output_width * output_height * 4,
    ensures
        final(output)@ == rasterize_spec(
            *pipeline,
            vertex_input_data@,
            viewport_width as int,
            viewport_height as int,
            output_width as int,
            output_height as int,
            old(output)@,
        ),
        final(output)@.len() == old(output)@.len(),
{
    let ghost buf0 = output@;
    let ghost s = vertex_input_data@;
    let n = vertex_input_data.len();
    let mut k: usize = 0;
    proof {
        assert(s.skip(0) =~= s);
    }
    while k < n
        invariant
            k <= n,
            n == s.len(),
            s == vertex_input_data@,
            output@.len() == buf0.len(),
            buf0.len() >= output_width * output_height * 4,
            1 <= viewport_width <= output_width,
            1 <= viewport_height <= output_height,
            rasterize_spec(
                *pipeline,
                s.skip(k as int),
                viewport_width as int,
                viewport_height as int,
                output_width as int,
                output_height as int,
                output@,
            ) == rasterize_spec(
                *pipeline,
                s,
                viewport_width as int,
                viewport_height as int,
                output_width as int,
                output_height as int,
                buf0,
            ),
        decreases n as int - k as int,
    {
        let ghost prev = output@;
        raster_triangle(
            pipeline,
            &vertex_input_data[k],
            output,
            viewport_width,
            viewport_height,
            output_width,
            output_height,
        );
        proof {
            assert(s.skip(k as int).drop_first() =~= s.skip(k as int + 1));
            assert(s.skip(k as int)[0] == s[k as int]);
            assert(s.skip(k as int).len() > 0);
        }
        k = k + 1;
    }
    proof {
        assert(s.skip(n as int).len() == 0);
    }
}

} // verus!
