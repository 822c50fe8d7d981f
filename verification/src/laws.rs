//! Laws of the engine, stated and proved over the same spec functions
//! that the executable contracts use.

use vstd::prelude::*;
use vstd::arithmetic::div_mod::{lemma_mod_multiples_vanish, lemma_mod_multiples_basic};
use crate::fixed::{SCALE, fsub, fclamp01, lemma_tdiv_exact};
use crate::pipeline::PipelineTrait;
use crate::raster::{
    inside_spec, channel_byte_spec, pixel_offset, pixel_apply, pixel_color, row_apply, rows_apply,
    tri_apply, tri_screen, tri_covers, tri_pixel_color, rasterize_spec, sample_spec, bary_v,
    bary_w, tri_den, bbox_px, min3, max3, TriGeom, lemma_bbox_px_range, lemma_bbox_px_mono,
};

verus! {

/// A sample point passes the coverage test exactly when all three
/// barycentric weights — the two computed ones and the implied first
/// weight — are nonnegative; and whenever it passes, the three weights
/// handed to interpolation are nonnegative and sum to one exactly.
pub proof fn lemma_inside_three_bounds(v: int, w: int)
    ensures
        inside_spec(v, w) <==> (0 <= v && 0 <= w && 0 <= SCALE as int - v - w),
        inside_spec(v, w) ==> {
            let u = fsub(fsub(SCALE as int, v), w);
            0 <= u && u + v + w == SCALE as int
        },
{
}

/// Channel endpoints of the byte mapping: a full channel becomes byte
/// 255 and a zero channel becomes byte 0.
pub proof fn lemma_channel_byte_endpoints()
    ensures
        channel_byte_spec(SCALE as int) == 255,
        channel_byte_spec(0) == 0,
{
    lemma_tdiv_exact(255, SCALE as int);
    assert((SCALE as int) * 255 == 255 * (SCALE as int)) by (nonlinear_arith);
    assert(0 * 255 == 0 * (SCALE as int)) by (nonlinear_arith);
    lemma_tdiv_exact(0, SCALE as int);
}

/// Triangles are painted strictly in list order: rendering `[t0, t1]`
/// is the effect of `t1` applied to the effect of `t0`, so wherever
/// both cover a pixel the later triangle's color stands.
pub proof fn lemma_painters_order<P: PipelineTrait>(
    p: P,
    t0: [P::VertexInput; 3],
    t1: [P::VertexInput; 3],
    vw: int,
    vh: int,
    ow: int,
    oh: int,
    buf: Seq<u8>,
)
    ensures
        rasterize_spec(p, seq![t0, t1], vw, vh, ow, oh, buf) == tri_apply(
            p,
            t1,
            vw,
            vh,
            ow,
            oh,
            tri_apply(p, t0, vw, vh, ow, oh, buf),
        ),
{
    let s = seq![t0, t1];
    let b1 = tri_apply(p, t0, vw, vh, ow, oh, buf);
    let b2 = tri_apply(p, t1, vw, vh, ow, oh, b1);
    assert(s.drop_first() =~= seq![t1]);
    assert(seq![t1].drop_first() =~= Seq::<[P::VertexInput; 3]>::empty());
    assert(rasterize_spec(p, seq![t1], vw, vh, ow, oh, b1) == rasterize_spec(
        p,
        Seq::<[P::VertexInput; 3]>::empty(),
        vw,
        vh,
        ow,
        oh,
        b2,
    ));
}

/// A bounding box with an empty pixel row range leaves the buffer
/// untouched.
proof fn lemma_rows_empty<P: PipelineTrait>(
    p: P,
    g: TriGeom,
    f0: P::FragmentInput,
    f1: P::FragmentInput,
    f2: P::FragmentInput,
    ow: int,
    oh: int,
    buf: Seq<u8>,
    j_from: int,
    j_to: int,
    i_from: int,
    i_to: int,
)
    requires
        i_from >= i_to,
    ensures
        rows_apply(p, g, f0, f1, f2, ow, oh, buf, j_from, j_to, i_from, i_to) == buf,
    decreases j_to - j_from,
{
    if j_from < j_to {
        assert(row_apply(p, g, f0, f1, f2, ow, oh, buf, j_from, i_from, i_to) == buf);
        lemma_rows_empty(p, g, f0, f1, f2, ow, oh, buf, j_from + 1, j_to, i_from, i_to);
    }
}

/// Screen geometry whose vertices all lie on one far side of the unit
/// screen square: all left of 0, all right of 1, all above 0 or all
/// below 1.
pub open spec fn one_side_offscreen(g: TriGeom) -> bool {
    ||| (g.ax >= SCALE as int && g.bx >= SCALE as int && g.cx >= SCALE as int)
    ||| (g.ax <= 0 && g.bx <= 0 && g.cx <= 0)
    ||| (g.ay >= SCALE as int && g.by >= SCALE as int && g.cy >= SCALE as int)
    ||| (g.ay <= 0 && g.by <= 0 && g.cy <= 0)
}

/// A triangle whose projected vertices all lie on one far side of the
/// unit screen square has an empty clamped bounding box and writes
/// nothing.
pub proof fn lemma_offscreen_no_writes<P: PipelineTrait>(
    p: P,
    t: [P::VertexInput; 3],
    vw: int,
    vh: int,
    ow: int,
    oh: int,
    buf: Seq<u8>,
)
    requires
        1 <= vw,
        1 <= vh,
        one_side_offscreen(tri_screen(p, t)),
    ensures
        tri_apply(p, t, vw, vh, ow, oh, buf) == buf,
{
    let va = p.vertex_spec(t@[0]);
    let vb = p.vertex_spec(t@[1]);
    let vc = p.vertex_spec(t@[2]);
    if va.0.w.raw == 0 || vb.0.w.raw == 0 || vc.0.w.raw == 0 {
    } else {
        let g = tri_screen(p, t);
        if tri_den(g) == 0 {
        } else {
            let f0 = va.1;
            let f1 = vb.1;
            let f2 = vc.1;
            let min_x = bbox_px(min3(g.ax, g.bx, g.cx), vw);
            let max_x = bbox_px(max3(g.ax, g.bx, g.cx), vw);
            let min_y = bbox_px(min3(g.ay, g.by, g.cy), vh);
            let max_y = bbox_px(max3(g.ay, g.by, g.cy), vh);
            if g.ax >= SCALE as int && g.bx >= SCALE as int && g.cx >= SCALE as int {
                assert(fclamp01(min3(g.ax, g.bx, g.cx)) == SCALE as int);
                assert(fclamp01(max3(g.ax, g.bx, g.cx)) == SCALE as int);
                lemma_tdiv_exact(vw, SCALE as int);
                assert((SCALE as int) * vw == vw * (SCALE as int)) by (nonlinear_arith);
                assert(min_x == vw && max_x == vw);
                lemma_rows_empty(p, g, f0, f1, f2, ow, oh, buf, min_y, max_y, min_x, max_x);
            } else if g.ax <= 0 && g.bx <= 0 && g.cx <= 0 {
                assert(fclamp01(min3(g.ax, g.bx, g.cx)) == 0);
                assert(fclamp01(max3(g.ax, g.bx, g.cx)) == 0);
                assert(0 * vw == 0) by (nonlinear_arith);
                assert(min_x == 0 && max_x == 0);
                lemma_rows_empty(p, g, f0, f1, f2, ow, oh, buf, min_y, max_y, min_x, max_x);
            } else if g.ay >= SCALE as int && g.by >= SCALE as int && g.cy >= SCALE as int {
                assert(fclamp01(min3(g.ay, g.by, g.cy)) == SCALE as int);
                assert(fclamp01(max3(g.ay, g.by, g.cy)) == SCALE as int);
                lemma_tdiv_exact(vh, SCALE as int);
                assert((SCALE as int) * vh == vh * (SCALE as int)) by (nonlinear_arith);
                assert(min_y == vh && max_y == vh);
                assert(rows_apply(p, g, f0, f1, f2, ow, oh, buf, min_y, max_y, min_x, max_x) == buf);
            } else {
                assert(fclamp01(min3(g.ay, g.by, g.cy)) == 0);
                assert(fclamp01(max3(g.ay, g.by, g.cy)) == 0);
                assert(0 * vh == 0) by (nonlinear_arith);
                assert(min_y == 0 && max_y == 0);
                assert(rows_apply(p, g, f0, f1, f2, ow, oh, buf, min_y, max_y, min_x, max_x) == buf);
            }
        }
    }
}

/// The pixel offset is a nonnegative multiple of four and its three
/// written bytes stay inside a buffer of `ow * oh * 4` bytes.
proof fn lemma_offset_in_range(ow: int, oh: int, i: int, j: int)
    requires
        1 <= ow,
        1 <= oh,
        0 <= i < ow,
        0 <= j < oh,
    ensures
        0 <= pixel_offset(ow, i, j),
        pixel_offset(ow, i, j) + 2 < ow * oh * 4,
        pixel_offset(ow, i, j) % 4 == 0,
{
    assert(0 <= j * ow + i && (j * ow + i) < oh * ow) by (nonlinear_arith)
        requires
            0 <= i && i < ow,
            0 <= j && j < oh,
    ;
    assert(oh * ow * 4 == ow * oh * 4) by (nonlinear_arith);
    lemma_mod_multiples_basic(j * ow + i, 4);
    assert((j * ow + i) * 4 == 4 * (j * ow + i)) by (nonlinear_arith);
}

/// A byte at index `m` with `m % 4 == 3` is never one of the three
/// bytes a pixel write touches.
proof fn lemma_alpha_index_differs(ow: int, i: int, j: int, m: int, k: int)
    requires
        pixel_offset(ow, i, j) % 4 == 0,
        m % 4 == 3,
        0 <= k < 3,
    ensures
        m != pixel_offset(ow, i, j) + k,
{
    let x = (j * ow + i);
    lemma_mod_multiples_vanish(x, k, 4);
    assert(pixel_offset(ow, i, j) + k == 4 * x + k);
    assert((4 * x + k) % 4 == k % 4);
}

/// One pixel visit preserves the buffer's length and every byte other
/// than the three it may write.
proof fn lemma_pixel_frame<P: PipelineTrait>(
    p: P,
    g: TriGeom,
    f0: P::FragmentInput,
    f1: P::FragmentInput,
    f2: P::FragmentInput,
    ow: int,
    oh: int,
    buf: Seq<u8>,
    i: int,
    j: int,
    m: int,
)
    requires
        1 <= ow,
        1 <= oh,
        0 <= i < ow,
        0 <= j < oh,
        buf.len() >= ow * oh * 4,
        0 <= m < buf.len(),
        m % 4 == 3 || m < pixel_offset(ow, i, j) || m >= pixel_offset(ow, i + 1, j),
    ensures
        pixel_apply(p, g, f0, f1, f2, ow, oh, buf, i, j).len() == buf.len(),
        pixel_apply(p, g, f0, f1, f2, ow, oh, buf, i, j)[m] == buf[m],
{
    lemma_offset_in_range(ow, oh, i, j);
    let off = pixel_offset(ow, i, j);
    assert(pixel_offset(ow, i + 1, j) == off + 4);
    if m % 4 == 3 {
        lemma_alpha_index_differs(ow, i, j, m, 0);
        lemma_alpha_index_differs(ow, i, j, m, 1);
        lemma_alpha_index_differs(ow, i, j, m, 2);
    }
}

/// Length preservation for one pixel visit.
proof fn lemma_pixel_len<P: PipelineTrait>(
    p: P,
    g: TriGeom,
    f0: P::FragmentInput,
    f1: P::FragmentInput,
    f2: P::FragmentInput,
    ow: int,
    oh: int,
    buf: Seq<u8>,
    i: int,
    j: int,
)
    requires
        1 <= ow,
        1 <= oh,
        0 <= i < ow,
        0 <= j < oh,
        buf.len() >= ow * oh * 4,
    ensures
        pixel_apply(p, g, f0, f1, f2, ow, oh, buf, i, j).len() == buf.len(),
{
    lemma_offset_in_range(ow, oh, i, j);
}

/// One row visit preserves every byte left of its range, right of its
/// range, or on the untouched fourth channel.
proof fn lemma_row_frame<P: PipelineTrait>(
    p: P,
    g: TriGeom,
    f0: P::FragmentInput,
    f1: P::FragmentInput,
    f2: P::FragmentInput,
    ow: int,
    oh: int,
    buf: Seq<u8>,
    j: int,
    i_from: int,
    i_to: int,
    m: int,
)
    requires
        1 <= ow,
        1 <= oh,
        0 <= i_from <= i_to <= ow,
        0 <= j < oh,
        buf.len() >= ow * oh * 4,
        0 <= m < buf.len(),
        m % 4 == 3 || m < pixel_offset(ow, i_from, j) || m >= pixel_offset(ow, i_to, j),
    ensures
        row_apply(p, g, f0, f1, f2, ow, oh, buf, j, i_from, i_to).len() == buf.len(),
        row_apply(p, g, f0, f1, f2, ow, oh, buf, j, i_from, i_to)[m] == buf[m],
    decreases i_to - i_from,
{
    if i_from < i_to {
        lemma_pixel_frame(p, g, f0, f1, f2, ow, oh, buf, i_from, j, m);
        let buf1 = pixel_apply(p, g, f0, f1, f2, ow, oh, buf, i_from, j);
        lemma_row_frame(p, g, f0, f1, f2, ow, oh, buf1, j, i_from + 1, i_to, m);
    }
}

/// Length preservation for one row visit.
proof fn lemma_row_len<P: PipelineTrait>(
    p: P,
    g: TriGeom,
    f0: P::FragmentInput,
    f1: P::FragmentInput,
    f2: P::FragmentInput,
    ow: int,
    oh: int,
    buf: Seq<u8>,
    j: int,
    i_from: int,
    i_to: int,
)
    requires
        1 <= ow,
        1 <= oh,
        0 <= i_from <= i_to <= ow,
        0 <= j < oh,
        buf.len() >= ow * oh * 4,
    ensures
        row_apply(p, g, f0, f1, f2, ow, oh, buf, j, i_from, i_to).len() == buf.len(),
    decreases i_to - i_from,
{
    if i_from < i_to {
        lemma_pixel_len(p, g, f0, f1, f2, ow, oh, buf, i_from, j);
        let buf1 = pixel_apply(p, g, f0, f1, f2, ow, oh, buf, i_from, j);
        lemma_row_len(p, g, f0, f1, f2, ow, oh, buf1, j, i_from + 1, i_to);
    }
}

/// A sweep of rows preserves every byte above the sweep, below the
/// sweep, or on the untouched fourth channel.
proof fn lemma_rows_frame<P: PipelineTrait>(
    p: P,
    g: TriGeom,
    f0: P::FragmentInput,
    f1: P::FragmentInput,
    f2: P::FragmentInput,
    ow: int,
    oh: int,
    buf: Seq<u8>,
    j_from: int,
    j_to: int,
    i_from: int,
    i_to: int,
    m: int,
)
    requires
        1 <= ow,
        1 <= oh,
        0 <= i_from <= i_to <= ow,
        0 <= j_from <= j_to <= oh,
        buf.len() >= ow * oh * 4,
        0 <= m < buf.len(),
        m % 4 == 3 || m < j_from * ow * 4 || m >= j_to * ow * 4,
    ensures
        rows_apply(p, g, f0, f1, f2, ow, oh, buf, j_from, j_to, i_from, i_to).len() == buf.len(),
        rows_apply(p, g, f0, f1, f2, ow, oh, buf, j_from, j_to, i_from, i_to)[m] == buf[m],
    decreases j_to - j_from,
{
    if j_from < j_to {
        assert(j_from * ow <= j_from * ow + i_from) by (nonlinear_arith)
            requires 0 <= i_from;
        assert(j_to * ow >= (j_from + 1) * ow && (j_from + 1) * ow == j_from * ow + ow)
            by (nonlinear_arith)
            requires j_from + 1 <= j_to, 1 <= ow;
        lemma_row_frame(p, g, f0, f1, f2, ow, oh, buf, j_from, i_from, i_to, m);
        let buf1 = row_apply(p, g, f0, f1, f2, ow, oh, buf, j_from, i_from, i_to);
        assert(j_from * ow * 4 <= (j_from + 1) * ow * 4) by (nonlinear_arith)
            requires 1 <= ow;
        lemma_rows_frame(p, g, f0, f1, f2, ow, oh, buf1, j_from + 1, j_to, i_from, i_to, m);
    }
}

/// Length preservation for a sweep of rows.
proof fn lemma_rows_len<P: PipelineTrait>(
    p: P,
    g: TriGeom,
    f0: P::FragmentInput,
    f1: P::FragmentInput,
    f2: P::FragmentInput,
    ow: int,
    oh: int,
    buf: Seq<u8>,
    j_from: int,
    j_to: int,
    i_from: int,
    i_to: int,
)
    requires
        1 <= ow,
        1 <= oh,
        0 <= i_from <= i_to <= ow,
        0 <= j_from <= j_to <= oh,
        buf.len() >= ow * oh * 4,
    ensures
        rows_apply(p, g, f0, f1, f2, ow, oh, buf, j_from, j_to, i_from, i_to).len() == buf.len(),
    decreases j_to - j_from,
{
    if j_from < j_to {
        lemma_row_len(p, g, f0, f1, f2, ow, oh, buf, j_from, i_from, i_to);
        let buf1 = row_apply(p, g, f0, f1, f2, ow, oh, buf, j_from, i_from, i_to);
        lemma_rows_len(p, g, f0, f1, f2, ow, oh, buf1, j_from + 1, j_to, i_from, i_to);
    }
}

/// Rasterizing one triangle never changes the buffer's length.
pub proof fn lemma_tri_len<P: PipelineTrait>(
    p: P,
    t: [P::VertexInput; 3],
    vw: int,
    vh: int,
    ow: int,
    oh: int,
    buf: Seq<u8>,
)
    requires
        1 <= vw <= ow,
        1 <= vh <= oh,
        buf.len() >= ow * oh * 4,
    ensures
        tri_apply(p, t, vw, vh, ow, oh, buf).len() == buf.len(),
{
    let va = p.vertex_spec(t@[0]);
    let vb = p.vertex_spec(t@[1]);
    let vc = p.vertex_spec(t@[2]);
    if va.0.w.raw == 0 || vb.0.w.raw == 0 || vc.0.w.raw == 0 {
    } else {
        let g = tri_screen(p, t);
        if tri_den(g) == 0 {
        } else {
            lemma_bbox_px_range(min3(g.ax, g.bx, g.cx), vw);
            lemma_bbox_px_range(max3(g.ax, g.bx, g.cx), vw);
            lemma_bbox_px_range(min3(g.ay, g.by, g.cy), vh);
            lemma_bbox_px_range(max3(g.ay, g.by, g.cy), vh);
            lemma_bbox_px_mono(min3(g.ax, g.bx, g.cx), max3(g.ax, g.bx, g.cx), vw);
            lemma_bbox_px_mono(min3(g.ay, g.by, g.cy), max3(g.ay, g.by, g.cy), vh);
            lemma_rows_len(
                p,
                g,
                va.1,
                vb.1,
                vc.1,
                ow,
                oh,
                buf,
                bbox_px(min3(g.ay, g.by, g.cy), vh),
                bbox_px(max3(g.ay, g.by, g.cy), vh),
                bbox_px(min3(g.ax, g.bx, g.cx), vw),
                bbox_px(max3(g.ax, g.bx, g.cx), vw),
            );
        }
    }
}

/// A visited pixel that passes the coverage test ends the pixel visit
/// holding the shaded color's three channel bytes.
proof fn lemma_pixel_writes<P: PipelineTrait>(
    p: P,
    g: TriGeom,
    f0: P::FragmentInput,
    f1: P::FragmentInput,
    f2: P::FragmentInput,
    ow: int,
    oh: int,
    buf: Seq<u8>,
    i: int,
    j: int,
)
    requires
        1 <= ow,
        1 <= oh,
        0 <= i < ow,
        0 <= j < oh,
        buf.len() >= ow * oh * 4,
        inside_spec(
            bary_v(g, sample_spec(i, ow), sample_spec(j, oh)),
            bary_w(g, sample_spec(i, ow), sample_spec(j, oh)),
        ),
    ensures
        pixel_apply(p, g, f0, f1, f2, ow, oh, buf, i, j)[pixel_offset(ow, i, j)]
            == channel_byte_spec(pixel_color(p, g, f0, f1, f2, ow, oh, i, j).x.raw as int) as u8,
        pixel_apply(p, g, f0, f1, f2, ow, oh, buf, i, j)[pixel_offset(ow, i, j) + 1]
            == channel_byte_spec(pixel_color(p, g, f0, f1, f2, ow, oh, i, j).y.raw as int) as u8,
        pixel_apply(p, g, f0, f1, f2, ow, oh, buf, i, j)[pixel_offset(ow, i, j) + 2]
            == channel_byte_spec(pixel_color(p, g, f0, f1, f2, ow, oh, i, j).z.raw as int) as u8,
{
    lemma_offset_in_range(ow, oh, i, j);
}

/// After a row visit, a covered pixel of that row holds its shaded
/// color's three channel bytes.
proof fn lemma_row_writes<P: PipelineTrait>(
    p: P,
    g: TriGeom,
    f0: P::FragmentInput,
    f1: P::FragmentInput,
    f2: P::FragmentInput,
    ow: int,
    oh: int,
    buf: Seq<u8>,
    j: int,
    i_from: int,
    i_to: int,
    i: int,
)
    requires
        1 <= ow,
        1 <= oh,
        0 <= i_from <= i < i_to <= ow,
        0 <= j < oh,
        buf.len() >= ow * oh * 4,
        inside_spec(
            bary_v(g, sample_spec(i, ow), sample_spec(j, oh)),
            bary_w(g, sample_spec(i, ow), sample_spec(j, oh)),
        ),
    ensures
        forall|k: int|
            0 <= k < 3 ==> row_apply(p, g, f0, f1, f2, ow, oh, buf, j, i_from, i_to)[pixel_offset(
                ow,
                i,
                j,
            ) + k] == channel_byte_spec(
                spec_color_channel(pixel_color(p, g, f0, f1, f2, ow, oh, i, j), k),
            ) as u8,
    decreases i_to - i_from,
{
    lemma_offset_in_range(ow, oh, i, j);
    if i == i_from {
        lemma_pixel_writes(p, g, f0, f1, f2, ow, oh, buf, i, j);
        lemma_pixel_len(p, g, f0, f1, f2, ow, oh, buf, i, j);
        let buf1 = pixel_apply(p, g, f0, f1, f2, ow, oh, buf, i, j);
        assert forall|k: int| 0 <= k < 3 implies row_apply(
            p,
            g,
            f0,
            f1,
            f2,
            ow,
            oh,
            buf,
            j,
            i_from,
            i_to,
        )[pixel_offset(ow, i, j) + k] == channel_byte_spec(
            spec_color_channel(pixel_color(p, g, f0, f1, f2, ow, oh, i, j), k),
        ) as u8 by {
            lemma_row_frame(
                p,
                g,
                f0,
                f1,
                f2,
                ow,
                oh,
                buf1,
                j,
                i_from + 1,
                i_to,
                pixel_offset(ow, i, j) + k,
            );
        }
    } else {
        lemma_pixel_len(p, g, f0, f1, f2, ow, oh, buf, i_from, j);
        let buf1 = pixel_apply(p, g, f0, f1, f2, ow, oh, buf, i_from, j);
        lemma_row_writes(p, g, f0, f1, f2, ow, oh, buf1, j, i_from + 1, i_to, i);
    }
}

/// A color channel of a four-component color picked by index: 0 is x,
/// 1 is y, 2 is z.
pub open spec fn spec_color_channel(c: crate::geom::Vec4, k: int) -> int {
    if k == 0 {
        c.x.raw as int
    } else if k == 1 {
        c.y.raw as int
    } else {
        c.z.raw as int
    }
}

/// After a sweep of rows, a covered pixel holds its shaded color's
/// three channel bytes.
proof fn lemma_rows_writes<P: PipelineTrait>(
    p: P,
    g: TriGeom,
    f0: P::FragmentInput,
    f1: P::FragmentInput,
    f2: P::FragmentInput,
    ow: int,
    oh: int,
    buf: Seq<u8>,
    j_from: int,
    j_to: int,
    i_from: int,
    i_to: int,
    i: int,
    j: int,
)
    requires
        1 <= ow,
        1 <= oh,
        0 <= i_from <= i < i_to <= ow,
        0 <= j_from <= j < j_to <= oh,
        buf.len() >= ow * oh * 4,
        inside_spec(
            bary_v(g, sample_spec(i, ow), sample_spec(j, oh)),
            bary_w(g, sample_spec(i, ow), sample_spec(j, oh)),
        ),
    ensures
        forall|k: int|
            0 <= k < 3 ==> rows_apply(p, g, f0, f1, f2, ow, oh, buf, j_from, j_to, i_from, i_to)[
                pixel_offset(ow, i, j) + k] == channel_byte_spec(
                spec_color_channel(pixel_color(p, g, f0, f1, f2, ow, oh, i, j), k),
            ) as u8,
    decreases j_to - j_from,
{
    lemma_offset_in_range(ow, oh, i, j);
    if j == j_from {
        lemma_row_writes(p, g, f0, f1, f2, ow, oh, buf, j, i_from, i_to, i);
        lemma_row_len(p, g, f0, f1, f2, ow, oh, buf, j, i_from, i_to);
        let buf1 = row_apply(p, g, f0, f1, f2, ow, oh, buf, j, i_from, i_to);
        assert((j + 1) * ow * 4 == (j * ow + ow) * 4) by (nonlinear_arith);
        assert forall|k: int| 0 <= k < 3 implies rows_apply(
            p,
            g,
            f0,
            f1,
            f2,
            ow,
            oh,
            buf,
            j_from,
            j_to,
            i_from,
            i_to,
        )[pixel_offset(ow, i, j) + k] == channel_byte_spec(
            spec_color_channel(pixel_color(p, g, f0, f1, f2, ow, oh, i, j), k),
        ) as u8 by {
            lemma_rows_frame(
                p,
                g,
                f0,
                f1,
                f2,
                ow,
                oh,
                buf1,
                j + 1,
                j_to,
                i_from,
                i_to,
                pixel_offset(ow, i, j) + k,
            );
        }
    } else {
        assert(j_from * ow + i_to <= (j_from + 1) * ow && (j_from + 1) * ow <= j * ow)
            by (nonlinear_arith)
            requires
                i_to <= ow,
                j_from + 1 <= j,
                1 <= ow,
        ;
        lemma_row_frame(
            p,
            g,
            f0,
            f1,
            f2,
            ow,
            oh,
            buf,
            j_from,
            i_from,
            i_to,
            pixel_offset(ow, i, j),
        );
        lemma_row_frame(
            p,
            g,
            f0,
            f1,
            f2,
            ow,
            oh,
            buf,
            j_from,
            i_from,
            i_to,
            pixel_offset(ow, i, j) + 1,
        );
        lemma_row_frame(
            p,
            g,
            f0,
            f1,
            f2,
            ow,
            oh,
            buf,
            j_from,
            i_from,
            i_to,
            pixel_offset(ow, i, j) + 2,
        );
        lemma_row_len(p, g, f0, f1, f2, ow, oh, buf, j_from, i_from, i_to);
        let buf1 = row_apply(p, g, f0, f1, f2, ow, oh, buf, j_from, i_from, i_to);
        lemma_rows_writes(p, g, f0, f1, f2, ow, oh, buf1, j_from + 1, j_to, i_from, i_to, i, j);
    }
}

/// Rasterizing a triangle writes every pixel it covers: the pixel's
/// three bytes end up holding the triangle's shaded color there,
/// whatever the buffer held before.
pub proof fn lemma_tri_covered_pixel<P: PipelineTrait>(
    p: P,
    t: [P::VertexInput; 3],
    vw: int,
    vh: int,
    ow: int,
    oh: int,
    buf: Seq<u8>,
    i: int,
    j: int,
)
    requires
        1 <= vw <= ow,
        1 <= vh <= oh,
        buf.len() >= ow * oh * 4,
        tri_covers(p, t, vw, vh, ow, oh, i, j),
    ensures
        forall|k: int|
            0 <= k < 3 ==> tri_apply(p, t, vw, vh, ow, oh, buf)[pixel_offset(ow, i, j) + k]
                == channel_byte_spec(spec_color_channel(tri_pixel_color(p, t, ow, oh, i, j), k))
                as u8,
{
    let va = p.vertex_spec(t@[0]);
    let vb = p.vertex_spec(t@[1]);
    let vc = p.vertex_spec(t@[2]);
    let g = tri_screen(p, t);
    let min_x = bbox_px(min3(g.ax, g.bx, g.cx), vw);
    let max_x = bbox_px(max3(g.ax, g.bx, g.cx), vw);
    let min_y = bbox_px(min3(g.ay, g.by, g.cy), vh);
    let max_y = bbox_px(max3(g.ay, g.by, g.cy), vh);
    lemma_bbox_px_range(min3(g.ax, g.bx, g.cx), vw);
    lemma_bbox_px_range(max3(g.ax, g.bx, g.cx), vw);
    lemma_bbox_px_range(min3(g.ay, g.by, g.cy), vh);
    lemma_bbox_px_range(max3(g.ay, g.by, g.cy), vh);
    lemma_rows_writes(
        p,
        g,
        va.1,
        vb.1,
        vc.1,
        ow,
        oh,
        buf,
        min_y,
        max_y,
        min_x,
        max_x,
        i,
        j,
    );
}

/// Order-dependent overwrite: when the second of two triangles covers
/// a pixel, rendering the pair leaves that pixel holding the second
/// triangle's color there — whatever the first triangle drew.
pub proof fn lemma_overwrite_order<P: PipelineTrait>(
    p: P,
    t0: [P::VertexInput; 3],
    t1: [P::VertexInput; 3],
    vw: int,
    vh: int,
    ow: int,
    oh: int,
    buf: Seq<u8>,
    i: int,
    j: int,
)
    requires
        1 <= vw <= ow,
        1 <= vh <= oh,
        buf.len() >= ow * oh * 4,
        tri_covers(p, t1, vw, vh, ow, oh, i, j),
    ensures
        forall|k: int|
            0 <= k < 3 ==> rasterize_spec(p, seq![t0, t1], vw, vh, ow, oh, buf)[pixel_offset(
                ow,
                i,
                j,
            ) + k] == channel_byte_spec(
                spec_color_channel(tri_pixel_color(p, t1, ow, oh, i, j), k),
            ) as u8,
{
    lemma_painters_order(p, t0, t1, vw, vh, ow, oh, buf);
    lemma_tri_len(p, t0, vw, vh, ow, oh, buf);
    lemma_tri_covered_pixel(p, t1, vw, vh, ow, oh, tri_apply(p, t0, vw, vh, ow, oh, buf), i, j);
}

/// One triangle never touches a byte at index `3 mod 4` — the fourth
/// channel of every pixel.
proof fn lemma_tri_alpha<P: PipelineTrait>(
    p: P,
    t: [P::VertexInput; 3],
    vw: int,
    vh: int,
    ow: int,
    oh: int,
    buf: Seq<u8>,
    m: int,
)
    requires
        1 <= vw <= ow,
        1 <= vh <= oh,
        buf.len() >= ow * oh * 4,
        0 <= m < buf.len(),
        m % 4 == 3,
    ensures
        tri_apply(p, t, vw, vh, ow, oh, buf).len() == buf.len(),
        tri_apply(p, t, vw, vh, ow, oh, buf)[m] == buf[m],
{
    let va = p.vertex_spec(t@[0]);
    let vb = p.vertex_spec(t@[1]);
    let vc = p.vertex_spec(t@[2]);
    if va.0.w.raw == 0 || vb.0.w.raw == 0 || vc.0.w.raw == 0 {
    } else {
        let g = tri_screen(p, t);
        if tri_den(g) == 0 {
        } else {
            lemma_bbox_px_range(min3(g.ax, g.bx, g.cx), vw);
            lemma_bbox_px_range(max3(g.ax, g.bx, g.cx), vw);
            lemma_bbox_px_range(min3(g.ay, g.by, g.cy), vh);
            lemma_bbox_px_range(max3(g.ay, g.by, g.cy), vh);
            lemma_bbox_px_mono(min3(g.ax, g.bx, g.cx), max3(g.ax, g.bx, g.cx), vw);
            lemma_bbox_px_mono(min3(g.ay, g.by, g.cy), max3(g.ay, g.by, g.cy), vh);
            lemma_rows_frame(
                p,
                g,
                va.1,
                vb.1,
                vc.1,
                ow,
                oh,
                buf,
                bbox_px(min3(g.ay, g.by, g.cy), vh),
                bbox_px(max3(g.ay, g.by, g.cy), vh),
                bbox_px(min3(g.ax, g.bx, g.cx), vw),
                bbox_px(max3(g.ax, g.bx, g.cx), vw),
                m,
            );
        }
    }
}

/// The fourth byte of every pixel is never written: whole-frame
/// rasterization preserves every byte at index `3 mod 4`.
pub proof fn lemma_alpha_untouched<P: PipelineTrait>(
    p: P,
    tris: Seq<[P::VertexInput; 3]>,
    vw: int,
    vh: int,
    ow: int,
    oh: int,
    buf: Seq<u8>,
    m: int,
)
    requires
        1 <= vw <= ow,
        1 <= vh <= oh,
        buf.len() >= ow * oh * 4,
        0 <= m < buf.len(),
        m % 4 == 3,
    ensures
        rasterize_spec(p, tris, vw, vh, ow, oh, buf).len() == buf.len(),
        rasterize_spec(p, tris, vw, vh, ow, oh, buf)[m] == buf[m],
    decreases tris.len(),
{
    if tris.len() > 0 {
        lemma_tri_alpha(p, tris[0], vw, vh, ow, oh, buf, m);
        let buf1 = tri_apply(p, tris[0], vw, vh, ow, oh, buf);
        lemma_alpha_untouched(p, tris.drop_first(), vw, vh, ow, oh, buf1, m);
    }
}

} // verus!
