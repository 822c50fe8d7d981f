//! Attribute interpolation: how a per-vertex attribute type combines
//! three corner values with three barycentric weights into one value.

use vstd::prelude::*;
use crate::fixed::{
    Fx, SCALE, WIDE, tdiv, sat64, satw, fx_zero, fx_one, lemma_i64_product_in_wide,
    lemma_tdiv_exact, sat_to_i64, satw_add, tdiv_wide,
};
use crate::geom::{Vec2, Vec3, Vec4};

verus! {

/// Stored value of the affine combination `a*x + b*y + c*z` of three
/// fixed-point values: wide products are summed with wide saturation,
/// rescaled by `SCALE` with truncation, and saturated to the `i64`
/// range.
pub open spec fn blend3(a: int, b: int, c: int, x: int, y: int, z: int) -> int {
    sat64(tdiv(satw(satw(a * x + b * y) + c * z), SCALE as int))
}

/// A type whose values can be blended across a triangle: `interpolate`
/// combines three corner values with three scalar weights into one
/// value, component-wise for compound types.
pub trait Interpolate: Sized {
    /// Mathematical description of [`Self::interpolate`].
    spec fn interpolate_spec(a: Self, b: Self, c: Self, x: Fx, y: Fx, z: Fx) -> Self;

    /// Combine three corner values with three weights.
    fn interpolate(a: Self, b: Self, c: Self, x: Fx, y: Fx, z: Fx) -> (r: Self)
        ensures
            r == Self::interpolate_spec(a, b, c, x, y, z),
    ;
}

impl Interpolate for Fx {
    open spec fn interpolate_spec(a: Fx, b: Fx, c: Fx, x: Fx, y: Fx, z: Fx) -> Fx {
        Fx {
            raw: blend3(
                a.raw as int,
                b.raw as int,
                c.raw as int,
                x.raw as int,
                y.raw as int,
                z.raw as int,
            ) as i64,
        }
    }

    fn interpolate(a: Fx, b: Fx, c: Fx, x: Fx, y: Fx, z: Fx) -> (r: Fx) {
        proof {
            lemma_i64_product_in_wide(a.raw as int, x.raw as int);
            lemma_i64_product_in_wide(b.raw as int, y.raw as int);
            lemma_i64_product_in_wide(c.raw as int, z.raw as int);
        }
        let p1: i128 = a.raw as i128 * x.raw as i128;
        let p2: i128 = b.raw as i128 * y.raw as i128;
        let p3: i128 = c.raw as i128 * z.raw as i128;
        let s12: i128 = satw_add(p1, p2);
        let s: i128 = satw_add(s12, p3);
        let q: i128 = tdiv_wide(s, 65536i128);
        Fx { raw: sat_to_i64(q) }
    }
}

impl Interpolate for () {
    open spec fn interpolate_spec(a: (), b: (), c: (), x: Fx, y: Fx, z: Fx) -> () {
        ()
    }

    fn interpolate(a: (), b: (), c: (), x: Fx, y: Fx, z: Fx) -> (r: ()) {
        ()
    }
}

impl Interpolate for Vec2 {
    open spec fn interpolate_spec(a: Vec2, b: Vec2, c: Vec2, x: Fx, y: Fx, z: Fx) -> Vec2 {
        Vec2 {
            x: Fx::interpolate_spec(a.x, b.x, c.x, x, y, z),
            y: Fx::interpolate_spec(a.y, b.y, c.y, x, y, z),
        }
    }

    fn interpolate(a: Vec2, b: Vec2, c: Vec2, x: Fx, y: Fx, z: Fx) -> (r: Vec2) {
        Vec2 {
            x: Fx::interpolate(a.x, b.x, c.x, x, y, z),
            y: Fx::interpolate(a.y, b.y, c.y, x, y, z),
        }
    }
}

impl Interpolate for Vec3 {
    open spec fn interpolate_spec(a: Vec3, b: Vec3, c: Vec3, x: Fx, y: Fx, z: Fx) -> Vec3 {
        Vec3 {
            x: Fx::interpolate_spec(a.x, b.x, c.x, x, y, z),
            y: Fx::interpolate_spec(a.y, b.y, c.y, x, y, z),
            z: Fx::interpolate_spec(a.z, b.z, c.z, x, y, z),
        }
    }

    fn interpolate(a: Vec3, b: Vec3, c: Vec3, x: Fx, y: Fx, z: Fx) -> (r: Vec3) {
        Vec3 {
            x: Fx::interpolate(a.x, b.x, c.x, x, y, z),
            y: Fx::interpolate(a.y, b.y, c.y, x, y, z),
            z: Fx::interpolate(a.z, b.z, c.z, x, y, z),
        }
    }
}

impl Interpolate for Vec4 {
    open spec fn interpolate_spec(a: Vec4, b: Vec4, c: Vec4, x: Fx, y: Fx, z: Fx) -> Vec4 {
        Vec4 {
            x: Fx::interpolate_spec(a.x, b.x, c.x, x, y, z),
            y: Fx::interpolate_spec(a.y, b.y, c.y, x, y, z),
            z: Fx::interpolate_spec(a.z, b.z, c.z, x, y, z),
            w: Fx::interpolate_spec(a.w, b.w, c.w, x, y, z),
        }
    }

    fn interpolate(a: Vec4, b: Vec4, c: Vec4, x: Fx, y: Fx, z: Fx) -> (r: Vec4) {
        Vec4 {
            x: Fx::interpolate(a.x, b.x, c.x, x, y, z),
            y: Fx::interpolate(a.y, b.y, c.y, x, y, z),
            z: Fx::interpolate(a.z, b.z, c.z, x, y, z),
            w: Fx::interpolate(a.w, b.w, c.w, x, y, z),
        }
    }
}

/// Interpolation is the identity when all three corners carry the same
/// value and the weights are barycentric: nonnegative and summing to
/// one, as for every point inside a triangle.
pub proof fn lemma_interpolate_same_corner(a: Fx, x: Fx, y: Fx, z: Fx)
    requires
        0 <= x.raw,
        0 <= y.raw,
        0 <= z.raw,
        x.raw + y.raw + z.raw == SCALE,
    ensures
        Fx::interpolate_spec(a, a, a, x, y, z) == a,
{
    let ar = a.raw as int;
    let xr = x.raw as int;
    let yr = y.raw as int;
    let zr = z.raw as int;
    assert(ar * xr + ar * yr + ar * zr == ar * (SCALE as int)) by (nonlinear_arith)
        requires xr + yr + zr == SCALE as int;
    assert(-(WIDE as int) <= ar * xr + ar * yr <= WIDE as int) by (nonlinear_arith)
        requires
            -0x8000_0000_0000_0000 <= ar <= 0x7fff_ffff_ffff_ffff,
            0 <= xr <= 65536,
            0 <= yr <= 65536,
    ;
    assert(-(WIDE as int) <= ar * xr + ar * yr + ar * zr <= WIDE as int) by (nonlinear_arith)
        requires
            -0x8000_0000_0000_0000 <= ar <= 0x7fff_ffff_ffff_ffff,
            0 <= xr <= 65536,
            0 <= yr <= 65536,
            0 <= zr <= 65536,
    ;
    lemma_tdiv_exact(ar, SCALE as int);
}

/// At a triangle corner exactly — weights `(1,0,0)`, `(0,1,0)` or
/// `(0,0,1)` — interpolation returns that corner's attribute with no
/// blending.
pub proof fn lemma_interpolate_at_vertices(a: Fx, b: Fx, c: Fx)
    ensures
        Fx::interpolate_spec(a, b, c, fx_one(), fx_zero(), fx_zero()) == a,
        Fx::interpolate_spec(a, b, c, fx_zero(), fx_one(), fx_zero()) == b,
        Fx::interpolate_spec(a, b, c, fx_zero(), fx_zero(), fx_one()) == c,
{
    lemma_tdiv_exact(a.raw as int, SCALE as int);
    lemma_tdiv_exact(b.raw as int, SCALE as int);
    lemma_tdiv_exact(c.raw as int, SCALE as int);
}

/// Component-wise corollary of [`lemma_interpolate_same_corner`] for
/// three-component attributes.
pub proof fn lemma_interpolate_same_corner_vec3(a: Vec3, x: Fx, y: Fx, z: Fx)
    requires
        0 <= x.raw,
        0 <= y.raw,
        0 <= z.raw,
        x.raw + y.raw + z.raw == SCALE,
    ensures
        Vec3::interpolate_spec(a, a, a, x, y, z) == a,
{
    lemma_interpolate_same_corner(a.x, x, y, z);
    lemma_interpolate_same_corner(a.y, x, y, z);
    lemma_interpolate_same_corner(a.z, x, y, z);
}

/// Component-wise corollary of [`lemma_interpolate_at_vertices`] for
/// four-component attributes such as colors.
pub proof fn lemma_interpolate_at_vertices_vec4(a: Vec4, b: Vec4, c: Vec4)
    ensures
        Vec4::interpolate_spec(a, b, c, fx_one(), fx_zero(), fx_zero()) == a,
        Vec4::interpolate_spec(a, b, c, fx_zero(), fx_one(), fx_zero()) == b,
        Vec4::interpolate_spec(a, b, c, fx_zero(), fx_zero(), fx_one()) == c,
{
    lemma_interpolate_at_vertices(a.x, b.x, c.x);
    lemma_interpolate_at_vertices(a.y, b.y, c.y);
    lemma_interpolate_at_vertices(a.z, b.z, c.z);
    lemma_interpolate_at_vertices(a.w, b.w, c.w);
}

} // verus!
