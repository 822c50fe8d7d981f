//! The shading pipeline: a user-supplied pair of stages. The vertex
//! stage maps a vertex-input record to a homogeneous clip-space position
//! plus an interpolable attribute bundle; the fragment stage maps an
//! interpolated bundle to a color.

use vstd::prelude::*;
use crate::fixed::Fx;
use crate::geom::Vec4;
use crate::interpolate::Interpolate;

verus! {

/// The attribute bundle of a pipeline that carries no per-vertex data.
#[derive(Clone, Copy, PartialEq, Eq, Structural, Debug)]
pub struct NoAttrib {}

impl Interpolate for NoAttrib {
    open spec fn interpolate_spec(a: NoAttrib, b: NoAttrib, c: NoAttrib, x: Fx, y: Fx, z: Fx) -> NoAttrib {
        NoAttrib {}
    }

    fn interpolate(a: NoAttrib, b: NoAttrib, c: NoAttrib, x: Fx, y: Fx, z: Fx) -> (r: NoAttrib) {
        NoAttrib {}
    }
}

/// A shading pipeline. Both stages are deterministic: each carries a
/// specification function that pins down its result, so that the effect
/// of rasterizing with the pipeline can be stated exactly.
pub trait PipelineTrait: Sized {
    /// Opaque per-vertex source data; its shape is the pipeline's
    /// choice.
    type VertexInput;

    /// Interpolable payload carried from the vertex stage to the
    /// fragment stage.
    type FragmentInput: Interpolate + Copy;

    /// Mathematical description of [`Self::vertex`].
    spec fn vertex_spec(&self, vertex_input: Self::VertexInput) -> (Vec4, Self::FragmentInput);

    /// Mathematical description of [`Self::fragment`].
    spec fn fragment_spec(&self, fragment_input: Self::FragmentInput) -> Vec4;

    /// The vertex stage: clip-space position and attribute bundle for
    /// one vertex.
    fn vertex(&self, vertex_input: &Self::VertexInput) -> (r: (Vec4, Self::FragmentInput))
        ensures
            r == self.vertex_spec(*vertex_input),
    ;

    /// The fragment stage: the color of one covered pixel.
    fn fragment(&self, fragment_input: &Self::FragmentInput) -> (r: Vec4)
        ensures
            r == self.fragment_spec(*fragment_input),
    ;
}

/// A pipeline whose vertices are clip-space positions as-is, carrying no
/// attributes, and whose every fragment has one fixed color.
pub struct SolidColorPipeline {
    pub color: Vec4,
}

impl PipelineTrait for SolidColorPipeline {
    type VertexInput = Vec4;

    type FragmentInput = NoAttrib;

    open spec fn vertex_spec(&self, vertex_input: Vec4) -> (Vec4, NoAttrib) {
        (vertex_input, NoAttrib {})
    }

    open spec fn fragment_spec(&self, fragment_input: NoAttrib) -> Vec4 {
        self.color
    }

    fn vertex(&self, vertex_input: &Vec4) -> (r: (Vec4, NoAttrib)) {
        (*vertex_input, NoAttrib {})
    }

    fn fragment(&self, fragment_input: &NoAttrib) -> (r: Vec4) {
        self.color
    }
}

/// A pipeline whose vertices are pairs of a clip-space position and a
/// color; the color is interpolated across the triangle and returned
/// unchanged by the fragment stage.
pub struct VertexColorPipeline {}

impl PipelineTrait for VertexColorPipeline {
    type VertexInput = (Vec4, Vec4);

    type FragmentInput = Vec4;

    open spec fn vertex_spec(&self, vertex_input: (Vec4, Vec4)) -> (Vec4, Vec4) {
        vertex_input
    }

    open spec fn fragment_spec(&self, fragment_input: Vec4) -> Vec4 {
        fragment_input
    }

    fn vertex(&self, vertex_input: &(Vec4, Vec4)) -> (r: (Vec4, Vec4)) {
        (vertex_input.0, vertex_input.1)
    }

    fn fragment(&self, fragment_input: &Vec4) -> (r: Vec4) {
        *fragment_input
    }
}

} // verus!
