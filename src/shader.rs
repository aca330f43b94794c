use vstd::prelude::*;

verus! {

/// The shading that the rasterizer applies: the texture's colour, sampled
/// with the repeat wrap, unlit.
#[derive(Clone, Copy, Debug, PartialEq, Eq, Structural)]
pub struct DiffuseShader {}

} // verus!
