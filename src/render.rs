use vstd::prelude::*;

use crate::camera::Render;
use crate::light::{Light, Material};

verus! {

/// One object of a scene: a geometry and the material its surface is shaded with.
#[derive(Clone, Copy, Debug, PartialEq)]
pub struct RenderGeometry<M, G> {
    pub mat: Material<M>,
    pub geom: G,
}

/// What the renderer works on: the objects, the lights, and the render targets, with every
/// reference by name already resolved.
pub struct Scene<M, G, R, V> {
    pub geometry: Vec<RenderGeometry<M, G>>,
    pub lights: Vec<Light<R>>,
    pub renders: Vec<Render<V>>,
}

} // verus!
