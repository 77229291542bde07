use vstd::prelude::*;

use crate::color::Rgba8;

verus! {

/// Reflection constants of a surface, or intensities of a light, per Blinn-Phong channel.
#[derive(Clone, Copy, Debug, PartialEq, Default)]
pub struct Material<T> {
    pub specular: T,
    pub diffuse: T,
    pub ambient: T,
    /// The specular exponent; may be left out of a scene, which gives the neutral value.
    pub shininess: T,
}

/// A directional light: the direction toward the light, and its color per channel.
#[derive(Clone, Copy, Debug, PartialEq)]
pub struct Light<R> {
    pub rot: R,
    pub col: Material<Rgba8>,
}

} // verus!
