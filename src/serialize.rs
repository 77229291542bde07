use vstd::prelude::*;

use crate::camera;
use crate::color::{accepted_color, is_refused_literal, parse_css_color, Rgba8};
use crate::light;
use crate::light::Material;
use crate::render::{RenderGeometry, Scene};

verus! {

/// Errors caused by a scene description that refers to something it does not define, or
/// that holds a malformed color.
#[derive(Debug, Clone, PartialEq)]
pub enum SceneDeserializeErr {
    UnknownMaterial(String),
    UnknownCamera(String),
    ColorParseErr(String),
}

impl SceneDeserializeErr {
    pub open spec fn is_unknown_material(&self, name: Seq<char>) -> bool {
        match self {
            SceneDeserializeErr::UnknownMaterial(s) => s@ == name,
            _ => false,
        }
    }

    pub open spec fn is_unknown_camera(&self, name: Seq<char>) -> bool {
        match self {
            SceneDeserializeErr::UnknownCamera(s) => s@ == name,
            _ => false,
        }
    }

    pub open spec fn is_color_parse_err(&self, text: Seq<char>) -> bool {
        match self {
            SceneDeserializeErr::ColorParseErr(s) => s@ == text,
            _ => false,
        }
    }
}

/// Parses a color literal (a color name, a hex code, or a function such as `rgba(..)`).
/// The literals that the parser is not handed (see `refused_literal`) give `None`.
pub fn str_to_color(col: &str) -> (r: Option<Rgba8>)
    ensures
        r == accepted_color(col@),
{
    if is_refused_literal(col) {
        None
    } else {
        parse_css_color(col)
    }
}

/// Parses a color literal; text that is no color gives `ColorParseErr` with that text.
pub fn str_to_color_result(col: &str) -> (r: Result<Rgba8, SceneDeserializeErr>)
    ensures
        match accepted_color(col@) {
            Some(c) => r == Ok::<Rgba8, SceneDeserializeErr>(c),
            None => r is Err && r->Err_0.is_color_parse_err(col@),
        },
{
    match str_to_color(col) {
        Some(c) => Ok(c),
        None => Err(SceneDeserializeErr::ColorParseErr(col.to_string())),
    }
}

/// The colors of a material given as literals, or the first literal (in the order specular,
/// diffuse, ambient, shininess) that is no color. An empty shininess stands for the default
/// color, opaque black.
pub open spec fn material_colors(m: Material<String>) -> Result<Material<Rgba8>, Seq<char>> {
    match accepted_color(m.specular@) {
        None => Err(m.specular@),
        Some(specular) => match accepted_color(m.diffuse@) {
            None => Err(m.diffuse@),
            Some(diffuse) => match accepted_color(m.ambient@) {
                None => Err(m.ambient@),
                Some(ambient) => if m.shininess@.len() == 0 {
                    Ok(
                        Material {
                            specular,
                            diffuse,
                            ambient,
                            shininess: Rgba8 { red: 0, green: 0, blue: 0, alpha: 255 },
                        },
                    )
                } else {
                    match accepted_color(m.shininess@) {
                        None => Err(m.shininess@),
                        Some(shininess) => Ok(Material { specular, diffuse, ambient, shininess }),
                    }
                },
            },
        },
    }
}

/// `r` is what `expected` describes, a failure on a text being `ColorParseErr` of that text.
pub open spec fn color_outcome<T>(
    r: Result<T, SceneDeserializeErr>,
    expected: Result<T, Seq<char>>,
) -> bool {
    match expected {
        Ok(v) => r == Ok::<T, SceneDeserializeErr>(v),
        Err(text) => r is Err && r->Err_0.is_color_parse_err(text),
    }
}

impl Material<String> {
    /// Parses each channel's color literal.
    pub fn parse_colors(&self) -> (r: Result<Material<Rgba8>, SceneDeserializeErr>)
        ensures
            color_outcome(r, material_colors(*self)),
    {
        let specular = match str_to_color_result(self.specular.as_str()) {
            Ok(c) => c,
            Err(e) => return Err(e),
        };
        let diffuse = match str_to_color_result(self.diffuse.as_str()) {
            Ok(c) => c,
            Err(e) => return Err(e),
        };
        let ambient = match str_to_color_result(self.ambient.as_str()) {
            Ok(c) => c,
            Err(e) => return Err(e),
        };
        let shininess = if self.shininess.as_str().is_empty() {
            Rgba8::default()
        } else {
            match str_to_color_result(self.shininess.as_str()) {
                Ok(c) => c,
                Err(e) => return Err(e),
            }
        };
        Ok(Material { specular, diffuse, ambient, shininess })
    }
}

/// A light as a scene describes it: its colors are still literals.
#[derive(Clone, Debug, PartialEq)]
pub struct Light<R> {
    pub rot: R,
    pub col: Material<String>,
}

/// The light that `l` describes, or the first literal in it that is no color.
pub open spec fn light_of<R>(l: Light<R>) -> Result<light::Light<R>, Seq<char>> {
    match material_colors(l.col) {
        Ok(col) => Ok(light::Light { rot: l.rot, col }),
        Err(text) => Err(text),
    }
}

impl<R: Copy> Light<R> {
    /// Parses the light's colors.
    pub fn into_light(&self) -> (r: Result<light::Light<R>, SceneDeserializeErr>)
        ensures
            color_outcome(r, light_of(*self)),
    {
        match self.col.parse_colors() {
            Ok(col) => Ok(light::Light { rot: self.rot, col }),
            Err(e) => Err(e),
        }
    }
}

/// `i` is the first position in `entries` whose name is `name`.
pub open spec fn first_named<V>(entries: Seq<(String, V)>, name: Seq<char>, i: int) -> bool {
    &&& 0 <= i < entries.len()
    &&& entries[i].0@ == name
    &&& forall|j: int| 0 <= j < i ==> entries[j].0@ != name
}

/// The value of the first entry named `name`, if there is one.
pub open spec fn lookup<V>(entries: Seq<(String, V)>, name: Seq<char>) -> Option<V> {
    if exists|i: int| first_named(entries, name, i) {
        Some(entries[choose|i: int| first_named(entries, name, i)].1)
    } else {
        None
    }
}

/// Looks up the value of the first entry named `name`.
pub fn lookup_named<V: Copy>(entries: &Vec<(String, V)>, name: &String) -> (r: Option<V>)
    ensures
        r == lookup(entries@, name@),
{
    let mut i: usize = 0;
    while i < entries.len()
        invariant
            i <= entries@.len(),
            forall|j: int| 0 <= j < i ==> entries@[j].0@ != name@,
        decreases entries@.len() - i,
    {
        let e = &entries[i];
        if e.0 == *name {
            proof {
                assert(first_named(entries@, name@, i as int));
                let k = choose|k: int| first_named(entries@, name@, k);
                assert(k == i) by {
                    if k < i {
                        assert(entries@[k].0@ != name@);
                    } else if k > i {
                        assert(entries@[i as int].0@ != name@);
                    }
                }
            }
            return Some(e.1);
        }
        i = i + 1;
    }
    None
}

/// A render target as a scene describes it: the camera is given by name.
#[derive(Clone, Debug, PartialEq)]
pub struct Render {
    pub camera: String,
    pub width: usize,
}

impl Render {
    /// Resolves the camera's name among the scene's named views.
    pub fn into_render<V: Copy>(&self, cameras: &Vec<(String, V)>) -> (r: Result<
        camera::Render<V>,
        SceneDeserializeErr,
    >)
        ensures
            match lookup(cameras@, self.camera@) {
                Some(v) => r is Ok && r->Ok_0.spec_width() == self.width && r->Ok_0.spec_view()
                    == v,
                None => r is Err && r->Err_0.is_unknown_camera(self.camera@),
            },
    {
        match lookup_named(cameras, &self.camera) {
            Some(v) => Ok(camera::Render::new(self.width, v)),
            None => Err(SceneDeserializeErr::UnknownCamera(self.camera.clone())),
        }
    }
}

/// Every geometry's material is among `materials`.
pub open spec fn materials_known<M, G>(
    geom: Seq<(String, G)>,
    materials: Seq<(String, Material<M>)>,
) -> bool {
    forall|i: int| 0 <= i < geom.len() ==> lookup(materials, #[trigger] geom[i].0@) is Some
}

/// `out` pairs each geometry, in order, with the material it names.
pub open spec fn geoms_resolved<M, G>(
    geom: Seq<(String, G)>,
    materials: Seq<(String, Material<M>)>,
    out: Seq<RenderGeometry<M, G>>,
) -> bool {
    &&& out.len() == geom.len()
    &&& forall|i: int|
        0 <= i < geom.len() ==> lookup(materials, #[trigger] geom[i].0@) == Some(out[i].mat)
            && out[i].geom == geom[i].1
}

/// `e` reports the first geometry whose material is not among `materials`.
pub open spec fn geoms_failed<M, G>(
    geom: Seq<(String, G)>,
    materials: Seq<(String, Material<M>)>,
    e: SceneDeserializeErr,
) -> bool {
    exists|k: int|
        0 <= k < geom.len() && lookup(materials, #[trigger] geom[k].0@) is None && materials_known(
            geom.take(k),
            materials,
        ) && e.is_unknown_material(geom[k].0@)
}

/// Pairs each geometry with the material it names; the first unknown name is an error.
pub fn into_render_geoms<M: Copy, G: Copy>(
    geom: &Vec<(String, G)>,
    materials: &Vec<(String, Material<M>)>,
) -> (r: Result<Vec<RenderGeometry<M, G>>, SceneDeserializeErr>)
    ensures
        match r {
            Ok(v) => geoms_resolved(geom@, materials@, v@),
            Err(e) => geoms_failed(geom@, materials@, e),
        },
{
    let mut out: Vec<RenderGeometry<M, G>> = Vec::new();
    let mut i: usize = 0;
    while i < geom.len()
        invariant
            i <= geom@.len(),
            geoms_resolved(geom@.take(i as int), materials@, out@),
        decreases geom@.len() - i,
    {
        let g = &geom[i];
        match lookup_named(materials, &g.0) {
            Some(mat) => {
                out.push(RenderGeometry { mat, geom: g.1 });
                proof {
                    assert(geom@.take(i + 1) == geom@.take(i as int).push(geom@[i as int]));
                }
            },
            None => {
                proof {
                    assert(materials_known(geom@.take(i as int), materials@)) by {
                        assert forall|j: int| 0 <= j < i implies lookup(
                            materials@,
                            #[trigger] geom@.take(i as int)[j].0@,
                        ) is Some by {
                            assert(geom@.take(i as int)[j] == geom@[j]);
                        }
                    }
                    assert(lookup(materials@, geom@[i as int].0@) is None);
                }
                return Err(SceneDeserializeErr::UnknownMaterial(g.0.clone()));
            },
        }
        i = i + 1;
    }
    proof {
        assert(geom@.take(i as int) == geom@);
    }
    Ok(out)
}

/// Every light's colors are well-formed literals.
pub open spec fn lights_valid<R>(lights: Seq<Light<R>>) -> bool {
    forall|i: int| 0 <= i < lights.len() ==> light_of(#[trigger] lights[i]) is Ok
}

/// `out` holds, in order, the light that each entry of `lights` describes.
pub open spec fn lights_parsed<R>(lights: Seq<Light<R>>, out: Seq<light::Light<R>>) -> bool {
    &&& out.len() == lights.len()
    &&& forall|i: int|
        0 <= i < lights.len() ==> light_of(#[trigger] lights[i]) == Ok::<
            light::Light<R>,
            Seq<char>,
        >(out[i])
}

/// `e` reports the first malformed color literal among the lights.
pub open spec fn lights_failed<R>(lights: Seq<Light<R>>, e: SceneDeserializeErr) -> bool {
    exists|k: int|
        0 <= k < lights.len() && light_of(#[trigger] lights[k]) is Err && lights_valid(
            lights.take(k),
        ) && e.is_color_parse_err(light_of(lights[k])->Err_0)
}

/// Parses the colors of each light; the first malformed literal is an error.
pub fn into_lights<R: Copy>(lights: &Vec<Light<R>>) -> (r: Result<
    Vec<light::Light<R>>,
    SceneDeserializeErr,
>)
    ensures
        match r {
            Ok(v) => lights_parsed(lights@, v@),
            Err(e) => lights_failed(lights@, e),
        },
{
    let mut out: Vec<light::Light<R>> = Vec::new();
    let mut i: usize = 0;
    while i < lights.len()
        invariant
            i <= lights@.len(),
            lights_parsed(lights@.take(i as int), out@),
        decreases lights@.len() - i,
    {
        match lights[i].into_light() {
            Ok(l) => {
                out.push(l);
                proof {
                    assert(lights@.take(i + 1) == lights@.take(i as int).push(lights@[i as int]));
                }
            },
            Err(e) => {
                proof {
                    assert(lights_valid(lights@.take(i as int))) by {
                        assert forall|j: int| 0 <= j < i implies light_of(
                            #[trigger] lights@.take(i as int)[j],
                        ) is Ok by {
                            assert(lights_parsed(lights@.take(i as int), out@));
                        }
                    }
                }
                return Err(e);
            },
        }
        i = i + 1;
    }
    proof {
        assert(lights@.take(i as int) == lights@);
    }
    Ok(out)
}

/// Every render target's camera is among `cameras`.
pub open spec fn cameras_known<V>(renders: Seq<Render>, cameras: Seq<(String, V)>) -> bool {
    forall|i: int| 0 <= i < renders.len() ==> lookup(cameras, #[trigger] renders[i].camera@) is Some
}

/// `out` holds, in order, each render target with its camera's view.
pub open spec fn renders_resolved<V>(
    renders: Seq<Render>,
    cameras: Seq<(String, V)>,
    out: Seq<camera::Render<V>>,
) -> bool {
    &&& out.len() == renders.len()
    &&& forall|i: int|
        0 <= i < renders.len() ==> lookup(cameras, #[trigger] renders[i].camera@) == Some(
            out[i].spec_view(),
        ) && out[i].spec_width() == renders[i].width
}

/// `e` reports the first render target whose camera is not among `cameras`.
pub open spec fn renders_failed<V>(
    renders: Seq<Render>,
    cameras: Seq<(String, V)>,
    e: SceneDeserializeErr,
) -> bool {
    exists|k: int|
        0 <= k < renders.len() && lookup(cameras, #[trigger] renders[k].camera@) is None
            && cameras_known(renders.take(k), cameras) && e.is_unknown_camera(renders[k].camera@)
}

/// Resolves the camera of each render target; the first unknown name is an error.
pub fn into_renders<V: Copy>(renders: &Vec<Render>, cameras: &Vec<(String, V)>) -> (r: Result<
    Vec<camera::Render<V>>,
    SceneDeserializeErr,
>)
    ensures
        match r {
            Ok(v) => renders_resolved(renders@, cameras@, v@),
            Err(e) => renders_failed(renders@, cameras@, e),
        },
{
    let mut out: Vec<camera::Render<V>> = Vec::new();
    let mut i: usize = 0;
    while i < renders.len()
        invariant
            i <= renders@.len(),
            renders_resolved(renders@.take(i as int), cameras@, out@),
        decreases renders@.len() - i,
    {
        match renders[i].into_render(cameras) {
            Ok(t) => {
                out.push(t);
                proof {
                    assert(renders@.take(i + 1) == renders@.take(i as int).push(renders@[i as int]));
                }
            },
            Err(e) => {
                proof {
                    assert(cameras_known(renders@.take(i as int), cameras@)) by {
                        assert forall|j: int| 0 <= j < i implies lookup(
                            cameras@,
                            #[trigger] renders@.take(i as int)[j].camera@,
                        ) is Some by {
                            assert(renders_resolved(renders@.take(i as int), cameras@, out@));
                        }
                    }
                }
                return Err(e);
            },
        }
        i = i + 1;
    }
    proof {
        assert(renders@.take(i as int) == renders@);
    }
    Ok(out)
}

/// Builds a scene from its description: geometries name their materials, render targets name
/// their cameras, and lights give their colors as literals. The first failure is reported,
/// looking at the geometries first, then the lights, then the render targets.
pub fn build_scene<M: Copy, G: Copy, R: Copy, V: Copy>(
    geometry: &Vec<(String, G)>,
    materials: &Vec<(String, Material<M>)>,
    lights: &Vec<Light<R>>,
    cameras: &Vec<(String, V)>,
    renders: &Vec<Render>,
) -> (r: Result<Scene<M, G, R, V>, SceneDeserializeErr>)
    ensures
        match r {
            Ok(s) => {
                &&& geoms_resolved(geometry@, materials@, s.geometry@)
                &&& lights_parsed(lights@, s.lights@)
                &&& renders_resolved(renders@, cameras@, s.renders@)
            },
            Err(e) => {
                ||| geoms_failed(geometry@, materials@, e)
                ||| materials_known(geometry@, materials@) && lights_failed(lights@, e)
                ||| materials_known(geometry@, materials@) && lights_valid(lights@)
                    && renders_failed(renders@, cameras@, e)
            },
        },
{
    let geometry = match into_render_geoms(geometry, materials) {
        Ok(v) => v,
        Err(e) => return Err(e),
    };
    let lights = match into_lights(lights) {
        Ok(v) => v,
        Err(e) => return Err(e),
    };
    let renders = match into_renders(renders, cameras) {
        Ok(v) => v,
        Err(e) => return Err(e),
    };
    Ok(Scene { geometry, lights, renders })
}

} // verus!
