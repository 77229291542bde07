use ray_marcher::color::Rgba8;
use ray_marcher::light;
use ray_marcher::light::Material;
use ray_marcher::render::RenderGeometry;
use ray_marcher::serialize::{
    build_scene, into_lights, into_render_geoms, into_renders, lookup_named, Light, Render,
    SceneDeserializeErr,
};

fn rgba(red: u8, green: u8, blue: u8, alpha: u8) -> Rgba8 {
    Rgba8 { red, green, blue, alpha }
}

fn render(camera: &str, width: usize) -> Render {
    Render { camera: camera.to_owned(), width }
}

fn named<V>(entries: Vec<(&str, V)>) -> Vec<(String, V)> {
    entries.into_iter().map(|(k, v)| (k.to_owned(), v)).collect()
}

fn mat(x: f64) -> Material<f64> {
    Material { specular: x, diffuse: x, ambient: x, shininess: x }
}

fn string_material(specular: &str, diffuse: &str, ambient: &str, shininess: &str) -> Material<String> {
    Material {
        specular: specular.to_string(),
        diffuse: diffuse.to_string(),
        ambient: ambient.to_string(),
        shininess: shininess.to_string(),
    }
}

#[test]
fn lookup_finds_first_entry() {
    let entries = named(vec![("a", 1u32), ("b", 2), ("a", 3)]);
    assert_eq!(lookup_named(&entries, &"a".to_string()), Some(1));
    assert_eq!(lookup_named(&entries, &"b".to_string()), Some(2));
    assert_eq!(lookup_named(&entries, &"c".to_string()), None);
}

#[test]
fn render_resolves_camera() {
    let cameras = named(vec![("main", 7u8)]);
    let r = render("main", 300).into_render(&cameras).unwrap();
    assert_eq!(r.width(), 300);
    assert_eq!(r.view, 7);
}

#[test]
fn render_unknown_camera() {
    let cameras = named(vec![("main", 7u8)]);
    assert_eq!(
        render("xyz", 20000).into_render(&cameras),
        Err(SceneDeserializeErr::UnknownCamera("xyz".to_owned()))
    );
}

#[test]
fn renders_report_first_unknown_camera() {
    let cameras = named(vec![("main", 1u8), ("side", 2u8)]);
    let ok = into_renders(&vec![render("side", 10), render("main", 20)], &cameras).unwrap();
    assert_eq!(ok.len(), 2);
    assert_eq!((ok[0].width(), ok[0].view), (10, 2));
    assert_eq!((ok[1].width(), ok[1].view), (20, 1));
    assert_eq!(
        into_renders(&vec![render("main", 1), render("x", 2), render("y", 3)], &cameras),
        Err(SceneDeserializeErr::UnknownCamera("x".to_owned()))
    );
}

#[test]
fn geometries_take_their_materials() {
    let materials = named(vec![("gold", mat(0.5)), ("lead", mat(0.1))]);
    let geoms = named(vec![("lead", 'a'), ("gold", 'b')]);
    assert_eq!(
        into_render_geoms(&geoms, &materials),
        Ok(vec![
            RenderGeometry { mat: mat(0.1), geom: 'a' },
            RenderGeometry { mat: mat(0.5), geom: 'b' },
        ])
    );
}

#[test]
fn geometry_with_unknown_material() {
    let materials = named(vec![("gold", mat(0.5))]);
    let geoms = named(vec![("gold", 1u8), ("tin", 2u8), ("iron", 3u8)]);
    assert_eq!(
        into_render_geoms(&geoms, &materials),
        Err(SceneDeserializeErr::UnknownMaterial("tin".to_owned()))
    );
}

#[test]
fn lights_parse_their_colors() {
    let lights = vec![Light {
        rot: [0.0f32, 0.0, 0.0],
        col: string_material(
            "rgba(255, 255, 255, 1)",
            "rgba(255, 255, 255, 1)",
            "rgba(255, 255, 127, 1)",
            "",
        ),
    }];
    assert_eq!(
        into_lights(&lights),
        Ok(vec![light::Light {
            rot: [0.0f32, 0.0, 0.0],
            col: Material {
                specular: rgba(255, 255, 255, 255),
                diffuse: rgba(255, 255, 255, 255),
                ambient: rgba(255, 255, 127, 255),
                shininess: rgba(0, 0, 0, 255),
            },
        }])
    );
}

#[test]
fn light_with_malformed_color() {
    let lights = vec![
        Light { rot: 1u8, col: string_material("red", "red", "red", "") },
        Light { rot: 2u8, col: string_material("red", "rgb(1, 2", "red", "") },
    ];
    assert_eq!(
        into_lights(&lights),
        Err(SceneDeserializeErr::ColorParseErr("rgb(1, 2".to_owned()))
    );
}

#[test]
fn scene_builds_when_everything_resolves() {
    let materials = named(vec![("gold", mat(0.5))]);
    let geoms = named(vec![("gold", 9u8)]);
    let lights = vec![Light { rot: 4u8, col: string_material("red", "red", "red", "") }];
    let cameras = named(vec![("main", 3u8)]);
    let renders = vec![render("main", 300)];
    let scene = build_scene(&geoms, &materials, &lights, &cameras, &renders).unwrap();
    assert_eq!(scene.geometry, vec![RenderGeometry { mat: mat(0.5), geom: 9u8 }]);
    assert_eq!(scene.lights.len(), 1);
    assert_eq!(scene.lights[0].rot, 4u8);
    assert_eq!(scene.lights[0].col.ambient, rgba(255, 0, 0, 255));
    assert_eq!(scene.renders.len(), 1);
    assert_eq!(scene.renders[0].width(), 300);
    assert_eq!(scene.renders[0].view, 3u8);
}

#[test]
fn scene_reports_geometry_before_lights_and_renders() {
    let materials = named(vec![("gold", mat(0.5))]);
    let bad_lights = vec![Light { rot: 0u8, col: string_material("zzz", "red", "red", "") }];
    let cameras = named(vec![("main", 3u8)]);
    let bad_renders = vec![render("nowhere", 300)];

    let bad_geoms = named(vec![("tin", 1u8)]);
    assert_eq!(
        build_scene(&bad_geoms, &materials, &bad_lights, &cameras, &bad_renders).err(),
        Some(SceneDeserializeErr::UnknownMaterial("tin".to_owned()))
    );

    let geoms = named(vec![("gold", 1u8)]);
    assert_eq!(
        build_scene(&geoms, &materials, &bad_lights, &cameras, &bad_renders).err(),
        Some(SceneDeserializeErr::ColorParseErr("zzz".to_owned()))
    );

    let lights = vec![Light { rot: 0u8, col: string_material("red", "red", "red", "") }];
    assert_eq!(
        build_scene(&geoms, &materials, &lights, &cameras, &bad_renders).err(),
        Some(SceneDeserializeErr::UnknownCamera("nowhere".to_owned()))
    );
}
