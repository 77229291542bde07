use ray_marcher::color::{is_refused_literal, Rgba8};
use ray_marcher::light::Material;
use ray_marcher::serialize::{str_to_color, str_to_color_result, SceneDeserializeErr};

fn rgba(red: u8, green: u8, blue: u8, alpha: u8) -> Rgba8 {
    Rgba8 { red, green, blue, alpha }
}

fn material(specular: &str, diffuse: &str, ambient: &str, shininess: &str) -> Material<String> {
    Material {
        specular: specular.to_string(),
        diffuse: diffuse.to_string(),
        ambient: ambient.to_string(),
        shininess: shininess.to_string(),
    }
}

#[test]
fn invalid_color_is_none() {
    assert_eq!(str_to_color("xyz"), None);
    assert_eq!(str_to_color(""), None);
}

#[test]
fn named_color() {
    assert_eq!(str_to_color("red"), Some(rgba(255, 0, 0, 255)));
}

#[test]
fn hex_color() {
    assert_eq!(str_to_color("#0000ff80"), Some(rgba(0, 0, 255, 128)));
}

#[test]
fn rgba_function_color() {
    assert_eq!(str_to_color("rgba(1, 2, 3, 255)"), Some(rgba(1, 2, 3, 255)));
    assert_eq!(
        str_to_color("rgba(255, 255, 127, 1)"),
        Some(rgba(255, 255, 127, 255))
    );
}

#[test]
fn color_result_error_carries_text() {
    assert_eq!(
        str_to_color_result("xyz"),
        Err(SceneDeserializeErr::ColorParseErr(String::from("xyz")))
    );
    assert_eq!(str_to_color_result("rgba(1, 2, 3, 255)"), Ok(rgba(1, 2, 3, 255)));
}

#[test]
fn default_color_is_opaque_black() {
    assert_eq!(Rgba8::default(), rgba(0, 0, 0, 255));
}

#[test]
fn material_with_omitted_shininess() {
    let m = material(
        "rgba(255, 255, 255, 1)",
        "rgba(255, 255, 255, 1)",
        "rgba(255, 255, 127, 1)",
        "",
    );
    assert_eq!(
        m.parse_colors(),
        Ok(Material {
            specular: rgba(255, 255, 255, 255),
            diffuse: rgba(255, 255, 255, 255),
            ambient: rgba(255, 255, 127, 255),
            shininess: rgba(0, 0, 0, 255),
        })
    );
}

#[test]
fn material_with_shininess() {
    let m = material("white", "black", "red", "#010203");
    assert_eq!(
        m.parse_colors(),
        Ok(Material {
            specular: rgba(255, 255, 255, 255),
            diffuse: rgba(0, 0, 0, 255),
            ambient: rgba(255, 0, 0, 255),
            shininess: rgba(1, 2, 3, 255),
        })
    );
}

#[test]
fn material_reports_first_bad_literal() {
    let m = material("red", "nope", "also-bad", "");
    assert_eq!(
        m.parse_colors(),
        Err(SceneDeserializeErr::ColorParseErr(String::from("nope")))
    );
    let m = material("red", "red", "red", "bogus");
    assert_eq!(
        m.parse_colors(),
        Err(SceneDeserializeErr::ColorParseErr(String::from("bogus")))
    );
}

#[test]
fn cmyk_without_unit_is_refused() {
    assert_eq!(str_to_color("cmyk(0, 100, 100, 0)"), None);
    assert_eq!(str_to_color("  CMYK(0, 100, 100, 0)"), None);
    assert_eq!(
        str_to_color_result("cmyk(0, 100, 100, 0)"),
        Err(SceneDeserializeErr::ColorParseErr(String::from("cmyk(0, 100, 100, 0)")))
    );
}

#[test]
fn cmyk_in_percent_is_parsed() {
    assert_eq!(str_to_color("cmyk(0%, 100%, 100%, 0%)"), Some(rgba(255, 0, 0, 255)));
}

#[test]
fn rgb_with_mixed_percent_is_refused() {
    assert_eq!(str_to_color("rgb(50%, 0, 0)"), None);
    assert_eq!(str_to_color("rgb(50%, 10%, 0)"), None);
    assert_eq!(
        str_to_color_result("Rgb(50%, 0, 0)"),
        Err(SceneDeserializeErr::ColorParseErr(String::from("Rgb(50%, 0, 0)")))
    );
}

#[test]
fn rgb_in_percent_is_parsed() {
    assert_eq!(str_to_color("rgb(0%, 100%, 0%)"), Some(rgba(0, 255, 0, 255)));
}

#[test]
fn non_ascii_digits_are_refused() {
    assert_eq!(str_to_color("rgb(\u{663}, 0, 0)"), None);
}

#[test]
fn degree_sign_is_accepted() {
    assert_eq!(str_to_color("hsl(120\u{b0}, 100%, 50%)"), Some(rgba(0, 255, 0, 255)));
}

#[test]
fn material_with_refused_literal() {
    let m = material("red", "rgb(50%, 0, 0)", "red", "");
    assert_eq!(
        m.parse_colors(),
        Err(SceneDeserializeErr::ColorParseErr(String::from("rgb(50%, 0, 0)")))
    );
}

#[test]
fn refused_literals_are_recognised() {
    assert!(is_refused_literal("cmyk(0, 100, 100, 0)"));
    assert!(is_refused_literal("rgb(50%, 0%, 0)"));
    assert!(is_refused_literal("r\u{e9}d"));
    assert!(!is_refused_literal("rgba(1, 2, 3, 255)"));
    assert!(!is_refused_literal("rgb(50%, 0%, 0%)"));
    assert!(!is_refused_literal("cmyk(0%, 100%, 100%, 0%)"));
    assert!(!is_refused_literal("red"));
    assert!(!is_refused_literal(""));
}
