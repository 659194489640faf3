use factorsvg::args::Arguments;
use factorsvg::utils::{
    extract_viewbox_height, extract_viewbox_width, fixed_output_path, glyph_scale,
    is_input_not_file, is_svg_file_name, remove_filename,
};

#[test]
fn input_not_file_cases() {
    assert!(is_input_not_file("dir/".to_string()));
    assert!(is_input_not_file("src/input/".to_string()));
    assert!(!is_input_not_file("icon.svg".to_string()));
    assert!(!is_input_not_file("src/input/icon.svg".to_string()));
    assert!(!is_input_not_file("icon.".to_string()));
    assert!(!is_input_not_file("a..b".to_string()));
    assert!(is_input_not_file("./src".to_string()));
    assert!(is_input_not_file("a.d/x".to_string()));
    assert!(is_input_not_file(".".to_string()));
    assert!(is_input_not_file("..".to_string()));
    assert!(is_input_not_file("../icons//".to_string()));
    assert!(is_input_not_file(".hidden".to_string()));
    assert!(is_input_not_file("".to_string()));
}

#[test]
fn viewbox_numbers() {
    assert_eq!(extract_viewbox_width("0 0 24 48".to_string()), 24);
    assert_eq!(extract_viewbox_height("0 0 24 48".to_string()), 48);
    assert_eq!(extract_viewbox_width("  0\t0 +24 48 ".to_string()), 24);
    assert_eq!(extract_viewbox_width("0 0 24".to_string()), 0);
    assert_eq!(extract_viewbox_width("0 0 24.5 48".to_string()), 0);
    assert_eq!(extract_viewbox_width("0 0 -24 48".to_string()), 0);
    assert_eq!(extract_viewbox_height("0 0 1 4294967295".to_string()), 4294967295);
    assert_eq!(extract_viewbox_height("0 0 1 4294967296".to_string()), 0);
    assert_eq!(extract_viewbox_width("0 0 + 1".to_string()), 0);
}

#[test]
fn scale_fits_the_larger_side() {
    assert_eq!(glyph_scale(24, 48), 20);
    assert_eq!(glyph_scale(1000, 10), 1);
    assert_eq!(glyph_scale(2000, 10), 0);
    assert_eq!(glyph_scale(1, 1), 1000);
}

#[test]
fn output_paths_and_extensions() {
    assert_eq!(fixed_output_path("out/", "a.svg"), "out/fixed_a.svg");
    assert!(is_svg_file_name("a.svg"));
    assert!(is_svg_file_name("x.y.svg"));
    assert!(!is_svg_file_name(".svg"));
    assert!(!is_svg_file_name("a.SVG"));
    assert!(!is_svg_file_name("a.svg.bak"));
    assert!(!is_svg_file_name("svg"));
}

#[test]
fn parents_of_paths() {
    assert_eq!(remove_filename(""), "");
    assert_eq!(remove_filename("icon.svg"), "");
    assert_eq!(remove_filename("a/b/icon.svg"), "a/b");
    assert_eq!(remove_filename("/"), "");
    assert_eq!(remove_filename("/icon.svg"), "/");
    assert_eq!(remove_filename("/home/user/icon.svg"), "/home/user");
    assert_eq!(remove_filename("dir/"), "");
    assert_eq!(remove_filename("a//b"), "a");
    assert_eq!(remove_filename("./icons/a.svg"), "./icons");
    assert_eq!(remove_filename("icons.v2/a.svg"), "icons.v2");
    assert_eq!(remove_filename("../a.svg"), "..");
    assert_eq!(remove_filename("a/b.c/d.svg"), "a/b.c");
    assert_eq!(remove_filename("/.."), "/");
    assert_eq!(remove_filename(".."), "");
}

#[test]
fn arguments_hold_what_is_given() {
    let a = Arguments { input: "in".to_string(), output: "out".to_string(), multithread: false, multi: true };
    assert!(a.multi && !a.multithread);
    assert_eq!((a.input.as_str(), a.output.as_str()), ("in", "out"));
}

#[test]
fn height_is_width_with_sides_swapped() {
    assert_eq!(extract_viewbox_height("0 0 24 48".to_string()), extract_viewbox_width("0 0 48 24".to_string()));
    assert_eq!(extract_viewbox_height(" 1\t2 3  x ".to_string()), extract_viewbox_width("1 2 x 3".to_string()));
}
