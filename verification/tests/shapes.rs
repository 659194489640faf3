use factorsvg::xml::{
    attribute_or_zero, circle_radius, circle_to_path, ellipse_path_from, ellipse_radius_x,
    ellipse_to_path, extract, fix_arc_flags, line_path_from, line_to_path, normalize_format,
    polyline_path_from, polyline_to_path, rect_path_from, rect_to_path, regex_replace,
};

#[test]
fn extract_finds_first_attribute_value() {
    let tag = r#"<rect x="1" y="2" width="30" height="40"/>"#;
    assert_eq!(extract(tag, "x"), Some("1".to_string()));
    assert_eq!(extract(tag, "width"), Some("30".to_string()));
    assert_eq!(extract(tag, "fill"), None);
}

#[test]
fn extract_matches_inside_longer_names() {
    // The pattern has no word boundary: `x="` is found inside `rx="`.
    let tag = r#"<rect rx="5" x="1"/>"#;
    assert_eq!(extract(tag, "x"), Some("5".to_string()));
}

#[test]
fn extract_needs_a_non_empty_value() {
    assert_eq!(extract(r#"<rect x="" y="3"/>"#, "x"), None);
}

#[test]
fn extract_with_rejected_pattern_is_none() {
    assert_eq!(extract(r#"<a b="c"/>"#, "("), None);
}

#[test]
fn attribute_or_zero_defaults() {
    assert_eq!(attribute_or_zero("<line/>", "x1"), "0");
    assert_eq!(attribute_or_zero(r#"<line x1="7"/>"#, "x1"), "7");
}

#[test]
fn rect_path_exact() {
    assert_eq!(rect_path_from("1", "2", "3", "4"), r#"<path d="M1,2 h3 v4 h-3 Z"/>"#);
    assert_eq!(
        rect_to_path(r#"<rect x="10" y="20" width="30" height="40"/>"#),
        r#"<path d="M10,20 h30 v40 h-30 Z"/>"#
    );
    assert_eq!(rect_to_path("<rect/>"), r#"<path d="M0,0 h0 v0 h-0 Z"/>"#);
}

#[test]
fn circle_path_exact() {
    let tag = r#"<circle cx="12" cy="13" r="5"/>"#;
    assert_eq!(circle_radius(tag), "5");
    assert_eq!(
        circle_to_path(tag, "10"),
        r#"<path d="M12,13 m-5,0 a5,5 0 1,0 10,0 a5,5 0 1,0 -10,0"/>"#
    );
}

#[test]
fn ellipse_path_exact() {
    let tag = r#"<ellipse cx="1" cy="2" rx="3" ry="4"/>"#;
    assert_eq!(ellipse_radius_x(tag), "3");
    assert_eq!(
        ellipse_to_path(tag, "6"),
        r#"<path d="M1,2 m-3,0 a3,4 0 1,0 6,0 a3,4 0 1,0 -6,0"/>"#
    );
    assert_eq!(
        ellipse_path_from("a", "b", "c", "d", "e"),
        r#"<path d="Ma,b m-c,0 ac,d 0 1,0 e,0 ac,d 0 1,0 -e,0"/>"#
    );
}

#[test]
fn line_path_exact() {
    assert_eq!(line_path_from("1", "2", "3", "4"), r#"<path d="M1,2 L3,4"/>"#);
    assert_eq!(
        line_to_path(r#"<line x1="0" y1="1" x2="5" y2="6"/>"#),
        r#"<path d="M0,1 L5,6"/>"#
    );
}

#[test]
fn polyline_paths() {
    assert_eq!(polyline_path_from("1,2 3,4 5,6", false), r#"<path d="M1,2 L3,4 L5,6"/>"#);
    assert_eq!(polyline_path_from("  1,2\n3,4 ", true), r#"<path d="M1,2 L3,4 Z"/>"#);
    assert_eq!(polyline_path_from("   ", true), "");
    assert_eq!(
        polyline_to_path(r#"<polygon points="0,0 10,0 10,10"/>"#, true),
        r#"<path d="M0,0 L10,0 L10,10 Z"/>"#
    );
    assert_eq!(polyline_to_path("<polyline/>", false), "");
}

#[test]
fn arc_flags_are_fixed() {
    assert_eq!(
        fix_arc_flags("M1,1 a 95.9,95.9 0.0 50.0,0.0 191.8,0.0").unwrap(),
        "M1,1 a 95.9,95.9 0.0 1,1 191.8,0.0"
    );
    assert_eq!(
        fix_arc_flags("a95.9,95.9 0.0 50.0,0.0 191.8,0.0").unwrap(),
        "a95.9,95.9 0.0 1,1 191.8,0.0"
    );
    assert_eq!(fix_arc_flags("M1,1 L2,2").unwrap(), "M1,1 L2,2");
}

#[test]
fn normalize_format_drops_zero_fractions() {
    assert_eq!(normalize_format("M476.0,10.0").unwrap(), "M476 10");
    assert_eq!(normalize_format("476.0,10  20").unwrap(), "476 10 20");
    assert_eq!(normalize_format("M20.0,40.0").unwrap(), "M20 40");
    assert_eq!(normalize_format("1.05 2.0x").unwrap(), "1.05 2.0x");
    assert_eq!(normalize_format(" M1.5,2.25   L3 ").unwrap(), "M1.5 2.25 L3");
}

#[test]
fn regex_replace_replaces_and_rejects() {
    assert_eq!(regex_replace("a+", "caaab", "x").unwrap(), "cxb");
    assert!(regex_replace("(", "x", "y").is_none());
}

#[test]
fn circle_is_ellipse_with_equal_radii() {
    assert_eq!(
        circle_to_path(r#"<circle cx="3" cy="-4.5" r="2"/>"#, "4"),
        ellipse_to_path(r#"<ellipse cx="3" cy="-4.5" rx="2" ry="2"/>"#, "4")
    );
}
