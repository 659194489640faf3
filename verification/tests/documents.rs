use factorsvg::xml::{circle_radius, ellipse_radius_x, filter_and_fix_finish, filter_and_fix_scan};

fn fix(content: &str, diameter: &str) -> (String, String, String) {
    let scan = filter_and_fix_scan(content).unwrap();
    let circles: Vec<String> = scan.circles.iter().map(|_| diameter.to_string()).collect();
    let ellipses: Vec<String> = scan.ellipses.iter().map(|_| diameter.to_string()).collect();
    filter_and_fix_finish(&scan, &circles, &ellipses)
}

#[test]
fn scan_cuts_out_styles_and_finds_shapes() {
    let svg = r#"<svg viewBox="0 0 24 24"><defs><rect x="9"/></defs><g fill="red"><rect x="1" y="2" width="3" height="4" style="a"/><circle cx="5" cy="6" r="7"/></g><path id="p" d="M0 0L1 1"/></svg>"#;
    let scan = filter_and_fix_scan(svg).unwrap();
    assert_eq!(scan.source, svg);
    assert_eq!(scan.rects, vec![r#"<rect x="1" y="2" width="3" height="4" />"#.to_string()]);
    assert_eq!(scan.circles, vec![r#"<circle cx="5" cy="6" r="7"/>"#.to_string()]);
    assert_eq!(circle_radius(&scan.circles[0]), "7");
    assert!(scan.ellipses.is_empty());
    assert_eq!(scan.paths, vec![r#"<path id="p" d="M0 0L1 1"/>"#.to_string()]);
}

#[test]
fn document_from_rect_circle_and_path() {
    let svg = r#"<svg viewBox="0 0 24 24"><rect x="1" y="2" width="3" height="4"/><circle cx="5" cy="6" r="7"/><path d="M0 0L1 1"/></svg>"#;
    let (doc, d, view_box) = fix(svg, "14");
    let expected_d = "M1,2 h3 v4 h-3 Z M5,6 m-7,0 a7,7 0 1,0 14,0 a7,7 0 1,0 -14,0 M0 0L1 1";
    assert_eq!(view_box, "0 0 24 24");
    assert_eq!(d, expected_d);
    assert_eq!(
        doc,
        format!(
            "<svg xmlns=\"http://www.w3.org/2000/svg\" viewBox=\"0 0 24 24\">\n<path d=\"{}\"/>\n</svg>",
            expected_d
        )
    );
}

#[test]
fn document_orders_shapes_by_kind() {
    let svg = r#"<svg viewBox="0 0 10 10"><polyline points="1,1 2,2"/><line x1="0" y1="0" x2="1" y2="1"/><polygon points="3,3 4,4"/><ellipse cx="1" cy="1" rx="2" ry="3"/></svg>"#;
    let scan = filter_and_fix_scan(svg).unwrap();
    assert_eq!(ellipse_radius_x(&scan.ellipses[0]), "2");
    let (_, d, _) = fix(svg, "4");
    assert_eq!(
        d,
        "M1,1 m-2,0 a2,3 0 1,0 4,0 a2,3 0 1,0 -4,0 M0,0 L1,1 M3,3 L4,4 Z M1,1 L2,2"
    );
}

#[test]
fn document_without_view_box_is_empty() {
    let (doc, d, view_box) = fix(r#"<svg><rect x="1"/></svg>"#, "0");
    assert_eq!((doc.as_str(), d.as_str(), view_box.as_str()), ("", "", ""));
}

#[test]
fn document_with_view_box_and_no_shapes() {
    let (doc, d, view_box) = fix(r#"<svg viewBox="0 0 1 1"></svg>"#, "0");
    assert_eq!(d, "");
    assert_eq!(view_box, "0 0 1 1");
    assert_eq!(
        doc,
        "<svg xmlns=\"http://www.w3.org/2000/svg\" viewBox=\"0 0 1 1\">\n<path d=\"\"/>\n</svg>"
    );
}
