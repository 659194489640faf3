use factorsvg::fontello_data::{FontelloConfig, Glyph, SvgData};
use factorsvg::json::{add_glyph, add_glyph_with_uid, css_name_of, reload_config};

fn glyph(css: &str, code: u32) -> Glyph {
    Glyph {
        uid: format!("uid-{}", css),
        css: css.to_string(),
        code,
        src: "fontelico".to_string(),
        selected: false,
        svg: SvgData { path: "M0 0".to_string(), width: 1000 },
        search: vec![css.to_string()],
    }
}

fn config(glyphs: Vec<Glyph>) -> FontelloConfig {
    FontelloConfig {
        name: "icons".to_string(),
        css_prefix_text: "icon-".to_string(),
        css_use_suffix: false,
        hinting: true,
        units_per_em: 1000,
        ascent: 850,
        glyphs,
    }
}

fn names(c: &FontelloConfig) -> Vec<(String, u32)> {
    c.glyphs.iter().map(|g| (g.css.clone(), g.code)).collect()
}

#[test]
fn reload_sorts_by_code_stably() {
    let c = config(vec![glyph("c", 3), glyph("a", 1), glyph("b1", 2), glyph("b2", 2), glyph("z", 0)]);
    let r = reload_config(c, "ASC".to_string());
    assert_eq!(
        names(&r),
        vec![
            ("z".to_string(), 0),
            ("a".to_string(), 1),
            ("b1".to_string(), 2),
            ("b2".to_string(), 2),
            ("c".to_string(), 3)
        ]
    );
    assert_eq!(r.name, "icons");
    assert_eq!(r.ascent, 850);
}

#[test]
fn reload_twice_is_reload_once() {
    let c = config(vec![glyph("b", 5), glyph("a", 5), glyph("c", 1)]);
    let once = reload_config(c, "ASC".to_string());
    let once_names = names(&once);
    let twice = reload_config(once, "ASC".to_string());
    assert_eq!(names(&twice), once_names);
}

#[test]
fn css_names_are_normalised() {
    assert_eq!(css_name_of("my-icon name.svg"), "my_icon_name");
    assert_eq!(css_name_of(".s.svgvg"), ".svg");
    assert_eq!(css_name_of("plain"), "plain");
}

#[test]
fn add_glyph_appends_after_last_code() {
    let c = config(vec![glyph("a", 7), glyph("b", 3)]);
    let svg = SvgData { path: "M1 1".to_string(), width: 1000 };
    let r = add_glyph_with_uid(c, "new-icon.svg".to_string(), svg, "U".to_string());
    assert_eq!(r.glyphs.len(), 3);
    let g = &r.glyphs[2];
    assert_eq!(g.css, "new_icon");
    assert_eq!(g.code, 4);
    assert_eq!(g.uid, "U");
    assert_eq!(g.src, "custom_icons");
    assert!(g.selected);
    assert_eq!(g.search, vec!["new_icon".to_string()]);
    assert_eq!(g.svg.path, "M1 1");
}

#[test]
fn add_glyph_to_empty_config_gets_code_two() {
    let c = config(vec![]);
    let svg = SvgData { path: "M".to_string(), width: 1000 };
    let r = add_glyph_with_uid(c, "x".to_string(), svg, "U".to_string());
    assert_eq!(r.glyphs[0].code, 2);
}

#[test]
fn add_glyph_with_existing_name_changes_nothing() {
    let c = config(vec![glyph("new_icon", 1)]);
    let svg = SvgData { path: "M1 1".to_string(), width: 1000 };
    let r = add_glyph_with_uid(c, "new-icon.svg".to_string(), svg, "U".to_string());
    assert_eq!(names(&r), vec![("new_icon".to_string(), 1)]);
    assert_eq!(r.glyphs[0].uid, "uid-new_icon");
}

#[test]
fn add_same_name_twice_adds_once() {
    let c = config(vec![glyph("a", 1)]);
    let once = add_glyph_with_uid(c, "b".to_string(), SvgData { path: "1".to_string(), width: 1 }, "U1".to_string());
    let once_names = names(&once);
    let twice = add_glyph_with_uid(once, "b".to_string(), SvgData { path: "2".to_string(), width: 2 }, "U2".to_string());
    assert_eq!(names(&twice), once_names);
    assert_eq!(twice.glyphs[1].uid, "U1");
}

#[test]
fn add_glyph_draws_a_hyphenated_uid() {
    let c = config(vec![glyph("a", 1)]);
    let r = add_glyph(c, "b".to_string(), SvgData { path: "1".to_string(), width: 1 });
    let uid = &r.glyphs[1].uid;
    assert_eq!(uid.len(), 36);
    assert_eq!(uid.as_bytes()[8], b'-');
    assert_eq!(uid.as_bytes()[14], b'4');
    assert!(matches!(uid.as_bytes()[19], b'8' | b'9' | b'a' | b'b'));
    for (i, c) in uid.chars().enumerate() {
        if [8, 13, 18, 23].contains(&i) {
            assert_eq!(c, '-');
        } else {
            assert!(c.is_ascii_digit() || ('a'..='f').contains(&c));
        }
    }
}

#[test]
fn added_code_is_above_all_after_reload() {
    let c = config(vec![glyph("a", 9), glyph("b", 3), glyph("c", 5)]);
    let sorted = reload_config(c, "ASC".to_string());
    let r = add_glyph_with_uid(sorted, "d".to_string(), SvgData { path: "1".to_string(), width: 1 }, "U".to_string());
    let new_code = r.glyphs.last().unwrap().code;
    assert_eq!(new_code, 10);
    assert!(r.glyphs[..3].iter().all(|g| g.code < new_code));
    let mut css: Vec<&str> = r.glyphs.iter().map(|g| g.css.as_str()).collect();
    css.sort();
    css.dedup();
    assert_eq!(css.len(), 4);
}
