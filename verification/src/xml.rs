//! Turning the shapes of an SVG document into path data.
use vstd::prelude::*;

use crate::pattern::{compile, regex_accepts, regex_captures_group1, regex_find_iter, regex_replace_all};
use crate::text::{
    chars_of, join, join_strings, opt_view, push_chars, push_str, replace_all, replace_str,
    split_whitespace, split_ws, string_from, string_of, strs, trim, trim_chars, views, is_ws,
    lemma_trim_ends,
};

verus! {

// ----------------------------------------------------------------------------
// Attributes
// ----------------------------------------------------------------------------

/// The regular expression that finds `attr="value"` and captures the value.
pub open spec fn attr_pattern(attr: Seq<char>) -> Seq<char> {
    attr + "=\"([^\"]+)\""@
}

/// The value of the first `attr="..."` in `tag` (a non-empty run of
/// characters other than `"`), as the regular expression [`attr_pattern`]
/// finds it; `None` where there is none or the pattern is not accepted.
pub open spec fn extract_spec(tag: Seq<char>, attr: Seq<char>) -> Option<Seq<char>> {
    let p = attr_pattern(attr);
    if regex_accepts(p) {
        regex_captures_group1(p, tag)
    } else {
        None
    }
}

/// The value of attribute `attr` in `tag`, or `"0"` where it has none.
pub open spec fn attr_or_zero(tag: Seq<char>, attr: Seq<char>) -> Seq<char> {
    match extract_spec(tag, attr) {
        Some(v) => v,
        None => "0"@,
    }
}

/// Finds the value of attribute `attr` in `tag`.
pub fn extract(tag: &str, attr: &str) -> (res: Option<String>)
    ensures
        opt_view(res) == extract_spec(tag@, attr@),
{
    let mut p = chars_of(attr);
    push_str(&mut p, "=\"([^\"]+)\"");
    let pattern = string_of(&p);
    match compile(pattern.as_str()) {
        Some(re) => re.captures_group1(tag),
        None => None,
    }
}

/// The value of attribute `attr` in `tag`, or `"0"` where it has none.
pub fn attribute_or_zero(tag: &str, attr: &str) -> (res: String)
    ensures
        res@ == attr_or_zero(tag@, attr@),
{
    match extract(tag, attr) {
        Some(v) => v,
        None => string_from("0"),
    }
}

// ----------------------------------------------------------------------------
// Rectangles
// ----------------------------------------------------------------------------

/// `<path d="M{x},{y} h{w} v{h} h-{w} Z"/>`
pub open spec fn rect_path(x: Seq<char>, y: Seq<char>, w: Seq<char>, h: Seq<char>) -> Seq<char> {
    "<path d=\"M"@ + x + ","@ + y + " h"@ + w + " v"@ + h + " h-"@ + w + " Z\"/>"@
}

/// The path that traces the rectangle `tag` describes, its missing attributes
/// taken as `0`.
pub open spec fn rect_tag_path(tag: Seq<char>) -> Seq<char> {
    rect_path(
        attr_or_zero(tag, "x"@),
        attr_or_zero(tag, "y"@),
        attr_or_zero(tag, "width"@),
        attr_or_zero(tag, "height"@),
    )
}

/// The path element for a rectangle at (`x`, `y`) of width `w` and height `h`.
pub fn rect_path_from(x: &str, y: &str, w: &str, h: &str) -> (res: String)
    ensures
        res@ == rect_path(x@, y@, w@, h@),
{
    let mut out = string_from("<path d=\"M");
    out.append(x);
    out.append(",");
    out.append(y);
    out.append(" h");
    out.append(w);
    out.append(" v");
    out.append(h);
    out.append(" h-");
    out.append(w);
    out.append(" Z\"/>");
    out
}

/// Rewrites a `<rect>` tag as a path element.
pub fn rect_to_path(tag: &str) -> (res: String)
    ensures
        res@ == rect_tag_path(tag@),
{
    let x = attribute_or_zero(tag, "x");
    let y = attribute_or_zero(tag, "y");
    let w = attribute_or_zero(tag, "width");
    let h = attribute_or_zero(tag, "height");
    rect_path_from(x.as_str(), y.as_str(), w.as_str(), h.as_str())
}

// ----------------------------------------------------------------------------
// Circles and ellipses
// ----------------------------------------------------------------------------

/// `<path d="M{cx},{cy} m-{rx},0 a{rx},{ry} 0 1,0 {d},0 a{rx},{ry} 0 1,0 -{d},0"/>`:
/// two half arcs around the centre, `d` being the horizontal diameter.
pub open spec fn ellipse_path(
    cx: Seq<char>,
    cy: Seq<char>,
    rx: Seq<char>,
    ry: Seq<char>,
    d: Seq<char>,
) -> Seq<char> {
    "<path d=\"M"@ + cx + ","@ + cy + " m-"@ + rx + ",0 a"@ + rx + ","@ + ry + " 0 1,0 "@ + d
        + ",0 a"@ + rx + ","@ + ry + " 0 1,0 -"@ + d + ",0\"/>"@
}

/// The path that traces the circle `tag` describes, its missing attributes
/// taken as `0`, with `diameter` written for twice its radius.
pub open spec fn circle_tag_path(tag: Seq<char>, diameter: Seq<char>) -> Seq<char> {
    let r = attr_or_zero(tag, "r"@);
    ellipse_path(attr_or_zero(tag, "cx"@), attr_or_zero(tag, "cy"@), r, r, diameter)
}

/// The path that traces the ellipse `tag` describes, its missing attributes
/// taken as `0`, with `diameter` written for twice its horizontal radius.
pub open spec fn ellipse_tag_path(tag: Seq<char>, diameter: Seq<char>) -> Seq<char> {
    ellipse_path(
        attr_or_zero(tag, "cx"@),
        attr_or_zero(tag, "cy"@),
        attr_or_zero(tag, "rx"@),
        attr_or_zero(tag, "ry"@),
        diameter,
    )
}

/// A circle and an ellipse whose centres read the same and whose two radii
/// both read as the circle's radius trace the same path, for the same
/// diameter.
pub proof fn law_circle_is_ellipse_with_equal_radii(
    circle: Seq<char>,
    ellipse: Seq<char>,
    diameter: Seq<char>,
)
    requires
        attr_or_zero(ellipse, "cx"@) == attr_or_zero(circle, "cx"@),
        attr_or_zero(ellipse, "cy"@) == attr_or_zero(circle, "cy"@),
        attr_or_zero(ellipse, "rx"@) == attr_or_zero(circle, "r"@),
        attr_or_zero(ellipse, "ry"@) == attr_or_zero(circle, "r"@),
    ensures
        ellipse_tag_path(ellipse, diameter) == circle_tag_path(circle, diameter),
{
}

/// The path element for an ellipse centred at (`cx`, `cy`) with radii `rx`
/// and `ry`, `diameter` being twice `rx` as a number written out.
pub fn ellipse_path_from(cx: &str, cy: &str, rx: &str, ry: &str, diameter: &str) -> (res: String)
    ensures
        res@ == ellipse_path(cx@, cy@, rx@, ry@, diameter@),
{
    let mut out = string_from("<path d=\"M");
    out.append(cx);
    out.append(",");
    out.append(cy);
    out.append(" m-");
    out.append(rx);
    out.append(",0 a");
    out.append(rx);
    out.append(",");
    out.append(ry);
    out.append(" 0 1,0 ");
    out.append(diameter);
    out.append(",0 a");
    out.append(rx);
    out.append(",");
    out.append(ry);
    out.append(" 0 1,0 -");
    out.append(diameter);
    out.append(",0\"/>");
    out
}

/// The radius of the circle `tag` describes, `"0"` where it has none: the
/// number whose double a caller passes to [`circle_to_path`].
pub fn circle_radius(tag: &str) -> (res: String)
    ensures
        res@ == attr_or_zero(tag@, "r"@),
{
    attribute_or_zero(tag, "r")
}

/// The horizontal radius of the ellipse `tag` describes, `"0"` where it has
/// none: the number whose double a caller passes to [`ellipse_to_path`].
pub fn ellipse_radius_x(tag: &str) -> (res: String)
    ensures
        res@ == attr_or_zero(tag@, "rx"@),
{
    attribute_or_zero(tag, "rx")
}

/// Rewrites a `<circle>` tag as a path element; `diameter` is twice the
/// circle's radius ([`circle_radius`]) as a number written out.
pub fn circle_to_path(tag: &str, diameter: &str) -> (res: String)
    ensures
        res@ == circle_tag_path(tag@, diameter@),
{
    let cx = attribute_or_zero(tag, "cx");
    let cy = attribute_or_zero(tag, "cy");
    let r = attribute_or_zero(tag, "r");
    ellipse_path_from(cx.as_str(), cy.as_str(), r.as_str(), r.as_str(), diameter)
}

/// Rewrites an `<ellipse>` tag as a path element; `diameter` is twice the
/// ellipse's horizontal radius ([`ellipse_radius_x`]) as a number written out.
pub fn ellipse_to_path(tag: &str, diameter: &str) -> (res: String)
    ensures
        res@ == ellipse_tag_path(tag@, diameter@),
{
    let cx = attribute_or_zero(tag, "cx");
    let cy = attribute_or_zero(tag, "cy");
    let rx = attribute_or_zero(tag, "rx");
    let ry = attribute_or_zero(tag, "ry");
    ellipse_path_from(cx.as_str(), cy.as_str(), rx.as_str(), ry.as_str(), diameter)
}

// ----------------------------------------------------------------------------
// Lines
// ----------------------------------------------------------------------------

/// `<path d="M{x1},{y1} L{x2},{y2}"/>`
pub open spec fn line_path(x1: Seq<char>, y1: Seq<char>, x2: Seq<char>, y2: Seq<char>) -> Seq<
    char,
> {
    "<path d=\"M"@ + x1 + ","@ + y1 + " L"@ + x2 + ","@ + y2 + "\"/>"@
}

/// The path that traces the line `tag` describes, its missing attributes
/// taken as `0`.
pub open spec fn line_tag_path(tag: Seq<char>) -> Seq<char> {
    line_path(
        attr_or_zero(tag, "x1"@),
        attr_or_zero(tag, "y1"@),
        attr_or_zero(tag, "x2"@),
        attr_or_zero(tag, "y2"@),
    )
}

/// The path element for the line from (`x1`, `y1`) to (`x2`, `y2`).
pub fn line_path_from(x1: &str, y1: &str, x2: &str, y2: &str) -> (res: String)
    ensures
        res@ == line_path(x1@, y1@, x2@, y2@),
{
    let mut out = string_from("<path d=\"M");
    out.append(x1);
    out.append(",");
    out.append(y1);
    out.append(" L");
    out.append(x2);
    out.append(",");
    out.append(y2);
    out.append("\"/>");
    out
}

/// Rewrites a `<line>` tag as a path element.
pub fn line_to_path(tag: &str) -> (res: String)
    ensures
        res@ == line_tag_path(tag@),
{
    let x1 = attribute_or_zero(tag, "x1");
    let y1 = attribute_or_zero(tag, "y1");
    let x2 = attribute_or_zero(tag, "x2");
    let y2 = attribute_or_zero(tag, "y2");
    line_path_from(x1.as_str(), y1.as_str(), x2.as_str(), y2.as_str())
}

// ----------------------------------------------------------------------------
// Polylines and polygons
// ----------------------------------------------------------------------------

/// ` L{p}` for each point `p`, in order.
pub open spec fn line_tos(points: Seq<Seq<char>>) -> Seq<char>
    decreases points.len(),
{
    if points.len() == 0 {
        seq![]
    } else {
        line_tos(points.drop_last()) + " L"@ + points.last()
    }
}

/// The path element through the white-space separated `points`, closed when
/// `close` holds: `<path d="M{p0} L{p1} ... L{pn}[ Z]"/>`; empty when there
/// are no points.
pub open spec fn polyline_path(points: Seq<char>, close: bool) -> Seq<char> {
    let parts = split_ws(points);
    if parts.len() == 0 {
        seq![]
    } else {
        "<path d=\"M"@ + parts[0] + line_tos(parts.drop_first()) + (if close {
            " Z"@
        } else {
            seq![]
        }) + "\"/>"@
    }
}

/// The path that traces the polyline or polygon `tag` describes; empty where
/// it has no points.
pub open spec fn polyline_tag_path(tag: Seq<char>, close: bool) -> Seq<char> {
    match extract_spec(tag, "points"@) {
        Some(points) => polyline_path(points, close),
        None => seq![],
    }
}

/// The path element through `points`, closed when `close` holds.
pub fn polyline_path_from(points: &str, close: bool) -> (res: String)
    ensures
        res@ == polyline_path(points@, close),
{
    let parts = split_whitespace(&chars_of(points));
    if parts.len() == 0 {
        return String::new();
    }
    let ghost ps = views(parts@);
    let mut d = chars_of("<path d=\"M");
    push_chars(&mut d, &parts[0]);
    let ghost head = d@;
    let mut i: usize = 1;
    assert(ps.drop_first().take(0) =~= Seq::<Seq<char>>::empty());
    while i < parts.len()
        invariant
            1 <= i <= parts@.len(),
            ps == views(parts@),
            d@ == head + line_tos(ps.drop_first().take(i - 1)),
        decreases parts@.len() - i,
    {
        push_str(&mut d, " L");
        push_chars(&mut d, &parts[i]);
        proof {
            let t = ps.drop_first().take(i as int);
            assert(t.drop_last() == ps.drop_first().take(i - 1));
            assert(t.last() == parts@[i as int]@);
        }
        i += 1;
    }
    assert(ps.drop_first().take(parts@.len() - 1) == ps.drop_first());
    if close {
        push_str(&mut d, " Z");
    } else {
        assert(d@ + Seq::<char>::empty() == d@);
    }
    push_str(&mut d, "\"/>");
    string_of(&d)
}

/// Rewrites a `<polyline>` (or, with `close`, a `<polygon>`) tag as a path
/// element; empty where the tag has no points.
pub fn polyline_to_path(tag: &str, close: bool) -> (res: String)
    ensures
        res@ == polyline_tag_path(tag@, close),
{
    match extract(tag, "points") {
        Some(points) => polyline_path_from(points.as_str(), close),
        None => String::new(),
    }
}

// ----------------------------------------------------------------------------
// Whole documents
// ----------------------------------------------------------------------------

/// The patterns whose matches are cut out of a document before its shapes
/// are read: definitions, group tags, and transform, style, stroke and fill
/// attributes.
pub open spec fn removal_patterns() -> Seq<Seq<char>> {
    seq![
        "<defs[\\s\\S]*?</defs>"@,
        "<g[^>]*>"@,
        "</g>"@,
        "transform=\"[^\"]*\""@,
        "style=\"[^\"]*\""@,
        "stroke=\"[^\"]*\""@,
        "fill=\"[^\"]*\""@,
    ]
}

/// `content` with every match of each pattern of `patterns`, in turn,
/// replaced by nothing; `None` where a pattern is not accepted.
pub open spec fn strip_all(content: Seq<char>, patterns: Seq<Seq<char>>) -> Option<Seq<char>>
    decreases patterns.len(),
{
    if patterns.len() == 0 {
        Some(content)
    } else if regex_accepts(patterns[0]) {
        strip_all(regex_replace_all(patterns[0], content, ""@), patterns.drop_first())
    } else {
        None
    }
}

/// The pattern of `<rect>` tags.
pub open spec fn rect_pattern() -> Seq<char> {
    "<rect\\b[^>]*/?>"@
}

/// The pattern of `<circle>` tags.
pub open spec fn circle_pattern() -> Seq<char> {
    "<circle\\b[^>]*/?>"@
}

/// The pattern of `<ellipse>` tags.
pub open spec fn ellipse_pattern() -> Seq<char> {
    "<ellipse\\b[^>]*/?>"@
}

/// The pattern of `<line>` tags.
pub open spec fn line_pattern() -> Seq<char> {
    "<line\\b[^>]*/?>"@
}

/// The pattern of `<polygon>` tags.
pub open spec fn polygon_pattern() -> Seq<char> {
    "<polygon\\b[^>]*/?>"@
}

/// The pattern of `<polyline>` tags.
pub open spec fn polyline_pattern() -> Seq<char> {
    "<polyline\\b[^>]*/?>"@
}

/// The pattern of `<path>` tags that carry a non-empty `d` attribute.
pub open spec fn path_pattern() -> Seq<char> {
    "<path\\b[^>]+d=\"[^\"]+\"[^>]*/?>"@
}

/// Whether every pattern that finds shape tags is accepted.
pub open spec fn shape_patterns_accepted() -> bool {
    &&& regex_accepts(rect_pattern())
    &&& regex_accepts(circle_pattern())
    &&& regex_accepts(ellipse_pattern())
    &&& regex_accepts(line_pattern())
    &&& regex_accepts(polygon_pattern())
    &&& regex_accepts(polyline_pattern())
    &&& regex_accepts(path_pattern())
}

/// The shape tags of a document, each kind in the order the document holds
/// them, read after the parts that [`removal_patterns`] match were cut out.
pub struct SvgScan {
    /// The document as it was given.
    pub source: String,
    pub rects: Vec<String>,
    pub circles: Vec<String>,
    pub ellipses: Vec<String>,
    pub lines: Vec<String>,
    pub polygons: Vec<String>,
    pub polylines: Vec<String>,
    pub paths: Vec<String>,
}

/// Whether `scan` holds what scanning `content` gives.
pub open spec fn scan_of(scan: SvgScan, content: Seq<char>) -> bool {
    match strip_all(content, removal_patterns()) {
        Some(f) => {
            &&& scan.source@ == content
            &&& strs(scan.rects@) == regex_find_iter(rect_pattern(), f)
            &&& strs(scan.circles@) == regex_find_iter(circle_pattern(), f)
            &&& strs(scan.ellipses@) == regex_find_iter(ellipse_pattern(), f)
            &&& strs(scan.lines@) == regex_find_iter(line_pattern(), f)
            &&& strs(scan.polygons@) == regex_find_iter(polygon_pattern(), f)
            &&& strs(scan.polylines@) == regex_find_iter(polyline_pattern(), f)
            &&& strs(scan.paths@) == regex_find_iter(path_pattern(), f)
        },
        None => false,
    }
}

/// Cuts out every match of each pattern of `patterns`, in turn.
fn strip_patterns(content: &str, patterns: &Vec<&str>) -> (res: Option<String>)
    ensures
        opt_view(res) == strip_all(content@, patterns@.map_values(|p: &str| p@)),
{
    let ghost ps = patterns@.map_values(|p: &str| p@);
    let mut cur = string_from(content);
    assert(ps.skip(0) == ps);
    for i in 0..patterns.len()
        invariant
            ps == patterns@.map_values(|p: &str| p@),
            strip_all(content@, ps) == strip_all(cur@, ps.skip(i as int)),
    {
        assert(ps.skip(i as int).drop_first() == ps.skip(i + 1));
        assert(ps.skip(i as int)[0] == patterns@[i as int]@);
        match compile(patterns[i]) {
            Some(re) => {
                cur = re.replace_all(cur.as_str(), "");
            },
            None => {
                return None;
            },
        }
    }
    assert(ps.skip(patterns@.len() as int) =~= Seq::<Seq<char>>::empty());
    Some(cur)
}

/// Every match of `pattern` in `haystack`; `None` where the pattern is not
/// accepted.
fn find_all(pattern: &str, haystack: &str) -> (res: Option<Vec<String>>)
    ensures
        res is Some <==> regex_accepts(pattern@),
        res matches Some(v) ==> strs(v@) == regex_find_iter(pattern@, haystack@),
{
    match compile(pattern) {
        Some(re) => Some(re.find_iter(haystack)),
        None => None,
    }
}

/// Reads the shape tags of an SVG document, after cutting out definitions,
/// group tags and transform, style, stroke and fill attributes. `None` only
/// where `regex` does not accept one of the fixed patterns.
pub fn filter_and_fix_scan(content: &str) -> (res: Option<SvgScan>)
    ensures
        res is Some <==> (strip_all(content@, removal_patterns()) is Some
            && shape_patterns_accepted()),
        res matches Some(scan) ==> scan_of(scan, content@),
{
    let patterns: Vec<&str> = vec![
        "<defs[\\s\\S]*?</defs>",
        "<g[^>]*>",
        "</g>",
        "transform=\"[^\"]*\"",
        "style=\"[^\"]*\"",
        "stroke=\"[^\"]*\"",
        "fill=\"[^\"]*\"",
    ];
    assert(patterns@.map_values(|p: &str| p@) =~= removal_patterns());
    let f = match strip_patterns(content, &patterns) {
        Some(f) => f,
        None => return None,
    };
    let rects = match find_all("<rect\\b[^>]*/?>", f.as_str()) {
        Some(v) => v,
        None => return None,
    };
    let circles = match find_all("<circle\\b[^>]*/?>", f.as_str()) {
        Some(v) => v,
        None => return None,
    };
    let ellipses = match find_all("<ellipse\\b[^>]*/?>", f.as_str()) {
        Some(v) => v,
        None => return None,
    };
    let lines = match find_all("<line\\b[^>]*/?>", f.as_str()) {
        Some(v) => v,
        None => return None,
    };
    let polygons = match find_all("<polygon\\b[^>]*/?>", f.as_str()) {
        Some(v) => v,
        None => return None,
    };
    let polylines = match find_all("<polyline\\b[^>]*/?>", f.as_str()) {
        Some(v) => v,
        None => return None,
    };
    let paths = match find_all("<path\\b[^>]+d=\"[^\"]+\"[^>]*/?>", f.as_str()) {
        Some(v) => v,
        None => return None,
    };
    Some(
        SvgScan {
            source: string_from(content),
            rects,
            circles,
            ellipses,
            lines,
            polygons,
            polylines,
            paths,
        },
    )
}

/// The kinds of shape a document's path data is gathered from.
pub enum Shape {
    Rect,
    Circle,
    Ellipse,
    Line,
    Polygon,
    Polyline,
    Path,
}

/// The path element for one shape tag; `diameter` is used by circles and
/// ellipses only. A `<path>` tag stands for itself.
pub open spec fn shape_path(kind: Shape, tag: Seq<char>, diameter: Seq<char>) -> Seq<char> {
    match kind {
        Shape::Rect => rect_tag_path(tag),
        Shape::Circle => circle_tag_path(tag, diameter),
        Shape::Ellipse => ellipse_tag_path(tag, diameter),
        Shape::Line => line_tag_path(tag),
        Shape::Polygon => polyline_tag_path(tag, true),
        Shape::Polyline => polyline_tag_path(tag, false),
        Shape::Path => tag,
    }
}

/// The path elements for shape tags of one kind, in order, the `i`-th with
/// the `i`-th diameter.
pub open spec fn shape_paths(kind: Shape, tags: Seq<Seq<char>>, diameters: Seq<Seq<char>>) -> Seq<
    Seq<char>,
> {
    Seq::new(tags.len(), |i: int| shape_path(kind, tags[i], diameters[i]))
}

/// Whether shapes of this kind need a diameter.
pub open spec fn needs_diameter(kind: Shape) -> bool {
    kind is Circle || kind is Ellipse
}

/// Appends the path element of each tag of one kind.
fn push_shape_paths(
    out: &mut Vec<String>,
    kind: Shape,
    tags: &Vec<String>,
    diameters: &Vec<String>,
)
    requires
        needs_diameter(kind) ==> diameters@.len() == tags@.len(),
    ensures
        strs(final(out)@) == strs(old(out)@) + shape_paths(kind, strs(tags@), strs(diameters@)),
{
    let ghost start = strs(out@);
    let ghost all = shape_paths(kind, strs(tags@), strs(diameters@));
    for i in 0..tags.len()
        invariant
            needs_diameter(kind) ==> diameters@.len() == tags@.len(),
            all == shape_paths(kind, strs(tags@), strs(diameters@)),
            strs(out@) == start + all.take(i as int),
    {
        let tag = tags[i].as_str();
        let p = match kind {
            Shape::Rect => rect_to_path(tag),
            Shape::Circle => circle_to_path(tag, diameters[i].as_str()),
            Shape::Ellipse => ellipse_to_path(tag, diameters[i].as_str()),
            Shape::Line => line_to_path(tag),
            Shape::Polygon => polyline_to_path(tag, true),
            Shape::Polyline => polyline_to_path(tag, false),
            Shape::Path => string_from(tag),
        };
        proof {
            assert(p@ == all[i as int]);
            assert(all.take(i + 1) == all.take(i as int).push(p@));
            assert(strs(out@.push(p)) == strs(out@).push(p@));
        }
        out.push(p);
    }
    assert(all.take(tags@.len() as int) == all);
}

/// The path elements a document's shapes turn into: rectangles, circles,
/// ellipses, lines, polygons, polylines, then the `<path>` tags themselves.
pub open spec fn path_data(
    scan: SvgScan,
    circle_diameters: Seq<Seq<char>>,
    ellipse_diameters: Seq<Seq<char>>,
) -> Seq<Seq<char>> {
    shape_paths(Shape::Rect, strs(scan.rects@), seq![]) + shape_paths(
        Shape::Circle,
        strs(scan.circles@),
        circle_diameters,
    ) + shape_paths(Shape::Ellipse, strs(scan.ellipses@), ellipse_diameters) + shape_paths(
        Shape::Line,
        strs(scan.lines@),
        seq![],
    ) + shape_paths(Shape::Polygon, strs(scan.polygons@), seq![]) + shape_paths(
        Shape::Polyline,
        strs(scan.polylines@),
        seq![],
    ) + shape_paths(Shape::Path, strs(scan.paths@), seq![])
}

/// Each circle and each ellipse of a document is drawn with its own
/// diameter: the path element of the `k`-th circle is traced around its own
/// centre with its own radius and the `k`-th circle diameter, and likewise
/// for ellipses; rectangles come first and circles right after them.
pub proof fn law_each_round_shape_has_its_own_diameter(
    scan: SvgScan,
    circle_diameters: Seq<Seq<char>>,
    ellipse_diameters: Seq<Seq<char>>,
)
    requires
        circle_diameters.len() == scan.circles@.len(),
        ellipse_diameters.len() == scan.ellipses@.len(),
    ensures
        forall|k: int|
            0 <= k < scan.circles@.len() ==> {
                let tag = scan.circles@[k]@;
                let r = attr_or_zero(tag, "r"@);
                #[trigger] path_data(scan, circle_diameters, ellipse_diameters)[scan.rects@.len() + k]
                    == ellipse_path(
                    attr_or_zero(tag, "cx"@),
                    attr_or_zero(tag, "cy"@),
                    r,
                    r,
                    circle_diameters[k],
                )
            },
        forall|k: int|
            0 <= k < scan.ellipses@.len() ==> {
                let tag = scan.ellipses@[k]@;
                #[trigger] path_data(scan, circle_diameters, ellipse_diameters)[scan.rects@.len()
                    + scan.circles@.len() + k] == ellipse_path(
                    attr_or_zero(tag, "cx"@),
                    attr_or_zero(tag, "cy"@),
                    attr_or_zero(tag, "rx"@),
                    attr_or_zero(tag, "ry"@),
                    ellipse_diameters[k],
                )
            },
{
    let pd = path_data(scan, circle_diameters, ellipse_diameters);
    let a = shape_paths(Shape::Rect, strs(scan.rects@), seq![]);
    let b = shape_paths(Shape::Circle, strs(scan.circles@), circle_diameters);
    let c = shape_paths(Shape::Ellipse, strs(scan.ellipses@), ellipse_diameters);
    let rest = shape_paths(Shape::Line, strs(scan.lines@), seq![]) + shape_paths(
        Shape::Polygon,
        strs(scan.polygons@),
        seq![],
    ) + shape_paths(Shape::Polyline, strs(scan.polylines@), seq![]) + shape_paths(
        Shape::Path,
        strs(scan.paths@),
        seq![],
    );
    assert(pd =~= a + b + c + rest);
    assert forall|k: int| 0 <= k < scan.circles@.len() implies {
        let tag = scan.circles@[k]@;
        let r = attr_or_zero(tag, "r"@);
        #[trigger] pd[scan.rects@.len() + k] == ellipse_path(
            attr_or_zero(tag, "cx"@),
            attr_or_zero(tag, "cy"@),
            r,
            r,
            circle_diameters[k],
        )
    } by {
        assert((a + b + c + rest)[a.len() + k] == b[k]);
        assert(strs(scan.circles@)[k] == scan.circles@[k]@);
    }
    assert forall|k: int| 0 <= k < scan.ellipses@.len() implies {
        let tag = scan.ellipses@[k]@;
        #[trigger] pd[scan.rects@.len() + scan.circles@.len() + k] == ellipse_path(
            attr_or_zero(tag, "cx"@),
            attr_or_zero(tag, "cy"@),
            attr_or_zero(tag, "rx"@),
            attr_or_zero(tag, "ry"@),
            ellipse_diameters[k],
        )
    } by {
        assert((a + b + c + rest)[a.len() + b.len() + k] == c[k]);
        assert(strs(scan.ellipses@)[k] == scan.ellipses@[k]@);
    }
}

/// The `d` attributes of the path elements, in order, where they have one.
pub open spec fn collect_d(paths: Seq<Seq<char>>) -> Seq<Seq<char>>
    decreases paths.len(),
{
    if paths.len() == 0 {
        seq![]
    } else {
        let rest = collect_d(paths.drop_last());
        match extract_spec(paths.last(), "d"@) {
            Some(d) => rest.push(d),
            None => rest,
        }
    }
}

/// The single-path document: `<svg xmlns="http://www.w3.org/2000/svg"
/// viewBox="{view_box}">`, a newline, `<path d="{d}"/>`, a newline, `</svg>`.
pub open spec fn svg_document(view_box: Seq<char>, d: Seq<char>) -> Seq<char> {
    "<svg xmlns=\"http://www.w3.org/2000/svg\" viewBox=\""@ + view_box + "\">\n<path d=\""@ + d
        + "\"/>\n</svg>"@
}

/// What fixing a document whose source is `source` and whose joined path data
/// is `d` gives: the document, the path data and the view box; three empty
/// strings where the source has no `viewBox`.
pub open spec fn fixed_svg(source: Seq<char>, d: Seq<char>) -> (Seq<char>, Seq<char>, Seq<char>) {
    match extract_spec(source, "viewBox"@) {
        Some(view_box) => (svg_document(view_box, d), d, view_box),
        None => (seq![], seq![], seq![]),
    }
}

/// A document comes out exactly where the source has a view box; where none
/// comes out, neither path data nor view box does.
pub proof fn law_document_exactly_with_view_box(source: Seq<char>, d: Seq<char>)
    ensures
        fixed_svg(source, d).0.len() > 0 <==> extract_spec(source, "viewBox"@) is Some,
        fixed_svg(source, d).0.len() == 0 ==> fixed_svg(source, d).1.len() == 0
            && fixed_svg(source, d).2.len() == 0,
{
    reveal_strlit("<svg xmlns=\"http://www.w3.org/2000/svg\" viewBox=\"");
}

/// Turns a scanned document into a single-path document, returning it with
/// its path data and view box (three empty strings where the document has no
/// `viewBox`). Circles and ellipses take their diameters, in order, from
/// `circle_diameters` and `ellipse_diameters`: twice [`circle_radius`] and
/// [`ellipse_radius_x`] of each tag, as numbers written out.
pub fn filter_and_fix_finish(
    scan: &SvgScan,
    circle_diameters: &Vec<String>,
    ellipse_diameters: &Vec<String>,
) -> (res: (String, String, String))
    requires
        circle_diameters@.len() == scan.circles@.len(),
        ellipse_diameters@.len() == scan.ellipses@.len(),
    ensures
        (res.0@, res.1@, res.2@) == fixed_svg(
            scan.source@,
            join(collect_d(path_data(*scan, strs(circle_diameters@), strs(ellipse_diameters@))), " "@),
        ),
{
    let none: Vec<String> = Vec::new();
    let mut all: Vec<String> = Vec::new();
    push_shape_paths(&mut all, Shape::Rect, &scan.rects, &none);
    push_shape_paths(&mut all, Shape::Circle, &scan.circles, circle_diameters);
    push_shape_paths(&mut all, Shape::Ellipse, &scan.ellipses, ellipse_diameters);
    push_shape_paths(&mut all, Shape::Line, &scan.lines, &none);
    push_shape_paths(&mut all, Shape::Polygon, &scan.polygons, &none);
    push_shape_paths(&mut all, Shape::Polyline, &scan.polylines, &none);
    push_shape_paths(&mut all, Shape::Path, &scan.paths, &none);
    let ghost ps = strs(all@);
    proof {
        assert(strs(none@) =~= Seq::<Seq<char>>::empty());
        assert(ps =~= path_data(*scan, strs(circle_diameters@), strs(ellipse_diameters@)));
    }
    let mut ds: Vec<String> = Vec::new();
    for i in 0..all.len()
        invariant
            ps == strs(all@),
            strs(ds@) == collect_d(ps.take(i as int)),
    {
        proof {
            let t = ps.take(i + 1);
            assert(t.drop_last() == ps.take(i as int));
            assert(t.last() == all@[i as int]@);
        }
        match extract(all[i].as_str(), "d") {
            Some(d) => {
                proof {
                    assert(strs(ds@.push(d)) == strs(ds@).push(d@));
                }
                ds.push(d);
            },
            None => {},
        }
    }
    assert(ps.take(all@.len() as int) == ps);
    let svg_d = join_strings(&ds, " ");
    match extract(scan.source.as_str(), "viewBox") {
        Some(view_box) => {
            let mut output = string_from("<svg xmlns=\"http://www.w3.org/2000/svg\" viewBox=\"");
            output.append(view_box.as_str());
            output.append("\">\n<path d=\"");
            output.append(svg_d.as_str());
            output.append("\"/>\n</svg>");
            (output, svg_d, view_box)
        },
        None => (String::new(), String::new(), String::new()),
    }
}

// ----------------------------------------------------------------------------
// Path data clean-up
// ----------------------------------------------------------------------------

/// `haystack` with every match of `pattern` replaced by `replacement`;
/// `None` where the pattern is not accepted.
pub open spec fn replaced(pattern: Seq<char>, haystack: Seq<char>, replacement: Seq<char>) -> Option<
    Seq<char>,
> {
    if regex_accepts(pattern) {
        Some(regex_replace_all(pattern, haystack, replacement))
    } else {
        None
    }
}

/// Replaces every match of `pattern` in `haystack` by `replacement`.
pub fn regex_replace(pattern: &str, haystack: &str, replacement: &str) -> (res: Option<String>)
    ensures
        opt_view(res) == replaced(pattern@, haystack@, replacement@),
{
    match compile(pattern) {
        Some(re) => Some(re.replace_all(haystack, replacement)),
        None => None,
    }
}

/// The pattern of an arc command whose flags were written `50.0,0.0`.
pub open spec fn broken_arc_pattern() -> Seq<char> {
    "(?P<pre>a[^\\d]*[\\d.]+,[\\d.]+\\s+[\\d.]+\\s+)50\\.0,0\\.0"@
}

/// Rewrites the flags of broken arc commands (`a95.9,95.9 0.0 50.0,0.0 ...`,
/// that is `a`, anything but digits, radii `rx,ry`, a rotation, then
/// `50.0,0.0`) as `1,1`. `None` only where `regex` does not accept the fixed pattern.
pub fn fix_arc_flags(path: &str) -> (res: Option<String>)
    ensures
        opt_view(res) == replaced(broken_arc_pattern(), path@, "${pre}1,1"@),
{
    regex_replace("(?P<pre>a[^\\d]*[\\d.]+,[\\d.]+\\s+[\\d.]+\\s+)50\\.0,0\\.0", path, "${pre}1,1")
}

/// The pattern of a whole number written with a `.0` fraction.
pub open spec fn whole_number_pattern() -> Seq<char> {
    "(\\d+)\\.0\\b"@
}

/// What a match of [`whole_number_pattern`] is replaced by: its group 1.
pub open spec fn whole_number_replacement() -> Seq<char> {
    "$1"@
}

/// The characters a pattern built only from decimal-digit classes (`\d`),
/// one group, `+`, an escaped `.`, the digit `0` and word boundaries (`\b`)
/// is written with.
pub open spec fn digits_fraction_pattern_char(c: char) -> bool {
    c == '(' || c == ')' || c == '\\' || c == 'd' || c == '+' || c == '.' || c == '0' || c == 'b'
}

/// The whole-number step of [`tidy`] touches nothing but a `.0` fraction: its
/// pattern is written only with digit classes, one group, `+`, `\.`, `0` and
/// `\b`, so it holds no sign, no other class and no other literal, and it
/// starts with the group of digits `(\d+)` that the replacement `$1` puts
/// back. A `-` before a number is never part of a match and stays.
pub proof fn law_whole_number_step_keeps_signs()
    ensures
        !whole_number_pattern().contains('-'),
        forall|i: int|
            0 <= i < whole_number_pattern().len() ==> digits_fraction_pattern_char(
                #[trigger] whole_number_pattern()[i],
            ),
        whole_number_pattern().take(5) == seq!['(', '\\', 'd', '+', ')'],
        whole_number_replacement() == seq!['$', '1'],
{
    reveal_strlit("$1");
    assert(whole_number_replacement() =~= seq!['$', '1']);
    reveal_strlit("(\\d+)\\.0\\b");
    let p = whole_number_pattern();
    assert(p =~= seq!['(', '\\', 'd', '+', ')', '\\', '.', '0', '\\', 'b']);
    assert(p.take(5) =~= seq!['(', '\\', 'd', '+', ')']);
}

/// The pattern of a run of white space.
pub open spec fn spaces_pattern() -> Seq<char> {
    "\\s+"@
}

/// `s` with each whole number written with a `.0` fraction replaced by the
/// number alone (the match of [`whole_number_pattern`] by its group 1), then
/// each run of white space by one space, then trimmed; `None` where a pattern
/// is not accepted.
pub open spec fn tidy(s: Seq<char>) -> Option<Seq<char>> {
    match replaced(whole_number_pattern(), s, whole_number_replacement()) {
        Some(a) => match replaced(spaces_pattern(), a, " "@) {
            Some(b) => Some(trim(b)),
            None => None,
        },
        None => None,
    }
}

/// Tidied text neither starts nor ends with white space.
pub proof fn law_tidied_text_is_trimmed(s: Seq<char>)
    ensures
        tidy(s) matches Some(t) ==> t.len() == 0 || (!is_ws(t[0]) && !is_ws(
            t.last(),
        )),
{
    if let Some(a) = replaced(whole_number_pattern(), s, whole_number_replacement()) {
        if let Some(b) = replaced(spaces_pattern(), a, " "@) {
            lemma_trim_ends(b);
        }
    }
}

/// Applies [`tidy`].
pub(crate) fn tidy_exec(s: &str) -> (res: Option<String>)
    ensures
        opt_view(res) == tidy(s@),
{
    let a = match regex_replace("(\\d+)\\.0\\b", s, "$1") {
        Some(a) => a,
        None => return None,
    };
    let b = match regex_replace("\\s+", a.as_str(), " ") {
        Some(b) => b,
        None => return None,
    };
    Some(string_of(&trim_chars(&chars_of(b.as_str()))))
}

/// Formats path data: commas become spaces, each whole number written with a
/// `.0` fraction loses the fraction (`476.0` becomes `476`), white-space runs
/// become one space, and the ends are trimmed. `None` only where `regex` does not accept one of
/// the fixed patterns.
pub fn normalize_format(s: &str) -> (res: Option<String>)
    ensures
        opt_view(res) == tidy(replace_all(s@, ","@, " "@)),
{
    proof {
        reveal_strlit(",");
    }
    let replaced = replace_str(s, ",", " ");
    tidy_exec(replaced.as_str())
}

} // verus!
