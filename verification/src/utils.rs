//! Small decisions about paths, file names and view boxes.
use vstd::prelude::*;

use crate::text::{chars_of, opt_view, is_token, is_ws, lemma_split_single, lemma_split_token_then,
    lemma_trim_of_trimmed, parse_u32, parse_u32_spec, split_whitespace, split_ws, string_of, trim, trim_chars};

verus! {

/// `s` without the `/` characters at its end.
pub open spec fn trim_trailing_slashes(s: Seq<char>) -> Seq<char>
    decreases s.len(),
{
    if s.len() > 0 && s.last() == '/' {
        trim_trailing_slashes(s.drop_last())
    } else {
        s
    }
}

/// The last name of a path: what follows its last `/`, once the `/`s at its
/// end are set aside (`icon.svg` for `a/icon.svg`, `input` for `src/input/`).
pub open spec fn last_name(path: Seq<char>) -> Seq<char> {
    let t = trim_trailing_slashes(path);
    t.skip(last_slash(t) + 1)
}

/// Whether a name has an extension: a `.` other than its first character
/// (`..`, the parent directory, has none).
pub open spec fn has_extension(name: Seq<char>) -> bool {
    &&& name != seq!['.', '.']
    &&& exists|k: int| 1 <= k < name.len() && #[trigger] name[k] == '.'
}

/// Whether `content` names a directory rather than a file: its last name has
/// no extension (`src/input/` is a directory, `icon.svg` a file).
pub fn is_input_not_file(content: String) -> (res: bool)
    ensures
        res == !has_extension(last_name(content@)),
{
    let s = chars_of(content.as_str());
    let n = s.len();
    let mut end: usize = n;
    assert(s@.take(n as int) == s@);
    while end > 0 && s[end - 1] == '/'
        invariant
            n == s@.len(),
            end <= n,
            trim_trailing_slashes(s@) == trim_trailing_slashes(s@.take(end as int)),
        decreases end,
    {
        assert(s@.take(end as int).drop_last() == s@.take(end - 1));
        end -= 1;
    }
    let ghost t = s@.take(end as int);
    assert(trim_trailing_slashes(t) == t);
    let mut start: usize = end;
    assert(t.take(end as int) == t);
    while start > 0 && s[start - 1] != '/'
        invariant
            n == s@.len(),
            start <= end <= n,
            t == s@.take(end as int),
            last_slash(t) == last_slash(t.take(start as int)),
        decreases start,
    {
        assert(t.take(start as int).drop_last() == t.take(start - 1));
        assert(t.take(start as int).last() == s@[start - 1]);
        start -= 1;
    }
    proof {
        if start > 0 {
            assert(t.take(start as int).last() == '/');
        } else {
            assert(t.take(0) =~= Seq::<char>::empty());
        }
        assert(last_slash(t) == start - 1);
    }
    let ghost name = t.skip(start as int);
    assert(name == s@.subrange(start as int, end as int));
    assert(name == last_name(content@));
    if end - start == 2 && s[start] == '.' && s[start + 1] == '.' {
        assert(name =~= seq!['.', '.']);
        return true;
    }
    assert(name != seq!['.', '.']) by {
        if name == seq!['.', '.'] {
            assert(name.len() == 2);
            assert(name[0] == s@[start as int]);
            assert(name[1] == s@[start + 1]);
        }
    }
    let mut k: usize = start + 1;
    while k < end
        invariant
            start + 1 <= k,
            start <= end <= n,
            name == last_name(content@),
            name != seq!['.', '.'],
            n == s@.len(),
            name == s@.subrange(start as int, end as int),
            forall|q: int| 1 <= q < k - start && q < name.len() ==> name[q] != '.',
        decreases end - k,
    {
        if s[k] == '.' {
            assert(name[k - start] == '.');
            return false;
        }
        k += 1;
    }
    proof {
        assert forall|q: int| 1 <= q < name.len() implies #[trigger] name[q] != '.' by {
        }
    }
    true
}

/// Whether a path is one relative component on every platform: non-empty,
/// with no separator (`/`, `\\`) and no drive prefix (`:`).
pub open spec fn one_relative_component(path: Seq<char>) -> bool {
    path.len() > 0 && !path.contains('/') && !path.contains('\\') && !path.contains(':')
}

/// Whether `c` is a component that stays in the components of a path on
/// every platform wherever it stands: one relative component other than `.`
/// (a name, dots inside it allowed, or `..`).
pub open spec fn plain_component(c: Seq<char>) -> bool {
    one_relative_component(c) && c != seq!['.']
}

/// Whether `d` is a directory path whose text is exactly its components
/// joined by single `/`, possibly after a root `/`: no `\\`, no `:`, no two
/// `/` in a row, no `/` at its end, and no `.` component except a first one
/// (`Path::components` drops repeated separators, a trailing separator and
/// every `.` but a leading one; here there is none of those to drop).
pub open spec fn plain_directory(d: Seq<char>) -> bool {
    &&& d.len() > 0
    &&& !d.contains('\\')
    &&& !d.contains(':')
    &&& forall|i: int| 0 <= i < d.len() && #[trigger] d[i] == '/' ==> i + 1 < d.len() && d[i + 1] != '/'
    &&& forall|i: int|
        #![trigger d[i]]
        0 < i < d.len() && d[i] == '.' && d[i - 1] == '/' ==> i + 1 < d.len() && d[i + 1] != '/'
}

/// The position of the last `/` of `s`, or `-1` where it has none.
pub open spec fn last_slash(s: Seq<char>) -> int
    decreases s.len(),
{
    if s.len() == 0 {
        -1
    } else if s.last() == '/' {
        s.len() - 1
    } else {
        last_slash(s.drop_last())
    }
}

/// The parent of `path` where the documentation of `Path::parent` ("the path
/// without its final component"; `None` for the empty path and for a root;
/// the empty path for one relative component) and of `Path::components`
/// settle its text the same way on every platform: `Some(p)` with `p` the
/// parent (`None` for no parent); `None` where it is left open, that is
/// where the platform decides (`\\`, `:`) or where the components are
/// normalised and the documentation does not say which text the parent keeps
/// (repeated or trailing `/`, `.` components after the first).
pub open spec fn documented_parent(path: Seq<char>) -> Option<Option<Seq<char>>> {
    let k = last_slash(path);
    let name = path.skip(k + 1);
    if path.len() == 0 || path == seq!['/'] {
        Some(None)
    } else if one_relative_component(path) {
        Some(Some(Seq::<char>::empty()))
    } else if k == 0 && plain_component(name) {
        Some(Some(seq!['/']))
    } else if k > 0 && plain_component(name) && plain_directory(path.take(k)) {
        Some(Some(path.take(k)))
    } else {
        None
    }
}

/// Whether `p` is a beginning of `s` that is shorter than `s`.
pub open spec fn is_proper_prefix(p: Seq<char>, s: Seq<char>) -> bool {
    p.len() < s.len() && p == s.take(p.len() as int)
}

/// Calls `std::path::Path::new(path).parent()` and writes the parent out.
/// How a path splits into components depends on the platform, so the
/// contract states only what the documentation settles for every platform
/// ([`documented_parent`]): no parent for the empty path and for `/`, the
/// empty parent for one relative component, and, for components joined by
/// single `/`, the path without its last component. Wherever there is a parent, it is
/// the path without its final component, so a proper prefix of the path.
#[verifier::external_body]
fn path_parent(path: &str) -> (res: Option<String>)
    ensures
        documented_parent(path@) matches Some(p) ==> opt_view(res) == p,
        res matches Some(p) ==> is_proper_prefix(p@, path@),
{
    match std::path::Path::new(path).parent() {
        Some(p) => Some(p.to_string_lossy().to_string()),
        None => None,
    }
}

/// The directory part of a path: its parent, or the empty string where it
/// has none. It is always a beginning of the path, shorter than a non-empty
/// path.
pub fn remove_filename(path_str: &str) -> (res: String)
    ensures
        res@ == path_str@.take(res@.len() as int),
        path_str@.len() > 0 ==> res@.len() < path_str@.len(),
        documented_parent(path_str@) matches Some(p) ==> res@ == match p {
            Some(q) => q,
            None => Seq::<char>::empty(),
        },
{
    match path_parent(path_str) {
        Some(p) => p,
        None => String::new(),
    }
}

/// The `index`-th of exactly four white-space separated numbers of a view
/// box; `0` where there are not exactly four parts or that part is no `u32`.
pub open spec fn viewbox_part(viewbox: Seq<char>, index: int) -> u32 {
    let parts = split_ws(trim(viewbox));
    if parts.len() == 4 {
        match parse_u32_spec(parts[index]) {
            Some(v) => v,
            None => 0,
        }
    } else {
        0
    }
}

/// The width of a view box of four parts `min-x min-y width height` is read
/// from its third part alone and the height from its fourth alone: whatever
/// the other parts are (negative origins too), a third part that is a `u32`
/// is the width and a fourth part that is a `u32` is the height, and two view
/// boxes with the same third (fourth) part have the same width (height).
pub proof fn law_sides_read_from_their_own_parts(
    v1: Seq<char>,
    v2: Seq<char>,
    a1: Seq<char>,
    b1: Seq<char>,
    c1: Seq<char>,
    d1: Seq<char>,
    a2: Seq<char>,
    b2: Seq<char>,
    c2: Seq<char>,
    d2: Seq<char>,
)
    requires
        split_ws(trim(v1)) == seq![a1, b1, c1, d1],
        split_ws(trim(v2)) == seq![a2, b2, c2, d2],
    ensures
        parse_u32_spec(c1) matches Some(w) ==> viewbox_part(v1, 2) == w,
        parse_u32_spec(d1) matches Some(h) ==> viewbox_part(v1, 3) == h,
        c1 == c2 ==> viewbox_part(v1, 2) == viewbox_part(v2, 2),
        d1 == d2 ==> viewbox_part(v1, 3) == viewbox_part(v2, 3),
{
    assert(split_ws(trim(v1))[2] == c1);
    assert(split_ws(trim(v1))[3] == d1);
    assert(split_ws(trim(v2))[2] == c2);
    assert(split_ws(trim(v2))[3] == d2);
}

/// For a view box of four parts `a b c d`, the height is the width of the
/// view box `a b d c`, its last two parts swapped.
pub proof fn law_height_is_width_with_sides_swapped(
    viewbox: Seq<char>,
    a: Seq<char>,
    b: Seq<char>,
    c: Seq<char>,
    d: Seq<char>,
)
    requires
        split_ws(trim(viewbox)) == seq![a, b, c, d],
        is_token(a),
        is_token(b),
        is_token(c),
        is_token(d),
    ensures
        viewbox_part(viewbox, 3) == viewbox_part(
            a + seq![' '] + b + seq![' '] + d + seq![' '] + c,
            2,
        ),
{
    let sp = seq![' '];
    let swapped = a + sp + b + sp + d + sp + c;
    assert(swapped =~= a + sp + (b + sp + (d + sp + c)));
    lemma_split_single(c);
    lemma_split_token_then(d, c);
    lemma_split_token_then(b, d + sp + c);
    lemma_split_token_then(a, b + sp + (d + sp + c));
    assert(swapped[0] == a[0]);
    assert(swapped.last() == c.last());
    assert(!is_ws(c[c.len() - 1]));
    lemma_trim_of_trimmed(swapped);
    assert(seq![a] + (seq![b] + (seq![d] + seq![c])) =~= seq![a, b, d, c]);
}

/// Reads the `index`-th number of a view box (see [`viewbox_part`]).
fn viewbox_number(viewbox: &str, index: usize) -> (res: u32)
    requires
        index < 4,
    ensures
        res == viewbox_part(viewbox@, index as int),
{
    let parts = split_whitespace(&trim_chars(&chars_of(viewbox)));
    if parts.len() == 4 {
        match parse_u32(&parts[index]) {
            Some(v) => v,
            None => 0,
        }
    } else {
        0
    }
}

/// The width of a view box `min-x min-y width height`; `0` where it is not
/// four parts or the width is no `u32`.
pub fn extract_viewbox_width(viewbox: String) -> (res: u32)
    ensures
        res == viewbox_part(viewbox@, 2),
{
    viewbox_number(viewbox.as_str(), 2)
}

/// The height of a view box `min-x min-y width height`; `0` where it is not
/// four parts or the height is no `u32`.
pub fn extract_viewbox_height(viewbox: String) -> (res: u32)
    ensures
        res == viewbox_part(viewbox@, 3),
{
    viewbox_number(viewbox.as_str(), 3)
}

/// The whole-number factor that brings a view box of the given width and
/// height within the 1000 units of a glyph: the smaller of `1000 / width`
/// and `1000 / height`.
pub fn glyph_scale(view_box_w: u32, view_box_h: u32) -> (res: u32)
    requires
        view_box_w > 0,
        view_box_h > 0,
    ensures
        res == if 1000u32 / view_box_w <= 1000u32 / view_box_h {
            1000u32 / view_box_w
        } else {
            1000u32 / view_box_h
        },
        res * view_box_w <= 1000,
        res * view_box_h <= 1000,
{
    let scale_x: u32 = 1000u32 / view_box_w;
    let scale_y: u32 = 1000u32 / view_box_h;
    assert(scale_x * view_box_w <= 1000) by (nonlinear_arith)
        requires
            scale_x == 1000u32 / view_box_w,
            view_box_w > 0,
    ;
    assert(scale_y * view_box_h <= 1000) by (nonlinear_arith)
        requires
            scale_y == 1000u32 / view_box_h,
            view_box_h > 0,
    ;
    assert(scale_x <= scale_y ==> scale_x * view_box_h <= scale_y * view_box_h) by (nonlinear_arith);
    assert(scale_y <= scale_x ==> scale_y * view_box_w <= scale_x * view_box_w) by (nonlinear_arith);
    if scale_x <= scale_y {
        scale_x
    } else {
        scale_y
    }
}

/// Where a fixed file is written: the output directory, `fixed_`, then the
/// file's name.
pub fn fixed_output_path(output: &str, file_name: &str) -> (res: String)
    ensures
        res@ == output@ + "fixed_"@ + file_name@,
{
    let mut path = output.to_owned();
    path.append("fixed_");
    path.append(file_name);
    path
}

/// Whether a file name has the extension `svg`: the part after its last `.`,
/// where that `.` is not its first character.
pub open spec fn has_svg_extension(file_name: Seq<char>) -> bool {
    exists|k: int|
        1 <= k < file_name.len() && file_name[k] == '.' && file_name.skip(k + 1) == "svg"@
}

/// Whether a file name has the extension `svg` (see [`has_svg_extension`]).
pub fn is_svg_file_name(file_name: &str) -> (res: bool)
    ensures
        res == has_svg_extension(file_name@),
{
    proof {
        reveal_strlit("svg");
    }
    let v = chars_of(file_name);
    let n = v.len();
    if n < 5 {
        proof {
            assert forall|k: int| 1 <= k < file_name@.len() && file_name@[k] == '.' implies file_name@.skip(k + 1) != "svg"@ by {
                assert(file_name@.skip(k + 1).len() < 3);
            }
        }
        return false;
    }
    let res = v[n - 4] == '.' && v[n - 3] == 's' && v[n - 2] == 'v' && v[n - 1] == 'g';
    proof {
        if res {
            assert(file_name@.skip(n - 3) =~= "svg"@);
        } else {
            assert forall|k: int| 1 <= k < file_name@.len() && file_name@[k] == '.' implies file_name@.skip(k + 1) != "svg"@ by {
                if file_name@.skip(k + 1) == "svg"@ {
                    assert("svg"@.len() == 3);
                    assert(file_name@.skip(k + 1).len() == 3);
                    assert(k == n - 4);
                    assert(file_name@.skip(k + 1)[0] == v@[n - 3]);
                    assert(file_name@.skip(k + 1)[1] == v@[n - 2]);
                    assert(file_name@.skip(k + 1)[2] == v@[n - 1]);
                }
            }
        }
    }
    res
}

} // verus!
