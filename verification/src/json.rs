//! Keeping a fontello configuration: ordering its glyphs and adding new ones.
use vstd::prelude::*;

use crate::fontello_data::{FontelloConfig, Glyph, SvgData};
use crate::text::{
    lemma_replace_all_absent, lemma_replace_all_draws_from, lemma_replace_all_removes, replace_all, replace_str, string_from,
};

verus! {

// ----------------------------------------------------------------------------
// Ordering glyphs by code
// ----------------------------------------------------------------------------

/// Whether the glyphs are in increasing order of code.
pub open spec fn sorted_by_code(s: Seq<Glyph>) -> bool {
    forall|i: int, j: int| 0 <= i < j < s.len() ==> s[i].code <= s[j].code
}

/// The glyphs of `s` whose code is `c`, in the order of `s`.
pub open spec fn with_code(s: Seq<Glyph>, c: u32) -> Seq<Glyph>
    decreases s.len(),
{
    if s.len() == 0 {
        seq![]
    } else if s.last().code == c {
        with_code(s.drop_last(), c).push(s.last())
    } else {
        with_code(s.drop_last(), c)
    }
}

/// Whether `out` is `inp` stably sorted by code: in increasing order of code,
/// and, for each code, holding the same glyphs in the same order as `inp`.
pub open spec fn is_stable_sort_by_code(out: Seq<Glyph>, inp: Seq<Glyph>) -> bool {
    &&& sorted_by_code(out)
    &&& forall|c: u32| #[trigger] with_code(out, c) == with_code(inp, c)
}

proof fn lemma_with_code_add(a: Seq<Glyph>, b: Seq<Glyph>, c: u32)
    ensures
        with_code(a + b, c) == with_code(a, c) + with_code(b, c),
    decreases b.len(),
{
    if b.len() == 0 {
        assert(a + b == a);
        assert(with_code(a, c) + seq![] == with_code(a, c));
    } else {
        lemma_with_code_add(a, b.drop_last(), c);
        assert((a + b).drop_last() == a + b.drop_last());
        assert((a + b).last() == b.last());
        if b.last().code == c {
            assert(with_code(a, c) + with_code(b.drop_last(), c).push(b.last()) == (with_code(a, c)
                + with_code(b.drop_last(), c)).push(b.last()));
        }
    }
}

proof fn lemma_with_code_single(g: Glyph, c: u32)
    ensures
        with_code(seq![g], c) == (if g.code == c {
            seq![g]
        } else {
            seq![]
        }),
{
    assert(seq![g].drop_last() == Seq::<Glyph>::empty());
    assert(seq![g].last() == g);
    assert(with_code(Seq::<Glyph>::empty(), c) == Seq::<Glyph>::empty());
    assert(Seq::<Glyph>::empty().push(g) == seq![g]);
}

proof fn lemma_with_code_none(s: Seq<Glyph>, c: u32)
    requires
        forall|k: int| 0 <= k < s.len() ==> s[k].code != c,
    ensures
        with_code(s, c) == Seq::<Glyph>::empty(),
    decreases s.len(),
{
    if s.len() > 0 {
        lemma_with_code_none(s.drop_last(), c);
    }
}

proof fn lemma_with_code_found(s: Seq<Glyph>, c: u32)
    requires
        with_code(s, c).len() > 0,
    ensures
        exists|k: int| 0 <= k < s.len() && s[k].code == c,
    decreases s.len(),
{
    if s.last().code != c {
        lemma_with_code_found(s.drop_last(), c);
        let k = choose|k: int| 0 <= k < s.len() - 1 && s.drop_last()[k].code == c;
        assert(s[k] == s.drop_last()[k]);
    }
}

proof fn lemma_with_code_multiset(s: Seq<Glyph>, g: Glyph)
    ensures
        s.to_multiset().count(g) == with_code(s, g.code).to_multiset().count(g),
    decreases s.len(),
{
    broadcast use vstd::seq_lib::group_to_multiset_ensures;

    if s.len() == 0 {
        assert(with_code(s, g.code) == s);
    } else {
        let l = s.last();
        let d = s.drop_last();
        lemma_with_code_multiset(d, g);
        assert(s == d.push(l));
        if l.code == g.code {
            assert(with_code(s, g.code) == with_code(d, g.code).push(l));
        }
    }
}

/// Two sequences sorted by code that hold, for every code, the same glyphs in
/// the same order, are equal.
proof fn lemma_sorted_by_code_equal(x: Seq<Glyph>, y: Seq<Glyph>)
    requires
        sorted_by_code(x),
        sorted_by_code(y),
        forall|c: u32| #[trigger] with_code(x, c) == with_code(y, c),
    ensures
        x == y,
    decreases x.len() + y.len(),
{
    if x.len() == 0 && y.len() == 0 {
        assert(x =~= y);
    } else if x.len() == 0 {
        assert(with_code(y, y.last().code).len() > 0);
        assert(with_code(x, y.last().code) == x);
    } else if y.len() == 0 {
        assert(with_code(x, x.last().code).len() > 0);
        assert(with_code(y, x.last().code) == y);
    } else {
        let cx = x.last().code;
        let cy = y.last().code;
        assert(with_code(x, cx).len() > 0);
        assert(with_code(y, cy).len() > 0);
        lemma_with_code_found(y, cx);
        lemma_with_code_found(x, cy);
        let ky = choose|k: int| 0 <= k < y.len() && y[k].code == cx;
        let kx = choose|k: int| 0 <= k < x.len() && x[k].code == cy;
        if ky < y.len() - 1 {
            assert(y[ky].code <= y[y.len() - 1].code);
        }
        if kx < x.len() - 1 {
            assert(x[kx].code <= x[x.len() - 1].code);
        }
        assert(cx == cy);
        let wx = with_code(x.drop_last(), cx);
        let wy = with_code(y.drop_last(), cx);
        assert(wx.push(x.last()) == wy.push(y.last()));
        assert(wx.push(x.last()).last() == x.last());
        assert(wy.push(y.last()).last() == y.last());
        assert(wx.push(x.last()).drop_last() == wx);
        assert(wy.push(y.last()).drop_last() == wy);
        assert forall|c: u32| #[trigger] with_code(x.drop_last(), c) == with_code(y.drop_last(), c) by {
            if c != cx {
                assert(with_code(x, c) == with_code(x.drop_last(), c));
                assert(with_code(y, c) == with_code(y.drop_last(), c));
            }
        }
        lemma_sorted_by_code_equal(x.drop_last(), y.drop_last());
        assert(x == x.drop_last().push(x.last()));
        assert(y == y.drop_last().push(y.last()));
    }
}

/// Stable sorting by code has one outcome: two stable sorts of the same
/// glyphs are equal.
pub proof fn law_stable_sort_is_unique(glyphs: Seq<Glyph>, x: Seq<Glyph>, y: Seq<Glyph>)
    requires
        is_stable_sort_by_code(x, glyphs),
        is_stable_sort_by_code(y, glyphs),
    ensures
        x == y,
{
    lemma_sorted_by_code_equal(x, y);
}

/// Sorting glyphs again changes nothing: ordering the glyphs of a
/// configuration whose glyphs were just ordered gives them back.
pub proof fn law_sorting_twice_is_sorting_once(glyphs: Seq<Glyph>, once: Seq<Glyph>, twice: Seq<Glyph>)
    requires
        is_stable_sort_by_code(once, glyphs),
        is_stable_sort_by_code(twice, once),
    ensures
        twice == once,
{
    lemma_sorted_by_code_equal(twice, once);
}

/// Sorting keeps every glyph: the sorted glyphs are the same glyphs, each as
/// many times.
pub proof fn law_sorting_keeps_glyphs(glyphs: Seq<Glyph>, sorted: Seq<Glyph>)
    requires
        is_stable_sort_by_code(sorted, glyphs),
    ensures
        sorted.to_multiset() == glyphs.to_multiset(),
{
    assert forall|g: Glyph| sorted.to_multiset().count(g) == glyphs.to_multiset().count(g) by {
        lemma_with_code_multiset(sorted, g);
        lemma_with_code_multiset(glyphs, g);
        assert(with_code(sorted, g.code) == with_code(glyphs, g.code));
    }
    assert(sorted.to_multiset() =~= glyphs.to_multiset());
}

/// Sorts glyphs by code, keeping glyphs with equal codes in their order.
fn sort_glyphs_by_code(glyphs: Vec<Glyph>) -> (res: Vec<Glyph>)
    ensures
        is_stable_sort_by_code(res@, glyphs@),
{
    let ghost input = glyphs@;
    let mut rest = glyphs;
    let mut out: Vec<Glyph> = Vec::new();
    assert forall|c: u32| #[trigger] with_code(out@, c) == with_code(input.skip(input.len() as int), c) by {
        assert(input.skip(input.len() as int) == Seq::<Glyph>::empty());
    }
    while rest.len() > 0
        invariant
            rest@ == input.take(rest@.len() as int),
            rest@.len() <= input.len(),
            sorted_by_code(out@),
            forall|c: u32| #[trigger] with_code(out@, c) == with_code(input.skip(rest@.len() as int), c),
        decreases rest@.len(),
    {
        let ghost n = rest@.len() as int;
        let g = rest.pop().unwrap();
        assert(g == input[n - 1]);
        assert(rest@ == input.take(n - 1));
        let mut p: usize = 0;
        while p < out.len() && out[p].code < g.code
            invariant
                p <= out@.len(),
                forall|k: int| 0 <= k < p ==> out@[k].code < g.code,
            decreases out@.len() - p,
        {
            p += 1;
        }
        let ghost old_out = out@;
        assert forall|k: int| p <= k < old_out.len() implies old_out[k].code >= g.code by {
            assert(old_out[p as int].code >= g.code);
        }
        out.insert(p, g);
        proof {
            let pre = old_out.take(p as int);
            let post = old_out.skip(p as int);
            assert(old_out == pre + post);
            assert(out@ == pre + seq![g] + post);
            assert(input.skip(n - 1) == seq![g] + input.skip(n));
            assert forall|c: u32| #[trigger] with_code(out@, c) == with_code(input.skip(n - 1), c) by {
                lemma_with_code_add(pre + seq![g], post, c);
                lemma_with_code_add(pre, seq![g], c);
                lemma_with_code_add(pre, post, c);
                lemma_with_code_add(seq![g], input.skip(n), c);
                lemma_with_code_single(g, c);
                if c == g.code {
                    lemma_with_code_none(pre, c);
                    assert(Seq::<Glyph>::empty() + seq![g] + with_code(post, c) == seq![g] + (
                    Seq::<Glyph>::empty() + with_code(post, c)));
                } else {
                    assert(with_code(pre, c) + Seq::<Glyph>::empty() + with_code(post, c)
                        == with_code(pre, c) + with_code(post, c));
                    assert(Seq::<Glyph>::empty() + with_code(input.skip(n), c) == with_code(input.skip(n), c));
                }
            }
            assert forall|i: int, j: int| 0 <= i < j < out@.len() implies out@[i].code
                <= out@[j].code by {
                if j < p {
                } else if j == p {
                } else if i < p {
                    assert(out@[j] == old_out[j - 1]);
                } else if i == p {
                    assert(out@[j] == old_out[j - 1]);
                } else {
                    assert(out@[i] == old_out[i - 1]);
                    assert(out@[j] == old_out[j - 1]);
                }
            }
        }
    }
    assert(input.skip(0) == input);
    out
}

/// The configuration with its glyphs in increasing order of code; glyphs
/// with equal codes keep their order. Everything else stays as it is.
pub fn reload_config(model: FontelloConfig, sortable: String) -> (res: FontelloConfig)
    ensures
        res.name == model.name,
        res.css_prefix_text == model.css_prefix_text,
        res.css_use_suffix == model.css_use_suffix,
        res.hinting == model.hinting,
        res.units_per_em == model.units_per_em,
        res.ascent == model.ascent,
        is_stable_sort_by_code(res.glyphs@, model.glyphs@),
{
    let FontelloConfig {
        name,
        css_prefix_text,
        css_use_suffix,
        hinting,
        units_per_em,
        ascent,
        glyphs,
    } = model;
    FontelloConfig {
        name,
        css_prefix_text,
        css_use_suffix,
        hinting,
        units_per_em,
        ascent,
        glyphs: sort_glyphs_by_code(glyphs),
    }
}

// ----------------------------------------------------------------------------
// Adding glyphs
// ----------------------------------------------------------------------------

/// The CSS name made from a file name: `-` becomes `_`, then `.svg` is cut
/// out, then spaces become `_`.
pub open spec fn css_name(css: Seq<char>) -> Seq<char> {
    replace_all(replace_all(replace_all(css, "-"@, "_"@), ".svg"@, ""@), " "@, "_"@)
}

/// The code a new glyph gets: one past the last glyph's code, or `2` when
/// there are no glyphs.
pub open spec fn next_code(glyphs: Seq<Glyph>) -> int {
    if glyphs.len() == 0 {
        2
    } else {
        glyphs.last().code + 1
    }
}

/// Whether a glyph has the CSS name `name`.
pub open spec fn has_css(glyphs: Seq<Glyph>, name: Seq<char>) -> bool {
    exists|k: int| 0 <= k < glyphs.len() && #[trigger] glyphs[k].css@ == name
}

/// Whether `g` is the glyph added under the CSS name `name` with code `code`,
/// outline `svg` and identifier `uid`: its source is `custom_icons`, it is
/// selected, and its search terms are its name alone.
pub open spec fn is_new_glyph(g: Glyph, name: Seq<char>, code: int, svg: SvgData, uid: String) -> bool {
    &&& g.uid == uid
    &&& g.css@ == name
    &&& g.code == code
    &&& g.src@ == "custom_icons"@
    &&& g.selected
    &&& g.svg == svg
    &&& g.search@.len() == 1
    &&& g.search@[0]@ == name
}

/// Whether `res` is what adding a glyph for the file name `css` with outline
/// `svg` and identifier `uid` to `model` gives: `model` itself where a glyph
/// has the CSS name already, else `model` with the new glyph after its others.
pub open spec fn glyph_added(
    model: FontelloConfig,
    css: Seq<char>,
    svg: SvgData,
    uid: String,
    res: FontelloConfig,
) -> bool {
    let name = css_name(css);
    if has_css(model.glyphs@, name) {
        res == model
    } else {
        &&& res.name == model.name
        &&& res.css_prefix_text == model.css_prefix_text
        &&& res.css_use_suffix == model.css_use_suffix
        &&& res.hinting == model.hinting
        &&& res.units_per_em == model.units_per_em
        &&& res.ascent == model.ascent
        &&& res.glyphs@.len() == model.glyphs@.len() + 1
        &&& res.glyphs@.drop_last() == model.glyphs@
        &&& is_new_glyph(res.glyphs@.last(), name, next_code(model.glyphs@), svg, uid)
    }
}

/// Whether the next code of these glyphs fits in a `u32`.
pub open spec fn next_code_fits(glyphs: Seq<Glyph>) -> bool {
    glyphs.len() == 0 || glyphs.last().code < u32::MAX
}

/// The CSS name made from a file name (see [`css_name`]).
pub fn css_name_of(css: &str) -> (res: String)
    ensures
        res@ == css_name(css@),
{
    proof {
        reveal_strlit("-");
        reveal_strlit(".svg");
        reveal_strlit(" ");
    }
    let a = replace_str(css, "-", "_");
    let b = replace_str(a.as_str(), ".svg", "");
    replace_str(b.as_str(), " ", "_")
}

/// Adds a glyph for the file name `css` with outline `svg` and identifier
/// `uid`, unless a glyph has its CSS name already.
pub fn add_glyph_with_uid(model: FontelloConfig, css: String, svg: SvgData, uid: String) -> (res:
    FontelloConfig)
    requires
        next_code_fits(model.glyphs@),
    ensures
        glyph_added(model, css@, svg, uid, res),
{
    let n = model.glyphs.len();
    let last_id: u32 = if n > 0 {
        model.glyphs[n - 1].code
    } else {
        1
    };
    let name = css_name_of(css.as_str());
    let mut k: usize = 0;
    while k < n
        invariant
            n == model.glyphs@.len(),
            name@ == css_name(css@),
            k <= n,
            forall|q: int| 0 <= q < k ==> model.glyphs@[q].css@ != name@,
        decreases n - k,
    {
        if model.glyphs[k].css == name {
            assert(model.glyphs@[k as int].css@ == css_name(css@));
            return model;
        }
        k += 1;
    }
    let mut search: Vec<String> = Vec::new();
    search.push(name.clone());
    let glyph = Glyph {
        code: last_id + 1,
        css: name,
        src: string_from("custom_icons"),
        search,
        selected: true,
        svg,
        uid,
    };
    let ghost old_glyphs = model.glyphs@;
    let mut res = model;
    res.glyphs.push(glyph);
    assert(res.glyphs@.drop_last() == old_glyphs);
    res
}

/// A lower-case hexadecimal digit.
pub open spec fn is_lower_hex(c: char) -> bool {
    ('0' <= c && c <= '9') || ('a' <= c && c <= 'f')
}

/// A version 4 UUID in hyphenated lower-case form: 36 characters, `-` at
/// positions 8, 13, 18 and 23, lower-case hexadecimal digits elsewhere, the
/// version digit `4` at position 14 and the variant digit (`8`, `9`, `a` or
/// `b`) at position 19.
pub open spec fn is_uuid_v4_text(s: Seq<char>) -> bool {
    &&& s.len() == 36
    &&& forall|i: int|
        0 <= i < 36 ==> if i == 8 || i == 13 || i == 18 || i == 23 {
            #[trigger] s[i] == '-'
        } else {
            is_lower_hex(s[i])
        }
    &&& s[14] == '4'
    &&& (s[19] == '8' || s[19] == '9' || s[19] == 'a' || s[19] == 'b')
}

/// Calls `uuid::Uuid::new_v4()` and writes the identifier out with
/// `to_string`, in uuid's hyphenated lower-case form. The value is random, so
/// nothing ties it to anything; every outcome has the version 4 form
/// ([`is_uuid_v4_text`]): `new_v4` sets the version and variant bits of a
/// random number, and `Display` writes it hyphenated in lower case. (uuid
/// panics where the operating system gives no random bytes.)
#[verifier::external_body]
fn new_uid() -> (res: String)
    ensures
        is_uuid_v4_text(res@),
{
    uuid::Uuid::new_v4().to_string()
}

/// Adds a glyph for the file name `css` with outline `svg` and a new random
/// identifier, unless a glyph has its CSS name already. (Drawing the
/// identifier panics where the operating system gives no random bytes.)
pub fn add_glyph(model: FontelloConfig, css: String, svg: SvgData) -> (res: FontelloConfig)
    requires
        next_code_fits(model.glyphs@),
    ensures
        has_css(model.glyphs@, css_name(css@)) ==> res == model,
        !has_css(model.glyphs@, css_name(css@)) ==> glyph_added(
            model,
            css@,
            svg,
            res.glyphs@.last().uid,
            res,
        ) && is_uuid_v4_text(res.glyphs@.last().uid@),
{
    let uid = new_uid();
    add_glyph_with_uid(model, css, svg, uid)
}

// ----------------------------------------------------------------------------
// What adding glyphs keeps
// ----------------------------------------------------------------------------

/// A CSS name made from a file name holds no `-` and no space.
pub proof fn law_css_name_has_no_hyphen_or_space(css: Seq<char>)
    ensures
        !css_name(css).contains('-'),
        !css_name(css).contains(' '),
{
    reveal_strlit("-");
    reveal_strlit("_");
    reveal_strlit(".svg");
    reveal_strlit("");
    reveal_strlit(" ");
    let a = replace_all(css, "-"@, "_"@);
    let b = replace_all(a, ".svg"@, ""@);
    assert("-"@ == seq!['-']);
    assert(" "@ == seq![' ']);
    assert(!"_"@.contains('-'));
    assert(!"_"@.contains(' '));
    assert(!""@.contains('-'));
    lemma_replace_all_removes(css, '-', "_"@);
    if b.contains('-') {
        lemma_replace_all_draws_from(a, ".svg"@, ""@, '-');
    }
    lemma_replace_all_removes(b, ' ', "_"@);
    if css_name(css).contains('-') {
        lemma_replace_all_draws_from(b, " "@, "_"@, '-');
    }
}

/// A file name with no `-`, no space and no `.svg` in it is its own CSS name:
/// nothing but those is rewritten.
pub proof fn law_plain_file_name_is_its_own_css_name(css: Seq<char>)
    requires
        !css.contains('-'),
        !css.contains(' '),
        forall|i: int| 0 <= i && i + 4 <= css.len() ==> #[trigger] css.subrange(i, i + 4) != ".svg"@,
    ensures
        css_name(css) == css,
{
    reveal_strlit("-");
    reveal_strlit(".svg");
    reveal_strlit(" ");
    assert forall|i: int| 0 <= i && i + 1 <= css.len() implies #[trigger] css.subrange(i, i + 1) != "-"@ by {
        if css.subrange(i, i + 1) == "-"@ {
            assert(css.subrange(i, i + 1)[0] == css[i]);
        }
    }
    lemma_replace_all_absent(css, "-"@, "_"@);
    assert(".svg"@.len() == 4);
    lemma_replace_all_absent(css, ".svg"@, ""@);
    assert forall|i: int| 0 <= i && i + 1 <= css.len() implies #[trigger] css.subrange(i, i + 1) != " "@ by {
        if css.subrange(i, i + 1) == " "@ {
            assert(css.subrange(i, i + 1)[0] == css[i]);
        }
    }
    lemma_replace_all_absent(css, " "@, "_"@);
}

/// Once a glyph is added for a file name, adding one for the same file name
/// again changes nothing.
pub proof fn law_adding_a_name_twice_adds_it_once(
    model: FontelloConfig,
    css: Seq<char>,
    svg1: SvgData,
    uid1: String,
    once: FontelloConfig,
    svg2: SvgData,
    uid2: String,
    twice: FontelloConfig,
)
    requires
        glyph_added(model, css, svg1, uid1, once),
        glyph_added(once, css, svg2, uid2, twice),
    ensures
        twice == once,
{
    let name = css_name(css);
    if !has_css(model.glyphs@, name) {
        let k = once.glyphs@.len() - 1;
        assert(once.glyphs@[k].css@ == name);
    }
}

/// Added to glyphs ordered by code (as [`reload_config`] leaves them), a new
/// glyph's code is above every other glyph's code.
pub proof fn law_added_code_is_above_sorted_codes(
    model: FontelloConfig,
    css: Seq<char>,
    svg: SvgData,
    uid: String,
    res: FontelloConfig,
)
    requires
        glyph_added(model, css, svg, uid, res),
        sorted_by_code(model.glyphs@),
        !has_css(model.glyphs@, css_name(css)),
    ensures
        forall|k: int|
            0 <= k < res.glyphs@.len() - 1 ==> #[trigger] res.glyphs@[k].code < res.glyphs@.last().code,
{
    let n = model.glyphs@.len();
    assert forall|k: int| 0 <= k < res.glyphs@.len() - 1 implies #[trigger] res.glyphs@[k].code
        < res.glyphs@.last().code by {
        assert(res.glyphs@[k] == model.glyphs@[k]);
        if k < n - 1 {
            assert(model.glyphs@[k].code <= model.glyphs@[n - 1].code);
        }
    }
}

/// Whether no two glyphs share a CSS name.
pub open spec fn css_names_distinct(glyphs: Seq<Glyph>) -> bool {
    forall|i: int, j: int|
        0 <= i < glyphs.len() && 0 <= j < glyphs.len() && i != j ==> glyphs[i].css@ != glyphs[j].css@
}

/// Adding a glyph keeps the CSS names of a configuration distinct.
pub proof fn law_adding_keeps_css_names_distinct(
    model: FontelloConfig,
    css: Seq<char>,
    svg: SvgData,
    uid: String,
    res: FontelloConfig,
)
    requires
        glyph_added(model, css, svg, uid, res),
        css_names_distinct(model.glyphs@),
    ensures
        css_names_distinct(res.glyphs@),
{
    let name = css_name(css);
    if !has_css(model.glyphs@, name) {
        let g = res.glyphs@;
        let n = model.glyphs@.len();
        assert forall|i: int, j: int|
            0 <= i < g.len() && 0 <= j < g.len() && i != j implies g[i].css@ != g[j].css@ by {
            if i < n && j < n {
                assert(g[i] == model.glyphs@[i]);
                assert(g[j] == model.glyphs@[j]);
            } else if i < n {
                assert(g[i] == model.glyphs@[i]);
                assert(g[j].css@ == name);
            } else {
                assert(g[j] == model.glyphs@[j]);
                assert(g[i].css@ == name);
            }
        }
    }
}

/// Whether the glyphs' codes strictly increase.
pub open spec fn codes_increase(glyphs: Seq<Glyph>) -> bool {
    forall|i: int, j: int| 0 <= i < j < glyphs.len() ==> glyphs[i].code < glyphs[j].code
}

/// Adding a glyph keeps the codes of a configuration strictly increasing:
/// the new glyph's code is past every other.
pub proof fn law_adding_keeps_codes_increasing(
    model: FontelloConfig,
    css: Seq<char>,
    svg: SvgData,
    uid: String,
    res: FontelloConfig,
)
    requires
        glyph_added(model, css, svg, uid, res),
        codes_increase(model.glyphs@),
    ensures
        codes_increase(res.glyphs@),
{
    let name = css_name(css);
    if !has_css(model.glyphs@, name) {
        let g = res.glyphs@;
        let n = model.glyphs@.len();
        assert forall|i: int, j: int| 0 <= i < j < g.len() implies g[i].code < g[j].code by {
            assert(g[i] == model.glyphs@[i]);
            if j < n {
                assert(g[j] == model.glyphs@[j]);
            } else if i < n - 1 {
                assert(model.glyphs@[i].code < model.glyphs@[n - 1].code);
            }
        }
    }
}

} // verus!
