use vstd::prelude::*;

verus! {

// ----------------------------------------------------------------------------
// Conversions between strings and character vectors
// ----------------------------------------------------------------------------

/// The characters of `s`, in order.
pub fn chars_of(s: &str) -> (res: Vec<char>)
    ensures
        res@ == s@,
{
    let mut res: Vec<char> = Vec::new();
    for c in it: s.chars()
        invariant
            res@ == it.seq().take(it.index() as int),
    {
        res.push(c);
    }
    res
}

/// Collects characters into a `String` (`String: FromIterator<&char>`); the
/// string holds exactly the given characters, in order.
#[verifier::external_body]
pub fn string_of(v: &Vec<char>) -> (res: String)
    ensures
        res@ == v@,
{
    v.iter().collect()
}

/// A `String` holding the characters of `s`.
pub fn string_from(s: &str) -> (res: String)
    ensures
        res@ == s@,
{
    s.to_owned()
}

/// The view of an optional string.
pub open spec fn opt_view(o: Option<String>) -> Option<Seq<char>> {
    match o {
        Some(s) => Some(s@),
        None => None,
    }
}

/// The views of a sequence of strings.
pub open spec fn strs(v: Seq<String>) -> Seq<Seq<char>> {
    v.map_values(|m: String| m@)
}

/// `parts` joined with `sep` between each two neighbours: what `join` gives.
pub open spec fn join(parts: Seq<Seq<char>>, sep: Seq<char>) -> Seq<char>
    decreases parts.len(),
{
    if parts.len() == 0 {
        seq![]
    } else if parts.len() == 1 {
        parts[0]
    } else {
        join(parts.drop_last(), sep) + sep + parts.last()
    }
}

/// Joins strings with `sep` between each two neighbours.
pub fn join_strings(parts: &Vec<String>, sep: &str) -> (res: String)
    ensures
        res@ == join(strs(parts@), sep@),
{
    let mut out = String::new();
    let ghost ps = strs(parts@);
    for i in 0..parts.len()
        invariant
            ps == strs(parts@),
            out@ == join(ps.take(i as int), sep@),
    {
        proof {
            let t = ps.take(i + 1);
            assert(t.drop_last() == ps.take(i as int));
            assert(t.last() == parts@[i as int]@);
            if i == 0 {
                assert(t.len() == 1);
            }
        }
        if i > 0 {
            out.append(sep);
        }
        out.append(parts[i].as_str());
    }
    assert(ps.take(parts@.len() as int) == ps);
    out
}

/// Appends the characters of `s` to `v`.
pub fn push_str(v: &mut Vec<char>, s: &str)
    ensures
        final(v)@ == old(v)@ + s@,
{
    let mut tail = chars_of(s);
    v.append(&mut tail);
}

/// Appends the characters of `w` to `v`.
pub fn push_chars(v: &mut Vec<char>, w: &Vec<char>)
    ensures
        final(v)@ == old(v)@ + w@,
{
    let mut tail: Vec<char> = Vec::new();
    for i in 0..w.len()
        invariant
            tail@ == w@.take(i as int),
    {
        tail.push(w[i]);
    }
    assert(w@.take(w@.len() as int) == w@);
    v.append(&mut tail);
}

/// A copy of `w[from..to]`.
pub fn slice_chars(w: &Vec<char>, from: usize, to: usize) -> (res: Vec<char>)
    requires
        from <= to <= w@.len(),
    ensures
        res@ == w@.subrange(from as int, to as int),
{
    let mut res: Vec<char> = Vec::new();
    let mut i = from;
    while i < to
        invariant
            from <= i <= to <= w@.len(),
            res@ == w@.subrange(from as int, i as int),
        decreases to - i,
    {
        res.push(w[i]);
        i += 1;
    }
    res
}

// ----------------------------------------------------------------------------
// White space
// ----------------------------------------------------------------------------

/// The Unicode `White_Space` property, which is what `char::is_whitespace`
/// tests and what `str::split_whitespace` and `str::trim` split and cut at.
pub open spec fn is_ws(c: char) -> bool {
    ||| c == ' '
    ||| ('\t' <= c && c <= '\r')
    ||| c == '\u{85}'
    ||| c == '\u{A0}'
    ||| c == '\u{1680}'
    ||| ('\u{2000}' <= c && c <= '\u{200A}')
    ||| c == '\u{2028}'
    ||| c == '\u{2029}'
    ||| c == '\u{202F}'
    ||| c == '\u{205F}'
    ||| c == '\u{3000}'
}

/// Executable form of [`is_ws`].
pub fn is_whitespace(c: char) -> (res: bool)
    ensures
        res == is_ws(c),
{
    c == ' ' || ('\t' <= c && c <= '\r') || c == '\u{85}' || c == '\u{A0}' || c == '\u{1680}'
        || ('\u{2000}' <= c && c <= '\u{200A}') || c == '\u{2028}' || c == '\u{2029}'
        || c == '\u{202F}' || c == '\u{205F}' || c == '\u{3000}'
}

/// The length of the run of non-white-space characters that starts `s`.
pub open spec fn token_len(s: Seq<char>) -> nat
    decreases s.len(),
{
    if s.len() == 0 || is_ws(s[0]) {
        0
    } else {
        1 + token_len(s.drop_first())
    }
}

/// The maximal runs of non-white-space characters of `s`, in order: what
/// `str::split_whitespace` yields.
pub open spec fn split_ws(s: Seq<char>) -> Seq<Seq<char>>
    decreases s.len(),
{
    if s.len() == 0 {
        seq![]
    } else if is_ws(s[0]) {
        split_ws(s.drop_first())
    } else {
        let n = token_len(s);
        proof {
            lemma_token_len_bounded(s);
        }
        seq![s.take(n as int)] + split_ws(s.skip(n as int))
    }
}

/// The views of a vector of character vectors.
pub open spec fn views(v: Seq<Vec<char>>) -> Seq<Seq<char>> {
    v.map_values(|t: Vec<char>| t@)
}

pub proof fn lemma_token_len_bounded(s: Seq<char>)
    ensures
        token_len(s) <= s.len(),
        s.len() > 0 && !is_ws(s[0]) ==> token_len(s) > 0,
    decreases s.len(),
{
    if s.len() > 0 && !is_ws(s[0]) {
        lemma_token_len_bounded(s.drop_first());
    }
}

proof fn lemma_token_len(x: Seq<char>, m: int)
    requires
        0 <= m <= x.len(),
        forall|k: int| 0 <= k < m ==> !is_ws(#[trigger] x[k]),
        m == x.len() || is_ws(x[m]),
    ensures
        token_len(x) == m,
    decreases m,
{
    if m > 0 {
        lemma_token_len(x.drop_first(), m - 1);
    }
}

/// A non-empty run of characters other than white space.
pub open spec fn is_token(t: Seq<char>) -> bool {
    t.len() > 0 && forall|k: int| 0 <= k < t.len() ==> !is_ws(#[trigger] t[k])
}

/// A token, a space, then the rest splits into the token and the rest's parts.
pub proof fn lemma_split_token_then(t: Seq<char>, rest: Seq<char>)
    requires
        is_token(t),
    ensures
        split_ws(t + seq![' '] + rest) == seq![t] + split_ws(rest),
{
    let s = t + seq![' '] + rest;
    let m = t.len() as int;
    assert forall|k: int| 0 <= k < m implies !is_ws(#[trigger] s[k]) by {
        assert(s[k] == t[k]);
    }
    assert(s[m] == ' ');
    lemma_token_len(s, m);
    assert(!is_ws(s[0])) by {
        assert(s[0] == t[0]);
    }
    assert(s.take(m) =~= t);
    let after = seq![' '] + rest;
    assert(s.skip(m) =~= after);
    assert(after.drop_first() =~= rest);
    assert(s.len() > 0);
    assert(split_ws(s) == seq![s.take(token_len(s) as int)] + split_ws(s.skip(token_len(s) as int)));
    assert(after.len() > 0 && is_ws(after[0]));
    assert(split_ws(after) == split_ws(after.drop_first()));
}

/// A token alone splits into itself.
pub proof fn lemma_split_single(t: Seq<char>)
    requires
        is_token(t),
    ensures
        split_ws(t) == seq![t],
{
    lemma_token_len(t, t.len() as int);
    assert(t.take(t.len() as int) =~= t);
    assert(t.skip(t.len() as int) =~= Seq::<char>::empty());
    assert(!is_ws(t[0]));
    assert(split_ws(t) == seq![t.take(token_len(t) as int)] + split_ws(t.skip(token_len(t) as int)));
    assert(split_ws(Seq::<char>::empty()) == Seq::<Seq<char>>::empty());
    assert(seq![t] + Seq::<Seq<char>>::empty() =~= seq![t]);
}

/// Text that neither starts nor ends with white space is its own trim.
pub proof fn lemma_trim_of_trimmed(s: Seq<char>)
    requires
        s.len() > 0,
        !is_ws(s[0]),
        !is_ws(s.last()),
    ensures
        trim(s) == s,
{
}

/// `str::split_whitespace` on a character vector.
pub fn split_whitespace(s: &Vec<char>) -> (res: Vec<Vec<char>>)
    ensures
        views(res@) == split_ws(s@),
{
    let n = s.len();
    let mut res: Vec<Vec<char>> = Vec::new();
    let mut i: usize = 0;
    assert(s@.skip(0) == s@);
    while i < n
        invariant
            n == s@.len(),
            i <= n,
            split_ws(s@) == views(res@) + split_ws(s@.skip(i as int)),
        decreases n - i,
    {
        let ghost rest = s@.skip(i as int);
        assert(rest.drop_first() == s@.skip(i + 1));
        if is_whitespace(s[i]) {
            i += 1;
        } else {
            let start = i;
            while i < n && !is_whitespace(s[i])
                invariant
                    n == s@.len(),
                    start <= i <= n,
                    forall|k: int| start <= k < i ==> !is_ws(#[trigger] s@[k]),
                decreases n - i,
            {
                i += 1;
            }
            let tok = slice_chars(s, start, i);
            proof {
                let m = (i - start) as int;
                assert forall|k: int| 0 <= k < m implies !is_ws(#[trigger] rest[k]) by {
                    assert(rest[k] == s@[start + k]);
                }
                lemma_token_len(rest, m);
                assert(rest.take(m) == tok@);
                assert(rest.skip(m) == s@.skip(i as int));
                assert(views(res@.push(tok)) == views(res@).push(tok@));
            }
            res.push(tok);
        }
    }
    assert(s@.skip(n as int) =~= Seq::<char>::empty());
    assert(views(res@) + seq![] == views(res@));
    res
}

/// `s` without its leading white space.
pub open spec fn trim_start(s: Seq<char>) -> Seq<char>
    decreases s.len(),
{
    if s.len() > 0 && is_ws(s[0]) {
        trim_start(s.drop_first())
    } else {
        s
    }
}

/// `s` without its trailing white space.
pub open spec fn trim_end(s: Seq<char>) -> Seq<char>
    decreases s.len(),
{
    if s.len() > 0 && is_ws(s.last()) {
        trim_end(s.drop_last())
    } else {
        s
    }
}

/// `s` without leading and trailing white space: what `str::trim` gives.
pub open spec fn trim(s: Seq<char>) -> Seq<char> {
    trim_end(trim_start(s))
}

proof fn lemma_trim_start(s: Seq<char>)
    ensures
        trim_start(s).len() == 0 || !is_ws(trim_start(s)[0]),
    decreases s.len(),
{
    if s.len() > 0 && is_ws(s[0]) {
        lemma_trim_start(s.drop_first());
    }
}

proof fn lemma_trim_end(x: Seq<char>)
    ensures
        trim_end(x).len() == 0 || !is_ws(trim_end(x).last()),
        trim_end(x).len() <= x.len(),
        trim_end(x) == x.take(trim_end(x).len() as int),
        x.len() > 0 && !is_ws(x[0]) ==> trim_end(x).len() > 0,
    decreases x.len(),
{
    if x.len() > 0 && is_ws(x.last()) {
        lemma_trim_end(x.drop_last());
        assert(x.drop_last().take(trim_end(x).len() as int) =~= x.take(trim_end(x).len() as int));
        if x.len() > 1 {
            assert(x.drop_last()[0] == x[0]);
        }
    } else {
        assert(x.take(x.len() as int) == x);
    }
}

/// Trimmed text neither starts nor ends with white space.
pub proof fn lemma_trim_ends(s: Seq<char>)
    ensures
        trim(s).len() == 0 || (!is_ws(trim(s)[0]) && !is_ws(trim(s).last())),
{
    lemma_trim_start(s);
    let x = trim_start(s);
    lemma_trim_end(x);
    if trim(s).len() > 0 {
        assert(trim(s) == x.take(trim(s).len() as int));
        assert(x.take(trim(s).len() as int)[0] == x[0]);
    }
}

/// `str::trim` on a character vector.
pub fn trim_chars(s: &Vec<char>) -> (res: Vec<char>)
    ensures
        res@ == trim(s@),
{
    let n = s.len();
    let mut i: usize = 0;
    assert(s@.skip(0) == s@);
    while i < n && is_whitespace(s[i])
        invariant
            n == s@.len(),
            i <= n,
            trim_start(s@) == trim_start(s@.skip(i as int)),
        decreases n - i,
    {
        assert(s@.skip(i as int).drop_first() == s@.skip(i + 1));
        i += 1;
    }
    let ghost t = s@.skip(i as int);
    assert(trim_start(t) == t);
    let mut j: usize = n;
    assert(t == s@.subrange(i as int, n as int));
    while j > i && is_whitespace(s[j - 1])
        invariant
            n == s@.len(),
            i <= j <= n,
            trim_end(t) == trim_end(s@.subrange(i as int, j as int)),
        decreases j,
    {
        assert(s@.subrange(i as int, j as int).drop_last() == s@.subrange(i as int, j - 1));
        j -= 1;
    }
    slice_chars(s, i, j)
}

// ----------------------------------------------------------------------------
// Replacing
// ----------------------------------------------------------------------------

/// Every non-overlapping occurrence of `from` in `s`, taken from left to
/// right, replaced by `to`: what `str::replace` gives for a non-empty `from`.
pub open spec fn replace_all(s: Seq<char>, from: Seq<char>, to: Seq<char>) -> Seq<char>
    decreases s.len(),
{
    if s.len() == 0 {
        s
    } else if from.len() > 0 && from.len() <= s.len() && s.take(from.len() as int) == from {
        to + replace_all(s.skip(from.len() as int), from, to)
    } else {
        seq![s[0]] + replace_all(s.drop_first(), from, to)
    }
}

/// Replacing brings in no characters but those of `s` and of `to`.
pub proof fn lemma_replace_all_draws_from(s: Seq<char>, from: Seq<char>, to: Seq<char>, x: char)
    requires
        replace_all(s, from, to).contains(x),
    ensures
        s.contains(x) || to.contains(x),
    decreases s.len(),
{
    let r = replace_all(s, from, to);
    let i = choose|i: int| 0 <= i < r.len() && r[i] == x;
    if s.len() == 0 {
    } else if from.len() > 0 && from.len() <= s.len() && s.take(from.len() as int) == from {
        let rest = replace_all(s.skip(from.len() as int), from, to);
        assert(r == to + rest);
        if i < to.len() {
            assert(to[i] == x);
        } else {
            assert(rest[i - to.len()] == x);
            lemma_replace_all_draws_from(s.skip(from.len() as int), from, to, x);
            if s.skip(from.len() as int).contains(x) {
                let j = choose|j: int| 0 <= j < s.skip(from.len() as int).len() && s.skip(from.len() as int)[j] == x;
                assert(s[j + from.len()] == x);
            }
        }
    } else {
        let rest = replace_all(s.drop_first(), from, to);
        assert(r == seq![s[0]] + rest);
        if i == 0 {
            assert(s[0] == x);
        } else {
            assert(rest[i - 1] == x);
            lemma_replace_all_draws_from(s.drop_first(), from, to, x);
            if s.drop_first().contains(x) {
                let j = choose|j: int| 0 <= j < s.drop_first().len() && s.drop_first()[j] == x;
                assert(s[j + 1] == x);
            }
        }
    }
}

/// Where `from` does not occur, replacing changes nothing.
pub proof fn lemma_replace_all_absent(s: Seq<char>, from: Seq<char>, to: Seq<char>)
    requires
        from.len() > 0,
        forall|i: int| 0 <= i && i + from.len() <= s.len() ==> #[trigger] s.subrange(i, i + from.len()) != from,
    ensures
        replace_all(s, from, to) == s,
    decreases s.len(),
{
    if s.len() > 0 {
        let d = s.drop_first();
        if from.len() <= s.len() {
            assert(s.subrange(0, 0int + from.len()) != from);
            assert(s.take(from.len() as int) == s.subrange(0, from.len() as int));
        }
        assert forall|i: int| 0 <= i && i + from.len() <= d.len() implies #[trigger] d.subrange(i, i + from.len()) != from by {
            assert(d.subrange(i, i + from.len()) == s.subrange(i + 1, i + 1 + from.len()));
        }
        lemma_replace_all_absent(d, from, to);
        assert(replace_all(s, from, to) == seq![s[0]] + replace_all(d, from, to));
        assert(seq![s[0]] + d == s);
    }
}

/// Replacing every `c` by a text without `c` leaves no `c`.
pub proof fn lemma_replace_all_removes(s: Seq<char>, c: char, to: Seq<char>)
    requires
        !to.contains(c),
    ensures
        !replace_all(s, seq![c], to).contains(c),
    decreases s.len(),
{
    let r = replace_all(s, seq![c], to);
    if s.len() > 0 {
        if s.take(1) == seq![c] {
            let rest = replace_all(s.skip(1), seq![c], to);
            lemma_replace_all_removes(s.skip(1), c, to);
            assert(r == to + rest);
            assert forall|i: int| 0 <= i < r.len() implies r[i] != c by {
                if i < to.len() {
                    assert(r[i] == to[i]);
                } else {
                    assert(r[i] == rest[i - to.len()]);
                }
            }
        } else {
            assert(s[0] != c) by {
                if s[0] == c {
                    assert(s.take(1) =~= seq![c]);
                }
            }
            let rest = replace_all(s.drop_first(), seq![c], to);
            lemma_replace_all_removes(s.drop_first(), c, to);
            assert(r == seq![s[0]] + rest);
            assert forall|i: int| 0 <= i < r.len() implies r[i] != c by {
                if i > 0 {
                    assert(r[i] == rest[i - 1]);
                }
            }
        }
    }
}

/// Whether `from` occurs in `s` at position `i`.
fn occurs_at(s: &Vec<char>, i: usize, from: &Vec<char>) -> (res: bool)
    requires
        i <= s@.len(),
    ensures
        res == (from@.len() <= s@.len() - i && s@.subrange(i as int, i + from@.len()) == from@),
{
    if from.len() > s.len() - i {
        return false;
    }
    let m = from.len();
    let n = s.len();
    for k in 0..m
        invariant
            m == from@.len(),
            n == s@.len(),
            i + from@.len() <= s@.len(),
            forall|q: int| 0 <= q < k ==> s@[i + q] == from@[q],
    {
        assert(i + k < s@.len());
        if s[i + k] != from[k] {
            assert(s@.subrange(i as int, i + from@.len())[k as int] != from@[k as int]);
            return false;
        }
    }
    assert(s@.subrange(i as int, i + from@.len()) =~= from@);
    true
}

/// `str::replace` on character vectors, for a non-empty `from`.
pub fn replace_chars(s: &Vec<char>, from: &Vec<char>, to: &Vec<char>) -> (res: Vec<char>)
    requires
        from@.len() > 0,
    ensures
        res@ == replace_all(s@, from@, to@),
{
    let n = s.len();
    let mut out: Vec<char> = Vec::new();
    let mut i: usize = 0;
    assert(s@.skip(0) == s@);
    while i < n
        invariant
            n == s@.len(),
            i <= n,
            from@.len() > 0,
            replace_all(s@, from@, to@) == out@ + replace_all(s@.skip(i as int), from@, to@),
        decreases n - i,
    {
        let ghost rest = s@.skip(i as int);
        if occurs_at(s, i, from) {
            proof {
                assert(rest.take(from@.len() as int) == s@.subrange(i as int, i + from@.len()));
                assert(rest.skip(from@.len() as int) == s@.skip(i + from@.len()));
                assert(out@ + to@ + replace_all(s@.skip(i + from@.len()), from@, to@)
                    == out@ + (to@ + replace_all(s@.skip(i + from@.len()), from@, to@)));
            }
            push_chars(&mut out, to);
            i += from.len();
        } else {
            proof {
                if from@.len() <= rest.len() {
                    assert(rest.take(from@.len() as int) == s@.subrange(i as int, i + from@.len()));
                }
                assert(rest.drop_first() == s@.skip(i + 1));
                assert(out@.push(s@[i as int]) + replace_all(s@.skip(i + 1), from@, to@)
                    == out@ + (seq![s@[i as int]] + replace_all(s@.skip(i + 1), from@, to@)));
            }
            out.push(s[i]);
            i += 1;
        }
    }
    assert(s@.skip(n as int) =~= Seq::<char>::empty());
    out
}

/// `str::replace` on a string, for a non-empty `from`.
pub fn replace_str(s: &str, from: &str, to: &str) -> (res: String)
    requires
        from@.len() > 0,
    ensures
        res@ == replace_all(s@, from@, to@),
{
    let sv = chars_of(s);
    let fv = chars_of(from);
    let tv = chars_of(to);
    string_of(&replace_chars(&sv, &fv, &tv))
}

// ----------------------------------------------------------------------------
// Decimal numbers
// ----------------------------------------------------------------------------

/// An ASCII decimal digit.
pub open spec fn is_digit(c: char) -> bool {
    '0' <= c && c <= '9'
}

/// The value of a string of decimal digits.
pub open spec fn digits_value(s: Seq<char>) -> nat
    decreases s.len(),
{
    if s.len() == 0 {
        0
    } else {
        (digits_value(s.drop_last()) * 10 + (s.last() as int - '0' as int)) as nat
    }
}

/// `s` without one leading `+`.
pub open spec fn unsigned_digits(s: Seq<char>) -> Seq<char> {
    if s.len() > 0 && s[0] == '+' {
        s.drop_first()
    } else {
        s
    }
}

/// What `str::parse::<u32>` accepts and gives: an optional `+`, then one or
/// more decimal digits whose value fits in a `u32`.
pub open spec fn parse_u32_spec(s: Seq<char>) -> Option<u32> {
    let d = unsigned_digits(s);
    if d.len() > 0 && (forall|k: int| 0 <= k < d.len() ==> is_digit(#[trigger] d[k]))
        && digits_value(d) <= u32::MAX {
        Some(digits_value(d) as u32)
    } else {
        None
    }
}

proof fn lemma_digits_value_prefix(d: Seq<char>, j: int)
    requires
        0 <= j <= d.len(),
        forall|k: int| 0 <= k < d.len() ==> is_digit(#[trigger] d[k]),
    ensures
        digits_value(d.take(j)) <= digits_value(d),
    decreases d.len() - j,
{
    if j < d.len() {
        lemma_digits_value_prefix(d, j + 1);
        let t = d.take(j + 1);
        assert(t.drop_last() == d.take(j));
        assert(t.last() == d[j]);
        assert(is_digit(d[j]));
        assert(digits_value(t) == digits_value(t.drop_last()) * 10 + (t.last() as int - '0' as int));
    } else {
        assert(d.take(j) == d);
    }
}

/// `str::parse::<u32>` on a character vector.
pub fn parse_u32(s: &Vec<char>) -> (res: Option<u32>)
    ensures
        res == parse_u32_spec(s@),
{
    let n = s.len();
    let start: usize = if n > 0 && s[0] == '+' { 1 } else { 0 };
    let ghost d = unsigned_digits(s@);
    assert(d == s@.skip(start as int));
    if start >= n {
        return None;
    }
    let mut acc: u64 = 0;
    let mut i: usize = start;
    while i < n
        invariant
            n == s@.len(),
            start <= i <= n,
            d == s@.skip(start as int),
            d == unsigned_digits(s@),
            forall|k: int| start <= k < i ==> is_digit(#[trigger] s@[k]),
            acc == digits_value(d.take(i - start)),
            acc <= u32::MAX,
        decreases n - i,
    {
        let c = s[i];
        if !('0' <= c && c <= '9') {
            assert(d[i - start] == c);
            assert(!is_digit(d[i - start]));
            return None;
        }
        let ghost t = d.take(i - start + 1);
        assert(t.drop_last() == d.take(i - start));
        assert(t.last() == c);
        assert(digits_value(t) == digits_value(t.drop_last()) * 10 + (t.last() as int - '0' as int));
        acc = acc * 10 + (c as u64 - '0' as u64);
        assert(acc == digits_value(t));
        if acc > 0xFFFF_FFFF {
            proof {
                if forall|k: int| 0 <= k < d.len() ==> is_digit(#[trigger] d[k]) {
                    lemma_digits_value_prefix(d, i - start + 1);
                }
            }
            return None;
        }
        i += 1;
    }
    assert(d.take(n - start) == d);
    assert forall|k: int| 0 <= k < d.len() implies is_digit(#[trigger] d[k]) by {
        assert(d[k] == s@[start + k]);
    }
    Some(acc as u32)
}

} // verus!
