//! Regular expressions, through the `regex` crate.
//!
//! What a regular expression matches takes pages to state, so the results of
//! the `regex` calls are named here, as functions of the pattern's text and of
//! their other arguments; the library's contracts speak of those names.
use vstd::prelude::*;

verus! {

#[verifier::external_type_specification]
#[verifier::external_body]
pub struct ExRegex(regex::Regex);

/// Whether `regex::Regex::new` accepts `pattern`.
pub uninterp spec fn regex_accepts(pattern: Seq<char>) -> bool;

/// What `regex::Regex::replace_all` gives for a regular expression compiled
/// from `pattern`: every non-overlapping match in `haystack`, from left to
/// right, replaced by `replacement` with its `$` group references expanded.
pub uninterp spec fn regex_replace_all(
    pattern: Seq<char>,
    haystack: Seq<char>,
    replacement: Seq<char>,
) -> Seq<char>;

/// The texts of the successive non-overlapping matches that
/// `regex::Regex::find_iter` yields for a regular expression compiled from
/// `pattern`.
pub uninterp spec fn regex_find_iter(pattern: Seq<char>, haystack: Seq<char>) -> Seq<Seq<char>>;

/// The text of capture group 1 of the first match that `regex::Regex::captures`
/// finds for a regular expression compiled from `pattern`; `None` where there
/// is no match or the group took no part in it.
pub uninterp spec fn regex_captures_group1(pattern: Seq<char>, haystack: Seq<char>) -> Option<
    Seq<char>,
>;

/// A compiled regular expression, together with the text it was compiled
/// from. Only [`compile`] makes one, so `re` is always what `regex` compiled
/// from `source`.
pub struct Pattern {
    source: String,
    re: regex::Regex,
}

impl View for Pattern {
    type V = Seq<char>;

    closed spec fn view(&self) -> Seq<char> {
        self.source@
    }
}

/// Calls `regex::Regex::new(pattern)`: `Some` exactly when the pattern is
/// accepted; the result remembers the pattern's text.
#[verifier::external_body]
pub(crate) fn compile(pattern: &str) -> (res: Option<Pattern>)
    ensures
        res is Some <==> regex_accepts(pattern@),
        res matches Some(p) ==> p@ == pattern@,
{
    match regex::Regex::new(pattern) {
        Ok(re) => Some(Pattern { source: pattern.to_string(), re }),
        Err(_) => None,
    }
}

impl Pattern {
    /// Calls `regex::Regex::replace_all(haystack, replacement)`; the result is
    /// named by [`regex_replace_all`].
    #[verifier::external_body]
    pub(crate) fn replace_all(&self, haystack: &str, replacement: &str) -> (res: String)
        ensures
            res@ == regex_replace_all(self@, haystack@, replacement@),
    {
        self.re.replace_all(haystack, replacement).to_string()
    }

    /// Calls `regex::Regex::find_iter(haystack)` and keeps the text of each
    /// match, in order; the result is named by [`regex_find_iter`].
    #[verifier::external_body]
    pub(crate) fn find_iter(&self, haystack: &str) -> (res: Vec<String>)
        ensures
            res@.map_values(|m: String| m@) == regex_find_iter(self@, haystack@),
    {
        let mut res = Vec::new();
        for m in self.re.find_iter(haystack) {
            res.push(m.as_str().to_string());
        }
        res
    }

    /// Calls `regex::Regex::captures(haystack)` and keeps the text of group 1;
    /// the result is named by [`regex_captures_group1`].
    #[verifier::external_body]
    pub(crate) fn captures_group1(&self, haystack: &str) -> (res: Option<String>)
        ensures
            match res {
                Some(g) => regex_captures_group1(self@, haystack@) == Some(g@),
                None => regex_captures_group1(self@, haystack@) is None,
            },
    {
        match self.re.captures(haystack) {
            Some(caps) => match caps.get(1) {
                Some(m) => Some(m.as_str().to_string()),
                None => None,
            },
            None => None,
        }
    }
}

} // verus!
