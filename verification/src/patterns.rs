//! Regular expressions, matched by the `regex` crate.
//!
//! Every result of the `regex` crate's matching is named by an uninterpreted
//! function of the pattern text and the haystack: the library states what it
//! does with those results, not what the regular expression engine computes.
//! Escaping a literal is simple enough to be stated outright.

use vstd::prelude::*;

use regex::Regex;

verus! {

#[verifier::external_type_specification]
#[verifier::external_body]
pub struct ExRegex(Regex);

/// Whether `pattern` is a valid regular expression (`Regex::new` succeeds).
pub uninterp spec fn spec_regex_valid(pattern: Seq<char>) -> bool;

/// `Regex::replace_all(hay, rep)` for the expression `pattern`.
pub uninterp spec fn spec_regex_replace_all(pattern: Seq<char>, hay: Seq<char>, rep: Seq<char>) -> Seq<char>;

/// `Regex::replace(hay, rep)` (first match only) for the expression `pattern`.
pub uninterp spec fn spec_regex_replace_first(pattern: Seq<char>, hay: Seq<char>, rep: Seq<char>) -> Seq<char>;

/// The text of the leftmost-first match of `pattern` in `hay` (`Regex::find`).
pub uninterp spec fn spec_regex_find(pattern: Seq<char>, hay: Seq<char>) -> Option<Seq<char>>;

/// Whether `pattern` matches somewhere in `hay` (`Regex::is_match`).
pub uninterp spec fn spec_regex_is_match(pattern: Seq<char>, hay: Seq<char>) -> bool;

/// The text of capture group `group` of the first match of `pattern` in `hay`,
/// when both exist (`Regex::captures` then `Captures::get`).
pub uninterp spec fn spec_regex_capture(pattern: Seq<char>, hay: Seq<char>, group: nat) -> Option<Seq<char>>;

/// Capture group `group` of each successive match of `pattern` in `hay`,
/// `None` where the group did not take part (`Regex::captures_iter` then
/// `Captures::get`).
pub uninterp spec fn spec_regex_capture_all(pattern: Seq<char>, hay: Seq<char>, group: nat) -> Seq<Option<Seq<char>>>;

/// The successive matches of `pattern` in `hay`, each as its byte offset in
/// `hay` and its text (`Regex::find_iter`).
pub uninterp spec fn spec_regex_find_all(pattern: Seq<char>, hay: Seq<char>) -> Seq<(nat, Seq<char>)>;

/// Whether `c` has a meaning of its own in a regular expression
/// (`regex_syntax::is_meta_character`).
pub open spec fn is_meta_character(c: char) -> bool {
    c == '\\' || c == '.' || c == '+' || c == '*' || c == '?' || c == '(' || c == ')' || c == '|' || c == '['
        || c == ']' || c == '{' || c == '}' || c == '^' || c == '$' || c == '#' || c == '&' || c == '-' || c == '~'
}

/// `regex::escape(s)`: `s` with a backslash put before every meta character.
pub open spec fn spec_regex_escape(s: Seq<char>) -> Seq<char>
    decreases s.len(),
{
    if s.len() == 0 {
        Seq::<char>::empty()
    } else {
        spec_regex_escape(s.drop_last()) + (if is_meta_character(s.last()) {
            seq!['\\', s.last()]
        } else {
            seq![s.last()]
        })
    }
}

/// A compiled regular expression together with the pattern text it was
/// compiled from. The fields are private: `Pattern::new` is the only way to
/// make one, so `source` is always the text that `re` was compiled from.
pub struct Pattern {
    re: Regex,
    source: Ghost<Seq<char>>,
}

impl Pattern {
    /// The pattern text this expression was compiled from.
    pub closed spec fn source(&self) -> Seq<char> {
        self.source@
    }

    /// Compiles `pattern`; `None` when it is not a valid expression.
    pub fn new(pattern: &str) -> (r: Option<Pattern>)
        ensures
            r is Some <==> spec_regex_valid(pattern@),
            r matches Some(p) ==> p.source() == pattern@,
    {
        match regex_new(pattern) {
            Some(re) => Some(Pattern { re, source: Ghost(pattern@) }),
            None => None,
        }
    }
}

/// `Regex::new`: compiles `pattern`; whether it succeeds is named by `spec_regex_valid`.
#[verifier::external_body]
fn regex_new(pattern: &str) -> (r: Option<Regex>)
    ensures
        r is Some <==> spec_regex_valid(pattern@),
{
    Regex::new(pattern).ok()
}

/// `Regex::replace_all`: every match of `p` in `hay` replaced by `rep`
/// (with `$` group references expanded); named by `spec_regex_replace_all`.
#[verifier::external_body]
pub(crate) fn replace_all(p: &Pattern, hay: &str, rep: &str) -> (r: String)
    ensures
        r@ == spec_regex_replace_all(p.source(), hay@, rep@),
{
    p.re.replace_all(hay, rep).into_owned()
}

/// `Regex::replace`: the first match of `p` in `hay` replaced by `rep`;
/// named by `spec_regex_replace_first`.
#[verifier::external_body]
pub(crate) fn replace_first(p: &Pattern, hay: &str, rep: &str) -> (r: String)
    ensures
        r@ == spec_regex_replace_first(p.source(), hay@, rep@),
{
    p.re.replace(hay, rep).into_owned()
}

/// `Regex::find`: the text of the first match; named by `spec_regex_find`.
#[verifier::external_body]
pub(crate) fn find(p: &Pattern, hay: &str) -> (r: Option<String>)
    ensures
        r is Some <==> spec_regex_find(p.source(), hay@) is Some,
        r matches Some(m) ==> spec_regex_find(p.source(), hay@) == Some(m@),
{
    p.re.find(hay).map(|m| m.as_str().to_string())
}

/// `Regex::is_match`; named by `spec_regex_is_match`.
#[verifier::external_body]
pub(crate) fn is_match(p: &Pattern, hay: &str) -> (r: bool)
    ensures
        r == spec_regex_is_match(p.source(), hay@),
{
    p.re.is_match(hay)
}

/// `Regex::captures` and `Captures::get(group)`; named by `spec_regex_capture`.
#[verifier::external_body]
pub(crate) fn capture(p: &Pattern, hay: &str, group: usize) -> (r: Option<String>)
    ensures
        r is Some <==> spec_regex_capture(p.source(), hay@, group as nat) is Some,
        r matches Some(m) ==> spec_regex_capture(p.source(), hay@, group as nat) == Some(m@),
{
    p.re.captures(hay).and_then(|c| c.get(group)).map(|m| m.as_str().to_string())
}

/// `Regex::captures_iter` and `Captures::get(group)` on each match;
/// named by `spec_regex_capture_all`.
#[verifier::external_body]
pub(crate) fn capture_all(p: &Pattern, hay: &str, group: usize) -> (r: Vec<Option<String>>)
    ensures
        r@.len() == spec_regex_capture_all(p.source(), hay@, group as nat).len(),
        forall|i: int|
            0 <= i < r@.len() ==> crate::types::opt_view(#[trigger] r@[i]) == spec_regex_capture_all(p.source(), hay@, group as nat)[i],
{
    p.re.captures_iter(hay).map(|c| c.get(group).map(|m| m.as_str().to_string())).collect()
}

/// `Regex::find_iter`: byte offset and text of each match; named by
/// `spec_regex_find_all`. As the crate documents, each offset is the start of
/// a character of `hay` and the text is `hay` read from there.
#[verifier::external_body]
pub(crate) fn find_all(p: &Pattern, hay: &str) -> (r: Vec<(usize, String)>)
    ensures
        r@.len() == spec_regex_find_all(p.source(), hay@).len(),
        forall|i: int|
            0 <= i < r@.len() ==> (#[trigger] r@[i]).0 as nat == spec_regex_find_all(p.source(), hay@)[i].0
                && r@[i].1@ == spec_regex_find_all(p.source(), hay@)[i].1,
        forall|i: int|
            0 <= i < r@.len() ==> exists|k: int|
                0 <= k <= hay@.len() && crate::formatters::utf8_len(hay@.take(k)) == (#[trigger] r@[i]).0
                    && crate::text::occurs_at(hay@, r@[i].1@, k),
{
    p.re.find_iter(hay).map(|m| (m.start(), m.as_str().to_string())).collect()
}

/// `regex::escape`: each character of `s`, with a backslash before each
/// meta character (`spec_regex_escape`).
#[verifier::external_body]
pub(crate) fn escape(s: &str) -> (r: String)
    ensures
        r@ == spec_regex_escape(s@),
{
    regex::escape(s)
}

/// `hay` with every match of `pattern` replaced, or `hay` unchanged when
/// `pattern` does not compile.
pub open spec fn replace_all_or_same(pattern: Seq<char>, hay: Seq<char>, rep: Seq<char>) -> Seq<char> {
    if spec_regex_valid(pattern) {
        spec_regex_replace_all(pattern, hay, rep)
    } else {
        hay
    }
}

/// Compiles `pattern` and replaces all its matches in `hay` by `rep`.
pub fn replace_all_str(pattern: &str, hay: &str, rep: &str) -> (r: String)
    ensures
        r@ == replace_all_or_same(pattern@, hay@, rep@),
{
    match Pattern::new(pattern) {
        Some(p) => replace_all(&p, hay, rep),
        None => crate::text::owned(hay),
    }
}

/// The first match of `pattern` in `hay`, or none when `pattern` does not compile.
pub open spec fn find_or_none(pattern: Seq<char>, hay: Seq<char>) -> Option<Seq<char>> {
    if spec_regex_valid(pattern) {
        spec_regex_find(pattern, hay)
    } else {
        None
    }
}

/// Compiles `pattern` and finds its first match in `hay`.
pub fn find_str(pattern: &str, hay: &str) -> (r: Option<String>)
    ensures
        r is Some <==> find_or_none(pattern@, hay@) is Some,
        r matches Some(m) ==> find_or_none(pattern@, hay@) == Some(m@),
{
    match Pattern::new(pattern) {
        Some(p) => find(&p, hay),
        None => None,
    }
}

/// Capture group `group` of the first match of `pattern`, or none when
/// `pattern` does not compile.
pub open spec fn capture_or_none(pattern: Seq<char>, hay: Seq<char>, group: nat) -> Option<Seq<char>> {
    if spec_regex_valid(pattern) {
        spec_regex_capture(pattern, hay, group)
    } else {
        None
    }
}

/// Compiles `pattern` and reads capture group `group` of its first match in `hay`.
pub fn capture_str(pattern: &str, hay: &str, group: usize) -> (r: Option<String>)
    ensures
        r is Some <==> capture_or_none(pattern@, hay@, group as nat) is Some,
        r matches Some(m) ==> capture_or_none(pattern@, hay@, group as nat) == Some(m@),
{
    match Pattern::new(pattern) {
        Some(p) => capture(&p, hay, group),
        None => None,
    }
}

/// Whether `pattern` compiles and matches in `hay`.
pub open spec fn matches_or_false(pattern: Seq<char>, hay: Seq<char>) -> bool {
    spec_regex_valid(pattern) && spec_regex_is_match(pattern, hay)
}

/// Compiles `pattern` and tells whether it matches in `hay`.
pub fn is_match_str(pattern: &str, hay: &str) -> (r: bool)
    ensures
        r == matches_or_false(pattern@, hay@),
{
    match Pattern::new(pattern) {
        Some(p) => is_match(&p, hay),
        None => false,
    }
}

/// `hay` with the first match of `pattern` replaced, or `hay` unchanged when
/// `pattern` does not compile.
pub open spec fn replace_first_or_same(pattern: Seq<char>, hay: Seq<char>, rep: Seq<char>) -> Seq<char> {
    if spec_regex_valid(pattern) {
        spec_regex_replace_first(pattern, hay, rep)
    } else {
        hay
    }
}

/// Compiles `pattern` and replaces its first match in `hay` by `rep`.
pub fn replace_first_str(pattern: &str, hay: &str, rep: &str) -> (r: String)
    ensures
        r@ == replace_first_or_same(pattern@, hay@, rep@),
{
    match Pattern::new(pattern) {
        Some(p) => replace_first(&p, hay, rep),
        None => crate::text::owned(hay),
    }
}

/// The groups that took part, in order.
pub open spec fn present_groups(gs: Seq<Option<Seq<char>>>) -> Seq<Seq<char>>
    decreases gs.len(),
{
    if gs.len() == 0 {
        Seq::<Seq<char>>::empty()
    } else {
        match gs.last() {
            Some(g) => present_groups(gs.drop_last()).push(g),
            None => present_groups(gs.drop_last()),
        }
    }
}

/// Capture group `group` of each match of `pattern` where the group took
/// part, or nothing when `pattern` does not compile.
pub open spec fn capture_all_or_none(pattern: Seq<char>, hay: Seq<char>, group: nat) -> Seq<Seq<char>> {
    if spec_regex_valid(pattern) {
        present_groups(spec_regex_capture_all(pattern, hay, group))
    } else {
        Seq::<Seq<char>>::empty()
    }
}

/// Compiles `pattern` and reads capture group `group` of each of its matches
/// where the group took part.
pub fn capture_all_str(pattern: &str, hay: &str, group: usize) -> (r: Vec<String>)
    ensures
        crate::text::views(r@) == capture_all_or_none(pattern@, hay@, group as nat),
{
    let mut out: Vec<String> = Vec::new();
    match Pattern::new(pattern) {
        Some(p) => {
            let groups = capture_all(&p, hay, group);
            let ghost gs = spec_regex_capture_all(pattern@, hay@, group as nat);
            let mut i: usize = 0;
            assert(gs.take(0) =~= Seq::<Option<Seq<char>>>::empty());
            while i < groups.len()
                invariant
                    i <= groups@.len(),
                    groups@.len() == gs.len(),
                    forall|j: int| 0 <= j < groups@.len() ==> crate::types::opt_view(#[trigger] groups@[j]) == gs[j],
                    crate::text::views(out@) == present_groups(gs.take(i as int)),
                decreases groups.len() - i,
            {
                assert(gs.take(i + 1).drop_last() =~= gs.take(i as int));
                assert(crate::types::opt_view(groups@[i as int]) == gs[i as int]);
                match &groups[i] {
                    Some(g) => {
                        let ghost before = crate::text::views(out@);
                        out.push(crate::text::owned(g.as_str()));
                        assert(crate::text::views(out@) =~= before.push(g@));
                    },
                    None => {},
                }
                i = i + 1;
            }
            assert(gs.take(gs.len() as int) =~= gs);
            out
        },
        None => {
            assert(crate::text::views(out@) =~= Seq::<Seq<char>>::empty());
            out
        },
    }
}

/// The matches of `pattern` in `hay` (byte offset and text), or none when
/// `pattern` does not compile.
pub open spec fn find_all_or_none(pattern: Seq<char>, hay: Seq<char>) -> Seq<(nat, Seq<char>)> {
    if spec_regex_valid(pattern) {
        spec_regex_find_all(pattern, hay)
    } else {
        Seq::<(nat, Seq<char>)>::empty()
    }
}

} // verus!
