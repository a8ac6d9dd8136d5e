//! The attachment file-name template engine: text helpers.
//!
//! Templates mix literal text with `{{ identifier attr="value" ... }}`
//! statements and `{{ if }} / {{ elseif }} / {{ else }} / {{ endif }}` blocks.
//! Templates are scanned byte by byte, so the scanner over whole templates
//! (`split_by_outer_brackets`) takes ASCII text only.

use vstd::prelude::*;

use crate::json::JsonValue;
use crate::patterns::{capture_or_none, capture_str, replace_all_or_same, replace_all_str};
use crate::text::{
    char_to_uppercase, chars_of, contains, ends_with, is_alphanumeric, is_whitespace, join,
    join_strs, occurs_at, occurs_at_exec, owned, push_char, push_str, replace_all, replace_str,
    spec_char_to_uppercase, spec_is_alphanumeric, spec_is_whitespace, spec_to_lowercase,
    spec_to_uppercase, starts_with, str_eq, string_from_chars, string_from_range, to_lowercase,
    to_uppercase, trim, trim_str, views,
};
use crate::types::{opt_text, opt_view, ZoteroCreator, ZoteroItemData};

verus! {

// ---------------------------------------------------------------------------
// hyphen_to_camel
// ---------------------------------------------------------------------------

/// `s` with each `-` removed and the character after a `-` upper-cased.
pub open spec fn spec_hyphen_to_camel(s: Seq<char>) -> Seq<char>
    decreases s.len(),
{
    if s.len() == 0 {
        Seq::<char>::empty()
    } else {
        let p = spec_hyphen_to_camel(s.drop_last());
        let c = s.last();
        if c == '-' {
            p
        } else if s.len() >= 2 && s[s.len() - 2] == '-' {
            p + spec_char_to_uppercase(c)
        } else {
            p.push(c)
        }
    }
}

/// Converts `hyphen-case` to `camelCase`: drops each `-` and upper-cases the
/// character that follows it.
pub fn hyphen_to_camel(value: &str) -> (r: String)
    ensures
        r@ == spec_hyphen_to_camel(value@),
{
    let v = chars_of(value);
    let mut out = String::new();
    let mut i: usize = 0;
    while i < v.len()
        invariant
            i <= v.len(),
            out@ == spec_hyphen_to_camel(v@.take(i as int)),
        decreases v.len() - i,
    {
        assert(v@.take(i + 1).drop_last() =~= v@.take(i as int));
        assert(v@.take(i + 1).last() == v@[i as int]);
        let c = v[i];
        if c == '-' {
        } else if i >= 1 && v[i - 1] == '-' {
            assert(v@.take(i + 1)[i - 1] == v@[i - 1]);
            let u = char_to_uppercase(c);
            push_str(&mut out, u.as_str());
        } else {
            push_char(&mut out, c);
        }
        i = i + 1;
    }
    assert(v@.take(v.len() as int) =~= v@);
    out
}

// ---------------------------------------------------------------------------
// strip_html_tags / get_valid_file_name
// ---------------------------------------------------------------------------

/// The pattern of an HTML tag.
pub open spec fn html_tag_pattern() -> Seq<char> {
    "<[^>]+>"@
}

/// Removes HTML tags (matches of `<[^>]+>`).
pub fn strip_html_tags(html: &str) -> (r: String)
    ensures
        r@ == replace_all_or_same(html_tag_pattern(), html@, ""@),
{
    replace_all_str("<[^>]+>", html, "")
}

/// What a character of a file name becomes: nothing (path separators,
/// reserved punctuation, control and invisible formatting characters), a
/// space (line and paragraph breaks, tabs, typographic spaces), or itself.
pub open spec fn file_name_char(c: char) -> Seq<char> {
    let u = c as u32;
    if c == '/' || c == '\\' || c == '?' || c == '*' || c == ':' || c == '|' || c == '"' || c == '<' || c == '>' {
        Seq::<char>::empty()
    } else if c == '\r' || c == '\n' || c == '\t' || u == 0x2028 || u == 0x2029 {
        seq![' ']
    } else if 0x2000 <= u <= 0x200A {
        seq![' ']
    } else if (0x200B <= u <= 0x200E) || u == 0x2068 || u == 0x2069 {
        Seq::<char>::empty()
    } else if u <= 0x08 || u == 0x0B || u == 0x0C || (0x0E <= u <= 0x1F) {
        Seq::<char>::empty()
    } else if u == 0xFFFE || u == 0xFFFF {
        Seq::<char>::empty()
    } else {
        seq![c]
    }
}

/// Each character of `s` mapped by `file_name_char`.
pub open spec fn file_name_chars(s: Seq<char>) -> Seq<char>
    decreases s.len(),
{
    if s.len() == 0 {
        Seq::<char>::empty()
    } else {
        file_name_chars(s.drop_last()) + file_name_char(s.last())
    }
}

/// `s` without its leading dots.
pub open spec fn strip_leading_dots(s: Seq<char>) -> Seq<char>
    decreases s.len(),
{
    if s.len() > 0 && s[0] == '.' {
        strip_leading_dots(s.drop_first())
    } else {
        s
    }
}

/// A safe file name: invalid characters removed or turned into spaces,
/// leading dots removed, and "_" if nothing (or only "." or "..") is left.
pub open spec fn spec_valid_file_name(s: Seq<char>) -> Seq<char> {
    let c = strip_leading_dots(file_name_chars(s));
    if c.len() == 0 || c == "."@ || c == ".."@ {
        "_"@
    } else {
        c
    }
}

fn file_name_char_exec(out: &mut String, c: char)
    ensures
        final(out)@ == old(out)@ + file_name_char(c),
{
    let u = c as u32;
    if c == '/' || c == '\\' || c == '?' || c == '*' || c == ':' || c == '|' || c == '"' || c == '<' || c == '>' {
        assert(old(out)@ =~= old(out)@ + Seq::<char>::empty());
    } else if c == '\r' || c == '\n' || c == '\t' || u == 0x2028 || u == 0x2029 {
        push_char(out, ' ');
        assert(out@ =~= old(out)@ + seq![' ']);
    } else if 0x2000 <= u && u <= 0x200A {
        push_char(out, ' ');
        assert(out@ =~= old(out)@ + seq![' ']);
    } else if (0x200B <= u && u <= 0x200E) || u == 0x2068 || u == 0x2069 {
        assert(old(out)@ =~= old(out)@ + Seq::<char>::empty());
    } else if u <= 0x08 || u == 0x0B || u == 0x0C || (0x0E <= u && u <= 0x1F) {
        assert(old(out)@ =~= old(out)@ + Seq::<char>::empty());
    } else if u == 0xFFFE || u == 0xFFFF {
        assert(old(out)@ =~= old(out)@ + Seq::<char>::empty());
    } else {
        push_char(out, c);
        assert(out@ =~= old(out)@ + seq![c]);
    }
}

/// Makes a string safe to use as a file name (see `spec_valid_file_name`).
pub fn get_valid_file_name(file_name: &str) -> (r: String)
    ensures
        r@ == spec_valid_file_name(file_name@),
{
    let v = chars_of(file_name);
    let mut cleaned = String::new();
    let mut i: usize = 0;
    while i < v.len()
        invariant
            i <= v.len(),
            cleaned@ == file_name_chars(v@.take(i as int)),
        decreases v.len() - i,
    {
        assert(v@.take(i + 1).drop_last() =~= v@.take(i as int));
        file_name_char_exec(&mut cleaned, v[i]);
        i = i + 1;
    }
    assert(v@.take(v.len() as int) =~= v@);
    let cv = chars_of(cleaned.as_str());
    let mut k: usize = 0;
    assert(cv@.skip(0) =~= cv@);
    while k < cv.len() && cv[k] == '.'
        invariant
            k <= cv.len(),
            strip_leading_dots(cv@) == strip_leading_dots(cv@.skip(k as int)),
        decreases cv.len() - k,
    {
        assert(cv@.skip(k as int).drop_first() =~= cv@.skip(k + 1));
        k = k + 1;
    }
    let rest = string_from_range(&cv, k, cv.len());
    assert(rest@ =~= cv@.skip(k as int));
    proof {
        reveal_strlit(".");
        reveal_strlit("..");
        reveal_strlit("_");
    }
    if rest.as_str().is_empty() || str_eq(rest.as_str(), ".") || str_eq(rest.as_str(), "..") {
        owned("_")
    } else {
        rest
    }
}

// ---------------------------------------------------------------------------
// split_by_outer_brackets
// ---------------------------------------------------------------------------

/// Whether every character of `s` is ASCII.
pub open spec fn is_ascii(s: Seq<char>) -> bool {
    forall|i: int| 0 <= i < s.len() ==> (#[trigger] s[i] as u32) < 0x80
}

/// The pieces of `s` from position `i` on, cut around outermost
/// `left ... right` groups, given the start of the current piece and the
/// current nesting depth.
pub open spec fn outer_pieces(s: Seq<char>, left: Seq<char>, right: Seq<char>, i: int, start: int, depth: nat) -> Seq<Seq<char>>
    recommends
        left.len() > 0,
        right.len() > 0,
    decreases s.len() - i,
{
    if i >= s.len() || left.len() == 0 || right.len() == 0 || i < 0 {
        if start < s.len() {
            seq![s.subrange(start, s.len() as int)]
        } else {
            Seq::<Seq<char>>::empty()
        }
    } else if occurs_at(s, left, i) {
        if depth == 0 {
            seq![s.subrange(start, i)] + outer_pieces(s, left, right, i + left.len(), i, 1)
        } else {
            outer_pieces(s, left, right, i + left.len(), start, depth + 1)
        }
    } else if occurs_at(s, right, i) {
        let d: nat = if depth > 0 { (depth - 1) as nat } else { 0 };
        if d == 0 {
            let end = i + right.len();
            seq![s.subrange(start, end)] + outer_pieces(s, left, right, end, end, 0)
        } else {
            outer_pieces(s, left, right, i + right.len(), start, d)
        }
    } else {
        outer_pieces(s, left, right, i + 1, start, depth)
    }
}

/// Splits `input` into the text between and the outermost groups delimited
/// by `left` and `right` (nested groups stay inside their outer group; an
/// unmatched `right` closes a group at depth zero).
pub fn split_by_outer_brackets(input: &str, left: &str, right: &str) -> (r: Vec<String>)
    requires
        left@.len() > 0,
        right@.len() > 0,
        is_ascii(input@),
    ensures
        views(r@) == outer_pieces(input@, left@, right@, 0, 0, 0),
{
    let v = chars_of(input);
    let l = chars_of(left);
    let rt = chars_of(right);
    let mut result: Vec<String> = Vec::new();
    let mut start: usize = 0;
    let mut depth: usize = 0;
    let mut i: usize = 0;
    while i < v.len()
        invariant
            v@ == input@,
            l@ == left@,
            rt@ == right@,
            l@.len() > 0,
            rt@.len() > 0,
            start <= i <= v.len(),
            depth <= i,
            outer_pieces(input@, left@, right@, 0, 0, 0) == views(result@) + outer_pieces(
                input@,
                left@,
                right@,
                i as int,
                start as int,
                depth as nat,
            ),
        decreases v.len() - i,
    {
        if occurs_at_exec(&v, &l, i) {
            if depth == 0 {
                let piece = string_from_range(&v, start, i);
                let ghost before = views(result@);
                result.push(piece);
                assert(views(result@) =~= before + seq![piece@]);
                start = i;
            }
            depth = depth + 1;
            i = i + l.len();
        } else if occurs_at_exec(&v, &rt, i) {
            depth = if depth > 0 { depth - 1 } else { 0 };
            if depth == 0 {
                let end = i + rt.len();
                let piece = string_from_range(&v, start, end);
                let ghost before = views(result@);
                result.push(piece);
                assert(views(result@) =~= before + seq![piece@]);
                start = end;
            }
            i = i + rt.len();
        } else {
            i = i + 1;
        }
    }
    if start < v.len() {
        let piece = string_from_range(&v, start, v.len());
        let ghost before = views(result@);
        result.push(piece);
        assert(views(result@) =~= before + seq![piece@]);
    } else {
        assert(views(result@) =~= views(result@) + Seq::<Seq<char>>::empty());
    }
    result
}

// ---------------------------------------------------------------------------
// Attributes
// ---------------------------------------------------------------------------

/// Whether `c` may appear in an attribute name.
pub open spec fn is_attr_name_char(c: char) -> bool {
    ('a' <= c <= 'z') || ('A' <= c <= 'Z') || ('0' <= c <= '9') || c == '_' || c == '-'
}

/// Whether `c` is ASCII whitespace (`u8::is_ascii_whitespace`).
pub open spec fn is_ascii_ws(c: char) -> bool {
    c == ' ' || c == '\t' || c == '\n' || c == '\x0C' || c == '\r'
}

/// The first position at or after `i` holding an attribute-name character (or `s.len()`).
pub open spec fn skip_to_name(s: Seq<char>, i: int) -> int
    decreases s.len() - i,
{
    if i < 0 || i >= s.len() || is_attr_name_char(s[i]) {
        i
    } else {
        skip_to_name(s, i + 1)
    }
}

/// The end of the run of attribute-name characters starting at `i`.
pub open spec fn name_end(s: Seq<char>, i: int) -> int
    decreases s.len() - i,
{
    if i < 0 || i >= s.len() || !is_attr_name_char(s[i]) {
        i
    } else {
        name_end(s, i + 1)
    }
}

/// The first position at or after `i` that is not ASCII whitespace (or `s.len()`).
pub open spec fn skip_ascii_ws(s: Seq<char>, i: int) -> int
    decreases s.len() - i,
{
    if i < 0 || i >= s.len() || !is_ascii_ws(s[i]) {
        i
    } else {
        skip_ascii_ws(s, i + 1)
    }
}

/// The value quoted by `q` starting at `i` (just after the opening quote), with
/// `\q` standing for `q`, and the position after the closing quote (or the end).
pub open spec fn quoted_value(s: Seq<char>, i: int, q: char) -> (Seq<char>, int)
    decreases s.len() - i,
{
    if i < 0 || i >= s.len() {
        (Seq::<char>::empty(), if i < 0 { 0 } else { i })
    } else if s[i] == '\\' && i + 1 < s.len() && s[i + 1] == q {
        let (v, e) = quoted_value(s, i + 2, q);
        (seq![q] + v, e)
    } else if s[i] == q {
        (Seq::<char>::empty(), i + 1)
    } else {
        let (v, e) = quoted_value(s, i + 1, q);
        (seq![s[i]] + v, e)
    }
}

/// One step of attribute scanning from `i`: `None` at the end, else the next
/// position and the attribute found (if any), with its name in camel case.
pub open spec fn attr_step(s: Seq<char>, i: int) -> Option<(int, Option<(Seq<char>, Seq<char>)>)> {
    let k = skip_to_name(s, i);
    if k >= s.len() {
        None
    } else {
        let e = name_end(s, k);
        let key = s.subrange(k, e);
        let j = skip_ascii_ws(s, e);
        if j >= s.len() || s[j] != '=' {
            Some((j, None))
        } else {
            let m = skip_ascii_ws(s, j + 1);
            if m >= s.len() || (s[m] != '"' && s[m] != '\'') {
                Some((m, None))
            } else {
                let (v, next) = quoted_value(s, m + 1, s[m]);
                Some((next, Some((spec_hyphen_to_camel(key), v))))
            }
        }
    }
}

proof fn lemma_skip_to_name(s: Seq<char>, i: int)
    requires
        0 <= i <= s.len(),
    ensures
        i <= skip_to_name(s, i) <= s.len(),
        skip_to_name(s, i) < s.len() ==> is_attr_name_char(s[skip_to_name(s, i)]),
    decreases s.len() - i,
{
    if i < s.len() && !is_attr_name_char(s[i]) {
        lemma_skip_to_name(s, i + 1);
    }
}

proof fn lemma_name_end(s: Seq<char>, i: int)
    requires
        0 <= i <= s.len(),
    ensures
        i <= name_end(s, i) <= s.len(),
        i < s.len() && is_attr_name_char(s[i]) ==> name_end(s, i) > i,
    decreases s.len() - i,
{
    if i < s.len() && is_attr_name_char(s[i]) {
        lemma_name_end(s, i + 1);
    }
}

proof fn lemma_skip_ascii_ws(s: Seq<char>, i: int)
    requires
        0 <= i <= s.len(),
    ensures
        i <= skip_ascii_ws(s, i) <= s.len(),
    decreases s.len() - i,
{
    if i < s.len() && is_ascii_ws(s[i]) {
        lemma_skip_ascii_ws(s, i + 1);
    }
}

proof fn lemma_quoted_value(s: Seq<char>, i: int, q: char)
    requires
        0 <= i <= s.len(),
    ensures
        i <= quoted_value(s, i, q).1 <= s.len(),
    decreases s.len() - i,
{
    if i < s.len() {
        if s[i] == '\\' && i + 1 < s.len() && s[i + 1] == q {
            lemma_quoted_value(s, i + 2, q);
        } else if s[i] == q {
        } else {
            lemma_quoted_value(s, i + 1, q);
        }
    }
}

/// Each step of attribute scanning makes progress.
proof fn lemma_attr_step(s: Seq<char>, i: int)
    requires
        0 <= i <= s.len(),
    ensures
        attr_step(s, i) matches Some((n, _)) ==> i < n <= s.len(),
{
    lemma_skip_to_name(s, i);
    let k = skip_to_name(s, i);
    if k < s.len() {
        lemma_name_end(s, k);
        let e = name_end(s, k);
        lemma_skip_ascii_ws(s, e);
        let j = skip_ascii_ws(s, e);
        if j < s.len() && s[j] == '=' {
            lemma_skip_ascii_ws(s, j + 1);
            let m = skip_ascii_ws(s, j + 1);
            if m < s.len() && (s[m] == '"' || s[m] == '\'') {
                lemma_quoted_value(s, m + 1, s[m]);
            }
        }
    }
}

/// The attributes found in `s` from `i` on, in order of appearance.
pub open spec fn attrs_from(s: Seq<char>, i: int) -> Seq<(Seq<char>, Seq<char>)>
    decreases s.len() - i,
{
    if i < 0 || i > s.len() {
        Seq::empty()
    } else {
        match attr_step(s, i) {
            None => Seq::empty(),
            Some((n, found)) => {
                if n <= i || n > s.len() {
                    Seq::empty()
                } else {
                    match found {
                        Some(kv) => seq![kv] + attrs_from(s, n),
                        None => attrs_from(s, n),
                    }
                }
            },
        }
    }
}

/// The attributes of a statement, in order of appearance.
pub open spec fn spec_attributes(part: Seq<char>) -> Seq<(Seq<char>, Seq<char>)> {
    attrs_from(part, 0)
}

/// The value of the last attribute named `key` (a later attribute of the same
/// name overrides an earlier one).
pub open spec fn attr_get(attrs: Seq<(Seq<char>, Seq<char>)>, key: Seq<char>) -> Option<Seq<char>>
    decreases attrs.len(),
{
    if attrs.len() == 0 {
        None
    } else if attrs.last().0 == key {
        Some(attrs.last().1)
    } else {
        attr_get(attrs.drop_last(), key)
    }
}

/// The attributes of a statement: `name="value"` or `name='value'` pairs.
pub struct Attrs {
    pub entries: Vec<(String, String)>,
}

/// The name/value pairs of `a`, in order.
pub open spec fn attrs_view(a: Attrs) -> Seq<(Seq<char>, Seq<char>)> {
    a.entries@.map_values(|p: (String, String)| (p.0@, p.1@))
}

impl Attrs {
    /// No attributes.
    pub fn empty() -> (r: Attrs)
        ensures
            attrs_view(r) == Seq::<(Seq<char>, Seq<char>)>::empty(),
    {
        let r = Attrs { entries: Vec::new() };
        assert(attrs_view(r) =~= Seq::<(Seq<char>, Seq<char>)>::empty());
        r
    }

    /// The value of attribute `key` (the last one of that name).
    pub fn get(&self, key: &str) -> (r: Option<&str>)
        ensures
            r matches Some(v) ==> attr_get(attrs_view(*self), key@) == Some(v@),
            r is None ==> attr_get(attrs_view(*self), key@) is None,
    {
        let mut i: usize = self.entries.len();
        let ghost av = attrs_view(*self);
        assert(av.take(av.len() as int) =~= av);
        while i > 0
            invariant
                i <= self.entries.len(),
                av == attrs_view(*self),
                attr_get(av, key@) == attr_get(av.take(i as int), key@),
            decreases i,
        {
            assert(av.take(i as int).drop_last() =~= av.take(i - 1));
            assert(av.take(i as int).last() == av[i - 1]);
            if str_eq(self.entries[i - 1].0.as_str(), key) {
                return Some(self.entries[i - 1].1.as_str());
            }
            i = i - 1;
        }
        None
    }
}

fn is_attr_name_char_exec(c: char) -> (b: bool)
    ensures
        b == is_attr_name_char(c),
{
    ('a' <= c && c <= 'z') || ('A' <= c && c <= 'Z') || ('0' <= c && c <= '9') || c == '_' || c == '-'
}

fn is_ascii_ws_exec(c: char) -> (b: bool)
    ensures
        b == is_ascii_ws(c),
{
    c == ' ' || c == '\t' || c == '\n' || c == '\x0C' || c == '\r'
}

fn quoted_value_exec(v: &Vec<char>, i: usize, q: char) -> (r: (String, usize))
    requires
        i <= v.len(),
    ensures
        (r.0@, r.1 as int) == quoted_value(v@, i as int, q),
{
    let mut out = String::new();
    let mut p = i;
    proof {
        lemma_quoted_value(v@, i as int, q);
    }
    while p < v.len()
        invariant
            i <= p <= v.len(),
            quoted_value(v@, i as int, q) == (out@ + quoted_value(v@, p as int, q).0, quoted_value(v@, p as int, q).1),
        decreases v.len() - p,
    {
        if v[p] == '\\' && p + 1 < v.len() && v[p + 1] == q {
            let ghost old_out = out@;
            push_char(&mut out, q);
            assert(old_out + (seq![q] + quoted_value(v@, p + 2, q).0) =~= out@ + quoted_value(v@, p + 2, q).0);
            p = p + 2;
        } else if v[p] == q {
            assert(out@ + Seq::<char>::empty() =~= out@);
            return (out, p + 1);
        } else {
            let ghost old_out = out@;
            push_char(&mut out, v[p]);
            assert(old_out + (seq![v@[p as int]] + quoted_value(v@, p + 1, q).0) =~= out@ + quoted_value(v@, p + 1, q).0);
            p = p + 1;
        }
    }
    assert(out@ + Seq::<char>::empty() =~= out@);
    (out, p)
}

/// Reads the `name="value"` attributes of a statement; names are turned from
/// hyphen-case to camel case, and backslash-quote stands for the quote.
pub fn get_attributes(part: &str) -> (r: Attrs)
    ensures
        attrs_view(r) == spec_attributes(part@),
{
    let v = chars_of(part);
    let mut entries: Vec<(String, String)> = Vec::new();
    let mut i: usize = 0;
    while i < v.len()
        invariant
            i <= v.len(),
            v@ == part@,
            attrs_from(v@, 0) == entries@.map_values(|p: (String, String)| (p.0@, p.1@)) + attrs_from(v@, i as int),
        decreases v.len() - i,
    {
        proof {
            lemma_attr_step(v@, i as int);
        }
        let mut k = i;
        while k < v.len() && !is_attr_name_char_exec(v[k])
            invariant
                i <= k <= v.len(),
                skip_to_name(v@, i as int) == skip_to_name(v@, k as int),
            decreases v.len() - k,
        {
            k = k + 1;
        }
        if k >= v.len() {
            assert(attrs_from(v@, i as int) =~= Seq::empty());
            assert(attrs_from(v@, v.len() as int) =~= Seq::empty()) by {
                assert(skip_to_name(v@, v.len() as int) == v.len() as int);
            }
            i = v.len();
            continue;
        }
        let key_start = k;
        let mut e = k;
        while e < v.len() && is_attr_name_char_exec(v[e])
            invariant
                key_start <= e <= v.len(),
                name_end(v@, key_start as int) == name_end(v@, e as int),
            decreases v.len() - e,
        {
            e = e + 1;
        }
        let mut j = e;
        while j < v.len() && is_ascii_ws_exec(v[j])
            invariant
                e <= j <= v.len(),
                skip_ascii_ws(v@, e as int) == skip_ascii_ws(v@, j as int),
            decreases v.len() - j,
        {
            j = j + 1;
        }
        if j >= v.len() || v[j] != '=' {
            i = j;
            continue;
        }
        let mut m = j + 1;
        while m < v.len() && is_ascii_ws_exec(v[m])
            invariant
                j + 1 <= m <= v.len(),
                skip_ascii_ws(v@, j + 1) == skip_ascii_ws(v@, m as int),
            decreases v.len() - m,
        {
            m = m + 1;
        }
        if m >= v.len() || (v[m] != '"' && v[m] != '\'') {
            i = m;
            continue;
        }
        let q = v[m];
        let (value, next) = quoted_value_exec(&v, m + 1, q);
        let raw_key = string_from_range(&v, key_start, e);
        let key = hyphen_to_camel(raw_key.as_str());
        let ghost before = entries@.map_values(|p: (String, String)| (p.0@, p.1@));
        entries.push((key, value));
        assert(entries@.map_values(|p: (String, String)| (p.0@, p.1@)) =~= before + seq![(key@, value@)]);
        i = next;
    }
    let r = Attrs { entries };
    assert(skip_to_name(v@, i as int) == i as int);
    assert(attr_step(v@, i as int) is None);
    assert(attrs_from(v@, i as int) =~= Seq::empty());
    assert(attrs_view(r) =~= spec_attributes(part@));
    r
}

// ---------------------------------------------------------------------------
// Statements
// ---------------------------------------------------------------------------

/// `s` with every leading repetition of `p` removed (`trim_start_matches`).
pub open spec fn strip_prefix_rep(s: Seq<char>, p: Seq<char>) -> Seq<char>
    decreases s.len(),
{
    if p.len() > 0 && starts_with(s, p) {
        strip_prefix_rep(s.skip(p.len() as int), p)
    } else {
        s
    }
}

/// `s` with every trailing repetition of `p` removed (`trim_end_matches`).
pub open spec fn strip_suffix_rep(s: Seq<char>, p: Seq<char>) -> Seq<char>
    decreases s.len(),
{
    if p.len() > 0 && ends_with(s, p) {
        strip_suffix_rep(s.take(s.len() - p.len()), p)
    } else {
        s
    }
}

/// The position of the first whitespace character of `s`, if any.
pub open spec fn first_ws(s: Seq<char>) -> Option<int> {
    if exists|i: int| 0 <= i < s.len() && spec_is_whitespace(s[i]) {
        Some(choose|i: int| 0 <= i < s.len() && spec_is_whitespace(s[i]) && forall|j: int| 0 <= j < i ==> !spec_is_whitespace(s[j]))
    } else {
        None
    }
}

/// The body of a statement: trimmed, with the braces around it removed, trimmed again.
pub open spec fn statement_inner(statement: Seq<char>) -> Seq<char> {
    trim(strip_suffix_rep(strip_prefix_rep(trim(statement), "{{"@), "}}"@))
}

/// The operator and the arguments of a statement: the body split at its
/// first whitespace character, both parts trimmed.
pub open spec fn spec_split_statement(statement: Seq<char>) -> (Seq<char>, Seq<char>) {
    let inner = statement_inner(statement);
    match first_ws(inner) {
        Some(k) => (trim(inner.take(k)), trim(inner.skip(k + 1))),
        None => (trim(inner), Seq::<char>::empty()),
    }
}

/// `v` without leading repetitions of `p`, as a start index.
fn strip_prefix_rep_exec(v: &Vec<char>, p: &Vec<char>) -> (k: usize)
    requires
        p@.len() > 0,
    ensures
        k <= v.len(),
        strip_prefix_rep(v@, p@) == v@.skip(k as int),
{
    let mut k: usize = 0;
    assert(v@.skip(0) =~= v@);
    while k < v.len() && occurs_at_exec(v, p, k)
        invariant
            k <= v.len(),
            p@.len() > 0,
            strip_prefix_rep(v@, p@) == strip_prefix_rep(v@.skip(k as int), p@),
        decreases v.len() - k,
    {
        assert(v@.skip(k as int).take(p@.len() as int) =~= v@.subrange(k as int, k + p@.len()));
        assert(v@.skip(k as int).skip(p@.len() as int) =~= v@.skip(k + p@.len()));
        k = k + p.len();
    }
    if k < v.len() {
        assert(!starts_with(v@.skip(k as int), p@)) by {
            if starts_with(v@.skip(k as int), p@) {
                assert(v@.skip(k as int).take(p@.len() as int) =~= v@.subrange(k as int, k + p@.len()));
            }
        }
    }
    k
}

/// `v[..e]` without trailing repetitions of `p`, as an end index.
fn strip_suffix_rep_exec(v: &Vec<char>, start: usize, p: &Vec<char>) -> (e: usize)
    requires
        p@.len() > 0,
        start <= v.len(),
    ensures
        start <= e <= v.len(),
        strip_suffix_rep(v@.skip(start as int), p@) == v@.subrange(start as int, e as int),
{
    let mut e: usize = v.len();
    assert(v@.subrange(start as int, v.len() as int) =~= v@.skip(start as int));
    while e - start >= p.len() && occurs_at_exec(v, p, e - p.len())
        invariant
            start <= e <= v.len(),
            p@.len() > 0,
            strip_suffix_rep(v@.skip(start as int), p@) == strip_suffix_rep(v@.subrange(start as int, e as int), p@),
        decreases e,
    {
        let ghost w = v@.subrange(start as int, e as int);
        assert(w.skip(w.len() - p@.len()) =~= v@.subrange(e - p@.len(), e as int));
        assert(w.take(w.len() - p@.len()) =~= v@.subrange(start as int, e - p@.len()));
        e = e - p.len();
    }
    let ghost w = v@.subrange(start as int, e as int);
    if e - start >= p.len() {
        assert(!ends_with(w, p@)) by {
            if ends_with(w, p@) {
                assert(w.skip(w.len() - p@.len()) =~= v@.subrange(e - p@.len(), e as int));
            }
        }
    }
    e
}

/// Splits a statement into its operator and its arguments (see `spec_split_statement`).
pub fn split_statement(statement: &str) -> (r: (String, String))
    ensures
        (r.0@, r.1@) == spec_split_statement(statement@),
{
    let t = trim_str(statement);
    let v = chars_of(t.as_str());
    let open = chars_of("{{");
    let close = chars_of("}}");
    proof {
        reveal_strlit("{{");
        reveal_strlit("}}");
    }
    let a = strip_prefix_rep_exec(&v, &open);
    let e = strip_suffix_rep_exec(&v, a, &close);
    let mid = string_from_range(&v, a, e);
    let inner = trim_str(mid.as_str());
    let iv = chars_of(inner.as_str());
    let mut k: usize = 0;
    while k < iv.len() && !is_whitespace(iv[k])
        invariant
            k <= iv.len(),
            forall|j: int| 0 <= j < k ==> !spec_is_whitespace(iv@[j]),
        decreases iv.len() - k,
    {
        k = k + 1;
    }
    assert(inner@ == statement_inner(statement@));
    if k < iv.len() {
        let ghost ch = choose|i: int| 0 <= i < iv@.len() && spec_is_whitespace(iv@[i]) && forall|j: int| 0 <= j < i ==> !spec_is_whitespace(iv@[j]);
        assert(ch == k as int) by {
            if ch < k as int {
            } else if ch > k as int {
            }
        }
        let op_raw = string_from_range(&iv, 0, k);
        let args_raw = string_from_range(&iv, k + 1, iv.len());
        assert(op_raw@ =~= iv@.take(k as int));
        assert(args_raw@ =~= iv@.skip(k + 1));
        (trim_str(op_raw.as_str()), trim_str(args_raw.as_str()))
    } else {
        (trim_str(inner.as_str()), String::new())
    }
}

// ---------------------------------------------------------------------------
// Text case
// ---------------------------------------------------------------------------

/// `s` with the first alphanumeric character of each alphanumeric run upper-cased.
pub open spec fn spec_capitalize_title(s: Seq<char>) -> Seq<char>
    decreases s.len(),
{
    if s.len() == 0 {
        Seq::<char>::empty()
    } else {
        let p = spec_capitalize_title(s.drop_last());
        let c = s.last();
        if spec_is_alphanumeric(c) && (s.len() == 1 || !spec_is_alphanumeric(s[s.len() - 2])) {
            p + spec_char_to_uppercase(c)
        } else {
            p.push(c)
        }
    }
}

/// Upper-cases the first character of every alphanumeric run.
pub fn capitalize_title(value: &str) -> (r: String)
    ensures
        r@ == spec_capitalize_title(value@),
{
    let v = chars_of(value);
    let mut out = String::new();
    let mut i: usize = 0;
    while i < v.len()
        invariant
            i <= v.len(),
            out@ == spec_capitalize_title(v@.take(i as int)),
        decreases v.len() - i,
    {
        assert(v@.take(i + 1).drop_last() =~= v@.take(i as int));
        assert(v@.take(i + 1).last() == v@[i as int]);
        let c = v[i];
        let starts = is_alphanumeric(c) && (i == 0 || !is_alphanumeric(v[i - 1]));
        if i >= 1 {
            assert(v@.take(i + 1)[i - 1] == v@[i - 1]);
        }
        if starts {
            let u = char_to_uppercase(c);
            push_str(&mut out, u.as_str());
        } else {
            push_char(&mut out, c);
        }
        i = i + 1;
    }
    assert(v@.take(v.len() as int) =~= v@);
    out
}

/// Lower-cased text with whitespace runs and separators collapsed into one
/// separator (none at the start), before trimming separators at the ends.
pub open spec fn joined_case_acc(s: Seq<char>, sep: char) -> Seq<char>
    decreases s.len(),
{
    if s.len() == 0 {
        Seq::<char>::empty()
    } else {
        let p = joined_case_acc(s.drop_last(), sep);
        let c = s.last();
        if spec_is_whitespace(c) || c == sep {
            if p.len() > 0 && p.last() != sep {
                p.push(sep)
            } else {
                p
            }
        } else {
            p.push(c)
        }
    }
}

/// `s` without `c` at either end (`trim_matches(c)`).
pub open spec fn trim_char(s: Seq<char>, c: char) -> Seq<char>
    decreases s.len(),
{
    if s.len() > 0 && s[0] == c {
        trim_char(s.drop_first(), c)
    } else if s.len() > 0 && s.last() == c {
        trim_char(s.drop_last(), c)
    } else {
        s
    }
}

/// `value` lower-cased, with words separated by single `sep` characters.
pub open spec fn spec_joined_case(value: Seq<char>, sep: char) -> Seq<char> {
    trim_char(joined_case_acc(spec_to_lowercase(value), sep), sep)
}

fn trim_char_exec(v: &Vec<char>, c: char) -> (r: String)
    ensures
        r@ == trim_char(v@, c),
{
    let mut a: usize = 0;
    let mut b: usize = v.len();
    assert(v@.subrange(0, v.len() as int) =~= v@);
    while a < b && (v[a] == c || v[b - 1] == c)
        invariant
            a <= b <= v.len(),
            trim_char(v@, c) == trim_char(v@.subrange(a as int, b as int), c),
        decreases b - a,
    {
        let ghost w = v@.subrange(a as int, b as int);
        if v[a] == c {
            assert(w.drop_first() =~= v@.subrange(a + 1, b as int));
            a = a + 1;
        } else {
            assert(w.drop_last() =~= v@.subrange(a as int, b - 1));
            b = b - 1;
        }
    }
    string_from_range(v, a, b)
}

/// Lower-cases `value` and joins its words with `separator`.
pub fn normalize_joined_case(value: &str, separator: char) -> (r: String)
    ensures
        r@ == spec_joined_case(value@, separator),
{
    let lower = to_lowercase(value);
    let v = chars_of(lower.as_str());
    let mut out: Vec<char> = Vec::new();
    let mut i: usize = 0;
    while i < v.len()
        invariant
            i <= v.len(),
            out@ == joined_case_acc(v@.take(i as int), separator),
        decreases v.len() - i,
    {
        assert(v@.take(i + 1).drop_last() =~= v@.take(i as int));
        assert(v@.take(i + 1).last() == v@[i as int]);
        let c = v[i];
        if is_whitespace(c) || c == separator {
            if out.len() > 0 && out[out.len() - 1] != separator {
                out.push(separator);
            }
        } else {
            out.push(c);
        }
        i = i + 1;
    }
    assert(v@.take(v.len() as int) =~= v@);
    trim_char_exec(&out, separator)
}

/// The maximal runs of alphanumeric characters of `s`, with whether the last
/// character belongs to the final run.
pub open spec fn words_acc(s: Seq<char>) -> (Seq<Seq<char>>, bool)
    decreases s.len(),
{
    if s.len() == 0 {
        (Seq::<Seq<char>>::empty(), false)
    } else {
        let (r, open_run) = words_acc(s.drop_last());
        if !spec_is_alphanumeric(s.last()) {
            (r, false)
        } else if open_run {
            (r.update(r.len() - 1, r.last().push(s.last())), true)
        } else {
            (r.push(seq![s.last()]), true)
        }
    }
}

/// The maximal runs of alphanumeric characters of `s`.
pub open spec fn spec_split_words(s: Seq<char>) -> Seq<Seq<char>> {
    words_acc(s).0
}

proof fn lemma_words_nonempty(s: Seq<char>)
    ensures
        forall|i: int| 0 <= i < words_acc(s).0.len() ==> (#[trigger] words_acc(s).0[i]).len() > 0,
        words_acc(s).1 ==> words_acc(s).0.len() > 0,
    decreases s.len(),
{
    if s.len() > 0 {
        lemma_words_nonempty(s.drop_last());
    }
}

/// The maximal runs of alphanumeric characters of `value`.
pub fn split_words(value: &str) -> (r: Vec<String>)
    ensures
        views(r@) == spec_split_words(value@),
        forall|i: int| 0 <= i < r.len() ==> (#[trigger] r@[i])@.len() > 0,
{
    let v = chars_of(value);
    let mut done: Vec<String> = Vec::new();
    let mut cur = String::new();
    let mut open_run = false;
    let mut i: usize = 0;
    assert(v@.take(0) =~= Seq::<char>::empty());
    while i < v.len()
        invariant
            i <= v.len(),
            v@ == value@,
            open_run ==> words_acc(v@.take(i as int)) == (views(done@).push(cur@), true),
            !open_run ==> words_acc(v@.take(i as int)) == (views(done@), false),
            !open_run ==> cur@.len() == 0,
        decreases v.len() - i,
    {
        let c = v[i];
        assert(v@.take(i + 1).drop_last() =~= v@.take(i as int));
        assert(v@.take(i + 1).last() == c);
        if !is_alphanumeric(c) {
            if open_run {
                let finished = cur;
                done.push(finished);
                cur = String::new();
                assert(views(done@) =~= views(done@.drop_last()).push(finished@));
                open_run = false;
            }
        } else {
            if open_run {
                push_char(&mut cur, c);
                assert(views(done@).push(cur@) =~= views(done@).push(cur@.drop_last()).update(
                    views(done@).len() as int,
                    cur@,
                ));
            } else {
                push_char(&mut cur, c);
                assert(cur@ =~= seq![c]);
                open_run = true;
            }
        }
        i = i + 1;
    }
    assert(v@.take(v.len() as int) =~= v@);
    if open_run {
        let finished = cur;
        done.push(finished);
        assert(views(done@) =~= views(done@.drop_last()).push(finished@));
    }
    proof {
        lemma_words_nonempty(value@);
        assert(views(done@) == spec_split_words(value@));
        assert forall|i: int| 0 <= i < done.len() implies (#[trigger] done@[i])@.len() > 0 by {
            assert(views(done@)[i] == done@[i]@);
            assert(words_acc(value@).0[i].len() > 0);
        }
    }
    done
}

/// `s` with its first character upper-cased.
pub open spec fn upper_first(s: Seq<char>) -> Seq<char> {
    if s.len() == 0 {
        Seq::<char>::empty()
    } else {
        spec_char_to_uppercase(s[0]) + s.drop_first()
    }
}

/// Words joined in camel case: the first as it is, the others with their
/// first character upper-cased.
pub open spec fn camel_join(words: Seq<Seq<char>>) -> Seq<char>
    decreases words.len(),
{
    if words.len() == 0 {
        Seq::<char>::empty()
    } else if words.len() == 1 {
        words[0]
    } else {
        camel_join(words.drop_last()) + upper_first(words.last())
    }
}

/// `value` in the named text case: upper, lower, sentence, title, hyphen,
/// snake, camel or pascal; unchanged for any other name.
pub open spec fn spec_text_case(value: Seq<char>, case: Seq<char>) -> Seq<char> {
    if case == "upper"@ {
        spec_to_uppercase(value)
    } else if case == "lower"@ {
        spec_to_lowercase(value)
    } else if case == "sentence"@ {
        upper_first(value)
    } else if case == "title"@ {
        spec_capitalize_title(value)
    } else if case == "hyphen"@ {
        spec_joined_case(value, '-')
    } else if case == "snake"@ {
        spec_joined_case(value, '_')
    } else if case == "camel"@ {
        camel_join(spec_split_words(spec_to_lowercase(value)))
    } else if case == "pascal"@ {
        upper_first(camel_join(spec_split_words(spec_to_lowercase(value))))
    } else {
        value
    }
}

/// `s` with its first character upper-cased.
pub fn upper_first_exec(s: &str) -> (r: String)
    ensures
        r@ == upper_first(s@),
{
    let v = chars_of(s);
    if v.len() == 0 {
        return String::new();
    }
    let mut out = char_to_uppercase(v[0]);
    let rest = string_from_range(&v, 1, v.len());
    assert(rest@ =~= s@.drop_first());
    push_str(&mut out, rest.as_str());
    out
}

fn camel_case(value: &str) -> (r: String)
    ensures
        r@ == camel_join(spec_split_words(spec_to_lowercase(value@))),
{
    let lower = to_lowercase(value);
    let words = split_words(lower.as_str());
    let mut out = String::new();
    let mut i: usize = 0;
    while i < words.len()
        invariant
            i <= words.len(),
            out@ == camel_join(views(words@).take(i as int)),
        decreases words.len() - i,
    {
        assert(views(words@).take(i + 1).drop_last() =~= views(words@).take(i as int));
        assert(views(words@).take(i + 1).last() == words@[i as int]@);
        if i == 0 {
            push_str(&mut out, words[i].as_str());
            assert(out@ =~= views(words@).take(1)[0]);
        } else {
            let u = upper_first_exec(words[i].as_str());
            push_str(&mut out, u.as_str());
        }
        i = i + 1;
    }
    assert(views(words@).take(words.len() as int) =~= views(words@));
    out
}

/// Applies the named text case to `value` (see `spec_text_case`).
pub fn apply_text_case(value: &str, text_case: &str) -> (r: String)
    ensures
        r@ == spec_text_case(value@, text_case@),
{
    proof {
        reveal_strlit("upper");
        reveal_strlit("lower");
        reveal_strlit("sentence");
        reveal_strlit("title");
        reveal_strlit("hyphen");
        reveal_strlit("snake");
        reveal_strlit("camel");
        reveal_strlit("pascal");
    }
    if str_eq(text_case, "upper") {
        to_uppercase(value)
    } else if str_eq(text_case, "lower") {
        to_lowercase(value)
    } else if str_eq(text_case, "sentence") {
        upper_first_exec(value)
    } else if str_eq(text_case, "title") {
        capitalize_title(value)
    } else if str_eq(text_case, "hyphen") {
        normalize_joined_case(value, '-')
    } else if str_eq(text_case, "snake") {
        normalize_joined_case(value, '_')
    } else if str_eq(text_case, "camel") {
        camel_case(value)
    } else if str_eq(text_case, "pascal") {
        let c = camel_case(value);
        upper_first_exec(c.as_str())
    } else {
        owned(value)
    }
}

} // verus!
