//! arXiv metadata: the Atom feed, category names, and the item an arXiv
//! paper becomes.

use vstd::prelude::*;

use crate::arxiv_categories::{arxiv_categories, arxiv_table};
use crate::formatters::{char_width, char_width_exec, utf8_len};
use crate::patterns::{
    capture_all_or_none, capture_all_str, capture_or_none, capture_str, escape, matches_or_false,
    find_all, find_all_or_none, is_match_str, replace_first_or_same, replace_first_str, spec_regex_escape,
    spec_regex_find_all, spec_regex_valid, Pattern,
};
use crate::search_engine::index_of;
use crate::text::{
    chars_of, contains, contains_str, join, join_strs, owned, push_str, replace_all, replace_str, spec_to_lowercase,
    split_ws, split_ws_str, str_eq, string_from_range, to_lowercase, trim, trim_str, views,
};
use crate::types::{lookup_pairs, pair_views, table_lookup};

verus! {

// ---------------------------------------------------------------------------
// XML helpers
// ---------------------------------------------------------------------------

/// The five XML entities decoded, `&amp;` last.
pub open spec fn spec_xml_unescape(s: Seq<char>) -> Seq<char> {
    replace_all(
        replace_all(
            replace_all(replace_all(replace_all(s, "&lt;"@, "<"@), "&gt;"@, ">"@), "&quot;"@, "\""@),
            "&#39;"@,
            "'"@,
        ),
        "&amp;"@,
        "&"@,
    )
}

/// Decodes the XML entities `&lt;`, `&gt;`, `&quot;`, `&#39;` and `&amp;`.
pub fn xml_unescape(value: &str) -> (r: String)
    ensures
        r@ == spec_xml_unescape(value@),
{
    proof {
        reveal_strlit("&lt;");
        reveal_strlit("&gt;");
        reveal_strlit("&quot;");
        reveal_strlit("&#39;");
        reveal_strlit("&amp;");
    }
    let a = replace_str(value, "&lt;", "<");
    let b = replace_str(a.as_str(), "&gt;", ">");
    let c = replace_str(b.as_str(), "&quot;", "\"");
    let d = replace_str(c.as_str(), "&#39;", "'");
    replace_str(d.as_str(), "&amp;", "&")
}

/// The pattern of an element named `tag` with its content in group 1.
pub open spec fn xml_tag_pattern(tag: Seq<char>) -> Seq<char> {
    "(?is)<"@ + spec_regex_escape(tag) + "[^>]*>(.*?)</"@ + spec_regex_escape(tag) + ">"@
}

/// The trimmed content of the first element named `tag`, or nothing.
pub open spec fn spec_first_xml_tag(source: Seq<char>, tag: Seq<char>) -> Seq<char> {
    match capture_or_none(xml_tag_pattern(tag), source, 1) {
        Some(c) => trim(c),
        None => Seq::<char>::empty(),
    }
}

/// The trimmed content of the first element named `tag_name`.
pub fn first_xml_tag(source: &str, tag_name: &str) -> (r: String)
    ensures
        r@ == spec_first_xml_tag(source@, tag_name@),
{
    let e = escape(tag_name);
    let mut pattern = owned("(?is)<");
    push_str(&mut pattern, e.as_str());
    push_str(&mut pattern, "[^>]*>(.*?)</");
    push_str(&mut pattern, e.as_str());
    push_str(&mut pattern, ">");
    match capture_str(pattern.as_str(), source, 1) {
        Some(c) => trim_str(c.as_str()),
        None => {
            proof {
                reveal_strlit("");
            }
            String::new()
        },
    }
}

/// A DOI given plainly, as a `doi.org` URL or with `doi:`: empty for blank
/// input, the bare DOI when it has the form `10.NNNN/...`, else nothing.
pub open spec fn spec_normalize_doi_like(raw: Seq<char>) -> Option<Seq<char>> {
    let t = trim(raw);
    if t.len() == 0 {
        Some(Seq::<char>::empty())
    } else {
        let w = replace_first_or_same("(?i)^https?://(dx\\.)?doi\\.org/"@, t, ""@);
        let c = trim(replace_first_or_same("(?i)^doi:\\s*"@, w, ""@));
        if matches_or_false("^10\\.\\d{4,9}/.+"@, c) {
            Some(c)
        } else {
            None
        }
    }
}

/// Reads a DOI (see `spec_normalize_doi_like`); `Invalid DOI` when malformed.
pub fn normalize_doi_like(raw: &str) -> (r: Result<String, &'static str>)
    ensures
        match r {
            Ok(d) => spec_normalize_doi_like(raw@) == Some(d@),
            Err(e) => spec_normalize_doi_like(raw@) is None && e@ == "Invalid DOI"@,
        },
{
    let t = trim_str(raw);
    if t.as_str().is_empty() {
        proof {
            reveal_strlit("");
        }
        return Ok(String::new());
    }
    let w = replace_first_str("(?i)^https?://(dx\\.)?doi\\.org/", t.as_str(), "");
    let c0 = replace_first_str("(?i)^doi:\\s*", w.as_str(), "");
    let c = trim_str(c0.as_str());
    if !is_match_str("^10\\.\\d{4,9}/.+", c.as_str()) {
        return Err("Invalid DOI");
    }
    Ok(c)
}

// ---------------------------------------------------------------------------
// The Atom feed
// ---------------------------------------------------------------------------

/// The metadata of an arXiv entry.
#[derive(Debug)]
pub struct ArxivParsed {
    pub title: String,
    pub summary: String,
    pub authors: Vec<String>,
    pub published: String,
    pub updated: String,
    pub doi: String,
    pub abs_url: String,
    pub categories: Vec<String>,
    pub primary_category: String,
    pub comment: String,
}

/// The content of an arXiv entry's metadata.
pub struct ArxivSpec {
    pub title: Seq<char>,
    pub summary: Seq<char>,
    pub authors: Seq<Seq<char>>,
    pub published: Seq<char>,
    pub updated: Seq<char>,
    pub doi: Seq<char>,
    pub abs_url: Seq<char>,
    pub categories: Seq<Seq<char>>,
    pub primary_category: Seq<char>,
    pub comment: Seq<char>,
}

/// The content of `p`.
pub open spec fn arxiv_view(p: ArxivParsed) -> ArxivSpec {
    ArxivSpec {
        title: p.title@,
        summary: p.summary@,
        authors: views(p.authors@),
        published: p.published@,
        updated: p.updated@,
        doi: p.doi@,
        abs_url: p.abs_url@,
        categories: views(p.categories@),
        primary_category: p.primary_category@,
        comment: p.comment@,
    }
}

/// Whitespace runs collapsed to single spaces, ends trimmed.
pub open spec fn collapse_ws(s: Seq<char>) -> Seq<char> {
    join(split_ws(s), " "@)
}

/// The author names: each decoded and collapsed, empty ones dropped.
pub open spec fn clean_names(raw: Seq<Seq<char>>) -> Seq<Seq<char>>
    decreases raw.len(),
{
    if raw.len() == 0 {
        Seq::<Seq<char>>::empty()
    } else {
        let n = collapse_ws(spec_xml_unescape(trim(raw.last())));
        if n.len() > 0 {
            clean_names(raw.drop_last()).push(n)
        } else {
            clean_names(raw.drop_last())
        }
    }
}

/// The pattern of the first entry of a feed.
pub open spec fn entry_pattern() -> Seq<char> {
    "(?is)<entry[^>]*>(.*?)</entry>"@
}

/// The pattern of an author name.
pub open spec fn author_pattern() -> Seq<char> {
    "(?is)<author[^>]*>.*?<name[^>]*>(.*?)</name>.*?</author>"@
}

/// The pattern of a category term.
pub open spec fn category_pattern() -> Seq<char> {
    "(?i)<category[^>]*term=[\"']([^\"']+)[\"'][^>]*/?\\s*>"@
}

/// The pattern of the primary category term.
pub open spec fn primary_pattern() -> Seq<char> {
    "(?i)<arxiv:primary_category[^>]*term=[\"']([^\"']+)[\"'][^>]*/?\\s*>"@
}

/// The content of the first element named `a`, or else of `b`.
pub open spec fn first_tag_of(entry: Seq<char>, a: Seq<char>, b: Seq<char>) -> Seq<char> {
    if spec_first_xml_tag(entry, a).len() == 0 {
        spec_first_xml_tag(entry, b)
    } else {
        spec_first_xml_tag(entry, a)
    }
}

/// The metadata of the first entry of an arXiv Atom feed, or why there is
/// none: no entry, or an empty title.
pub open spec fn spec_parse_arxiv_atom(xml: Seq<char>) -> Result<ArxivSpec, Seq<char>> {
    let entry = match capture_or_none(entry_pattern(), xml, 1) {
        Some(e) => e,
        None => Seq::<char>::empty(),
    };
    let title = collapse_ws(spec_xml_unescape(spec_first_xml_tag(entry, "title"@)));
    let categories = capture_all_or_none(category_pattern(), entry, 1);
    if entry.len() == 0 {
        Err("No <entry> found in arXiv Atom XML"@)
    } else if title.len() == 0 {
        Err("Title is empty in arXiv entry"@)
    } else {
        Ok(
            ArxivSpec {
                title,
                summary: trim(spec_xml_unescape(spec_first_xml_tag(entry, "summary"@))),
                authors: clean_names(capture_all_or_none(author_pattern(), entry, 1)),
                published: spec_first_xml_tag(entry, "published"@),
                updated: spec_first_xml_tag(entry, "updated"@),
                doi: match spec_normalize_doi_like(first_tag_of(entry, "arxiv:doi"@, "doi"@)) {
                    Some(d) => if d.len() > 0 {
                        spec_to_lowercase(d)
                    } else {
                        Seq::<char>::empty()
                    },
                    None => Seq::<char>::empty(),
                },
                abs_url: spec_first_xml_tag(entry, "id"@),
                categories,
                primary_category: match capture_or_none(primary_pattern(), entry, 1) {
                    Some(p) => p,
                    None => if categories.len() > 0 {
                        categories[0]
                    } else {
                        Seq::<char>::empty()
                    },
                },
                comment: trim(spec_xml_unescape(first_tag_of(entry, "arxiv:comment"@, "comment"@))),
            },
        )
    }
}

fn collapse_ws_exec(s: &str) -> (r: String)
    ensures
        r@ == collapse_ws(s@),
{
    let words = split_ws_str(s);
    join_strs(&words, " ")
}

fn first_tag_of_exec(entry: &str, a: &str, b: &str) -> (r: String)
    ensures
        r@ == first_tag_of(entry@, a@, b@),
{
    let x = first_xml_tag(entry, a);
    if x.as_str().is_empty() {
        first_xml_tag(entry, b)
    } else {
        x
    }
}

fn clean_names_exec(raw: &Vec<String>) -> (r: Vec<String>)
    ensures
        views(r@) == clean_names(views(raw@)),
{
    let mut r: Vec<String> = Vec::new();
    let mut i: usize = 0;
    assert(views(raw@).take(0) =~= Seq::<Seq<char>>::empty());
    while i < raw.len()
        invariant
            i <= raw.len(),
            views(r@) == clean_names(views(raw@).take(i as int)),
        decreases raw.len() - i,
    {
        assert(views(raw@).take(i + 1).drop_last() =~= views(raw@).take(i as int));
        assert(views(raw@).take(i + 1).last() == raw@[i as int]@);
        let t = trim_str(raw[i].as_str());
        let u = xml_unescape(t.as_str());
        let n = collapse_ws_exec(u.as_str());
        if !n.as_str().is_empty() {
            let ghost before = views(r@);
            let ghost nv = n@;
            r.push(n);
            assert(views(r@) =~= before.push(nv));
        }
        i = i + 1;
    }
    assert(views(raw@).take(raw.len() as int) =~= views(raw@));
    r
}

/// Reads the first entry of an arXiv Atom feed (see `spec_parse_arxiv_atom`).
pub fn parse_arxiv_atom(xml: &str) -> (r: Result<ArxivParsed, String>)
    ensures
        match r {
            Ok(p) => spec_parse_arxiv_atom(xml@) == Ok::<ArxivSpec, Seq<char>>(arxiv_view(p)),
            Err(e) => spec_parse_arxiv_atom(xml@) == Err::<ArxivSpec, Seq<char>>(e@),
        },
{
    proof {
        reveal_strlit("");
    }
    let entry = match capture_str("(?is)<entry[^>]*>(.*?)</entry>", xml, 1) {
        Some(e) => e,
        None => String::new(),
    };
    let e = entry.as_str();
    if e.is_empty() {
        return Err(owned("No <entry> found in arXiv Atom XML"));
    }
    let title_raw = first_xml_tag(e, "title");
    let title = collapse_ws_exec(xml_unescape(title_raw.as_str()).as_str());
    if title.as_str().is_empty() {
        return Err(owned("Title is empty in arXiv entry"));
    }
    let summary = trim_str(xml_unescape(first_xml_tag(e, "summary").as_str()).as_str());
    let published = first_xml_tag(e, "published");
    let updated = first_xml_tag(e, "updated");
    let abs_url = first_xml_tag(e, "id");
    let doi_raw = first_tag_of_exec(e, "arxiv:doi", "doi");
    let doi = match normalize_doi_like(doi_raw.as_str()) {
        Ok(d) => {
            if d.as_str().is_empty() {
                String::new()
            } else {
                to_lowercase(d.as_str())
            }
        },
        Err(_) => String::new(),
    };
    let raw_authors = capture_all_str(
        "(?is)<author[^>]*>.*?<name[^>]*>(.*?)</name>.*?</author>",
        e,
        1,
    );
    let authors = clean_names_exec(&raw_authors);
    let categories = capture_all_str("(?i)<category[^>]*term=[\"']([^\"']+)[\"'][^>]*/?\\s*>", e, 1);
    let primary_category = match capture_str(
        "(?i)<arxiv:primary_category[^>]*term=[\"']([^\"']+)[\"'][^>]*/?\\s*>",
        e,
        1,
    ) {
        Some(p) => p,
        None => {
            if categories.len() > 0 {
                assert(views(categories@)[0] == categories@[0]@);
                owned(categories[0].as_str())
            } else {
                String::new()
            }
        },
    };
    let comment_raw = first_tag_of_exec(e, "arxiv:comment", "comment");
    let comment = trim_str(xml_unescape(comment_raw.as_str()).as_str());
    let p = ArxivParsed {
        title,
        summary,
        authors,
        published,
        updated,
        doi,
        abs_url,
        categories,
        primary_category,
        comment,
    };
    Ok(p)
}

// ---------------------------------------------------------------------------
// Categories
// ---------------------------------------------------------------------------

/// The name of a category code: `Main - Sub` for a known subcategory of a
/// known main category, else the name of the code itself, else nothing.
pub open spec fn spec_map_arxiv_category(code: Seq<char>) -> Option<Seq<char>> {
    let direct = table_lookup(arxiv_table(), code);
    match index_of(code, '.') {
        Some(d) => match (table_lookup(arxiv_table(), code.take(d)), direct) {
            (Some(main), Some(sub)) => Some(main + " - "@ + sub),
            _ => direct,
        },
        None => direct,
    }
}

/// The name of an arXiv category code (see `spec_map_arxiv_category`).
pub fn map_arxiv_category(code: &str) -> (r: Option<String>)
    ensures
        match r {
            Some(n) => spec_map_arxiv_category(code@) == Some(n@),
            None => spec_map_arxiv_category(code@) is None,
        },
{
    let table = arxiv_categories();
    let v = chars_of(code);
    let mut d: usize = 0;
    while d < v.len() && v[d] != '.'
        invariant
            d <= v.len(),
            v@ == code@,
            forall|j: int| 0 <= j < d ==> v@[j] != '.',
        decreases v.len() - d,
    {
        d = d + 1;
    }
    let direct = lookup_pairs(&table, code);
    if d < v.len() {
        let ghost ch = choose|k: int| 0 <= k < v@.len() && v@[k] == '.' && forall|j: int| 0 <= j < k ==> v@[j] != '.';
        assert(ch == d as int) by {
            if ch < d as int {
            } else if ch > d as int {
            }
        }
        let main = string_from_range(&v, 0, d);
        assert(main@ =~= code@.take(d as int));
        match (lookup_pairs(&table, main.as_str()), direct) {
            (Some(m), Some(s)) => {
                let mut out = owned(m);
                push_str(&mut out, " - ");
                push_str(&mut out, s);
                return Some(out);
            },
            _ => {},
        }
    }
    match direct {
        Some(s) => Some(owned(s)),
        None => None,
    }
}

// ---------------------------------------------------------------------------
// URL encoding
// ---------------------------------------------------------------------------

/// Whether a byte is left as it is in a URL: ASCII letters, digits and `-_.~`.
pub open spec fn is_unreserved(b: u8) -> bool {
    (0x41 <= b <= 0x5a) || (0x61 <= b <= 0x7a) || (0x30 <= b <= 0x39) || b == 0x2d || b == 0x5f
        || b == 0x2e || b == 0x7e
}

/// An upper-case hexadecimal digit.
pub open spec fn hex_digit(n: u8) -> char {
    if n < 10 {
        ((n + 0x30) as u8) as char
    } else {
        ((n - 10 + 0x41) as u8) as char
    }
}

/// Bytes percent-encoded: unreserved bytes kept, others as `%XY`.
pub open spec fn pct_encode(b: Seq<u8>) -> Seq<char>
    decreases b.len(),
{
    if b.len() == 0 {
        Seq::<char>::empty()
    } else {
        let rest = pct_encode(b.drop_last());
        let x = b.last();
        if is_unreserved(x) {
            rest.push(x as char)
        } else {
            rest + seq!['%', hex_digit(x / 16), hex_digit(x % 16)]
        }
    }
}

fn hex_digit_exec(n: u8) -> (c: char)
    requires
        n < 16,
    ensures
        c == hex_digit(n),
{
    if n < 10 {
        (n + 0x30) as char
    } else {
        (n - 10 + 0x41) as char
    }
}

/// Percent-encodes the UTF-8 bytes of `input` (see `pct_encode`).
pub fn urlencoding(input: &str) -> (r: String)
    ensures
        r@ == pct_encode(vstd::utf8::encode_utf8(input@)),
{
    let bytes = input.as_bytes();
    let ghost b = bytes@;
    let mut out = String::new();
    proof {
        reveal_strlit("");
    }
    let mut i: usize = 0;
    assert(b.take(0) =~= Seq::<u8>::empty());
    while i < bytes.len()
        invariant
            i <= bytes.len(),
            b == bytes@,
            out@ == pct_encode(b.take(i as int)),
        decreases bytes.len() - i,
    {
        assert(b.take(i + 1).drop_last() =~= b.take(i as int));
        assert(b.take(i + 1).last() == b[i as int]);
        let x = bytes[i];
        if (0x41 <= x && x <= 0x5a) || (0x61 <= x && x <= 0x7a) || (0x30 <= x && x <= 0x39) || x
            == 0x2d || x == 0x5f || x == 0x2e || x == 0x7e {
            crate::text::push_char(&mut out, x as char);
        } else {
            let ghost before = out@;
            crate::text::push_char(&mut out, '%');
            crate::text::push_char(&mut out, hex_digit_exec(x / 16));
            crate::text::push_char(&mut out, hex_digit_exec(x % 16));
            assert(out@ =~= before + seq!['%', hex_digit(x / 16), hex_digit(x % 16)]);
        }
        i = i + 1;
    }
    assert(b.take(bytes.len() as int) =~= b);
    out
}

// ---------------------------------------------------------------------------
// Project pages
// ---------------------------------------------------------------------------

/// The pattern of a URL.
pub open spec fn url_pattern() -> Seq<char> {
    "https?://[^\\s,;)<>\\]\"']+"@
}

/// The words that mark a URL as a project page.
pub open spec fn context_pattern() -> Seq<char> {
    "(?i)\\b(?:project\\s*page|homepage|code|demo|website|webpage|supplementary|source\\s*code)\\b"@
}

/// `s` without trailing `.` and `)`.
pub open spec fn trim_url_end(s: Seq<char>) -> Seq<char>
    decreases s.len(),
{
    if s.len() > 0 && (s.last() == '.' || s.last() == ')') {
        trim_url_end(s.drop_last())
    } else {
        s
    }
}

/// Whether a lower-cased URL is on a site that is never a project page.
pub open spec fn is_excluded_url(lower: Seq<char>) -> bool {
    contains(lower, "arxiv.org"@) || contains(lower, "doi.org"@) || contains(lower, "dx.doi.org"@)
        || contains(lower, "creativecommons.org"@)
}

/// Whether a lower-cased URL is on a code or model hosting site.
pub open spec fn is_indicator_url(lower: Seq<char>) -> bool {
    contains(lower, "github.com"@) || contains(lower, "github.io"@) || contains(lower, "gitlab.com"@)
        || contains(lower, "huggingface.co"@)
}

/// The number of trailing characters of `pre` that fit in `budget` bytes.
pub open spec fn back_fit(pre: Seq<char>, budget: int) -> nat
    decreases pre.len(),
{
    if pre.len() == 0 || char_width(pre.last()) > budget {
        0
    } else {
        1 + back_fit(pre.drop_last(), budget - char_width(pre.last()))
    }
}

/// The text in the 60 bytes before character `k`, if those bytes start at a
/// character (else slicing there is not possible).
pub open spec fn context_before(s: Seq<char>, k: int) -> Option<Seq<char>> {
    let pre = s.take(k);
    let w = pre.skip(pre.len() - back_fit(pre, 60));
    if utf8_len(w) == (if utf8_len(pre) < 60 { utf8_len(pre) } else { 60 }) {
        Some(w)
    } else {
        None
    }
}

/// The character position whose byte offset is `off`.
pub open spec fn char_at_offset(s: Seq<char>, off: int) -> int {
    choose|k: int| 0 <= k <= s.len() && utf8_len(s.take(k)) == off
}

/// The project URLs found in a text, from `urls` (byte offset, match) on:
/// URLs on a hosting site or preceded (within 60 bytes) by a word such as
/// "code" or "project page", without trailing `.` or `)`, each once
/// (ignoring case), excluding arXiv, DOI and Creative Commons links. Nothing
/// when the 60-byte window would start inside a character.
pub open spec fn project_urls_from(text: Seq<char>, urls: Seq<(nat, Seq<char>)>, seen: Seq<Seq<char>>) -> Option<Seq<Seq<char>>>
    decreases urls.len(),
{
    if urls.len() == 0 {
        Some(Seq::<Seq<char>>::empty())
    } else {
        let raw = trim_url_end(urls[0].1);
        let lower = spec_to_lowercase(raw);
        if is_excluded_url(lower) || seen.contains(lower) {
            project_urls_from(text, urls.drop_first(), seen)
        } else {
            match context_before(text, char_at_offset(text, urls[0].0 as int)) {
                None => None,
                Some(ctx) => if is_indicator_url(lower) || matches_or_false(context_pattern(), ctx) {
                    match project_urls_from(text, urls.drop_first(), seen.push(lower)) {
                        Some(rest) => Some(seq![raw] + rest),
                        None => None,
                    }
                } else {
                    project_urls_from(text, urls.drop_first(), seen)
                },
            }
        }
    }
}

/// The project URLs of a text (see `project_urls_from`).
pub open spec fn spec_extract_project_urls(text: Seq<char>) -> Option<Seq<Seq<char>>> {
    project_urls_from(text, find_all_or_none(url_pattern(), text), Seq::<Seq<char>>::empty())
}

proof fn lemma_utf8_len_take_mono(s: Seq<char>, i: int, j: int)
    requires
        0 <= i < j <= s.len(),
    ensures
        utf8_len(s.take(i)) < utf8_len(s.take(j)),
    decreases j - i,
{
    assert(s.take(j).drop_last() =~= s.take(j - 1));
    if i < j - 1 {
        lemma_utf8_len_take_mono(s, i, j - 1);
    }
}

fn trim_url_end_exec(s: &str) -> (r: String)
    ensures
        r@ == trim_url_end(s@),
{
    let v = chars_of(s);
    let mut n = v.len();
    assert(v@.take(n as int) =~= v@);
    while n > 0 && (v[n - 1] == '.' || v[n - 1] == ')')
        invariant
            n <= v.len(),
            v@ == s@,
            trim_url_end(s@) == trim_url_end(v@.take(n as int)),
        decreases n,
    {
        assert(v@.take(n as int).drop_last() =~= v@.take(n - 1));
        n = n - 1;
    }
    string_from_range(&v, 0, n)
}

proof fn lemma_offset_unique(s: Seq<char>, a: int, b: int)
    requires
        0 <= a <= s.len(),
        0 <= b <= s.len(),
        utf8_len(s.take(a)) == utf8_len(s.take(b)),
    ensures
        a == b,
{
    if a < b {
        lemma_utf8_len_take_mono(s, a, b);
    } else if b < a {
        lemma_utf8_len_take_mono(s, b, a);
    }
}

/// The character position of a byte offset known to start a character.
fn char_index(v: &Vec<char>, off: usize) -> (k: usize)
    requires
        exists|k: int| 0 <= k <= v@.len() && utf8_len(v@.take(k)) == off,
    ensures
        k <= v.len(),
        utf8_len(v@.take(k as int)) == off,
        k as int == char_at_offset(v@, off as int),
{
    let mut k: usize = 0;
    let mut acc: u128 = 0;
    assert(v@.take(0) =~= Seq::<char>::empty());
    while acc < off as u128 && k < v.len()
        invariant
            k <= v.len(),
            acc == utf8_len(v@.take(k as int)),
            forall|j: int| 0 <= j < k ==> utf8_len(#[trigger] v@.take(j)) < off,
        decreases v.len() - k,
    {
        assert(v@.take(k + 1).drop_last() =~= v@.take(k as int));
        assert(v@.take(k + 1).last() == v@[k as int]);
        acc = acc + char_width_exec(v[k]) as u128;
        k = k + 1;
    }
    let ghost w = choose|j: int| 0 <= j <= v@.len() && utf8_len(v@.take(j)) == off;
    proof {
        if w < k {
            assert(utf8_len(v@.take(w)) < off);
        }
        if w > k {
            lemma_utf8_len_take_mono(v@, k as int, w);
        }
        assert(w == k);
        let c = char_at_offset(v@, off as int);
        lemma_offset_unique(v@, c, w);
    }
    k
}

/// The text in the 60 bytes before character `k` (see `context_before`).
fn context_before_exec(v: &Vec<char>, k: usize) -> (r: Option<String>)
    requires
        k <= v.len(),
    ensures
        match r {
            Some(c) => context_before(v@, k as int) == Some(c@),
            None => context_before(v@, k as int) is None,
        },
{
    let ghost pre = v@.take(k as int);
    let mut j: usize = k;
    let mut used: usize = 0;
    assert(pre.take(pre.len() as int) =~= pre);
    assert(pre.skip(pre.len() as int) =~= Seq::<char>::empty());
    while j > 0 && used + char_width_exec(v[j - 1]) <= 60
        invariant
            j <= k <= v.len(),
            pre == v@.take(k as int),
            used <= 60,
            used == utf8_len(pre.skip(j as int)),
            back_fit(pre, 60) == (k - j) + back_fit(pre.take(j as int), 60 - used),
        decreases j,
    {
        let w = char_width_exec(v[j - 1]);
        assert(pre.take(j as int).last() == v@[j - 1]);
        assert(pre.take(j as int).drop_last() =~= pre.take(j - 1));
        assert(pre.skip(j - 1).drop_first() =~= pre.skip(j as int));
        assert(pre.skip(j - 1) =~= seq![v@[j - 1]] + pre.skip(j as int));
        proof {
            crate::formatters::lemma_utf8_len_prepend(v@[j - 1], pre.skip(j as int));
        }
        used = used + w;
        j = j - 1;
    }
    proof {
        if j > 0 {
            assert(pre.take(j as int).last() == v@[j - 1]);
        }
        assert(back_fit(pre.take(j as int), 60 - used) == 0);
    }
    let off = {
        let mut t: u128 = 0;
        let mut i: usize = 0;
        assert(v@.take(0) =~= Seq::<char>::empty());
        while i < k
            invariant
                i <= k <= v.len(),
                t == utf8_len(v@.take(i as int)),
                t <= 4 * i,
            decreases k - i,
        {
            assert(v@.take(i + 1).drop_last() =~= v@.take(i as int));
            assert(v@.take(i + 1).last() == v@[i as int]);
            t = t + char_width_exec(v[i]) as u128;
            i = i + 1;
        }
        t
    };
    let want: u128 = if off < 60 {
        off
    } else {
        60
    };
    if used as u128 != want {
        return None;
    }
    let c = string_from_range(v, j, k);
    assert(c@ =~= pre.skip(j as int));
    Some(c)
}

/// The project URLs mentioned in a text (see `spec_extract_project_urls`).
#[verifier::loop_isolation(false)]
pub fn extract_project_urls(text: &str) -> (r: Option<Vec<String>>)
    ensures
        match r {
            Some(u) => spec_extract_project_urls(text@) == Some(views(u@)),
            None => spec_extract_project_urls(text@) is None,
        },
{
    let found: Vec<(usize, String)> = match Pattern::new("https?://[^\\s,;)<>\\]\"']+") {
        Some(p) => find_all(&p, text),
        None => Vec::new(),
    };
    let ghost all = find_all_or_none(url_pattern(), text@);
    assert(found@.len() == all.len());
    let v = chars_of(text);
    let mut seen: Vec<String> = Vec::new();
    let mut urls: Vec<String> = Vec::new();
    let mut i: usize = 0;
    assert(all.skip(0) =~= all);
    assert(views(urls@) =~= Seq::<Seq<char>>::empty());
    assert(views(seen@) =~= Seq::<Seq<char>>::empty());
    assert(forall|rest: Seq<Seq<char>>| Seq::<Seq<char>>::empty() + rest =~= rest);
    while i < found.len()
        invariant
            i <= found.len() == all.len(),
            v@ == text@,
            forall|t: int| 0 <= t < found.len() ==> (#[trigger] found@[t]).0 as nat == all[t].0 && found@[t].1@ == all[t].1,
            spec_extract_project_urls(text@) == match project_urls_from(text@, all.skip(i as int), views(seen@)) {
                Some(rest) => Some(views(urls@) + rest),
                None => None,
            },
        decreases found.len() - i,
    {
        assert(all.skip(i as int).drop_first() =~= all.skip(i + 1));
        assert(all.skip(i as int)[0] == all[i as int]);
        let m = found[i].1.as_str();
        let raw = trim_url_end_exec(m);
        let lower = to_lowercase(raw.as_str());
        let l = lower.as_str();
        let excluded = contains_str(l, "arxiv.org") || contains_str(l, "doi.org") || contains_str(l, "dx.doi.org")
            || contains_str(l, "creativecommons.org");
        if excluded || has_string(&seen, l) {
            i = i + 1;
            continue;
        }
        let k = char_index(&v, found[i].0);
        let ctx = match context_before_exec(&v, k) {
            Some(c) => c,
            None => {
                return None;
            },
        };
        let indicator = contains_str(l, "github.com") || contains_str(l, "github.io") || contains_str(l, "gitlab.com")
            || contains_str(l, "huggingface.co");
        if indicator || is_match_str(
            "(?i)\\b(?:project\\s*page|homepage|code|demo|website|webpage|supplementary|source\\s*code)\\b",
            ctx.as_str(),
        ) {
            let ghost before_urls = views(urls@);
            let ghost before_seen = views(seen@);
            let ghost rv = raw@;
            let ghost lv = lower@;
            seen.push(lower);
            urls.push(raw);
            assert(views(seen@) =~= before_seen.push(lv));
            assert(views(urls@) =~= before_urls.push(rv));
            assert(forall|rest: Seq<Seq<char>>| before_urls + (seq![rv] + rest) =~= before_urls.push(rv) + rest);
        }
        i = i + 1;
    }
    assert(views(urls@) + Seq::<Seq<char>>::empty() =~= views(urls@));
    Some(urls)
}

fn has_string(v: &Vec<String>, t: &str) -> (b: bool)
    ensures
        b == views(v@).contains(t@),
{
    let mut i: usize = 0;
    while i < v.len()
        invariant
            i <= v.len(),
            forall|k: int| 0 <= k < i ==> views(v@)[k] != t@,
        decreases v.len() - i,
    {
        if str_eq(v[i].as_str(), t) {
            assert(views(v@)[i as int] == t@);
            return true;
        }
        i = i + 1;
    }
    false
}

// ---------------------------------------------------------------------------
// Fetching with retries
// ---------------------------------------------------------------------------

/// Why an arXiv lookup failed.
#[derive(Debug)]
pub enum ArxivLookupError {
    /// arXiv answered 429 or 503 on the last attempt.
    TemporaryUnavailable { status: u16 },
    /// Any other failure.
    PermanentError { message: String },
}

/// The text of a lookup error.
pub open spec fn arxiv_error_text(e: ArxivLookupError) -> Seq<char> {
    match e {
        ArxivLookupError::TemporaryUnavailable { status } => "arXiv is temporarily unavailable ("@
            + crate::text::decimal(status as nat) + "). Please retry zotero_add_paper shortly."@,
        ArxivLookupError::PermanentError { message } => "arXiv lookup failed: "@ + message@,
    }
}

impl ArxivLookupError {
    /// The text shown for this error.
    pub fn message(&self) -> (r: String)
        ensures
            r@ == arxiv_error_text(*self),
    {
        match self {
            ArxivLookupError::TemporaryUnavailable { status } => {
                let mut out = owned("arXiv is temporarily unavailable (");
                let d = crate::text::decimal_string(*status as u64);
                push_str(&mut out, d.as_str());
                push_str(&mut out, "). Please retry zotero_add_paper shortly.");
                out
            },
            ArxivLookupError::PermanentError { message } => {
                let mut out = owned("arXiv lookup failed: ");
                push_str(&mut out, message.as_str());
                out
            },
        }
    }
}

/// How long to wait before the next attempt.
#[derive(Debug, Clone, Copy, PartialEq, Eq, Structural)]
pub enum Delay {
    Seconds(u64),
    Millis(u64),
}

/// What to do after an answer from arXiv.
#[derive(Debug)]
pub enum FetchStep {
    /// The answer succeeded: read its body.
    ReadBody,
    /// Wait, then try again.
    Wait(Delay),
    /// Give up with this error.
    Fail(ArxivLookupError),
}

/// The number of retries after the first attempt.
pub const ARXIV_MAX_RETRIES: usize = 3;

/// The wait before retry `attempt` when arXiv gives none: 250, 500, then
/// 1000 milliseconds.
pub open spec fn default_delay_ms(attempt: nat) -> u64 {
    if attempt == 0 {
        250
    } else if attempt == 1 {
        500
    } else {
        1000
    }
}

/// The step after an answer with `status` on attempt `attempt` (from 0) of
/// `max_retries + 1`: read a successful answer; wait and retry on 429 or 503
/// while attempts remain (for `Retry-After` seconds when that header is a
/// number); fail as temporarily unavailable on a last 429 or 503, and
/// permanently on any other status.
pub open spec fn spec_fetch_step(success: bool, status: u16, attempt: nat, max_retries: nat, retry_after: Option<Seq<char>>) -> (bool, Option<Delay>, Option<(bool, Seq<char>)>) {
    let limited = status == 429 || status == 503;
    if success {
        (true, None, None)
    } else if limited && attempt < max_retries {
        (false, Some(
            match retry_after {
                Some(v) => match crate::numbers::spec_parse_u64(v) {
                    Some(n) => Delay::Seconds(n as u64),
                    None => Delay::Millis(default_delay_ms(attempt)),
                },
                None => Delay::Millis(default_delay_ms(attempt)),
            },
        ), None)
    } else if limited {
        (false, None, Some((true, Seq::<char>::empty())))
    } else {
        (false, None, Some((false, "HTTP "@ + crate::text::decimal(status as nat))))
    }
}

/// The content of a fetch step: whether to read, the wait, and the failure
/// (temporary or not, with its message).
pub open spec fn fetch_step_view(f: FetchStep) -> (bool, Option<Delay>, Option<(bool, Seq<char>)>) {
    match f {
        FetchStep::ReadBody => (true, None, None),
        FetchStep::Wait(d) => (false, Some(d), None),
        FetchStep::Fail(ArxivLookupError::TemporaryUnavailable { .. }) => (false, None, Some((true, Seq::<char>::empty()))),
        FetchStep::Fail(ArxivLookupError::PermanentError { message }) => (false, None, Some((false, message@))),
    }
}

/// Decides the step after an answer from arXiv (see `spec_fetch_step`).
pub fn arxiv_fetch_step(success: bool, status: u16, attempt: usize, max_retries: usize, retry_after: Option<&str>) -> (r: FetchStep)
    ensures
        fetch_step_view(r) == spec_fetch_step(
            success,
            status,
            attempt as nat,
            max_retries as nat,
            match retry_after {
                Some(v) => Some(v@),
                None => None,
            },
        ),
        r matches FetchStep::Fail(ArxivLookupError::TemporaryUnavailable { status: s }) ==> s == status,
{
    let limited = status == 429 || status == 503;
    if success {
        return FetchStep::ReadBody;
    }
    if limited && attempt < max_retries {
        let fallback = if attempt == 0 {
            250
        } else if attempt == 1 {
            500
        } else {
            1000
        };
        let d = match retry_after {
            Some(v) => match crate::numbers::parse_u64(v) {
                Some(n) => Delay::Seconds(n),
                None => Delay::Millis(fallback),
            },
            None => Delay::Millis(fallback),
        };
        return FetchStep::Wait(d);
    }
    if limited {
        return FetchStep::Fail(ArxivLookupError::TemporaryUnavailable { status });
    }
    let mut m = owned("HTTP ");
    let d = crate::text::decimal_string(status as u64);
    push_str(&mut m, d.as_str());
    FetchStep::Fail(ArxivLookupError::PermanentError { message: m })
}

// ---------------------------------------------------------------------------
// The item of a paper
// ---------------------------------------------------------------------------

/// The first 10 bytes of `s`, if byte 10 (or the end) starts a character.
pub open spec fn ten_bytes(s: Seq<char>) -> Option<Seq<char>> {
    let k = crate::formatters::fitting_prefix(s, 10);
    if utf8_len(s.take(k as int)) == (if utf8_len(s) < 10 { utf8_len(s) } else { 10 }) {
        Some(s.take(k as int))
    } else {
        None
    }
}

fn ten_bytes_exec(s: &str) -> (r: Option<String>)
    ensures
        match r {
            Some(p) => ten_bytes(s@) == Some(p@),
            None => ten_bytes(s@) is None,
        },
{
    let t = crate::formatters::truncate_bytes(s, 10);
    let total = crate::formatters::utf8_len_exec(s);
    let want: u128 = if total < 10 {
        total
    } else {
        10
    };
    if crate::formatters::utf8_len_exec(t.as_str()) != want {
        return None;
    }
    Some(t)
}

/// The URL arXiv's API answers for a paper.
pub open spec fn spec_query_url(arxiv_id: Seq<char>) -> Seq<char> {
    "https://export.arxiv.org/api/query?id_list="@ + pct_encode(vstd::utf8::encode_utf8(arxiv_id))
}

/// The URL arXiv's API answers for a paper.
pub fn arxiv_query_url(arxiv_id: &str) -> (r: String)
    ensures
        r@ == spec_query_url(arxiv_id@),
{
    let mut out = owned("https://export.arxiv.org/api/query?id_list=");
    let e = urlencoding(arxiv_id);
    push_str(&mut out, e.as_str());
    out
}

/// The names of the categories that have one.
pub open spec fn category_names(codes: Seq<Seq<char>>) -> Seq<Seq<char>>
    decreases codes.len(),
{
    if codes.len() == 0 {
        Seq::<Seq<char>>::empty()
    } else {
        match spec_map_arxiv_category(codes.last()) {
            Some(n) => category_names(codes.drop_last()).push(n),
            None => category_names(codes.drop_last()),
        }
    }
}

/// What an arXiv paper becomes: its tags, links, identifiers and dates.
#[derive(Debug)]
pub struct ArxivItemPlan {
    pub category_tags: Vec<String>,
    pub abs_url: String,
    pub article_id: String,
    pub extra_line: String,
    pub date: String,
    pub doi: String,
    pub pdf_url: String,
    pub pdf_id: String,
    pub use_arxiv_fields: bool,
}

/// The abstract page of a paper: the entry's id without its version, or the
/// page of `arxiv_id` when the entry has none.
pub open spec fn spec_abs_url(abs: Seq<char>, arxiv_id: Seq<char>) -> Seq<char> {
    if abs.len() == 0 {
        "https://arxiv.org/abs/"@ + arxiv_id
    } else {
        replace_first_or_same("v\\d+$"@, abs, ""@)
    }
}

/// The id in an abstract page URL, or `arxiv_id`.
pub open spec fn spec_article_id(abs_url: Seq<char>, arxiv_id: Seq<char>) -> Seq<char> {
    match capture_or_none("/abs/(.+)$"@, abs_url, 1) {
        Some(a) => a,
        None => arxiv_id,
    }
}

/// The `extra` line of a paper: `arXiv:ID`, followed for new-style ids by
/// the primary field in brackets (`[cs]`).
pub open spec fn spec_extra_line(primary: Seq<char>, article_id: Seq<char>) -> Seq<char> {
    let f = replace_first_or_same("\\..+?$"@, replace_first_or_same("^.+?:"@, primary, ""@), ""@);
    let field = if f.len() == 0 {
        Seq::<char>::empty()
    } else {
        "["@ + f + "]"@
    };
    if contains(article_id, "/"@) {
        "arXiv:"@ + article_id
    } else {
        trim("arXiv:"@ + article_id + " "@ + field)
    }
}

/// The plan for a parsed paper requested as `arxiv_id`, or nothing when the
/// date would be cut inside a character.
pub open spec fn spec_arxiv_plan(p: ArxivSpec, arxiv_id: Seq<char>) -> Option<(Seq<Seq<char>>, Seq<char>, Seq<char>, Seq<char>, Seq<char>, Seq<char>, Seq<char>, Seq<char>, bool)> {
    let abs_url = spec_abs_url(p.abs_url, arxiv_id);
    let article_id = spec_article_id(abs_url, arxiv_id);
    let date = if p.updated.len() > 0 {
        ten_bytes(p.updated)
    } else if p.published.len() > 0 {
        ten_bytes(p.published)
    } else {
        Some(Seq::<char>::empty())
    };
    match date {
        None => None,
        Some(d) => Some(
            (
                category_names(p.categories),
                abs_url,
                article_id,
                spec_extra_line(p.primary_category, article_id),
                d,
                if p.doi.len() == 0 {
                    "10.48550/arXiv."@ + article_id
                } else {
                    p.doi
                },
                "https://arxiv.org/pdf/"@ + arxiv_id + ".pdf"@,
                if p.doi.len() == 0 {
                    arxiv_id
                } else {
                    p.doi
                },
                p.doi.len() == 0,
            ),
        ),
    }
}

/// The content of a plan.
pub open spec fn plan_view(pl: ArxivItemPlan) -> (Seq<Seq<char>>, Seq<char>, Seq<char>, Seq<char>, Seq<char>, Seq<char>, Seq<char>, Seq<char>, bool) {
    (
        views(pl.category_tags@),
        pl.abs_url@,
        pl.article_id@,
        pl.extra_line@,
        pl.date@,
        pl.doi@,
        pl.pdf_url@,
        pl.pdf_id@,
        pl.use_arxiv_fields,
    )
}

fn concat(a: &str, b: &str) -> (r: String)
    ensures
        r@ == a@ + b@,
{
    let mut r = owned(a);
    push_str(&mut r, b);
    r
}

fn category_names_exec(codes: &Vec<String>) -> (r: Vec<String>)
    ensures
        views(r@) == category_names(views(codes@)),
{
    let mut r: Vec<String> = Vec::new();
    let mut i: usize = 0;
    assert(views(codes@).take(0) =~= Seq::<Seq<char>>::empty());
    while i < codes.len()
        invariant
            i <= codes.len(),
            views(r@) == category_names(views(codes@).take(i as int)),
        decreases codes.len() - i,
    {
        assert(views(codes@).take(i + 1).drop_last() =~= views(codes@).take(i as int));
        assert(views(codes@).take(i + 1).last() == codes@[i as int]@);
        match map_arxiv_category(codes[i].as_str()) {
            Some(n) => {
                let ghost before = views(r@);
                let ghost nv = n@;
                r.push(n);
                assert(views(r@) =~= before.push(nv));
            },
            None => {},
        }
        i = i + 1;
    }
    assert(views(codes@).take(codes.len() as int) =~= views(codes@));
    r
}

/// Plans the item of a parsed paper (see `spec_arxiv_plan`).
pub fn arxiv_item_plan(parsed: &ArxivParsed, arxiv_id: &str) -> (r: Option<ArxivItemPlan>)
    ensures
        match r {
            Some(pl) => spec_arxiv_plan(arxiv_view(*parsed), arxiv_id@) == Some(plan_view(pl)),
            None => spec_arxiv_plan(arxiv_view(*parsed), arxiv_id@) is None,
        },
{
    proof {
        reveal_strlit("");
    }
    let abs_url = if parsed.abs_url.as_str().is_empty() {
        concat("https://arxiv.org/abs/", arxiv_id)
    } else {
        replace_first_str("v\\d+$", parsed.abs_url.as_str(), "")
    };
    let article_id = match capture_str("/abs/(.+)$", abs_url.as_str(), 1) {
        Some(a) => a,
        None => owned(arxiv_id),
    };
    let f0 = replace_first_str("^.+?:", parsed.primary_category.as_str(), "");
    let f = replace_first_str("\\..+?$", f0.as_str(), "");
    let field = if f.as_str().is_empty() {
        String::new()
    } else {
        let mut t = owned("[");
        push_str(&mut t, f.as_str());
        push_str(&mut t, "]");
        t
    };
    let extra_line = if contains_str(article_id.as_str(), "/") {
        concat("arXiv:", article_id.as_str())
    } else {
        let mut t = owned("arXiv:");
        push_str(&mut t, article_id.as_str());
        push_str(&mut t, " ");
        push_str(&mut t, field.as_str());
        trim_str(t.as_str())
    };
    let date = if !parsed.updated.as_str().is_empty() {
        ten_bytes_exec(parsed.updated.as_str())
    } else if !parsed.published.as_str().is_empty() {
        ten_bytes_exec(parsed.published.as_str())
    } else {
        Some(String::new())
    };
    let date = match date {
        Some(d) => d,
        None => {
            return None;
        },
    };
    let no_doi = parsed.doi.as_str().is_empty();
    let doi = if no_doi {
        concat("10.48550/arXiv.", article_id.as_str())
    } else {
        owned(parsed.doi.as_str())
    };
    let mut pdf_url = concat("https://arxiv.org/pdf/", arxiv_id);
    push_str(&mut pdf_url, ".pdf");
    let pdf_id = if no_doi {
        owned(arxiv_id)
    } else {
        owned(parsed.doi.as_str())
    };
    let category_tags = category_names_exec(&parsed.categories);
    Some(
        ArxivItemPlan {
            category_tags,
            abs_url,
            article_id,
            extra_line,
            date,
            doi,
            pdf_url,
            pdf_id,
            use_arxiv_fields: no_doi,
        },
    )
}

/// The note that carries an arXiv comment.
pub fn comment_note_html(comment: &str) -> (r: String)
    ensures
        r@ == "<p>Comment: "@ + comment@ + "</p>"@,
{
    let mut out = owned("<p>Comment: ");
    push_str(&mut out, comment);
    push_str(&mut out, "</p>");
    out
}

/// The report after adding a paper: its summary, then the attachments and
/// the comment note made.
pub open spec fn spec_arxiv_report(summary: Seq<char>, attached: bool, pdf_filename: Seq<char>, abs_url: Seq<char>, project_urls: Seq<Seq<char>>, comment: Seq<char>) -> Seq<char> {
    let lines = seq![summary] + (if attached {
        seq!["Attached PDF: "@ + pdf_filename]
    } else {
        Seq::<Seq<char>>::empty()
    }) + seq!["Attached arXiv page: "@ + abs_url] + (if project_urls.len() > 0 {
        seq!["Attached project pages: "@ + join(project_urls, ", "@)]
    } else {
        Seq::<Seq<char>>::empty()
    }) + (if comment.len() > 0 {
        seq!["Added comment note: "@ + comment]
    } else {
        Seq::<Seq<char>>::empty()
    });
    join(lines, "\n"@)
}

/// Builds the report after adding a paper (see `spec_arxiv_report`).
pub fn arxiv_report(summary: &str, attached: bool, pdf_filename: &str, abs_url: &str, project_urls: &Vec<String>, comment: &str) -> (r: String)
    ensures
        r@ == spec_arxiv_report(summary@, attached, pdf_filename@, abs_url@, views(project_urls@), comment@),
{
    let mut lines: Vec<String> = Vec::new();
    lines.push(owned(summary));
    let ghost l0 = views(lines@);
    if attached {
        lines.push(concat("Attached PDF: ", pdf_filename));
    }
    let ghost l1 = views(lines@);
    lines.push(concat("Attached arXiv page: ", abs_url));
    let ghost l2 = views(lines@);
    if project_urls.len() > 0 {
        let j = join_strs(project_urls, ", ");
        lines.push(concat("Attached project pages: ", j.as_str()));
    }
    let ghost l3 = views(lines@);
    if !comment.is_empty() {
        lines.push(concat("Added comment note: ", comment));
    }
    assert(l0 =~= seq![summary@]);
    assert(views(lines@) =~= seq![summary@] + (if attached {
        seq!["Attached PDF: "@ + pdf_filename@]
    } else {
        Seq::<Seq<char>>::empty()
    }) + seq!["Attached arXiv page: "@ + abs_url@] + (if project_urls.len() > 0 {
        seq!["Attached project pages: "@ + join(views(project_urls@), ", "@)]
    } else {
        Seq::<Seq<char>>::empty()
    }) + (if comment@.len() > 0 {
        seq!["Added comment note: "@ + comment@]
    } else {
        Seq::<Seq<char>>::empty()
    }));
    join_strs(&lines, "\n")
}

// ---------------------------------------------------------------------------
// The item of a paper
// ---------------------------------------------------------------------------

/// What adding a paper produced: the key of its item and a report.
#[derive(Debug)]
pub struct AddArxivResult {
    pub key: String,
    pub result: String,
}

/// Whether `tags` are the category tags named `cats` (untyped), then `more`.
pub open spec fn tags_then(tags: Seq<crate::types::ZoteroTag>, cats: Seq<Seq<char>>, more: Seq<crate::types::ZoteroTag>) -> bool {
    &&& tags.len() == cats.len() + more.len()
    &&& forall|i: int| 0 <= i < cats.len() ==> #[trigger] tags[i].tag@ == cats[i] && tags[i].tag_type is None
    &&& forall|j: int| 0 <= j < more.len() ==> tags[cats.len() + j] == #[trigger] more[j]
}

/// The members of an item template after the arXiv fields are set: the
/// "number" and "archiveID" members, when the template has them, become
/// "arXiv:" and the article id.
pub open spec fn arxiv_members(entries: Seq<(Seq<char>, crate::json::JsonSpec)>, article_id: Seq<char>) -> Seq<(Seq<char>, crate::json::JsonSpec)> {
    let v = crate::json::JsonSpec::Str("arXiv:"@ + article_id);
    let e1 = crate::json::set_entry(entries, "number"@, v);
    crate::json::set_entry(e1, "archiveID"@, v)
}

/// Whether `d` is the item of a paper: the template as a preprint with the
/// paper's title, authors (parsed from their names), date, abstract, DOI,
/// abstract page, extra line, tags and collections; with no DOI of its own,
/// the publisher "arXiv" when the template has that field, and the arXiv
/// members set (see `arxiv_members`).
pub open spec fn is_arxiv_item(
    template: crate::types::ZoteroItemData,
    p: ArxivSpec,
    plan: ArxivItemPlan,
    tags: Seq<crate::types::ZoteroTag>,
    collections: Seq<Seq<char>>,
    d: crate::types::ZoteroItemData,
) -> bool {
    &&& d == (crate::types::ZoteroItemData {
        item_type: d.item_type,
        title: d.title,
        creators: d.creators,
        date: d.date,
        abstract_note: d.abstract_note,
        doi: d.doi,
        url: d.url,
        extra: d.extra,
        tags: d.tags,
        collections: d.collections,
        publisher: d.publisher,
        extra_fields: d.extra_fields,
        ..template
    })
    &&& d.item_type@ == "preprint"@
    &&& crate::types::opt_view(d.title) == Some(p.title)
    &&& d.creators matches Some(c) && crate::validators::creators_fields(c@) == crate::validators::spec_parse_creators(p.authors)
    &&& crate::types::opt_view(d.date) == Some(plan.date@)
    &&& crate::types::opt_view(d.abstract_note) == Some(p.summary)
    &&& crate::types::opt_view(d.doi) == Some(plan.doi@)
    &&& crate::types::opt_view(d.url) == Some(plan.abs_url@)
    &&& crate::types::opt_view(d.extra) == Some(plan.extra_line@)
    &&& d.tags matches Some(t) && tags_then(t@, views(plan.category_tags@), tags)
    &&& d.collections matches Some(c) && views(c@) == collections
    &&& if plan.use_arxiv_fields {
        &&& (if crate::crossref::template_has(template.publisher is Some, template, "publisher"@) {
            crate::types::opt_view(d.publisher) == Some("arXiv"@)
        } else {
            d.publisher == template.publisher
        })
        &&& crate::json::entries_view(d.extra_fields@) == arxiv_members(crate::json::entries_view(template.extra_fields@), plan.article_id@)
    } else {
        &&& d.publisher == template.publisher
        &&& d.extra_fields == template.extra_fields
    }
}

fn clone_strings(v: &Vec<String>) -> (r: Vec<String>)
    ensures
        views(r@) == views(v@),
{
    let mut out: Vec<String> = Vec::new();
    let mut i: usize = 0;
    while i < v.len()
        invariant
            i <= v@.len(),
            views(out@) == views(v@).take(i as int),
        decreases v.len() - i,
    {
        let ghost before = views(out@);
        out.push(v[i].clone());
        assert(views(out@) =~= before.push(v@[i as int]@));
        assert(views(v@).take(i + 1) =~= views(v@).take(i as int).push(v@[i as int]@));
        i = i + 1;
    }
    assert(views(v@).take(v@.len() as int) =~= views(v@));
    out
}

/// Builds the item of a paper from the API's preprint template (see
/// `is_arxiv_item`).
pub fn build_arxiv_item(
    template: crate::types::ZoteroItemData,
    parsed: &ArxivParsed,
    plan: &ArxivItemPlan,
    tags: Vec<crate::types::ZoteroTag>,
    collections: Vec<String>,
) -> (r: crate::types::ZoteroItemData)
    ensures
        is_arxiv_item(template, arxiv_view(*parsed), *plan, tags@, views(collections@), r),
{
    proof {
        reveal_strlit("preprint");
        reveal_strlit("arXiv");
        reveal_strlit("publisher");
        reveal_strlit("number");
        reveal_strlit("archiveID");
        reveal_strlit("arXiv:");
    }
    let ghost t0 = template;
    let ghost given = tags@;
    let mut d = template;
    let has_publisher = d.publisher.is_some() || crate::json::entries_get(&d.extra_fields, "publisher").is_some();
    d.item_type = owned("preprint");
    d.title = Some(owned(parsed.title.as_str()));
    d.creators = Some(crate::validators::parse_creator_names(clone_strings(&parsed.authors)));
    d.date = Some(owned(plan.date.as_str()));
    d.abstract_note = Some(owned(parsed.summary.as_str()));
    d.doi = Some(owned(plan.doi.as_str()));
    d.url = Some(owned(plan.abs_url.as_str()));
    d.extra = Some(owned(plan.extra_line.as_str()));
    let cats = clone_strings(&plan.category_tags);
    let mut all_tags = crate::notes::tags_named(cats);
    let ghost ncat = all_tags@.len();
    let ghost before = all_tags@;
    let mut rest = tags;
    let mut j: usize = 0;
    let n = rest.len();
    assert(given.skip(0) =~= given);
    while rest.len() > 0
        invariant
            j + rest@.len() == given.len(),
            given.len() == n,
            rest@ =~= given.skip(j as int),
            all_tags@ =~= before + given.take(j as int),
        decreases rest.len(),
    {
        let t = rest.remove(0);
        assert(t == given[j as int]);
        all_tags.push(t);
        j = j + 1;
        assert(given.take(j as int) =~= given.take(j - 1).push(given[j - 1]));
        assert(rest@ =~= given.skip(j as int));
    }
    assert(given.take(j as int) =~= given);
    d.tags = Some(all_tags);
    d.collections = Some(collections);
    if plan.use_arxiv_fields {
        if has_publisher {
            d.publisher = Some(owned("arXiv"));
        }
        let id_text = concat("arXiv:", plan.article_id.as_str());
        let id_text2 = concat("arXiv:", plan.article_id.as_str());
        let ghost e0 = crate::json::entries_view(d.extra_fields@);
        crate::json::set_member(&mut d.extra_fields, "number", crate::json::JsonValue::Str(id_text));
        crate::json::set_member(&mut d.extra_fields, "archiveID", crate::json::JsonValue::Str(id_text2));
    }
    d
}

} // verus!
