//! Identifiers of works: DOIs, arXiv ids, ISBNs, and collection names.

use vstd::prelude::*;

use crate::numbers::{all_digits, is_digit};
use crate::patterns::{capture_or_none, capture_str, find_or_none, find_str};
use crate::text::{
    chars_of, contains, contains_str, is_whitespace, owned, spec_is_whitespace, spec_to_lowercase,
    starts_with, starts_with_str, str_eq, string_from_range, to_lowercase, trim, trim_str, views,
};
use crate::types::ZoteroCollection;

verus! {

// ---------------------------------------------------------------------------
// Percent decoding
// ---------------------------------------------------------------------------

/// The value of a hexadecimal digit byte.
pub open spec fn hex_value(b: u8) -> Option<u8> {
    if 0x30 <= b <= 0x39 {
        Some((b - 0x30) as u8)
    } else if 0x61 <= b <= 0x66 {
        Some((b - 0x61 + 10) as u8)
    } else if 0x41 <= b <= 0x46 {
        Some((b - 0x41 + 10) as u8)
    } else {
        None
    }
}

/// Bytes decoded one by one: `%XY` (two hex digits, not at the very end) is
/// the byte `0xXY`, and each byte becomes the character with that code.
pub open spec fn pct_decode(b: Seq<u8>) -> Seq<char>
    decreases b.len(),
{
    if b.len() == 0 {
        Seq::<char>::empty()
    } else if b[0] == 0x25 && 2 < b.len() && hex_value(b[1]) is Some && hex_value(b[2]) is Some {
        seq![((hex_value(b[1])->0 * 16 + hex_value(b[2])->0) as u8) as char] + pct_decode(b.skip(3))
    } else {
        seq![b[0] as char] + pct_decode(b.drop_first())
    }
}

fn hex_val(byte: u8) -> (r: Option<u8>)
    ensures
        r == hex_value(byte),
{
    if 0x30 <= byte && byte <= 0x39 {
        Some(byte - 0x30)
    } else if 0x61 <= byte && byte <= 0x66 {
        Some(byte - 0x61 + 10)
    } else if 0x41 <= byte && byte <= 0x46 {
        Some(byte - 0x41 + 10)
    } else {
        None
    }
}

/// Decodes `%XY` escapes byte by byte (see `pct_decode`).
pub fn percent_decode(input: &str) -> (r: String)
    ensures
        r@ == pct_decode(vstd::utf8::encode_utf8(input@)),
{
    let bytes = input.as_bytes();
    let ghost b = bytes@;
    let mut out = String::new();
    let mut i: usize = 0;
    proof {
        reveal_strlit("");
    }
    assert(b.skip(0) =~= b);
    assert(out@ + pct_decode(b.skip(0)) =~= pct_decode(b));
    while i < bytes.len()
        invariant
            i <= bytes.len(),
            b == bytes@,
            out@ + pct_decode(b.skip(i as int)) == pct_decode(b),
        decreases bytes.len() - i,
    {
        let ghost rest = b.skip(i as int);
        if bytes[i] == 0x25 && bytes.len() - i > 2 {
            match (hex_val(bytes[i + 1]), hex_val(bytes[i + 2])) {
                (Some(h), Some(l)) => {
                    assert(rest[1] == b[i + 1] && rest[2] == b[i + 2]);
                    assert(rest.skip(3) =~= b.skip(i + 3));
                    let c = (h * 16 + l) as char;
                    crate::text::push_char(&mut out, c);
                    i = i + 3;
                    continue;
                },
                _ => {},
            }
        }
        assert(rest[0] == b[i as int]);
        assert(rest.drop_first() =~= b.skip(i + 1));
        crate::text::push_char(&mut out, bytes[i] as char);
        i = i + 1;
    }
    assert(b.skip(bytes.len() as int) =~= Seq::<u8>::empty());
    assert(out@ + Seq::<char>::empty() =~= out@);
    out
}

// ---------------------------------------------------------------------------
// DOIs and arXiv ids
// ---------------------------------------------------------------------------

/// The pattern of a DOI.
pub open spec fn doi_pattern() -> Seq<char> {
    "(?i)10\\.\\d{4,9}/[\\w.()\\-;/:]+"@
}

/// Characters that cannot end a DOI.
pub open spec fn is_doi_trailing(c: char) -> bool {
    c == '>' || c == ']' || c == ')' || c == '}' || c == '.' || c == ',' || c == ';'
}

/// `s` without trailing characters that cannot end a DOI.
pub open spec fn trim_doi_end(s: Seq<char>) -> Seq<char>
    decreases s.len(),
{
    if s.len() > 0 && is_doi_trailing(s.last()) {
        trim_doi_end(s.drop_last())
    } else {
        s
    }
}

/// The DOI found in a text: the first match of the DOI pattern in the
/// percent-decoded, trimmed text, without trailing punctuation.
pub open spec fn spec_normalize_doi(raw: Seq<char>) -> Option<Seq<char>> {
    match find_or_none(doi_pattern(), pct_decode(vstd::utf8::encode_utf8(trim(raw)))) {
        Some(m) => Some(trim_doi_end(m)),
        None => None,
    }
}

fn trim_doi_end_exec(s: &str) -> (r: String)
    ensures
        r@ == trim_doi_end(s@),
{
    let v = chars_of(s);
    let mut n = v.len();
    assert(v@.take(n as int) =~= v@);
    while n > 0 && (v[n - 1] == '>' || v[n - 1] == ']' || v[n - 1] == ')' || v[n - 1] == '}'
        || v[n - 1] == '.' || v[n - 1] == ',' || v[n - 1] == ';')
        invariant
            n <= v.len(),
            v@ == s@,
            trim_doi_end(s@) == trim_doi_end(v@.take(n as int)),
        decreases n,
    {
        assert(v@.take(n as int).drop_last() =~= v@.take(n - 1));
        n = n - 1;
    }
    string_from_range(&v, 0, n)
}

/// Normalizes a DOI given plainly, as a URL, with a `doi:` prefix or
/// percent-encoded (see `spec_normalize_doi`); `Invalid DOI` when there is
/// none.
pub fn normalize_doi(raw: &str) -> (r: Result<String, String>)
    ensures
        match r {
            Ok(d) => spec_normalize_doi(raw@) == Some(d@),
            Err(e) => spec_normalize_doi(raw@) is None && e@ == "Invalid DOI"@,
        },
{
    let t = trim_str(raw);
    let decoded = percent_decode(t.as_str());
    match find_str("(?i)10\\.\\d{4,9}/[\\w.()\\-;/:]+", decoded.as_str()) {
        Some(m) => Ok(trim_doi_end_exec(m.as_str())),
        None => Err(owned("Invalid DOI")),
    }
}

/// The pattern of an arXiv id, with its optional prefix and version.
pub open spec fn arxiv_pattern() -> Seq<char> {
    "(?i)(?:arxiv:|https?://arxiv\\.org/(?:abs|pdf)/)?([a-z-]+/\\d{7}|\\d{4}\\.\\d{4,5})(?:v\\d+)?"@
}

/// The arXiv id found in a text, lower-cased, without prefix or version.
pub open spec fn spec_normalize_arxiv_id(raw: Seq<char>) -> Option<Seq<char>> {
    match capture_or_none(arxiv_pattern(), trim(raw), 1) {
        Some(id) => Some(spec_to_lowercase(id)),
        None => None,
    }
}

/// Normalizes an arXiv id (see `spec_normalize_arxiv_id`); `Invalid arXiv ID`
/// when there is none.
pub fn normalize_arxiv_id(raw: &str) -> (r: Result<String, String>)
    ensures
        match r {
            Ok(d) => spec_normalize_arxiv_id(raw@) == Some(d@),
            Err(e) => spec_normalize_arxiv_id(raw@) is None && e@ == "Invalid arXiv ID"@,
        },
{
    let t = trim_str(raw);
    match capture_str(
        "(?i)(?:arxiv:|https?://arxiv\\.org/(?:abs|pdf)/)?([a-z-]+/\\d{7}|\\d{4}\\.\\d{4,5})(?:v\\d+)?",
        t.as_str(),
        1,
    ) {
        Some(id) => Ok(to_lowercase(id.as_str())),
        None => Err(owned("Invalid arXiv ID")),
    }
}

// ---------------------------------------------------------------------------
// Input types
// ---------------------------------------------------------------------------

/// The kind of identifier an input is.
#[derive(Debug, Clone, Copy, PartialEq, Eq, Structural)]
pub enum InputType {
    Doi,
    Arxiv,
    Isbn,
    Url,
    File,
}

/// `s` without whitespace and hyphens.
pub open spec fn isbn_chars(s: Seq<char>) -> Seq<char>
    decreases s.len(),
{
    if s.len() == 0 {
        s
    } else if spec_is_whitespace(s.last()) || s.last() == '-' {
        isbn_chars(s.drop_last())
    } else {
        isbn_chars(s.drop_last()).push(s.last())
    }
}

/// Whether `s` is an ISBN-13 (978 or 979 and ten more digits) or an ISBN-10
/// (nine digits and a digit or `X`).
pub open spec fn isbn_like(s: Seq<char>) -> bool {
    ||| (s.len() == 13 && (starts_with(s, "978"@) || starts_with(s, "979"@)) && all_digits(s))
    ||| (s.len() == 10 && all_digits(s.take(9)) && (is_digit(s.last()) || s.last() == 'X'
        || s.last() == 'x'))
}

/// The kind of an input: a DOI or arXiv id if one is found, an ISBN, a file
/// path (starting with `/`, `~` or `./`), or otherwise a URL.
pub open spec fn spec_input_type(input: Seq<char>) -> InputType {
    let t = trim(input);
    if spec_normalize_doi(t) is Some {
        InputType::Doi
    } else if spec_normalize_arxiv_id(t) is Some {
        InputType::Arxiv
    } else if isbn_like(isbn_chars(t)) {
        InputType::Isbn
    } else if starts_with(t, "/"@) || starts_with(t, "~"@) || starts_with(t, "./"@) {
        InputType::File
    } else {
        InputType::Url
    }
}

fn isbn_chars_exec(s: &str) -> (r: Vec<char>)
    ensures
        r@ == isbn_chars(s@),
{
    let v = chars_of(s);
    let mut r: Vec<char> = Vec::new();
    let mut i: usize = 0;
    assert(v@.take(0) =~= Seq::<char>::empty());
    while i < v.len()
        invariant
            i <= v.len(),
            v@ == s@,
            r@ == isbn_chars(v@.take(i as int)),
        decreases v.len() - i,
    {
        assert(v@.take(i + 1).drop_last() =~= v@.take(i as int));
        assert(v@.take(i + 1).last() == v@[i as int]);
        if !is_whitespace(v[i]) && v[i] != '-' {
            r.push(v[i]);
        }
        i = i + 1;
    }
    assert(v@.take(v.len() as int) =~= v@);
    r
}

fn digits_upto(v: &Vec<char>, n: usize) -> (b: bool)
    requires
        n <= v.len(),
    ensures
        b == all_digits(v@.take(n as int)),
{
    let mut i: usize = 0;
    while i < n
        invariant
            i <= n <= v.len(),
            forall|k: int| 0 <= k < i ==> is_digit(#[trigger] v@[k]),
        decreases n - i,
    {
        if !('0' <= v[i] && v[i] <= '9') {
            assert(!is_digit(v@.take(n as int)[i as int]));
            return false;
        }
        i = i + 1;
    }
    assert forall|k: int| 0 <= k < n implies #[trigger] is_digit(v@.take(n as int)[k]) by {
        assert(v@.take(n as int)[k] == v@[k]);
    }
    true
}

fn isbn_like_exec(v: &Vec<char>) -> (b: bool)
    ensures
        b == isbn_like(v@),
{
    proof {
        reveal_strlit("978");
        reveal_strlit("979");
    }
    if v.len() == 13 {
        assert(v@.take(13) =~= v@);
        let prefix_ok = v[0] == '9' && v[1] == '7' && (v[2] == '8' || v[2] == '9');
        assert(prefix_ok == (starts_with(v@, "978"@) || starts_with(v@, "979"@))) by {
            assert(v@.take(3) =~= seq![v@[0], v@[1], v@[2]]);
            assert("978"@ =~= seq!['9', '7', '8']);
            assert("979"@ =~= seq!['9', '7', '9']);
        }
        prefix_ok && digits_upto(v, 13)
    } else if v.len() == 10 {
        let last = v[9];
        digits_upto(v, 9) && (('0' <= last && last <= '9') || last == 'X' || last == 'x')
    } else {
        false
    }
}

/// Detects the kind of an input (see `spec_input_type`).
pub fn detect_input_type(input: &str) -> (r: InputType)
    ensures
        r == spec_input_type(input@),
{
    let t = trim_str(input);
    if normalize_doi(t.as_str()).is_ok() {
        return InputType::Doi;
    }
    if normalize_arxiv_id(t.as_str()).is_ok() {
        return InputType::Arxiv;
    }
    let ib = isbn_chars_exec(t.as_str());
    if isbn_like_exec(&ib) {
        return InputType::Isbn;
    }
    if starts_with_str(t.as_str(), "/") || starts_with_str(t.as_str(), "~") || starts_with_str(
        t.as_str(),
        "./",
    ) {
        return InputType::File;
    }
    InputType::Url
}

// ---------------------------------------------------------------------------
// Collection names
// ---------------------------------------------------------------------------

/// The first collection whose name is exactly `t`.
pub open spec fn first_exact(cs: Seq<ZoteroCollection>, t: Seq<char>) -> Option<int>
    decreases cs.len(),
{
    if cs.len() == 0 {
        None
    } else if cs[0].data.name@ == t {
        Some(0)
    } else {
        match first_exact(cs.drop_first(), t) {
            Some(i) => Some(i + 1),
            None => None,
        }
    }
}

/// The first collection whose name equals `t` ignoring case.
pub open spec fn first_ci(cs: Seq<ZoteroCollection>, t: Seq<char>) -> Option<int>
    decreases cs.len(),
{
    if cs.len() == 0 {
        None
    } else if spec_to_lowercase(cs[0].data.name@) == spec_to_lowercase(t) {
        Some(0)
    } else {
        match first_ci(cs.drop_first(), t) {
            Some(i) => Some(i + 1),
            None => None,
        }
    }
}

/// The first collection whose name contains `t` ignoring case.
pub open spec fn first_sub(cs: Seq<ZoteroCollection>, t: Seq<char>) -> Option<int>
    decreases cs.len(),
{
    if cs.len() == 0 {
        None
    } else if contains(spec_to_lowercase(cs[0].data.name@), spec_to_lowercase(t)) {
        Some(0)
    } else {
        match first_sub(cs.drop_first(), t) {
            Some(i) => Some(i + 1),
            None => None,
        }
    }
}

/// The collection a name designates: an exact match, else a match ignoring
/// case, else the first name containing it ignoring case.
pub open spec fn resolve_one(cs: Seq<ZoteroCollection>, t: Seq<char>) -> Option<int> {
    match first_exact(cs, t) {
        Some(i) => Some(i),
        None => match first_ci(cs, t) {
            Some(i) => Some(i),
            None => first_sub(cs, t),
        },
    }
}

/// The keys of the collections that the names designate (blank names and
/// names that match nothing are skipped).
pub open spec fn spec_match_collection_names(cs: Seq<ZoteroCollection>, names: Seq<Seq<char>>) -> Seq<Seq<char>>
    decreases names.len(),
{
    if names.len() == 0 {
        Seq::<Seq<char>>::empty()
    } else {
        let r = spec_match_collection_names(cs, names.drop_last());
        let t = trim(names.last());
        if t.len() == 0 {
            r
        } else {
            match resolve_one(cs, t) {
                Some(i) => r.push(cs[i].key@),
                None => r,
            }
        }
    }
}

proof fn lemma_first_bounds(cs: Seq<ZoteroCollection>, t: Seq<char>)
    ensures
        first_exact(cs, t) matches Some(i) ==> 0 <= i < cs.len(),
        first_ci(cs, t) matches Some(i) ==> 0 <= i < cs.len(),
        first_sub(cs, t) matches Some(i) ==> 0 <= i < cs.len(),
    decreases cs.len(),
{
    if cs.len() > 0 {
        lemma_first_bounds(cs.drop_first(), t);
    }
}

fn find_collection(cs: &[ZoteroCollection], t: &str, mode: u8) -> (r: Option<usize>)
    requires
        mode <= 2,
    ensures
        match r {
            Some(i) => i < cs.len() && (if mode == 0 {
                first_exact(cs@, t@)
            } else if mode == 1 {
                first_ci(cs@, t@)
            } else {
                first_sub(cs@, t@)
            }) == Some(i as int),
            None => (if mode == 0 {
                first_exact(cs@, t@)
            } else if mode == 1 {
                first_ci(cs@, t@)
            } else {
                first_sub(cs@, t@)
            }) is None,
        },
{
    let lt = to_lowercase(t);
    let mut i: usize = 0;
    assert(cs@.skip(0) =~= cs@);
    while i < cs.len()
        invariant
            i <= cs.len(),
            mode <= 2,
            lt@ == spec_to_lowercase(t@),
            forall|k: int|
                #![trigger cs@.skip(k)]
                0 <= k <= i ==> (if mode == 0 {
                    first_exact(cs@, t@)
                } else if mode == 1 {
                    first_ci(cs@, t@)
                } else {
                    first_sub(cs@, t@)
                }) == (match (if mode == 0 {
                    first_exact(cs@.skip(k), t@)
                } else if mode == 1 {
                    first_ci(cs@.skip(k), t@)
                } else {
                    first_sub(cs@.skip(k), t@)
                }) {
                    Some(j) => Some(j + k),
                    None => None,
                }),
        decreases cs.len() - i,
    {
        assert(cs@.skip(i as int).drop_first() =~= cs@.skip(i + 1));
        assert(cs@.skip(i as int)[0] == cs@[i as int]);
        let name = cs[i].data.name.as_str();
        let hit = if mode == 0 {
            str_eq(name, t)
        } else if mode == 1 {
            str_eq(to_lowercase(name).as_str(), lt.as_str())
        } else {
            contains_str(to_lowercase(name).as_str(), lt.as_str())
        };
        assert(forall|k: int| 0 <= k <= i ==> cs@.skip(k) == cs@.skip(k));
        if hit {
            return Some(i);
        }
        i = i + 1;
        assert(cs@.skip(i as int) == cs@.skip(i as int));
    }
    assert(cs@.skip(cs.len() as int) =~= Seq::<ZoteroCollection>::empty());
    None
}

/// Resolves collection names to keys (see `spec_match_collection_names`).
pub fn match_collection_names(collections: &[ZoteroCollection], names: &[String]) -> (r: Vec<String>)
    ensures
        views(r@) == spec_match_collection_names(collections@, names@.map_values(|n: String| n@)),
{
    let ghost nv = names@.map_values(|n: String| n@);
    let mut r: Vec<String> = Vec::new();
    let mut i: usize = 0;
    assert(nv.take(0) =~= Seq::<Seq<char>>::empty());
    while i < names.len()
        invariant
            i <= names.len(),
            nv == names@.map_values(|n: String| n@),
            views(r@) == spec_match_collection_names(collections@, nv.take(i as int)),
        decreases names.len() - i,
    {
        assert(nv.take(i + 1).drop_last() =~= nv.take(i as int));
        assert(nv.take(i + 1).last() == names@[i as int]@);
        let t = trim_str(names[i].as_str());
        if !t.as_str().is_empty() {
            proof {
                lemma_first_bounds(collections@, t@);
            }
            let found = match find_collection(collections, t.as_str(), 0) {
                Some(k) => Some(k),
                None => match find_collection(collections, t.as_str(), 1) {
                    Some(k) => Some(k),
                    None => find_collection(collections, t.as_str(), 2),
                },
            };
            match found {
                Some(k) => {
                    let ghost before = views(r@);
                    r.push(owned(collections[k].key.as_str()));
                    assert(views(r@) =~= before.push(collections@[k as int].key@));
                },
                None => {},
            }
        }
        i = i + 1;
    }
    assert(nv.take(names.len() as int) =~= nv);
    r
}

/// The item of the library that has a DOI. The lookup is not implemented:
/// there is never one.
pub fn find_existing_by_doi(doi: &str) -> (r: Option<crate::types::ZoteroItem>)
    ensures
        r is None,
{
    None
}

/// The item of the library that has an arXiv id. The lookup is not
/// implemented: there is never one.
pub fn find_existing_by_arxiv_id(arxiv_id: &str) -> (r: Option<crate::types::ZoteroItem>)
    ensures
        r is None,
{
    None
}

/// The answer to an input no metadata source handles: files, ISBNs and
/// other URLs.
pub open spec fn spec_unsupported_input(kind: InputType) -> Option<Seq<char>> {
    match kind {
        InputType::File => Some("File upload not yet supported"@),
        InputType::Isbn => Some("ISBN lookup is not supported in this version. Use DOI or arXiv ID instead."@),
        InputType::Url => Some("URL metadata extraction is not supported in this version. Use DOI or arXiv ID instead."@),
        InputType::Doi => None,
        InputType::Arxiv => None,
    }
}

/// The answer to an input no metadata source handles (see `spec_unsupported_input`).
pub fn unsupported_input(kind: InputType) -> (r: Option<&'static str>)
    ensures
        match r {
            Some(s) => spec_unsupported_input(kind) == Some(s@),
            None => spec_unsupported_input(kind) is None,
        },
{
    match kind {
        InputType::File => Some("File upload not yet supported"),
        InputType::Isbn => Some("ISBN lookup is not supported in this version. Use DOI or arXiv ID instead."),
        InputType::Url => Some("URL metadata extraction is not supported in this version. Use DOI or arXiv ID instead."),
        InputType::Doi => None,
        InputType::Arxiv => None,
    }
}

} // verus!
