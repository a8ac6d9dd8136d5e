//! CrossRef metadata and open-access sources: the item a DOI becomes.

use vstd::prelude::*;

use crate::formatters::{clean_html, spec_clean_html};
use crate::json::{json_get, jview, JsonSpec, JsonValue};
use crate::patterns::{find_or_none, find_str};
use crate::text::{
    contains, contains_str, decimal, decimal_string, join, join_strs, owned, push_str,
    signed_decimal, signed_decimal_string, spec_to_lowercase, to_lowercase, trim, trim_str, views,
};
use crate::types::{
    crossref_table, crossref_type, is_blank_item_data, opt_view, table_lookup, ZoteroCreator,
    ZoteroItemData, ZoteroTag,
};

verus! {

// ---------------------------------------------------------------------------
// URL encoding
// ---------------------------------------------------------------------------

/// Whether a byte stays as it is in a URI component: ASCII letters, digits
/// and `-_.!~*'()`.
pub open spec fn is_uri_unreserved(b: u8) -> bool {
    (0x41 <= b <= 0x5a) || (0x61 <= b <= 0x7a) || (0x30 <= b <= 0x39) || b == 0x2d || b == 0x5f
        || b == 0x2e || b == 0x21 || b == 0x7e || b == 0x2a || b == 0x27 || b == 0x28 || b == 0x29
}

/// Bytes percent-encoded as a URI component.
pub open spec fn uri_encode(b: Seq<u8>) -> Seq<char>
    decreases b.len(),
{
    if b.len() == 0 {
        Seq::<char>::empty()
    } else {
        let rest = uri_encode(b.drop_last());
        let x = b.last();
        if is_uri_unreserved(x) {
            rest.push(x as char)
        } else {
            rest + seq!['%', crate::arxiv::hex_digit(x / 16), crate::arxiv::hex_digit(x % 16)]
        }
    }
}

fn hex_digit_exec(n: u8) -> (c: char)
    requires
        n < 16,
    ensures
        c == crate::arxiv::hex_digit(n),
{
    if n < 10 {
        (n + 0x30) as char
    } else {
        (n - 10 + 0x41) as char
    }
}

/// Percent-encodes the UTF-8 bytes of `s` as a URI component
/// (`encodeURIComponent`).
pub fn encode_uri_component(s: &str) -> (r: String)
    ensures
        r@ == uri_encode(vstd::utf8::encode_utf8(s@)),
{
    let bytes = s.as_bytes();
    let ghost b = bytes@;
    let mut out = String::new();
    proof {
        reveal_strlit("");
    }
    let mut i: usize = 0;
    assert(b.take(0) =~= Seq::<u8>::empty());
    while i < bytes.len()
        invariant
            i <= bytes.len(),
            b == bytes@,
            out@ == uri_encode(b.take(i as int)),
        decreases bytes.len() - i,
    {
        assert(b.take(i + 1).drop_last() =~= b.take(i as int));
        assert(b.take(i + 1).last() == b[i as int]);
        let x = bytes[i];
        if (0x41 <= x && x <= 0x5a) || (0x61 <= x && x <= 0x7a) || (0x30 <= x && x <= 0x39) || x
            == 0x2d || x == 0x5f || x == 0x2e || x == 0x21 || x == 0x7e || x == 0x2a || x == 0x27
            || x == 0x28 || x == 0x29 {
            crate::text::push_char(&mut out, x as char);
        } else {
            let ghost before = out@;
            crate::text::push_char(&mut out, '%');
            crate::text::push_char(&mut out, hex_digit_exec(x / 16));
            crate::text::push_char(&mut out, hex_digit_exec(x % 16));
            assert(out@ =~= before + seq!['%', crate::arxiv::hex_digit(x / 16), crate::arxiv::hex_digit(x % 16)]);
        }
        i = i + 1;
    }
    assert(b.take(bytes.len() as int) =~= b);
    out
}

// ---------------------------------------------------------------------------
// CrossRef works
// ---------------------------------------------------------------------------

/// A date of a work: lists of year, month and day parts.
#[derive(Debug)]
pub struct CrossrefDate {
    pub date_parts: Option<Vec<Vec<Option<i64>>>>,
}

/// A person of a work.
#[derive(Debug)]
pub struct CrossrefPerson {
    pub given: Option<String>,
    pub family: Option<String>,
    pub name: Option<String>,
}

/// The metadata CrossRef holds for a work.
#[derive(Debug)]
pub struct CrossrefWork {
    pub work_type: Option<String>,
    pub title: Option<Vec<String>>,
    pub author: Option<Vec<CrossrefPerson>>,
    pub editor: Option<Vec<CrossrefPerson>>,
    pub doi: Option<String>,
    pub url: Option<JsonValue>,
    pub volume: Option<String>,
    pub issue: Option<String>,
    pub page: Option<String>,
    pub publisher: Option<String>,
    pub issn: Option<Vec<String>>,
    pub abstract_note: Option<String>,
    pub relation: Option<JsonValue>,
    pub container_title: Option<Vec<String>>,
    pub published: Option<CrossrefDate>,
    pub published_print: Option<CrossrefDate>,
    pub published_online: Option<CrossrefDate>,
    pub issued: Option<CrossrefDate>,
    pub extra: Vec<(String, JsonValue)>,
}

impl Default for CrossrefDate {
    fn default() -> (d: Self)
        ensures
            d.date_parts is None,
    {
        CrossrefDate { date_parts: None }
    }
}

impl Default for CrossrefPerson {
    fn default() -> (p: Self)
        ensures
            p.given is None && p.family is None && p.name is None,
    {
        CrossrefPerson { given: None, family: None, name: None }
    }
}

impl Default for CrossrefWork {
    fn default() -> (w: Self)
        ensures
            w.work_type is None && w.title is None && w.author is None && w.editor is None
                && w.doi is None && w.url is None && w.volume is None && w.issue is None
                && w.page is None && w.publisher is None && w.issn is None && w.abstract_note is None
                && w.relation is None && w.container_title is None && w.published is None
                && w.published_print is None && w.published_online is None && w.issued is None
                && w.extra@.len() == 0,
    {
        CrossrefWork {
            work_type: None,
            title: None,
            author: None,
            editor: None,
            doi: None,
            url: None,
            volume: None,
            issue: None,
            page: None,
            publisher: None,
            issn: None,
            abstract_note: None,
            relation: None,
            container_title: None,
            published: None,
            published_print: None,
            published_online: None,
            issued: None,
            extra: Vec::new(),
        }
    }
}

// ---------------------------------------------------------------------------
// Dates
// ---------------------------------------------------------------------------

/// A number formatted with at least two digits (`{:02}`).
pub open spec fn pad2(n: int) -> Seq<char> {
    if 0 <= n < 10 {
        "0"@ + decimal(n as nat)
    } else {
        signed_decimal(n)
    }
}

/// The date a date record gives: `YYYY`, `YYYY-MM` or `YYYY-MM-DD` from its
/// first part list, or nothing when that list is missing, empty or has no
/// year.
pub open spec fn date_of(d: Option<CrossrefDate>) -> Option<Seq<char>> {
    match d {
        None => None,
        Some(date) => match date.date_parts {
            None => None,
            Some(outer) => if outer@.len() == 0 || outer@[0]@.len() == 0 {
                None
            } else {
                let parts = outer@[0]@;
                match parts[0] {
                    None => None,
                    Some(y) => {
                        let yyyy = signed_decimal(y as int);
                        if parts.len() < 2 || parts[1] is None {
                            Some(yyyy)
                        } else {
                            let mm = pad2(parts[1]->0 as int);
                            if parts.len() < 3 || parts[2] is None {
                                Some(yyyy + "-"@ + mm)
                            } else {
                                Some(yyyy + "-"@ + mm + "-"@ + pad2(parts[2]->0 as int))
                            }
                        }
                    },
                }
            },
        },
    }
}

/// The date of a work: from its print, online, publication or issue date,
/// the first that gives one.
pub open spec fn spec_crossref_date(w: CrossrefWork) -> Option<Seq<char>> {
    match date_of(w.published_print) {
        Some(d) => Some(d),
        None => match date_of(w.published_online) {
            Some(d) => Some(d),
            None => match date_of(w.published) {
                Some(d) => Some(d),
                None => date_of(w.issued),
            },
        },
    }
}

fn pad2_exec(n: i64) -> (r: String)
    ensures
        r@ == pad2(n as int),
{
    if 0 <= n && n < 10 {
        let mut out = owned("0");
        let d = decimal_string(n as u64);
        push_str(&mut out, d.as_str());
        out
    } else {
        signed_decimal_string(n)
    }
}

fn date_of_exec(d: &Option<CrossrefDate>) -> (r: Option<String>)
    ensures
        match r {
            Some(s) => date_of(*d) == Some(s@),
            None => date_of(*d) is None,
        },
{
    let date = match d {
        None => {
            return None;
        },
        Some(date) => date,
    };
    let outer = match &date.date_parts {
        None => {
            return None;
        },
        Some(outer) => outer,
    };
    if outer.len() == 0 || outer[0].len() == 0 {
        return None;
    }
    let parts = &outer[0];
    let y = match parts[0] {
        None => {
            return None;
        },
        Some(y) => y,
    };
    let yyyy = signed_decimal_string(y);
    if parts.len() < 2 || parts[1].is_none() {
        return Some(yyyy);
    }
    let mm = pad2_exec(parts[1].unwrap());
    let mut out = yyyy;
    push_str(&mut out, "-");
    push_str(&mut out, mm.as_str());
    if parts.len() < 3 || parts[2].is_none() {
        return Some(out);
    }
    let dd = pad2_exec(parts[2].unwrap());
    push_str(&mut out, "-");
    push_str(&mut out, dd.as_str());
    Some(out)
}

/// The date of a work (see `spec_crossref_date`).
pub fn parse_crossref_date(work: &CrossrefWork) -> (r: Option<String>)
    ensures
        match r {
            Some(s) => spec_crossref_date(*work) == Some(s@),
            None => spec_crossref_date(*work) is None,
        },
{
    match date_of_exec(&work.published_print) {
        Some(d) => Some(d),
        None => match date_of_exec(&work.published_online) {
            Some(d) => Some(d),
            None => match date_of_exec(&work.published) {
                Some(d) => Some(d),
                None => date_of_exec(&work.issued),
            },
        },
    }
}

// ---------------------------------------------------------------------------
// Creators
// ---------------------------------------------------------------------------

/// A name part trimmed, when not blank.
pub open spec fn kept_part(o: Option<String>) -> Option<Seq<char>> {
    match o {
        Some(s) => if trim(s@).len() > 0 {
            Some(trim(s@))
        } else {
            None
        },
        None => None,
    }
}

/// The creator a person becomes: a single-field name when it has one, else
/// given and family names when it has either, else none.
pub open spec fn person_creator(p: CrossrefPerson, ctype: Seq<char>) -> Option<(Seq<char>, Option<Seq<char>>, Option<Seq<char>>, Option<Seq<char>>)> {
    match kept_part(p.name) {
        Some(n) => Some((ctype, None, None, Some(n))),
        None => if kept_part(p.family) is Some || kept_part(p.given) is Some {
            Some((ctype, kept_part(p.given), kept_part(p.family), None))
        } else {
            None
        },
    }
}

/// The creators people become, in order.
pub open spec fn people_creators(ps: Seq<CrossrefPerson>, ctype: Seq<char>) -> Seq<(Seq<char>, Option<Seq<char>>, Option<Seq<char>>, Option<Seq<char>>)>
    decreases ps.len(),
{
    if ps.len() == 0 {
        Seq::empty()
    } else {
        match person_creator(ps.last(), ctype) {
            Some(c) => people_creators(ps.drop_last(), ctype).push(c),
            None => people_creators(ps.drop_last(), ctype),
        }
    }
}

/// The content of a creator.
pub open spec fn creator_view(c: ZoteroCreator) -> (Seq<char>, Option<Seq<char>>, Option<Seq<char>>, Option<Seq<char>>) {
    (c.creator_type@, opt_view(c.first_name), opt_view(c.last_name), opt_view(c.name))
}

/// The creators of a work: its authors, then its editors.
pub open spec fn spec_crossref_creators(w: CrossrefWork) -> Seq<(Seq<char>, Option<Seq<char>>, Option<Seq<char>>, Option<Seq<char>>)> {
    (match w.author {
        Some(a) => people_creators(a@, "author"@),
        None => Seq::empty(),
    }) + (match w.editor {
        Some(e) => people_creators(e@, "editor"@),
        None => Seq::empty(),
    })
}

fn kept_part_exec(o: &Option<String>) -> (r: Option<String>)
    ensures
        match r {
            Some(s) => kept_part(*o) == Some(s@),
            None => kept_part(*o) is None,
        },
{
    match o {
        Some(s) => {
            let t = trim_str(s.as_str());
            if t.as_str().is_empty() {
                None
            } else {
                Some(t)
            }
        },
        None => None,
    }
}

fn push_people(people: &Option<Vec<CrossrefPerson>>, ctype: &str, out: &mut Vec<ZoteroCreator>)
    ensures
        final(out)@.map_values(|c: ZoteroCreator| creator_view(c)) == old(out)@.map_values(
            |c: ZoteroCreator| creator_view(c),
        ) + match *people {
            Some(ps) => people_creators(ps@, ctype@),
            None => Seq::empty(),
        },
{
    let ghost start = out@.map_values(|c: ZoteroCreator| creator_view(c));
    let ps = match people {
        Some(ps) => ps,
        None => {
            assert(start + Seq::empty() =~= start);
            return;
        },
    };
    let mut i: usize = 0;
    assert(ps@.take(0) =~= Seq::<CrossrefPerson>::empty());
    assert(start + people_creators(ps@.take(0), ctype@) =~= start);
    while i < ps.len()
        invariant
            i <= ps.len(),
            *people == Some(*ps),
            out@.map_values(|c: ZoteroCreator| creator_view(c)) == start + people_creators(
                ps@.take(i as int),
                ctype@,
            ),
        decreases ps.len() - i,
    {
        assert(ps@.take(i + 1).drop_last() =~= ps@.take(i as int));
        assert(ps@.take(i + 1).last() == ps@[i as int]);
        let p = &ps[i];
        let ghost before = out@.map_values(|c: ZoteroCreator| creator_view(c));
        match kept_part_exec(&p.name) {
            Some(n) => {
                let c = ZoteroCreator {
                    creator_type: owned(ctype),
                    first_name: None,
                    last_name: None,
                    name: Some(n),
                };
                let ghost cv = creator_view(c);
                out.push(c);
                assert(out@.map_values(|c: ZoteroCreator| creator_view(c)) =~= before.push(cv));
            },
            None => {
                let given = kept_part_exec(&p.given);
                let family = kept_part_exec(&p.family);
                if family.is_some() || given.is_some() {
                    let c = ZoteroCreator {
                        creator_type: owned(ctype),
                        first_name: given,
                        last_name: family,
                        name: None,
                    };
                    let ghost cv = creator_view(c);
                    out.push(c);
                    assert(out@.map_values(|c: ZoteroCreator| creator_view(c)) =~= before.push(cv));
                }
            },
        }
        i = i + 1;
    }
    assert(ps@.take(ps.len() as int) =~= ps@);
}

/// The creators of a work (see `spec_crossref_creators`).
pub fn map_crossref_creators(work: &CrossrefWork) -> (r: Vec<ZoteroCreator>)
    ensures
        r@.map_values(|c: ZoteroCreator| creator_view(c)) == spec_crossref_creators(*work),
{
    let mut out: Vec<ZoteroCreator> = Vec::new();
    assert(out@.map_values(|c: ZoteroCreator| creator_view(c)) =~= Seq::empty());
    push_people(&work.author, "author", &mut out);
    push_people(&work.editor, "editor", &mut out);
    assert(Seq::<(Seq<char>, Option<Seq<char>>, Option<Seq<char>>, Option<Seq<char>>)>::empty() + (
    match work.author {
        Some(a) => people_creators(a@, "author"@),
        None => Seq::empty(),
    }) =~= (match work.author {
        Some(a) => people_creators(a@, "author"@),
        None => Seq::empty(),
    }));
    out
}

// ---------------------------------------------------------------------------
// Open-access sources
// ---------------------------------------------------------------------------

/// The elements of an array value.
pub open spec fn json_array(v: JsonSpec) -> Option<Seq<JsonSpec>> {
    match v {
        JsonSpec::Array(items) => Some(items),
        _ => None,
    }
}

/// The pattern of a new-style arXiv id.
pub open spec fn arxiv_id_pattern() -> Seq<char> {
    "\\d{4}\\.\\d{4,5}(v\\d+)?"@
}

/// The arXiv id among `is-preprint-of` relations: the first candidate whose
/// id mentions arXiv and contains an id; nothing once a candidate has no
/// text id.
pub open spec fn arxiv_from_candidates(cs: Seq<JsonSpec>) -> Option<Seq<char>>
    decreases cs.len(),
{
    if cs.len() == 0 {
        None
    } else {
        match json_get(cs[0], "id"@) {
            Some(JsonSpec::Str(id)) => if contains(spec_to_lowercase(id), "arxiv"@) && find_or_none(
                arxiv_id_pattern(),
                id,
            ) is Some {
                find_or_none(arxiv_id_pattern(), id)
            } else {
                arxiv_from_candidates(cs.drop_first())
            },
            _ => None,
        }
    }
}

/// The arXiv id of the preprint a work's metadata names.
pub open spec fn spec_arxiv_from_crossref(meta: JsonSpec) -> Option<Seq<char>> {
    match json_get(meta, "relation"@) {
        Some(rel) => match json_get(rel, "is-preprint-of"@) {
            Some(alts) => match json_array(alts) {
                Some(cs) => arxiv_from_candidates(cs),
                None => None,
            },
            None => None,
        },
        None => None,
    }
}

/// Reads the arXiv id of a preprint from CrossRef relation metadata (see
/// `spec_arxiv_from_crossref`).
pub fn try_arxiv_from_crossref(metadata: &JsonValue) -> (r: Option<String>)
    ensures
        match r {
            Some(id) => spec_arxiv_from_crossref(jview(*metadata)) == Some(id@),
            None => spec_arxiv_from_crossref(jview(*metadata)) is None,
        },
{
    let relation = match metadata.get("relation") {
        Some(r) => r,
        None => {
            return None;
        },
    };
    let alts = match relation.get("is-preprint-of") {
        Some(a) => a,
        None => {
            return None;
        },
    };
    let items = match alts {
        JsonValue::Array(items) => items,
        _ => {
            return None;
        },
    };
    let ghost cs = jview(*alts)->Array_0;
    assert(cs.len() == items.len());
    let mut i: usize = 0;
    assert(cs.skip(0) =~= cs);
    while i < items.len()
        invariant
            i <= items.len(),
            cs.len() == items.len(),
            forall|k: int| 0 <= k < items.len() ==> #[trigger] cs[k] == jview(items@[k]),
            spec_arxiv_from_crossref(jview(*metadata)) == arxiv_from_candidates(cs.skip(i as int)),
        decreases items.len() - i,
    {
        assert(cs.skip(i as int).drop_first() =~= cs.skip(i + 1));
        assert(cs.skip(i as int)[0] == cs[i as int]);
        let id = match items[i].get("id") {
            Some(v) => match v.as_str() {
                Some(s) => s,
                None => {
                    return None;
                },
            },
            None => {
                return None;
            },
        };
        let lower = to_lowercase(id);
        if contains_str(lower.as_str(), "arxiv") {
            match find_str("\\d{4}\\.\\d{4,5}(v\\d+)?", id) {
                Some(m) => {
                    return Some(m);
                },
                None => {},
            }
        }
        i = i + 1;
    }
    None
}

/// The first PDF URL an Unpaywall answer offers: the best location's, else
/// the first location with one (empty URLs skipped).
pub open spec fn spec_pick_unpaywall(best: Option<Seq<char>>, locations: Seq<Option<Seq<char>>>) -> Option<Seq<char>> {
    match best {
        Some(b) if b.len() > 0 => Some(b),
        _ => first_nonempty(locations),
    }
}

/// The first present, non-empty URL.
pub open spec fn first_nonempty(ls: Seq<Option<Seq<char>>>) -> Option<Seq<char>>
    decreases ls.len(),
{
    if ls.len() == 0 {
        None
    } else {
        match ls[0] {
            Some(u) if u.len() > 0 => Some(u),
            _ => first_nonempty(ls.drop_first()),
        }
    }
}

/// Picks the PDF URL of an Unpaywall answer (see `spec_pick_unpaywall`).
pub fn pick_unpaywall_pdf(best: Option<&str>, locations: &Vec<Option<String>>) -> (r: Option<String>)
    ensures
        match r {
            Some(u) => spec_pick_unpaywall(
                match best {
                    Some(b) => Some(b@),
                    None => None,
                },
                locations@.map_values(|o: Option<String>| opt_view(o)),
            ) == Some(u@),
            None => spec_pick_unpaywall(
                match best {
                    Some(b) => Some(b@),
                    None => None,
                },
                locations@.map_values(|o: Option<String>| opt_view(o)),
            ) is None,
        },
{
    if let Some(b) = best {
        if !b.is_empty() {
            return Some(owned(b));
        }
    }
    let ghost ls = locations@.map_values(|o: Option<String>| opt_view(o));
    let mut i: usize = 0;
    assert(ls.skip(0) =~= ls);
    while i < locations.len()
        invariant
            i <= locations.len(),
            ls == locations@.map_values(|o: Option<String>| opt_view(o)),
            first_nonempty(ls) == first_nonempty(ls.skip(i as int)),
            match best {
                Some(b) => b@.len() == 0,
                None => true,
            },
        decreases locations.len() - i,
    {
        assert(ls.skip(i as int).drop_first() =~= ls.skip(i + 1));
        assert(ls.skip(i as int)[0] == opt_view(locations@[i as int]));
        match &locations[i] {
            Some(u) => {
                if !u.as_str().is_empty() {
                    return Some(owned(u.as_str()));
                }
            },
            None => {},
        }
        i = i + 1;
    }
    None
}

/// The PDF address of a PubMed Central article.
pub fn pmc_pdf_url(pmcid: &str) -> (r: Option<String>)
    ensures
        pmcid@.len() == 0 ==> r is None,
        pmcid@.len() > 0 ==> (r matches Some(u) && u@ == "https://pmc.ncbi.nlm.nih.gov/articles/"@
            + pmcid@ + "/pdf/"@),
{
    if pmcid.is_empty() {
        return None;
    }
    let mut out = owned("https://pmc.ncbi.nlm.nih.gov/articles/");
    push_str(&mut out, pmcid);
    push_str(&mut out, "/pdf/");
    Some(out)
}

/// The file name an open-access PDF of a DOI is stored under: the DOI with
/// `/` replaced by `_`, then `.pdf`.
pub fn oa_pdf_filename(doi: &str) -> (r: String)
    ensures
        r@ == crate::text::replace_all(doi@, "/"@, "_"@) + ".pdf"@,
{
    proof {
        reveal_strlit("/");
    }
    let mut out = crate::text::replace_str(doi, "/", "_");
    push_str(&mut out, ".pdf");
    out
}

// ---------------------------------------------------------------------------
// The item of a work
// ---------------------------------------------------------------------------

/// The Zotero item type of a CrossRef work type (journal article when the
/// table has none).
pub open spec fn spec_mapped_type(work_type: Option<Seq<char>>) -> Seq<char> {
    match table_lookup(
        crossref_table(),
        match work_type {
            Some(t) => t,
            None => Seq::<char>::empty(),
        },
    ) {
        Some(t) => t,
        None => "journalArticle"@,
    }
}

/// The Zotero item type of a work (see `spec_mapped_type`).
pub fn mapped_item_type(work: &CrossrefWork) -> (r: &'static str)
    ensures
        r@ == spec_mapped_type(opt_view(work.work_type)),
{
    let t = match &work.work_type {
        Some(t) => t.as_str(),
        None => "",
    };
    proof {
        reveal_strlit("");
    }
    assert(t@ == (match opt_view(work.work_type) {
        Some(x) => x,
        None => Seq::<char>::empty(),
    }));
    match crossref_type(t) {
        Some(m) => m,
        None => "journalArticle",
    }
}

/// The URL CrossRef answers for a DOI.
pub fn crossref_work_url(doi: &str) -> (r: String)
    ensures
        r@ == "https://api.crossref.org/works/"@ + uri_encode(vstd::utf8::encode_utf8(doi@)),
{
    let mut out = owned("https://api.crossref.org/works/");
    let e = encode_uri_component(doi);
    push_str(&mut out, e.as_str());
    out
}

/// Whether an item template has a field: as its own member or among its
/// extra fields.
pub open spec fn template_has(member: bool, template: ZoteroItemData, key: Seq<char>) -> bool {
    member || crate::json::entry_get(crate::json::entries_view(template.extra_fields@), key) is Some
}

fn has_extra(template: &ZoteroItemData, key: &str) -> (b: bool)
    ensures
        b == (crate::json::entry_get(crate::json::entries_view(template.extra_fields@), key@) is Some),
{
    crate::json::entries_get(&template.extra_fields, key).is_some()
}

fn clone_opt(o: &Option<String>) -> (r: Option<String>)
    ensures
        opt_view(r) == opt_view(*o),
{
    match o {
        Some(s) => Some(owned(s.as_str())),
        None => None,
    }
}

fn first_string(v: &Option<Vec<String>>) -> (r: Option<String>)
    ensures
        match r {
            Some(s) => match *v {
                Some(l) => l@.len() > 0 && l@[0]@ == s@,
                None => false,
            },
            None => match *v {
                Some(l) => l@.len() == 0,
                None => true,
            },
        },
{
    match v {
        Some(l) => {
            if l.len() > 0 {
                Some(owned(l[0].as_str()))
            } else {
                None
            }
        },
        None => None,
    }
}

/// The first string of an optional list.
pub open spec fn first_of(v: Option<Vec<String>>) -> Option<Seq<char>> {
    match v {
        Some(l) => if l@.len() > 0 {
            Some(l@[0]@)
        } else {
            None
        },
        None => None,
    }
}

/// The item a CrossRef work becomes, built on an empty item: its type,
/// title, creators, date, DOI, URL, abstract (cleaned of HTML), tags and
/// collections; volume, issue, pages, publisher and ISSN where the template
/// of the type has them; and the container title as proceedings title, book
/// title or publication title, whichever the template has.
pub fn build_crossref_item(work: &CrossrefWork, doi: &str, template: &ZoteroItemData, tags: Vec<ZoteroTag>, collections: Vec<String>) -> (r: ZoteroItemData)
    ensures
        r.item_type@ == spec_mapped_type(opt_view(work.work_type)),
        opt_view(r.title) == Some(
            match first_of(work.title) {
                Some(t) => t,
                None => Seq::<char>::empty(),
            },
        ),
        (r.creators matches Some(cs) && cs@.map_values(|c: ZoteroCreator| creator_view(c))
            == spec_crossref_creators(*work)),
        opt_view(r.date) == spec_crossref_date(*work),
        opt_view(r.doi) == Some(doi@),
        opt_view(r.url) == Some(
            match work.url {
                Some(JsonValue::Str(s)) => s@,
                _ => "https://doi.org/"@ + doi@,
            },
        ),
        opt_view(r.abstract_note) == Some(
            match work.abstract_note {
                Some(a) => spec_clean_html(a@, true),
                None => Seq::<char>::empty(),
            },
        ),
        r.tags == Some(tags),
        r.collections == Some(collections),
        opt_view(r.volume) == (if template_has(template.volume is Some, *template, "volume"@) {
            opt_view(work.volume)
        } else {
            None
        }),
        opt_view(r.issue) == (if template_has(template.issue is Some, *template, "issue"@) {
            opt_view(work.issue)
        } else {
            None
        }),
        opt_view(r.pages) == (if template_has(template.pages is Some, *template, "pages"@) {
            opt_view(work.page)
        } else {
            None
        }),
        opt_view(r.publisher) == (if template_has(template.publisher is Some, *template, "publisher"@) {
            opt_view(work.publisher)
        } else {
            None
        }),
        opt_view(r.issn) == (if template_has(template.issn is Some, *template, "ISSN"@) {
            first_of(work.issn)
        } else {
            None
        }),
        crate::json::entries_view(r.extra_fields@) == (match first_of(work.container_title) {
            Some(ct) => if template_has(false, *template, "proceedingsTitle"@) {
                seq![("proceedingsTitle"@, JsonSpec::Str(ct))]
            } else if template_has(false, *template, "bookTitle"@) {
                seq![("bookTitle"@, JsonSpec::Str(ct))]
            } else {
                Seq::empty()
            },
            None => Seq::empty(),
        }),
        opt_view(r.publication_title) == (match first_of(work.container_title) {
            Some(ct) => if template_has(false, *template, "proceedingsTitle"@) || template_has(
                false,
                *template,
                "bookTitle"@,
            ) {
                None
            } else {
                Some(ct)
            },
            None => None,
        }),
{
    let mut item = ZoteroItemData::default();
    item.item_type = owned(mapped_item_type(work));
    item.title = Some(
        match first_string(&work.title) {
            Some(t) => t,
            None => String::new(),
        },
    );
    proof {
        reveal_strlit("");
    }
    item.creators = Some(map_crossref_creators(work));
    item.date = parse_crossref_date(work);
    item.doi = Some(owned(doi));
    item.url = Some(
        match &work.url {
            Some(JsonValue::Str(s)) => owned(s.as_str()),
            _ => {
                let mut u = owned("https://doi.org/");
                push_str(&mut u, doi);
                u
            },
        },
    );
    item.abstract_note = Some(
        match &work.abstract_note {
            Some(a) => clean_html(a.as_str(), true),
            None => String::new(),
        },
    );
    item.tags = Some(tags);
    item.collections = Some(collections);
    if template.volume.is_some() || has_extra(template, "volume") {
        item.volume = clone_opt(&work.volume);
    }
    if template.issue.is_some() || has_extra(template, "issue") {
        item.issue = clone_opt(&work.issue);
    }
    if template.pages.is_some() || has_extra(template, "pages") {
        item.pages = clone_opt(&work.page);
    }
    if template.publisher.is_some() || has_extra(template, "publisher") {
        item.publisher = clone_opt(&work.publisher);
    }
    if template.issn.is_some() || has_extra(template, "ISSN") {
        item.issn = first_string(&work.issn);
    }
    match first_string(&work.container_title) {
        Some(ct) => {
            if has_extra(template, "proceedingsTitle") {
                item.extra_fields.push((owned("proceedingsTitle"), JsonValue::Str(ct)));
            } else if has_extra(template, "bookTitle") {
                item.extra_fields.push((owned("bookTitle"), JsonValue::Str(ct)));
            } else {
                item.publication_title = Some(ct);
            }
        },
        None => {},
    }
    assert(crate::json::entries_view(item.extra_fields@) =~= (match first_of(work.container_title) {
        Some(ct) => if template_has(false, *template, "proceedingsTitle"@) {
            seq![("proceedingsTitle"@, JsonSpec::Str(ct))]
        } else if template_has(false, *template, "bookTitle"@) {
            seq![("bookTitle"@, JsonSpec::Str(ct))]
        } else {
            Seq::empty()
        },
        None => Seq::empty(),
    }));
    item
}

/// The report after adding a work: its summary, and the PDF attached.
pub fn crossref_report(summary: &str, attached: Option<&str>) -> (r: String)
    ensures
        r@ == (match attached {
            Some(u) => summary@ + "\n"@ + "Attached PDF: "@ + u@,
            None => summary@,
        }),
{
    let mut out = owned(summary);
    match attached {
        Some(u) => {
            push_str(&mut out, "\n");
            push_str(&mut out, "Attached PDF: ");
            push_str(&mut out, u);
        },
        None => {},
    }
    out
}

/// What adding a work produced: the key of its item and a report.
#[derive(Debug)]
pub struct AddCrossrefResult {
    pub key: String,
    pub result: String,
}

} // verus!
