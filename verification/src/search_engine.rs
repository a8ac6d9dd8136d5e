//! Local search: tag clauses, field extraction and the conditions of an
//! advanced search.

use vstd::prelude::*;

use crate::json::{entries_get, entries_view, entry_get, JsonSpec, JsonValue};
use crate::numbers::{
    all_digits, digits_value, dot_pos, is_digit, parse_i32, parse_u32, spec_parse_i32,
    spec_parse_u32,
};
use crate::text::{
    chars_of, contains, contains_str, ends_with, ends_with_str, join, join_strs, owned,
    signed_decimal, signed_decimal_string, spec_to_lowercase, split_char, split_char_str, split_ws,
    split_ws_str, starts_with, starts_with_str, str_eq, string_from_range, to_lowercase, trim,
    trim_str, views,
};
use crate::types::{opt_view, SearchCondition, ZoteroCreator, ZoteroItem, ZoteroItemData, ZoteroTag};

verus! {

// ---------------------------------------------------------------------------
// Tag clauses
// ---------------------------------------------------------------------------

/// One tag clause: an item passes when it has one of the `wanted` tags (or
/// there are none) and none of the `unwanted` ones. Tags are lower-cased.
#[derive(Debug)]
pub struct TagClause {
    pub wanted: Vec<String>,
    pub unwanted: Vec<String>,
}

/// The trimmed, non-empty pieces.
pub open spec fn nonempty_trimmed(pieces: Seq<Seq<char>>) -> Seq<Seq<char>>
    decreases pieces.len(),
{
    if pieces.len() == 0 {
        Seq::<Seq<char>>::empty()
    } else {
        let r = nonempty_trimmed(pieces.drop_last());
        let t = trim(pieces.last());
        if t.len() > 0 {
            r.push(t)
        } else {
            r
        }
    }
}

/// The alternatives of a clause: its `|`-separated pieces, trimmed and
/// non-empty, or the whole clause trimmed when there is none.
pub open spec fn clause_parts(raw: Seq<char>) -> Seq<Seq<char>> {
    let p = nonempty_trimmed(split_char(raw, '|'));
    if p.len() == 0 {
        seq![trim(raw)]
    } else {
        p
    }
}

/// Included and excluded tags of the alternatives: `-tag` excludes `tag`,
/// anything else includes itself, all lower-cased.
pub open spec fn clause_fold(parts: Seq<Seq<char>>) -> (Seq<Seq<char>>, Seq<Seq<char>>)
    decreases parts.len(),
{
    if parts.len() == 0 {
        (Seq::<Seq<char>>::empty(), Seq::<Seq<char>>::empty())
    } else {
        let (inc, exc) = clause_fold(parts.drop_last());
        let part = parts.last();
        if part.len() == 0 {
            (inc, exc)
        } else if part[0] == '-' {
            let v = spec_to_lowercase(trim(part.drop_first()));
            if v.len() > 0 {
                (inc, exc.push(v))
            } else {
                (inc, exc)
            }
        } else {
            (inc.push(spec_to_lowercase(part)), exc)
        }
    }
}

/// The included and excluded tags of a raw clause.
pub open spec fn spec_tag_clause(raw: Seq<char>) -> (Seq<Seq<char>>, Seq<Seq<char>>) {
    clause_fold(clause_parts(raw))
}

fn nonempty_trimmed_exec(pieces: &Vec<String>) -> (r: Vec<String>)
    ensures
        views(r@) == nonempty_trimmed(views(pieces@)),
{
    let mut r: Vec<String> = Vec::new();
    let mut i: usize = 0;
    assert(views(pieces@).take(0) =~= Seq::<Seq<char>>::empty());
    while i < pieces.len()
        invariant
            i <= pieces.len(),
            views(r@) == nonempty_trimmed(views(pieces@).take(i as int)),
        decreases pieces.len() - i,
    {
        assert(views(pieces@).take(i + 1).drop_last() =~= views(pieces@).take(i as int));
        assert(views(pieces@).take(i + 1).last() == pieces@[i as int]@);
        let t = trim_str(pieces[i].as_str());
        if !t.as_str().is_empty() {
            let ghost before = views(r@);
            r.push(t);
            assert(views(r@) =~= before.push(trim(pieces@[i as int]@)));
        }
        i = i + 1;
    }
    assert(views(pieces@).take(pieces.len() as int) =~= views(pieces@));
    r
}

/// Reads a tag clause (see `spec_tag_clause`): `a|b` includes either tag,
/// `-c` excludes `c`.
pub fn parse_tag_clause(raw_clause: &str) -> (c: TagClause)
    ensures
        (views(c.wanted@), views(c.unwanted@)) == spec_tag_clause(raw_clause@),
{
    let pieces = split_char_str(raw_clause, '|');
    let mut parts = nonempty_trimmed_exec(&pieces);
    if parts.len() == 0 {
        parts.push(trim_str(raw_clause));
        assert(views(parts@) =~= seq![trim(raw_clause@)]);
    }
    let ghost pv = views(parts@);
    assert(pv == clause_parts(raw_clause@));
    let mut wanted_list: Vec<String> = Vec::new();
    let mut unwanted_list: Vec<String> = Vec::new();
    let mut i: usize = 0;
    assert(pv.take(0) =~= Seq::<Seq<char>>::empty());
    while i < parts.len()
        invariant
            i <= parts.len(),
            pv == views(parts@),
            (views(wanted_list@), views(unwanted_list@)) == clause_fold(pv.take(i as int)),
        decreases parts.len() - i,
    {
        assert(pv.take(i + 1).drop_last() =~= pv.take(i as int));
        assert(pv.take(i + 1).last() == parts@[i as int]@);
        let part = &parts[i];
        let v = chars_of(part.as_str());
        if v.len() > 0 {
            if v[0] == '-' {
                let rest = string_from_range(&v, 1, v.len());
                assert(rest@ =~= part@.drop_first());
                let t = trim_str(rest.as_str());
                let lower = to_lowercase(t.as_str());
                if !lower.as_str().is_empty() {
                    let ghost before = views(unwanted_list@);
                    let ghost lv = lower@;
                    unwanted_list.push(lower);
                    assert(views(unwanted_list@) =~= before.push(lv));
                }
            } else {
                let lower = to_lowercase(part.as_str());
                let ghost before = views(wanted_list@);
                let ghost lv = lower@;
                wanted_list.push(lower);
                assert(views(wanted_list@) =~= before.push(lv));
            }
        }
        i = i + 1;
    }
    assert(pv.take(parts.len() as int) =~= pv);
    TagClause { wanted: wanted_list, unwanted: unwanted_list }
}

/// The lower-cased tags of an item.
pub open spec fn item_tags_lower(item: ZoteroItem) -> Seq<Seq<char>> {
    match item.data.tags {
        Some(ts) => ts@.map_values(|t: ZoteroTag| spec_to_lowercase(t.tag@)),
        None => Seq::<Seq<char>>::empty(),
    }
}

/// Whether tags `tags` satisfy a clause.
pub open spec fn clause_holds(tags: Seq<Seq<char>>, wanted: Seq<Seq<char>>, unwanted: Seq<Seq<char>>) -> bool {
    &&& (wanted.len() == 0 || exists|i: int| 0 <= i < wanted.len() && tags.contains(#[trigger] wanted[i]))
    &&& forall|j: int| 0 <= j < unwanted.len() ==> !tags.contains(#[trigger] unwanted[j])
}

/// Whether an item satisfies every clause.
pub open spec fn spec_matches_tag_clauses(item: ZoteroItem, clauses: Seq<TagClause>) -> bool {
    forall|k: int|
        0 <= k < clauses.len() ==> #[trigger] clause_holds(
            item_tags_lower(item),
            views(clauses[k].wanted@),
            views(clauses[k].unwanted@),
        )
}

fn lower_tags(item: &ZoteroItem) -> (r: Vec<String>)
    ensures
        views(r@) == item_tags_lower(*item),
{
    let mut r: Vec<String> = Vec::new();
    match &item.data.tags {
        Some(ts) => {
            let mut i: usize = 0;
            while i < ts.len()
                invariant
                    i <= ts.len(),
                    item.data.tags == Some(*ts),
                    views(r@) == ts@.take(i as int).map_values(|t: ZoteroTag| spec_to_lowercase(t.tag@)),
                decreases ts.len() - i,
            {
                let l = to_lowercase(ts[i].tag.as_str());
                let ghost before = views(r@);
                let ghost lv = l@;
                r.push(l);
                assert(views(r@) =~= before.push(lv));
                assert(ts@.take(i + 1) =~= ts@.take(i as int).push(ts@[i as int]));
                i = i + 1;
                assert(views(r@) =~= ts@.take(i as int).map_values(|t: ZoteroTag| spec_to_lowercase(t.tag@)));
            }
            assert(ts@.take(ts.len() as int) =~= ts@);
        },
        None => {
            assert(views(r@) =~= Seq::<Seq<char>>::empty());
        },
    }
    r
}

fn has_text(v: &Vec<String>, t: &str) -> (b: bool)
    ensures
        b == views(v@).contains(t@),
{
    let mut i: usize = 0;
    while i < v.len()
        invariant
            i <= v.len(),
            forall|k: int| 0 <= k < i ==> views(v@)[k] != t@,
        decreases v.len() - i,
    {
        if str_eq(v[i].as_str(), t) {
            assert(views(v@)[i as int] == t@);
            return true;
        }
        i = i + 1;
    }
    false
}

fn clause_holds_exec(tags: &Vec<String>, c: &TagClause) -> (b: bool)
    ensures
        b == clause_holds(views(tags@), views(c.wanted@), views(c.unwanted@)),
{
    let wanted: &Vec<String> = &c.wanted;
    let ghost inc = views(wanted@);
    let ghost exc = views(c.unwanted@);
    let mut any = wanted.len() == 0;
    let mut i: usize = 0;
    while i < wanted.len() && !any
        invariant
            i <= wanted.len(),
            inc == views(wanted@),
            !any ==> wanted.len() > 0 && forall|k: int| 0 <= k < i ==> !views(tags@).contains(#[trigger] inc[k]),
            any ==> (inc.len() == 0 || exists|k: int| 0 <= k < inc.len() && views(tags@).contains(#[trigger] inc[k])),
        decreases wanted.len() - i,
    {
        if has_text(tags, wanted[i].as_str()) {
            assert(views(tags@).contains(inc[i as int]));
            any = true;
        }
        i = i + 1;
    }
    if !any {
        return false;
    }
    let mut j: usize = 0;
    while j < c.unwanted.len()
        invariant
            j <= c.unwanted.len(),
            exc == views(c.unwanted@),
            forall|k: int| 0 <= k < j ==> !views(tags@).contains(#[trigger] exc[k]),
        decreases c.unwanted.len() - j,
    {
        if has_text(tags, c.unwanted[j].as_str()) {
            assert(views(tags@).contains(exc[j as int]));
            return false;
        }
        j = j + 1;
    }
    true
}

/// Whether an item satisfies all clauses (AND across clauses; within a
/// clause, any wanted tag and no unwanted one).
pub fn matches_tag_clauses(item: &ZoteroItem, clauses: &[TagClause]) -> (b: bool)
    ensures
        b == spec_matches_tag_clauses(*item, clauses@),
{
    let tags = lower_tags(item);
    let mut k: usize = 0;
    while k < clauses.len()
        invariant
            k <= clauses.len(),
            views(tags@) == item_tags_lower(*item),
            forall|j: int|
                0 <= j < k ==> #[trigger] clause_holds(
                    item_tags_lower(*item),
                    views(clauses@[j].wanted@),
                    views(clauses@[j].unwanted@),
                ),
        decreases clauses.len() - k,
    {
        if !clause_holds_exec(&tags, &clauses[k]) {
            return false;
        }
        k = k + 1;
    }
    true
}

// ---------------------------------------------------------------------------
// Citation key
// ---------------------------------------------------------------------------

/// A line without its trailing carriage return.
pub open spec fn strip_cr(line: Seq<char>) -> Seq<char> {
    if line.len() > 0 && line.last() == '\r' {
        line.drop_last()
    } else {
        line
    }
}

/// The lines of a text (`str::lines`): split at line feeds, without a final
/// empty line, each without a trailing carriage return.
pub open spec fn text_lines(s: Seq<char>) -> Seq<Seq<char>> {
    let pieces = split_char(s, '\n');
    let kept = if pieces.last().len() == 0 {
        pieces.drop_last()
    } else {
        pieces
    };
    kept.map_values(|l: Seq<char>| strip_cr(l))
}

/// The position of the first `c` in `s`.
pub open spec fn index_of(s: Seq<char>, c: char) -> Option<int> {
    if exists|i: int| 0 <= i < s.len() && s[i] == c {
        Some(choose|i: int| 0 <= i < s.len() && s[i] == c && forall|j: int| 0 <= j < i ==> s[j] != c)
    } else {
        None
    }
}

/// The citation key on one line (`Citation Key: value`, the name in any case
/// and spacing), if the value is not empty.
pub open spec fn line_citation_key(line: Seq<char>) -> Option<Seq<char>> {
    let t = trim(line);
    match index_of(t, ':') {
        Some(p) => if spec_to_lowercase(join(split_ws(trim(t.take(p))), " "@)) == "citation key"@ && trim(
            t.skip(p + 1),
        ).len() > 0 {
            Some(trim(t.skip(p + 1)))
        } else {
            None
        },
        None => None,
    }
}

/// The first citation key among lines.
pub open spec fn first_citation_key(lines: Seq<Seq<char>>) -> Option<Seq<char>>
    decreases lines.len(),
{
    if lines.len() == 0 {
        None
    } else {
        match line_citation_key(lines[0]) {
            Some(k) => Some(k),
            None => first_citation_key(lines.drop_first()),
        }
    }
}

fn index_of_exec(v: &Vec<char>, c: char) -> (r: Option<usize>)
    ensures
        match r {
            Some(p) => index_of(v@, c) == Some(p as int) && p < v.len(),
            None => index_of(v@, c) is None,
        },
{
    let mut i: usize = 0;
    while i < v.len()
        invariant
            i <= v.len(),
            forall|j: int| 0 <= j < i ==> v@[j] != c,
        decreases v.len() - i,
    {
        if v[i] == c {
            let ghost ch = choose|k: int| 0 <= k < v@.len() && v@[k] == c && forall|j: int| 0 <= j < k ==> v@[j] != c;
            assert(ch == i as int) by {
                if ch < i as int {
                } else if ch > i as int {
                }
            }
            return Some(i);
        }
        i = i + 1;
    }
    None
}

fn line_citation_key_exec(line: &str) -> (r: Option<String>)
    ensures
        match r {
            Some(k) => line_citation_key(line@) == Some(k@),
            None => line_citation_key(line@) is None,
        },
{
    let t = trim_str(line);
    let v = chars_of(t.as_str());
    match index_of_exec(&v, ':') {
        Some(p) => {
            let head = string_from_range(&v, 0, p);
            let tail = string_from_range(&v, p + 1, v.len());
            assert(head@ =~= t@.take(p as int));
            assert(tail@ =~= t@.skip(p + 1));
            let words = split_ws_str(trim_str(head.as_str()).as_str());
            let joined = join_strs(&words, " ");
            let normalized = to_lowercase(joined.as_str());
            let value = trim_str(tail.as_str());
            if str_eq(normalized.as_str(), "citation key") && !value.as_str().is_empty() {
                Some(value)
            } else {
                None
            }
        },
        None => None,
    }
}

/// The value of the first `Citation Key:` line of an item's extra field.
pub fn read_citation_key_from_extra(extra: &str) -> (r: Option<String>)
    ensures
        match r {
            Some(k) => first_citation_key(text_lines(extra@)) == Some(k@),
            None => first_citation_key(text_lines(extra@)) is None,
        },
{
    let pieces = split_char_str(extra, '\n');
    let ghost pv = views(pieces@);
    let n = if pieces.len() > 0 && pieces[pieces.len() - 1].as_str().is_empty() {
        pieces.len() - 1
    } else {
        pieces.len()
    };
    proof {
        assert(pv.len() > 0) by {
            crate::text::lemma_split_char_nonempty(extra@, '\n');
        }
    }
    let ghost lines = text_lines(extra@);
    assert(lines.len() == n);
    assert(lines.skip(0) =~= lines);
    let mut i: usize = 0;
    while i < n
        invariant
            i <= n <= pieces.len(),
            pv == views(pieces@),
            lines == text_lines(extra@),
            lines.len() == n,
            forall|j: int| 0 <= j < n ==> #[trigger] lines[j] == strip_cr(pv[j]),
            first_citation_key(lines) == first_citation_key(lines.skip(i as int)),
        decreases n - i,
    {
        assert(lines.skip(i as int).drop_first() =~= lines.skip(i + 1));
        assert(lines.skip(i as int)[0] == lines[i as int]);
        let pc = chars_of(pieces[i].as_str());
        let line = if pc.len() > 0 && pc[pc.len() - 1] == '\r' {
            string_from_range(&pc, 0, pc.len() - 1)
        } else {
            owned(pieces[i].as_str())
        };
        assert(line@ =~= strip_cr(pv[i as int]));
        match line_citation_key_exec(line.as_str()) {
            Some(k) => {
                return Some(k);
            },
            None => {},
        }
        i = i + 1;
    }
    None
}

// ---------------------------------------------------------------------------
// Field values
// ---------------------------------------------------------------------------

/// A search field name, trimmed and lower-cased, with the aliases `creator`,
/// `tag` and `year` mapped to `creators`, `tags` and `date`.
pub open spec fn spec_canonical_field(field: Seq<char>) -> Seq<char> {
    let n = spec_to_lowercase(trim(field));
    if n == "creator"@ {
        "creators"@
    } else if n == "tag"@ {
        "tags"@
    } else if n == "year"@ {
        "date"@
    } else {
        n
    }
}

fn canonical_field(field: &str) -> (r: String)
    ensures
        r@ == spec_canonical_field(field@),
{
    let n = to_lowercase(trim_str(field).as_str());
    if str_eq(n.as_str(), "creator") {
        owned("creators")
    } else if str_eq(n.as_str(), "tag") {
        owned("tags")
    } else if str_eq(n.as_str(), "year") {
        owned("date")
    } else {
        n
    }
}

/// An optional text as a list: itself when present and not blank.
pub open spec fn opt_values(o: Option<String>) -> Seq<Seq<char>> {
    match o {
        Some(s) => if trim(s@).len() > 0 {
            seq![s@]
        } else {
            Seq::<Seq<char>>::empty()
        },
        None => Seq::<Seq<char>>::empty(),
    }
}

fn opt_to_vec(opt: &Option<String>) -> (r: Vec<String>)
    ensures
        views(r@) == opt_values(*opt),
{
    let mut r: Vec<String> = Vec::new();
    match opt {
        Some(s) => {
            if !trim_str(s.as_str()).as_str().is_empty() {
                r.push(owned(s.as_str()));
                assert(views(r@) =~= seq![s@]);
            } else {
                assert(views(r@) =~= Seq::<Seq<char>>::empty());
            }
        },
        None => {
            assert(views(r@) =~= Seq::<Seq<char>>::empty());
        },
    }
    r
}

/// The searchable name of a creator: the single-field name when not empty,
/// else the non-empty given and family names joined by a space.
pub open spec fn creator_search_name(c: ZoteroCreator) -> Option<Seq<char>> {
    let parts = name_part(c.first_name) + name_part(c.last_name);
    match c.name {
        Some(n) if n@.len() > 0 => Some(n@),
        _ => if parts.len() == 0 {
            None
        } else {
            Some(join(parts, " "@))
        },
    }
}

/// A name part as a list: itself when present and not empty.
pub open spec fn name_part(o: Option<String>) -> Seq<Seq<char>> {
    match o {
        Some(f) => if f@.len() > 0 {
            seq![f@]
        } else {
            Seq::<Seq<char>>::empty()
        },
        None => Seq::<Seq<char>>::empty(),
    }
}

/// The names of creators that have one.
pub open spec fn creator_names(cs: Seq<ZoteroCreator>) -> Seq<Seq<char>>
    decreases cs.len(),
{
    if cs.len() == 0 {
        Seq::<Seq<char>>::empty()
    } else {
        match creator_search_name(cs.last()) {
            Some(n) => creator_names(cs.drop_last()).push(n),
            None => creator_names(cs.drop_last()),
        }
    }
}

/// The tag names that are not blank.
pub open spec fn tag_names(ts: Seq<ZoteroTag>) -> Seq<Seq<char>>
    decreases ts.len(),
{
    if ts.len() == 0 {
        Seq::<Seq<char>>::empty()
    } else if trim(ts.last().tag@).len() > 0 {
        tag_names(ts.drop_last()).push(ts.last().tag@)
    } else {
        tag_names(ts.drop_last())
    }
}

/// The text of an extra field as a value: a non-blank string, or a number.
pub open spec fn extra_value(v: Option<JsonSpec>) -> Option<Seq<char>> {
    match v {
        Some(JsonSpec::Str(t)) => if trim(t).len() > 0 {
            Some(t)
        } else {
            None
        },
        Some(JsonSpec::Number(n)) => Some(n),
        _ => None,
    }
}

/// A number as a one-element list.
pub open spec fn opt_number(n: Option<i64>) -> Seq<Seq<char>> {
    match n {
        Some(x) => seq![signed_decimal(x as int)],
        None => Seq::<Seq<char>>::empty(),
    }
}

/// The values of a field of an item, as searched: creator names, tag names,
/// the text of an item field, the collections, or, for any other name, the
/// extra field of that name (as written, then in canonical form).
pub open spec fn spec_extract_values(item: ZoteroItem, field: Seq<char>) -> Seq<Seq<char>> {
    let key = spec_canonical_field(field);
    let d = item.data;
    if key == "creators"@ {
        match d.creators {
            Some(cs) => creator_names(cs@),
            None => Seq::<Seq<char>>::empty(),
        }
    } else if key == "tags"@ {
        match d.tags {
            Some(ts) => tag_names(ts@),
            None => Seq::<Seq<char>>::empty(),
        }
    } else if key == "date"@ {
        opt_values(d.date)
    } else if key == "abstract"@ || key == "abstractnote"@ {
        opt_values(d.abstract_note)
    } else if key == "title"@ {
        opt_values(d.title)
    } else if key == "itemtype"@ {
        if trim(d.item_type@).len() == 0 {
            Seq::<Seq<char>>::empty()
        } else {
            seq![d.item_type@]
        }
    } else if key == "key"@ {
        opt_values(d.key)
    } else if key == "version"@ {
        opt_number(d.version)
    } else if key == "dateadded"@ {
        opt_values(d.date_added)
    } else if key == "datemodified"@ {
        opt_values(d.date_modified)
    } else if key == "publicationtitle"@ {
        opt_values(d.publication_title)
    } else if key == "volume"@ {
        opt_values(d.volume)
    } else if key == "issue"@ {
        opt_values(d.issue)
    } else if key == "pages"@ {
        opt_values(d.pages)
    } else if key == "doi"@ {
        opt_values(d.doi)
    } else if key == "url"@ {
        opt_values(d.url)
    } else if key == "publisher"@ {
        opt_values(d.publisher)
    } else if key == "place"@ {
        opt_values(d.place)
    } else if key == "issn"@ {
        opt_values(d.issn)
    } else if key == "extra"@ {
        opt_values(d.extra)
    } else if key == "note"@ {
        opt_values(d.note)
    } else if key == "contenttype"@ {
        opt_values(d.content_type)
    } else if key == "filename"@ {
        opt_values(d.filename)
    } else if key == "md5"@ {
        opt_values(d.md5)
    } else if key == "mtime"@ {
        opt_number(d.mtime)
    } else if key == "parentitem"@ {
        opt_values(d.parent_item)
    } else if key == "annotationtype"@ {
        opt_values(d.annotation_type)
    } else if key == "annotationtext"@ {
        opt_values(d.annotation_text)
    } else if key == "annotationcomment"@ {
        opt_values(d.annotation_comment)
    } else if key == "annotationcolor"@ {
        opt_values(d.annotation_color)
    } else if key == "annotationpagelabel"@ {
        opt_values(d.annotation_page_label)
    } else if key == "annotationposition"@ {
        opt_values(d.annotation_position)
    } else if key == "linkmode"@ {
        opt_values(d.link_mode)
    } else if key == "collections"@ {
        match d.collections {
            Some(c) => views(c@),
            None => Seq::<Seq<char>>::empty(),
        }
    } else {
        match extra_value(entry_get(entries_view(d.extra_fields@), field)) {
            Some(v) => seq![v],
            None => match extra_value(entry_get(entries_view(d.extra_fields@), key)) {
                Some(v) => seq![v],
                None => Seq::<Seq<char>>::empty(),
            },
        }
    }
}

fn creator_search_name_exec(c: &ZoteroCreator) -> (r: Option<String>)
    ensures
        match r {
            Some(n) => creator_search_name(*c) == Some(n@),
            None => creator_search_name(*c) is None,
        },
{
    if let Some(n) = &c.name {
        if !n.as_str().is_empty() {
            return Some(owned(n.as_str()));
        }
    }
    let mut parts: Vec<String> = Vec::new();
    if let Some(f) = &c.first_name {
        if !f.as_str().is_empty() {
            parts.push(owned(f.as_str()));
        }
    }
    if let Some(l) = &c.last_name {
        if !l.as_str().is_empty() {
            parts.push(owned(l.as_str()));
        }
    }
    let ghost first = name_part(c.first_name);
    let ghost last = name_part(c.last_name);
    assert(views(parts@) =~= first + last);
    if parts.len() == 0 {
        None
    } else {
        Some(join_strs(&parts, " "))
    }
}

fn extra_value_exec(v: Option<&JsonValue>) -> (r: Option<String>)
    ensures
        match r {
            Some(t) => extra_value(
                match v {
                    Some(x) => Some(crate::json::jview(*x)),
                    None => None,
                },
            ) == Some(t@),
            None => extra_value(
                match v {
                    Some(x) => Some(crate::json::jview(*x)),
                    None => None,
                },
            ) is None,
        },
{
    match v {
        Some(JsonValue::Str(t)) => {
            if !trim_str(t.as_str()).as_str().is_empty() {
                Some(owned(t.as_str()))
            } else {
                None
            }
        },
        Some(JsonValue::Number(n)) => Some(owned(n.as_str())),
        _ => None,
    }
}

fn one(s: String) -> (r: Vec<String>)
    ensures
        views(r@) == seq![s@],
{
    let mut r: Vec<String> = Vec::new();
    let ghost sv = s@;
    r.push(s);
    assert(views(r@) =~= seq![sv]);
    r
}

fn none_values() -> (r: Vec<String>)
    ensures
        views(r@) == Seq::<Seq<char>>::empty(),
{
    let r: Vec<String> = Vec::new();
    assert(views(r@) =~= Seq::<Seq<char>>::empty());
    r
}

fn number_values(n: Option<i64>) -> (r: Vec<String>)
    ensures
        views(r@) == opt_number(n),
{
    match n {
        Some(x) => one(signed_decimal_string(x)),
        None => none_values(),
    }
}

fn clone_strings(v: &Vec<String>) -> (r: Vec<String>)
    ensures
        views(r@) == views(v@),
{
    let mut r: Vec<String> = Vec::new();
    let mut i: usize = 0;
    while i < v.len()
        invariant
            i <= v.len(),
            views(r@) == views(v@).take(i as int),
        decreases v.len() - i,
    {
        let ghost before = views(r@);
        let c = owned(v[i].as_str());
        r.push(c);
        assert(views(r@) =~= before.push(v@[i as int]@));
        i = i + 1;
        assert(views(r@) =~= views(v@).take(i as int));
    }
    assert(views(v@).take(v.len() as int) =~= views(v@));
    r
}

/// The values of a field of an item (see `spec_extract_values`).
pub fn extract_values(item: &ZoteroItem, field: &str) -> (r: Vec<String>)
    ensures
        views(r@) == spec_extract_values(*item, field@),
{
    let key = canonical_field(field);
    let k = key.as_str();
    let d = &item.data;
    if str_eq(k, "creators") {
        match &d.creators {
            Some(cs) => {
                let mut r: Vec<String> = Vec::new();
                let mut i: usize = 0;
                assert(cs@.take(0) =~= Seq::<ZoteroCreator>::empty());
                while i < cs.len()
                    invariant
                        i <= cs.len(),
                        views(r@) == creator_names(cs@.take(i as int)),
                    decreases cs.len() - i,
                {
                    assert(cs@.take(i + 1).drop_last() =~= cs@.take(i as int));
                    assert(cs@.take(i + 1).last() == cs@[i as int]);
                    match creator_search_name_exec(&cs[i]) {
                        Some(n) => {
                            let ghost before = views(r@);
                            let ghost nv = n@;
                            r.push(n);
                            assert(views(r@) =~= before.push(nv));
                        },
                        None => {},
                    }
                    i = i + 1;
                }
                assert(cs@.take(cs.len() as int) =~= cs@);
                r
            },
            None => none_values(),
        }
    } else if str_eq(k, "tags") {
        match &d.tags {
            Some(ts) => {
                let mut r: Vec<String> = Vec::new();
                let mut i: usize = 0;
                assert(ts@.take(0) =~= Seq::<ZoteroTag>::empty());
                while i < ts.len()
                    invariant
                        i <= ts.len(),
                        views(r@) == tag_names(ts@.take(i as int)),
                    decreases ts.len() - i,
                {
                    assert(ts@.take(i + 1).drop_last() =~= ts@.take(i as int));
                    assert(ts@.take(i + 1).last() == ts@[i as int]);
                    if !trim_str(ts[i].tag.as_str()).as_str().is_empty() {
                        let ghost before = views(r@);
                        r.push(owned(ts[i].tag.as_str()));
                        assert(views(r@) =~= before.push(ts@[i as int].tag@));
                    }
                    i = i + 1;
                }
                assert(ts@.take(ts.len() as int) =~= ts@);
                r
            },
            None => none_values(),
        }
    } else if str_eq(k, "date") {
        opt_to_vec(&d.date)
    } else if str_eq(k, "abstract") || str_eq(k, "abstractnote") {
        opt_to_vec(&d.abstract_note)
    } else if str_eq(k, "title") {
        opt_to_vec(&d.title)
    } else if str_eq(k, "itemtype") {
        if trim_str(d.item_type.as_str()).as_str().is_empty() {
            none_values()
        } else {
            one(owned(d.item_type.as_str()))
        }
    } else if str_eq(k, "key") {
        opt_to_vec(&d.key)
    } else if str_eq(k, "version") {
        number_values(d.version)
    } else if str_eq(k, "dateadded") {
        opt_to_vec(&d.date_added)
    } else if str_eq(k, "datemodified") {
        opt_to_vec(&d.date_modified)
    } else if str_eq(k, "publicationtitle") {
        opt_to_vec(&d.publication_title)
    } else if str_eq(k, "volume") {
        opt_to_vec(&d.volume)
    } else if str_eq(k, "issue") {
        opt_to_vec(&d.issue)
    } else if str_eq(k, "pages") {
        opt_to_vec(&d.pages)
    } else if str_eq(k, "doi") {
        opt_to_vec(&d.doi)
    } else if str_eq(k, "url") {
        opt_to_vec(&d.url)
    } else if str_eq(k, "publisher") {
        opt_to_vec(&d.publisher)
    } else if str_eq(k, "place") {
        opt_to_vec(&d.place)
    } else if str_eq(k, "issn") {
        opt_to_vec(&d.issn)
    } else if str_eq(k, "extra") {
        opt_to_vec(&d.extra)
    } else if str_eq(k, "note") {
        opt_to_vec(&d.note)
    } else if str_eq(k, "contenttype") {
        opt_to_vec(&d.content_type)
    } else if str_eq(k, "filename") {
        opt_to_vec(&d.filename)
    } else if str_eq(k, "md5") {
        opt_to_vec(&d.md5)
    } else if str_eq(k, "mtime") {
        number_values(d.mtime)
    } else if str_eq(k, "parentitem") {
        opt_to_vec(&d.parent_item)
    } else if str_eq(k, "annotationtype") {
        opt_to_vec(&d.annotation_type)
    } else if str_eq(k, "annotationtext") {
        opt_to_vec(&d.annotation_text)
    } else if str_eq(k, "annotationcomment") {
        opt_to_vec(&d.annotation_comment)
    } else if str_eq(k, "annotationcolor") {
        opt_to_vec(&d.annotation_color)
    } else if str_eq(k, "annotationpagelabel") {
        opt_to_vec(&d.annotation_page_label)
    } else if str_eq(k, "annotationposition") {
        opt_to_vec(&d.annotation_position)
    } else if str_eq(k, "linkmode") {
        opt_to_vec(&d.link_mode)
    } else if str_eq(k, "collections") {
        match &d.collections {
            Some(c) => clone_strings(c),
            None => none_values(),
        }
    } else {
        match extra_value_exec(entries_get(&d.extra_fields, field)) {
            Some(v) => one(v),
            None => match extra_value_exec(entries_get(&d.extra_fields, k)) {
                Some(v) => one(v),
                None => none_values(),
            },
        }
    }
}

// ---------------------------------------------------------------------------
// Dates
// ---------------------------------------------------------------------------

/// Division rounding toward zero (Rust's `/` on integers), for `b > 0`.
pub open spec fn tdiv(a: int, b: int) -> int {
    if a >= 0 {
        a / b
    } else {
        -((-a) / b)
    }
}

/// Milliseconds from the Unix epoch to the start of a proleptic Gregorian
/// date, by the Julian Day Number formula.
pub open spec fn epoch_ms(y: int, m: int, d: int) -> int {
    let a = tdiv(14 - m, 12);
    let ya = y + 4800 - a;
    let ma = m + 12 * a - 3;
    let jdn = d + tdiv(153 * ma + 2, 5) + 365 * ya + tdiv(ya, 4) - tdiv(ya, 100) + tdiv(ya, 400)
        - 32045;
    (jdn - 2440588) * 86400000
}

fn tdiv_exec(a: i128, b: i128) -> (r: i128)
    requires
        b > 0,
        -0x1_0000_0000_0000_0000 < a < 0x1_0000_0000_0000_0000,
    ensures
        r == tdiv(a as int, b as int),
{
    if a >= 0 {
        a / b
    } else {
        let n = -a;
        -(n / b)
    }
}

/// Milliseconds from the Unix epoch to a date (see `epoch_ms`); exact, so
/// no year overflows.
fn date_to_epoch_ms(year: i32, month: u32, day: u32) -> (r: i128)
    requires
        1 <= month <= 12,
        1 <= day <= 31,
    ensures
        r == epoch_ms(year as int, month as int, day as int),
{
    let y = year as i128;
    let m = month as i128;
    let d = day as i128;
    let a = tdiv_exec(14 - m, 12);
    assert(0 <= a <= 1);
    let ya = y + 4800 - a;
    let ma = m + 12 * a - 3;
    let jdn = d + tdiv_exec(153 * ma + 2, 5) + 365 * ya + tdiv_exec(ya, 4) - tdiv_exec(ya, 100)
        + tdiv_exec(ya, 400) - 32045;
    (jdn - 2440588) * 86400000
}

/// The part of a date before any time: up to the first `T`, then up to the
/// first space.
pub open spec fn date_part(s: Seq<char>) -> Seq<char> {
    split_char(split_char(s, 'T')[0], ' ')[0]
}

/// A date `YYYY-MM-DD`, `YYYY-MM` or `YYYY` (optionally followed by a time)
/// as milliseconds from the Unix epoch; months must be 1 to 12, days 1 to 31,
/// and a lone year 1 to 9999.
pub open spec fn spec_parse_date_ms(s: Seq<char>) -> Option<int> {
    let t = trim(s);
    let parts = split_char(date_part(t), '-');
    if t.len() == 0 {
        None
    } else if parts.len() == 3 {
        match (spec_parse_i32(parts[0]), spec_parse_u32(parts[1]), spec_parse_u32(parts[2])) {
            (Some(y), Some(m), Some(d)) => if 1 <= m <= 12 && 1 <= d <= 31 {
                Some(epoch_ms(y, m, d))
            } else {
                None
            },
            _ => None,
        }
    } else if parts.len() == 2 {
        match (spec_parse_i32(parts[0]), spec_parse_u32(parts[1])) {
            (Some(y), Some(m)) => if 1 <= m <= 12 {
                Some(epoch_ms(y, m, 1))
            } else {
                None
            },
            _ => None,
        }
    } else if parts.len() == 1 {
        match spec_parse_i32(parts[0]) {
            Some(y) => if 1 <= y <= 9999 {
                Some(epoch_ms(y, 1, 1))
            } else {
                None
            },
            None => None,
        }
    } else {
        None
    }
}

fn first_piece(s: &str, sep: char) -> (r: String)
    ensures
        r@ == split_char(s@, sep)[0],
{
    let pieces = split_char_str(s, sep);
    proof {
        crate::text::lemma_split_char_nonempty(s@, sep);
        assert(views(pieces@)[0] == pieces@[0]@);
    }
    owned(pieces[0].as_str())
}

/// Reads a date (see `spec_parse_date_ms`).
pub fn parse_date_ms(s: &str) -> (r: Option<i128>)
    ensures
        match r {
            Some(ms) => spec_parse_date_ms(s@) == Some(ms as int),
            None => spec_parse_date_ms(s@) is None,
        },
{
    let t = trim_str(s);
    let before_t = first_piece(t.as_str(), 'T');
    let dp = first_piece(before_t.as_str(), ' ');
    let parts = split_char_str(dp.as_str(), '-');
    let ghost pv = views(parts@);
    if t.as_str().is_empty() {
        return None;
    }
    if parts.len() == 3 {
        assert(pv[0] == parts@[0]@ && pv[1] == parts@[1]@ && pv[2] == parts@[2]@);
        let y = match parse_i32(parts[0].as_str()) {
            Some(y) => y,
            None => {
                return None;
            },
        };
        let m = match parse_u32(parts[1].as_str()) {
            Some(m) => m,
            None => {
                return None;
            },
        };
        let d = match parse_u32(parts[2].as_str()) {
            Some(d) => d,
            None => {
                return None;
            },
        };
        if !(1 <= m && m <= 12) || !(1 <= d && d <= 31) {
            return None;
        }
        Some(date_to_epoch_ms(y, m, d))
    } else if parts.len() == 2 {
        assert(pv[0] == parts@[0]@ && pv[1] == parts@[1]@);
        let y = match parse_i32(parts[0].as_str()) {
            Some(y) => y,
            None => {
                return None;
            },
        };
        let m = match parse_u32(parts[1].as_str()) {
            Some(m) => m,
            None => {
                return None;
            },
        };
        if !(1 <= m && m <= 12) {
            return None;
        }
        Some(date_to_epoch_ms(y, m, 1))
    } else if parts.len() == 1 {
        assert(pv[0] == parts@[0]@);
        let y = match parse_i32(parts[0].as_str()) {
            Some(y) => y,
            None => {
                return None;
            },
        };
        if !(1 <= y && y <= 9999) {
            return None;
        }
        Some(date_to_epoch_ms(y, 1, 1))
    } else {
        None
    }
}

/// The first run of four ASCII digits at or after `i` whose value is a year
/// from 1900 to 2099.
pub open spec fn year_from(s: Seq<char>, i: int) -> Option<int>
    decreases s.len() - i,
{
    if i < 0 || i + 4 > s.len() {
        None
    } else if all_digits(s.subrange(i, i + 4)) && 1900 <= digits_value(s.subrange(i, i + 4))
        <= 2099 {
        Some(digits_value(s.subrange(i, i + 4)) as int)
    } else {
        year_from(s, i + 1)
    }
}

fn four_digits(v: &Vec<char>, i: usize) -> (r: Option<u32>)
    requires
        i + 4 <= v.len(),
    ensures
        match r {
            Some(y) => all_digits(v@.subrange(i as int, i + 4)) && y == digits_value(
                v@.subrange(i as int, i + 4),
            ),
            None => !all_digits(v@.subrange(i as int, i + 4)),
        },
{
    let ghost w = v@.subrange(i as int, i + 4);
    let mut acc: u32 = 0;
    let mut k: usize = 0;
    assert(w.take(0) =~= Seq::<char>::empty());
    while k < 4
        invariant
            k <= 4,
            i + 4 <= v.len(),
            w == v@.subrange(i as int, i + 4),
            all_digits(w.take(k as int)),
            acc == digits_value(w.take(k as int)),
            acc < 10000,
            k == 0 ==> acc == 0,
            k == 1 ==> acc < 10,
            k == 2 ==> acc < 100,
            k == 3 ==> acc < 1000,
        decreases 4 - k,
    {
        let c = v[i + k];
        assert(w[k as int] == c);
        assert(w.take(k + 1).drop_last() =~= w.take(k as int));
        assert(w.take(k + 1).last() == c);
        if !('0' <= c && c <= '9') {
            assert(!is_digit(w[k as int]));
            return None;
        }
        acc = acc * 10 + (c as u32 - '0' as u32);
        k = k + 1;
        assert(all_digits(w.take(k as int))) by {
            assert forall|j: int| 0 <= j < w.take(k as int).len() implies #[trigger] is_digit(
                w.take(k as int)[j],
            ) by {
                if j < k - 1 {
                    assert(w.take(k as int)[j] == w.take(k - 1)[j]);
                }
            }
        }
    }
    assert(w.take(4) =~= w);
    Some(acc)
}

/// The first year from 1900 to 2099 written in a text (see `year_from`).
fn extract_year_exec(s: &str) -> (r: Option<u32>)
    ensures
        match r {
            Some(y) => year_from(s@, 0) == Some(y as int),
            None => year_from(s@, 0) is None,
        },
{
    let v = chars_of(s);
    let mut i: usize = 0;
    while v.len() >= 4 && i <= v.len() - 4
        invariant
            v@ == s@,
            year_from(s@, 0) == year_from(s@, i as int),
        decreases v.len() - i,
    {
        match four_digits(&v, i) {
            Some(y) => {
                if 1900 <= y && y <= 2099 {
                    return Some(y);
                }
            },
            None => {},
        }
        i = i + 1;
    }
    None
}

// ---------------------------------------------------------------------------
// Floating-point text
// ---------------------------------------------------------------------------

/// The code of a character, lower-cased if it is an ASCII capital.
pub open spec fn ascii_lower(c: char) -> int {
    if 'A' <= c <= 'Z' {
        (c as u32) + 32
    } else {
        c as u32 as int
    }
}

/// Whether `s` equals the lower-case word `w` ignoring ASCII case.
pub open spec fn eq_ignore_case(s: Seq<char>, w: Seq<char>) -> bool {
    s.len() == w.len() && forall|i: int| 0 <= i < s.len() ==> #[trigger] ascii_lower(s[i]) == w[i] as u32 as int
}

/// The position of the first `e` or `E`, or the length.
pub open spec fn exp_pos(s: Seq<char>) -> nat
    decreases s.len(),
{
    if s.len() == 0 || s[0] == 'e' || s[0] == 'E' {
        0
    } else {
        1 + exp_pos(s.drop_first())
    }
}

/// Digits with at most one `.` and at least one digit.
pub open spec fn mantissa_text(mant: Seq<char>) -> bool {
    let p = dot_pos(mant) as int;
    let int_part = mant.take(p);
    let frac = if p < mant.len() {
        mant.skip(p + 1)
    } else {
        Seq::<char>::empty()
    };
    &&& all_digits(int_part)
    &&& all_digits(frac)
    &&& (int_part.len() > 0 || frac.len() > 0)
}

/// An optional sign and at least one digit.
pub open spec fn exponent_text(x: Seq<char>) -> bool {
    let xd = if x.len() > 0 && (x[0] == '+' || x[0] == '-') {
        x.drop_first()
    } else {
        x
    };
    xd.len() > 0 && all_digits(xd)
}

/// A decimal number with an optional exponent: a mantissa, then optionally
/// `e` (or `E`) and an exponent.
pub open spec fn decimal_number_text(b: Seq<char>) -> bool {
    let e = exp_pos(b) as int;
    mantissa_text(b.take(e)) && (e == b.len() || exponent_text(b.skip(e + 1)))
}

/// Whether `s` is accepted by `f64::from_str`: an optional sign, then `inf`,
/// `infinity` or `nan` in any case, or a decimal number with an optional
/// exponent, as the documentation's grammar gives it.
pub open spec fn float_text(s: Seq<char>) -> bool {
    let body = if s.len() > 0 && (s[0] == '+' || s[0] == '-') {
        s.drop_first()
    } else {
        s
    };
    eq_ignore_case(body, "inf"@) || eq_ignore_case(body, "infinity"@) || eq_ignore_case(body, "nan"@)
        || decimal_number_text(body)
}

fn ascii_lower_exec(c: char) -> (r: u32)
    ensures
        r == ascii_lower(c),
{
    if 'A' <= c && c <= 'Z' {
        (c as u32) + 32
    } else {
        c as u32
    }
}

pub(crate) fn eq_ignore_case_exec(v: &Vec<char>, start: usize, w: &str) -> (b: bool)
    requires
        start <= v.len(),
    ensures
        b == eq_ignore_case(v@.skip(start as int), w@),
{
    let wv = chars_of(w);
    if v.len() - start != wv.len() {
        return false;
    }
    let mut i: usize = 0;
    while i < wv.len()
        invariant
            i <= wv.len(),
            v.len() - start == wv.len(),
            wv@ == w@,
            forall|k: int| 0 <= k < i ==> #[trigger] ascii_lower(v@.skip(start as int)[k]) == w@[k] as u32 as int,
        decreases wv.len() - i,
    {
        assert(v@.skip(start as int)[i as int] == v@[start + i]);
        if ascii_lower_exec(v[start + i]) != wv[i] as u32 {
            return false;
        }
        i = i + 1;
    }
    true
}

fn digits_between(v: &Vec<char>, start: usize, end: usize) -> (b: bool)
    requires
        start <= end <= v.len(),
    ensures
        b == all_digits(v@.subrange(start as int, end as int)),
{
    let mut i = start;
    while i < end
        invariant
            start <= i <= end <= v.len(),
            forall|k: int| start <= k < i ==> is_digit(#[trigger] v@[k]),
        decreases end - i,
    {
        if !('0' <= v[i] && v[i] <= '9') {
            assert(!is_digit(v@.subrange(start as int, end as int)[i - start]));
            return false;
        }
        i = i + 1;
    }
    assert forall|k: int| 0 <= k < end - start implies #[trigger] is_digit(
        v@.subrange(start as int, end as int)[k],
    ) by {
        assert(v@.subrange(start as int, end as int)[k] == v@[start + k]);
    }
    true
}

fn mantissa_exec(v: &Vec<char>, start: usize, e: usize) -> (b: bool)
    requires
        start <= e <= v.len(),
    ensures
        b == mantissa_text(v@.subrange(start as int, e as int)),
{
    let ghost mant = v@.subrange(start as int, e as int);
    let mut p = start;
    assert(mant.skip(0) =~= mant);
    while p < e && v[p] != '.'
        invariant
            start <= p <= e <= v.len(),
            mant == v@.subrange(start as int, e as int),
            dot_pos(mant) == (p - start) + dot_pos(mant.skip(p - start)),
        decreases e - p,
    {
        assert(mant.skip(p - start).drop_first() =~= mant.skip(p - start + 1));
        p = p + 1;
    }
    assert(dot_pos(mant.skip(p - start)) == 0);
    assert(mant.take(p - start) =~= v@.subrange(start as int, p as int));
    let int_ok = digits_between(v, start, p);
    let frac_start = if p < e {
        p + 1
    } else {
        e
    };
    assert(p < e ==> mant.skip(p - start + 1) =~= v@.subrange(frac_start as int, e as int));
    assert(p == e ==> v@.subrange(frac_start as int, e as int) =~= Seq::<char>::empty());
    let frac_ok = digits_between(v, frac_start, e);
    int_ok && frac_ok && (p > start || e > frac_start)
}

fn exponent_exec(v: &Vec<char>, xs: usize) -> (b: bool)
    requires
        xs <= v.len(),
    ensures
        b == exponent_text(v@.skip(xs as int)),
{
    let xd = if xs < v.len() && (v[xs] == '+' || v[xs] == '-') {
        xs + 1
    } else {
        xs
    };
    assert(xd == xs + 1 ==> v@.skip(xs as int).drop_first() =~= v@.skip(xd as int));
    assert(xd == xs ==> v@.skip(xs as int) =~= v@.skip(xd as int));
    assert(v@.skip(xd as int) =~= v@.subrange(xd as int, v.len() as int));
    xd < v.len() && digits_between(v, xd, v.len())
}

fn decimal_number_exec(v: &Vec<char>, start: usize) -> (b: bool)
    requires
        start <= v.len(),
    ensures
        b == decimal_number_text(v@.skip(start as int)),
{
    let ghost body = v@.skip(start as int);
    let mut e = start;
    assert(body.skip(0) =~= body);
    while e < v.len() && v[e] != 'e' && v[e] != 'E'
        invariant
            start <= e <= v.len(),
            body == v@.skip(start as int),
            exp_pos(body) == (e - start) + exp_pos(body.skip(e - start)),
        decreases v.len() - e,
    {
        assert(body.skip(e - start).drop_first() =~= body.skip(e - start + 1));
        e = e + 1;
    }
    assert(exp_pos(body.skip(e - start)) == 0);
    assert(body.take(e - start) =~= v@.subrange(start as int, e as int));
    if !mantissa_exec(v, start, e) {
        return false;
    }
    if e == v.len() {
        return true;
    }
    assert(body.skip(e - start + 1) =~= v@.skip(e + 1));
    exponent_exec(v, e + 1)
}

/// Whether `f64::from_str` accepts `s` (see `float_text`).
pub fn is_float_text(s: &str) -> (b: bool)
    ensures
        b == float_text(s@),
{
    let v = chars_of(s);
    let start: usize = if v.len() > 0 && (v[0] == '+' || v[0] == '-') {
        1
    } else {
        0
    };
    assert(start == 0 ==> v@.skip(0) =~= v@);
    assert(start == 1 ==> v@.skip(1) =~= v@.drop_first());
    eq_ignore_case_exec(&v, start, "inf") || eq_ignore_case_exec(&v, start, "infinity")
        || eq_ignore_case_exec(&v, start, "nan") || decimal_number_exec(&v, start)
}

// ---------------------------------------------------------------------------
// Conditions
// ---------------------------------------------------------------------------

/// What a condition comes to: decided, or a comparison of numbers read as
/// `f64` that is left to the caller.
pub enum ConditionOutcome {
    /// The condition holds or not.
    Decided(bool),
    /// The condition holds when one of `numbers` is greater than `target`
    /// (less than it when `greater` is false), each read by `f64::from_str`,
    /// which accepts every one of them and `target`.
    CompareNumbers { numbers: Vec<String>, target: String, greater: bool },
}

/// The content of a condition outcome.
pub enum OutcomeSpec {
    Decided(bool),
    CompareNumbers(Seq<Seq<char>>, Seq<char>, bool),
}

/// The content of `o`.
pub open spec fn outcome_view(o: ConditionOutcome) -> OutcomeSpec {
    match o {
        ConditionOutcome::Decided(b) => OutcomeSpec::Decided(b),
        ConditionOutcome::CompareNumbers { numbers, target, greater } => OutcomeSpec::CompareNumbers(
            views(numbers@),
            target@,
            greater,
        ),
    }
}

/// The values that `f64::from_str` accepts.
pub open spec fn float_values(values: Seq<Seq<char>>) -> Seq<Seq<char>>
    decreases values.len(),
{
    if values.len() == 0 {
        Seq::<Seq<char>>::empty()
    } else if float_text(values.last()) {
        float_values(values.drop_last()).push(values.last())
    } else {
        float_values(values.drop_last())
    }
}

/// The years (1900 to 2099) written in the values, in decimal.
pub open spec fn year_values(values: Seq<Seq<char>>) -> Seq<Seq<char>>
    decreases values.len(),
{
    if values.len() == 0 {
        Seq::<Seq<char>>::empty()
    } else {
        match year_from(values.last(), 0) {
            Some(y) => year_values(values.drop_last()).push(signed_decimal(y)),
            None => year_values(values.drop_last()),
        }
    }
}

/// The dates of the values that read as dates.
pub open spec fn date_values(values: Seq<Seq<char>>) -> Seq<int>
    decreases values.len(),
{
    if values.len() == 0 {
        Seq::<int>::empty()
    } else {
        match spec_parse_date_ms(values.last()) {
            Some(d) => date_values(values.drop_last()).push(d),
            None => date_values(values.drop_last()),
        }
    }
}

/// The lower-cased values.
pub open spec fn lower_values(values: Seq<Seq<char>>) -> Seq<Seq<char>> {
    values.map_values(|v: Seq<char>| spec_to_lowercase(v))
}

/// Whether one lower-cased value meets a text operation: equal to the
/// target (`is`, `isNot`), containing it (`contains`, `doesNotContain`),
/// beginning or ending with it.
pub open spec fn text_hit(v: Seq<char>, op: Seq<char>, target: Seq<char>) -> bool {
    if op == "is"@ || op == "isNot"@ {
        v == target
    } else if op == "contains"@ || op == "doesNotContain"@ {
        contains(v, target)
    } else if op == "beginsWith"@ {
        starts_with(v, target)
    } else {
        ends_with(v, target)
    }
}

/// A case-insensitive text comparison of the values against a target: for
/// `isNot` and `doesNotContain` no value may hit, for `is`, `contains`,
/// `beginsWith` and `endsWith` one value must; other operations fail.
pub open spec fn text_condition(values: Seq<Seq<char>>, op: Seq<char>, target: Seq<char>) -> bool {
    let lv = lower_values(values);
    if op == "isNot"@ || op == "doesNotContain"@ {
        forall|i: int| 0 <= i < lv.len() ==> !text_hit(#[trigger] lv[i], op, target)
    } else if op == "is"@ || op == "contains"@ || op == "beginsWith"@ || op == "endsWith"@ {
        exists|i: int| 0 <= i < lv.len() && text_hit(#[trigger] lv[i], op, target)
    } else {
        false
    }
}

/// What a search condition comes to for an item. A field without values
/// satisfies only `isNot` (with a non-blank value) and `doesNotContain`.
/// `isGreaterThan` and `isLessThan` compare numbers (for a date field without
/// numbers, the years written in it); `isBefore` and `isAfter` compare dates;
/// the other operations compare text without regard to case.
pub open spec fn spec_evaluate_condition(item: ZoteroItem, c: SearchCondition) -> OutcomeSpec {
    let op = c.operation@;
    let values = spec_extract_values(item, c.field@);
    if values.len() == 0 {
        OutcomeSpec::Decided(
            if op == "isNot"@ {
                trim(c.value@).len() > 0
            } else {
                op == "doesNotContain"@
            },
        )
    } else if op == "isGreaterThan"@ || op == "isLessThan"@ {
        let nums = float_values(values);
        let cands = if nums.len() > 0 {
            nums
        } else if spec_canonical_field(c.field@) == "date"@ {
            year_values(values)
        } else {
            Seq::<Seq<char>>::empty()
        };
        if !float_text(c.value@) || cands.len() == 0 {
            OutcomeSpec::Decided(false)
        } else {
            OutcomeSpec::CompareNumbers(cands, c.value@, op == "isGreaterThan"@)
        }
    } else if op == "isBefore"@ || op == "isAfter"@ {
        match spec_parse_date_ms(c.value@) {
            None => OutcomeSpec::Decided(false),
            Some(t) => {
                let ds = date_values(values);
                OutcomeSpec::Decided(
                    if op == "isBefore"@ {
                        exists|i: int| 0 <= i < ds.len() && #[trigger] ds[i] < t
                    } else {
                        exists|i: int| 0 <= i < ds.len() && #[trigger] ds[i] > t
                    },
                )
            },
        }
    } else {
        OutcomeSpec::Decided(text_condition(values, op, spec_to_lowercase(c.value@)))
    }
}

fn numeric_candidates(values: &Vec<String>, date_field: bool) -> (r: Vec<String>)
    ensures
        views(r@) == (if float_values(views(values@)).len() > 0 {
            float_values(views(values@))
        } else if date_field {
            year_values(views(values@))
        } else {
            Seq::<Seq<char>>::empty()
        }),
{
    let ghost vv = views(values@);
    let mut nums: Vec<String> = Vec::new();
    let mut years: Vec<String> = Vec::new();
    let mut i: usize = 0;
    assert(vv.take(0) =~= Seq::<Seq<char>>::empty());
    while i < values.len()
        invariant
            i <= values.len(),
            vv == views(values@),
            views(nums@) == float_values(vv.take(i as int)),
            views(years@) == year_values(vv.take(i as int)),
        decreases values.len() - i,
    {
        assert(vv.take(i + 1).drop_last() =~= vv.take(i as int));
        assert(vv.take(i + 1).last() == values@[i as int]@);
        if is_float_text(values[i].as_str()) {
            let ghost before = views(nums@);
            nums.push(owned(values[i].as_str()));
            assert(views(nums@) =~= before.push(values@[i as int]@));
        }
        match extract_year_exec(values[i].as_str()) {
            Some(y) => {
                let ghost before = views(years@);
                let t = signed_decimal_string(y as i64);
                let ghost tv = t@;
                years.push(t);
                assert(views(years@) =~= before.push(tv));
            },
            None => {},
        }
        i = i + 1;
    }
    assert(vv.take(values.len() as int) =~= vv);
    if nums.len() > 0 {
        nums
    } else if date_field {
        years
    } else {
        none_values()
    }
}

fn any_date(values: &Vec<String>, t: i128, before: bool) -> (b: bool)
    ensures
        b == (if before {
            exists|i: int| 0 <= i < date_values(views(values@)).len() && #[trigger] date_values(views(values@))[i] < t
        } else {
            exists|i: int| 0 <= i < date_values(views(values@)).len() && #[trigger] date_values(views(values@))[i] > t
        }),
{
    let ghost vv = views(values@);
    let mut ds: Vec<i128> = Vec::new();
    let mut i: usize = 0;
    assert(vv.take(0) =~= Seq::<Seq<char>>::empty());
    while i < values.len()
        invariant
            i <= values.len(),
            vv == views(values@),
            ds@.map_values(|d: i128| d as int) == date_values(vv.take(i as int)),
        decreases values.len() - i,
    {
        assert(vv.take(i + 1).drop_last() =~= vv.take(i as int));
        assert(vv.take(i + 1).last() == values@[i as int]@);
        match parse_date_ms(values[i].as_str()) {
            Some(d) => {
                let ghost before = ds@;
                ds.push(d);
                assert(ds@ =~= before.push(d));
                assert(ds@.map_values(|d: i128| d as int) =~= before.map_values(|d: i128| d as int).push(d as int));
            },
            None => {},
        }
        i = i + 1;
    }
    assert(vv.take(values.len() as int) =~= vv);
    let ghost dv = date_values(vv);
    let mut k: usize = 0;
    while k < ds.len()
        invariant
            k <= ds.len(),
            ds@.map_values(|d: i128| d as int) == dv,
            dv == date_values(views(values@)),
            forall|j: int| 0 <= j < k ==> !(if before { #[trigger] dv[j] < t } else { dv[j] > t }),
        decreases ds.len() - k,
    {
        assert(dv[k as int] == ds@[k as int] as int);
        if (before && ds[k] < t) || (!before && ds[k] > t) {
            proof {
                assert(dv == date_values(views(values@)));
                if before {
                    assert(date_values(views(values@))[k as int] < t);
                } else {
                    assert(date_values(views(values@))[k as int] > t);
                }
            }
            return true;
        }
        k = k + 1;
    }
    false
}

fn text_hit_exec(v: &str, op: &str, target: &str) -> (b: bool)
    ensures
        b == text_hit(v@, op@, target@),
{
    if str_eq(op, "is") || str_eq(op, "isNot") {
        str_eq(v, target)
    } else if str_eq(op, "contains") || str_eq(op, "doesNotContain") {
        contains_str(v, target)
    } else if str_eq(op, "beginsWith") {
        starts_with_str(v, target)
    } else {
        ends_with_str(v, target)
    }
}

fn text_condition_exec(values: &Vec<String>, op: &str, target: &str) -> (b: bool)
    ensures
        b == text_condition(views(values@), op@, target@),
{
    let universal = str_eq(op, "isNot") || str_eq(op, "doesNotContain");
    let known = str_eq(op, "is") || str_eq(op, "contains") || str_eq(op, "beginsWith") || str_eq(
        op,
        "endsWith",
    );
    if !universal && !known {
        return false;
    }
    let ghost lv = lower_values(views(values@));
    let mut j: usize = 0;
    while j < values.len()
        invariant
            j <= values.len(),
            lv == lower_values(views(values@)),
            universal == (op@ == "isNot"@ || op@ == "doesNotContain"@),
            universal || op@ == "is"@ || op@ == "contains"@ || op@ == "beginsWith"@ || op@ == "endsWith"@,
            forall|k: int| 0 <= k < j ==> !text_hit(#[trigger] lv[k], op@, target@),
        decreases values.len() - j,
    {
        let l = to_lowercase(values[j].as_str());
        assert(lv[j as int] == l@);
        if text_hit_exec(l.as_str(), op, target) {
            return !universal;
        }
        j = j + 1;
    }
    universal
}

/// Evaluates a search condition against an item (see `spec_evaluate_condition`).
pub fn evaluate_condition(item: &ZoteroItem, condition: &SearchCondition) -> (r: ConditionOutcome)
    ensures
        outcome_view(r) == spec_evaluate_condition(*item, *condition),
{
    let op = condition.operation.as_str();
    let values = extract_values(item, condition.field.as_str());
    if values.len() == 0 {
        let b = if str_eq(op, "isNot") {
            !trim_str(condition.value.as_str()).as_str().is_empty()
        } else {
            str_eq(op, "doesNotContain")
        };
        return ConditionOutcome::Decided(b);
    }
    if str_eq(op, "isGreaterThan") || str_eq(op, "isLessThan") {
        let canon = canonical_field(condition.field.as_str());
        let cands = numeric_candidates(&values, str_eq(canon.as_str(), "date"));
        if !is_float_text(condition.value.as_str()) || cands.len() == 0 {
            return ConditionOutcome::Decided(false);
        }
        return ConditionOutcome::CompareNumbers {
            numbers: cands,
            target: owned(condition.value.as_str()),
            greater: str_eq(op, "isGreaterThan"),
        };
    }
    if str_eq(op, "isBefore") || str_eq(op, "isAfter") {
        return match parse_date_ms(condition.value.as_str()) {
            None => ConditionOutcome::Decided(false),
            Some(t) => ConditionOutcome::Decided(any_date(&values, t, str_eq(op, "isBefore"))),
        };
    }
    let target = to_lowercase(condition.value.as_str());
    ConditionOutcome::Decided(text_condition_exec(&values, op, target.as_str()))
}

// ---------------------------------------------------------------------------
// Sort keys
// ---------------------------------------------------------------------------

/// The first value of a field as a sort key: a number (its text, which
/// `f64::from_str` accepts), a date, or lower-cased text.
pub enum SortKey {
    Number(String),
    Date(i128),
    Text(String),
}

/// The content of a sort key.
pub enum SortKeySpec {
    Number(Seq<char>),
    Date(int),
    Text(Seq<char>),
}

/// The content of `k`.
pub open spec fn sort_key_view(k: SortKey) -> SortKeySpec {
    match k {
        SortKey::Number(t) => SortKeySpec::Number(t@),
        SortKey::Date(d) => SortKeySpec::Date(d as int),
        SortKey::Text(t) => SortKeySpec::Text(t@),
    }
}

/// The sort key of a field of an item: empty text when it has no value,
/// else its first value as a number, a date or lower-cased text, in that
/// order of preference.
pub open spec fn spec_sort_key(item: ZoteroItem, field: Seq<char>) -> SortKeySpec {
    let values = spec_extract_values(item, field);
    if values.len() == 0 {
        SortKeySpec::Text(Seq::<char>::empty())
    } else if float_text(values[0]) {
        SortKeySpec::Number(values[0])
    } else {
        match spec_parse_date_ms(values[0]) {
            Some(d) => SortKeySpec::Date(d),
            None => SortKeySpec::Text(spec_to_lowercase(values[0])),
        }
    }
}

/// The sort key of a field of an item (see `spec_sort_key`).
pub fn sort_key(item: &ZoteroItem, field: &str) -> (r: SortKey)
    ensures
        sort_key_view(r) == spec_sort_key(*item, field@),
{
    let values = extract_values(item, field);
    if values.len() == 0 {
        proof {
            reveal_strlit("");
        }
        return SortKey::Text(String::new());
    }
    assert(views(values@)[0] == values@[0]@);
    let first = values[0].as_str();
    if is_float_text(first) {
        return SortKey::Number(owned(first));
    }
    match parse_date_ms(first) {
        Some(d) => SortKey::Date(d),
        None => SortKey::Text(to_lowercase(first)),
    }
}


/// How two sort keys are ordered: before, the same, after, or by the value
/// of the numbers they hold (compared as floating-point numbers by the
/// caller).
pub enum KeyOrder {
    Before,
    Same,
    After,
    ByNumber,
}

/// The order of sort keys: numbers first, then dates, then text; dates by
/// their value, texts in the order of their characters.
pub open spec fn spec_key_order(a: SortKeySpec, b: SortKeySpec) -> KeyOrder {
    match (a, b) {
        (SortKeySpec::Text(x), SortKeySpec::Text(y)) => if x == y {
            KeyOrder::Same
        } else if crate::library::lex_le(x, y) {
            KeyOrder::Before
        } else {
            KeyOrder::After
        },
        (SortKeySpec::Number(_), SortKeySpec::Number(_)) => KeyOrder::ByNumber,
        (SortKeySpec::Date(x), SortKeySpec::Date(y)) => if x < y {
            KeyOrder::Before
        } else if x == y {
            KeyOrder::Same
        } else {
            KeyOrder::After
        },
        (SortKeySpec::Text(_), _) => KeyOrder::After,
        (_, SortKeySpec::Text(_)) => KeyOrder::Before,
        (SortKeySpec::Number(_), SortKeySpec::Date(_)) => KeyOrder::Before,
        (SortKeySpec::Date(_), SortKeySpec::Number(_)) => KeyOrder::After,
    }
}

/// Orders two sort keys (see `spec_key_order`).
pub fn key_order(a: &SortKey, b: &SortKey) -> (r: KeyOrder)
    ensures
        r == spec_key_order(sort_key_view(*a), sort_key_view(*b)),
{
    match (a, b) {
        (SortKey::Text(x), SortKey::Text(y)) => {
            if crate::text::str_eq(x.as_str(), y.as_str()) {
                KeyOrder::Same
            } else if crate::library::lex_le_exec(&crate::text::chars_of(x.as_str()), &crate::text::chars_of(y.as_str())) {
                KeyOrder::Before
            } else {
                KeyOrder::After
            }
        },
        (SortKey::Number(_), SortKey::Number(_)) => KeyOrder::ByNumber,
        (SortKey::Date(x), SortKey::Date(y)) => {
            if *x < *y {
                KeyOrder::Before
            } else if *x == *y {
                KeyOrder::Same
            } else {
                KeyOrder::After
            }
        },
        (SortKey::Text(_), _) => KeyOrder::After,
        (_, SortKey::Text(_)) => KeyOrder::Before,
        (SortKey::Number(_), SortKey::Date(_)) => KeyOrder::Before,
        (SortKey::Date(_), SortKey::Number(_)) => KeyOrder::After,
    }
}

} // verus!
