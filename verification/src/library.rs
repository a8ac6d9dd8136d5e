//! Library-wide tools: duplicates, tags, recent items and fetching an item's text.
//!
//! Where the server groups with a hash map, the groups here come in the
//! order in which their first member appears, which is one of the orders
//! the hash map could give.

use vstd::prelude::*;

use crate::formatters::{concat2, concat3, spec_clean_html, text_or};
use crate::identifiers::{normalize_doi, spec_normalize_doi};
use crate::notes::{field_text, or_default};
use crate::patterns::{replace_all_or_same, replace_all_str};
use crate::text::{decimal, decimal_string, join, join_strs, owned, push_str, spec_to_lowercase, to_lowercase, trim, trim_str, views};
use crate::types::{ZoteroItem, ZoteroItemData};
use crate::validators::{dedupe_strings, parse_str_list, spec_dedupe, spec_parse_str_list, StringOrList};
use crate::formatters::{item_tags, tag_names};
use crate::json::{entries_view, jview, JsonSpec, JsonValue};

verus! {

broadcast use vstd::std_specs::vec::group_vec_axioms;

// ---------------------------------------------------------------------------
// Keys of comparison
// ---------------------------------------------------------------------------

/// A title reduced for comparison: lower-cased, HTML tags and runs of
/// whitespace and punctuation turned into single spaces, trimmed.
pub open spec fn spec_normalize_title(value: Seq<char>) -> Seq<char> {
    trim(
        replace_all_or_same(
            "[\\s\\p{P}]+"@,
            replace_all_or_same("<[^>]+>"@, spec_to_lowercase(value), " "@),
            " "@,
        ),
    )
}

/// Reduces a title for comparison (see `spec_normalize_title`).
pub fn normalize_title(value: &str) -> (r: String)
    ensures
        r@ == spec_normalize_title(value@),
{
    let lower = to_lowercase(value);
    let no_tags = replace_all_str("<[^>]+>", lower.as_str(), " ");
    let spaced = replace_all_str("[\\s\\p{P}]+", no_tags.as_str(), " ");
    trim_str(spaced.as_str())
}

/// The lower-cased DOI of an optional field, or empty when it is absent,
/// blank or holds no DOI.
pub open spec fn spec_safe_doi(value: Option<Seq<char>>) -> Seq<char> {
    match value {
        None => Seq::<char>::empty(),
        Some(v) => if trim(v).len() == 0 {
            Seq::<char>::empty()
        } else {
            match spec_normalize_doi(v) {
                Some(d) => spec_to_lowercase(d),
                None => Seq::<char>::empty(),
            }
        },
    }
}

/// The view of an optional string slice.
pub open spec fn opt_slice_view(o: Option<&str>) -> Option<Seq<char>> {
    match o {
        Some(s) => Some(s@),
        None => None,
    }
}

/// The lower-cased DOI of an optional field (see `spec_safe_doi`).
pub fn safe_normalize_doi(value: Option<&str>) -> (r: String)
    ensures
        r@ == spec_safe_doi(opt_slice_view(value)),
{
    match value {
        None => String::new(),
        Some(v) => {
            if trim_str(v).as_str().is_empty() {
                String::new()
            } else {
                match normalize_doi(v) {
                    Ok(d) => to_lowercase(d.as_str()),
                    Err(_) => String::new(),
                }
            }
        },
    }
}

// ---------------------------------------------------------------------------
// Grouping
// ---------------------------------------------------------------------------

/// The distinct non-empty keys, in the order of their first appearance.
pub open spec fn first_keys(keys: Seq<Seq<char>>) -> Seq<Seq<char>>
    decreases keys.len(),
{
    if keys.len() == 0 {
        Seq::<Seq<char>>::empty()
    } else {
        let prev = first_keys(keys.drop_last());
        if keys.last().len() == 0 || prev.contains(keys.last()) {
            prev
        } else {
            prev.push(keys.last())
        }
    }
}

/// The positions whose key is `k`, in order.
pub open spec fn members(keys: Seq<Seq<char>>, k: Seq<char>) -> Seq<int>
    decreases keys.len(),
{
    if keys.len() == 0 {
        Seq::<int>::empty()
    } else {
        let prev = members(keys.drop_last(), k);
        if keys.last() == k {
            prev.push(keys.len() - 1)
        } else {
            prev
        }
    }
}

/// The keys shared by two positions or more, in the order of their first
/// appearance.
pub open spec fn duplicate_keys(keys: Seq<Seq<char>>) -> Seq<Seq<char>> {
    first_keys(keys).filter(|k: Seq<char>| members(keys, k).len() >= 2)
}

fn contains_string(v: &Vec<String>, s: &String) -> (b: bool)
    ensures
        b == views(v@).contains(s@),
{
    let mut i: usize = 0;
    while i < v.len()
        invariant
            i <= v.len(),
            forall|j: int| 0 <= j < i ==> v@[j]@ != s@,
        decreases v.len() - i,
    {
        if v[i] == *s {
            assert(views(v@)[i as int] == s@);
            return true;
        }
        i = i + 1;
    }
    assert(!views(v@).contains(s@)) by {
        if views(v@).contains(s@) {
            let j = choose|j: int| 0 <= j < views(v@).len() && views(v@)[j] == s@;
            assert(v@[j]@ == s@);
        }
    }
    false
}

/// The distinct non-empty keys in the order of first appearance.
pub fn first_keys_of(keys: &Vec<String>) -> (r: Vec<String>)
    ensures
        views(r@) == first_keys(views(keys@)),
{
    let mut out: Vec<String> = Vec::new();
    let mut i: usize = 0;
    while i < keys.len()
        invariant
            i <= keys.len(),
            views(out@) == first_keys(views(keys@).take(i as int)),
        decreases keys.len() - i,
    {
        assert(views(keys@).take(i + 1).drop_last() =~= views(keys@).take(i as int));
        assert(views(keys@).take(i + 1).last() == keys@[i as int]@);
        if !keys[i].as_str().is_empty() && !contains_string(&out, &keys[i]) {
            let ghost before = views(out@);
            out.push(keys[i].clone());
            assert(views(out@) =~= before.push(keys@[i as int]@));
        }
        i = i + 1;
    }
    assert(views(keys@).take(keys.len() as int) =~= views(keys@));
    out
}

/// The positions whose key is `k`.
pub fn members_of(keys: &Vec<String>, k: &String) -> (r: Vec<usize>)
    ensures
        r@.len() == members(views(keys@), k@).len(),
        forall|j: int| 0 <= j < r@.len() ==> r@[j] as int == #[trigger] members(views(keys@), k@)[j],
{
    let mut out: Vec<usize> = Vec::new();
    let mut i: usize = 0;
    while i < keys.len()
        invariant
            i <= keys.len(),
            out@.len() == members(views(keys@).take(i as int), k@).len(),
            forall|j: int| 0 <= j < out@.len() ==> out@[j] as int == #[trigger] members(views(keys@).take(i as int), k@)[j],
        decreases keys.len() - i,
    {
        assert(views(keys@).take(i + 1).drop_last() =~= views(keys@).take(i as int));
        assert(views(keys@).take(i + 1).last() == keys@[i as int]@);
        if keys[i] == *k {
            out.push(i);
        }
        i = i + 1;
    }
    assert(views(keys@).take(keys.len() as int) =~= views(keys@));
    out
}

proof fn lemma_members_range(keys: Seq<Seq<char>>, k: Seq<char>)
    ensures
        forall|j: int| 0 <= j < members(keys, k).len() ==> 0 <= #[trigger] members(keys, k)[j] < keys.len(),
    decreases keys.len(),
{
    if keys.len() > 0 {
        lemma_members_range(keys.drop_last(), k);
        let prev = members(keys.drop_last(), k);
        assert forall|j: int| 0 <= j < members(keys, k).len() implies 0 <= #[trigger] members(keys, k)[j] < keys.len() by {
            if j < prev.len() {
                assert(members(keys, k)[j] == prev[j]);
            }
        }
    }
}

/// The keys of `fks` shared by two positions of `keys` or more.
pub open spec fn shared_keys(keys: Seq<Seq<char>>, fks: Seq<Seq<char>>) -> Seq<Seq<char>>
    decreases fks.len(),
{
    if fks.len() == 0 {
        Seq::<Seq<char>>::empty()
    } else {
        let prev = shared_keys(keys, fks.drop_last());
        if members(keys, fks.last()).len() >= 2 {
            prev.push(fks.last())
        } else {
            prev
        }
    }
}

// ---------------------------------------------------------------------------
// The duplicates report
// ---------------------------------------------------------------------------

/// What is compared of an item: its key, its trimmed title and its DOI.
#[derive(Debug)]
pub struct DupRow {
    pub key: String,
    pub title: String,
    pub doi: String,
}

/// The content of a row.
pub open spec fn row_view(r: DupRow) -> (Seq<char>, Seq<char>, Seq<char>) {
    (r.key@, r.title@, r.doi@)
}

/// The row of an item.
pub open spec fn row_of(item: ZoteroItem) -> (Seq<char>, Seq<char>, Seq<char>) {
    (item.key@, trim(field_text(item.data.title)), spec_safe_doi(crate::types::opt_view(item.data.doi)))
}

/// The line that opens a group of duplicates numbered `idx`.
pub open spec fn group_header(title: Seq<char>, doi: Seq<char>, idx: nat) -> Seq<char> {
    decimal(idx) + ". "@ + or_default(title, "(untitled)"@) + (if doi.len() == 0 {
        Seq::<char>::empty()
    } else {
        " ["@ + doi + "]"@
    })
}

/// The lines of a group: its header, then the key of each member.
pub open spec fn group_lines(rows: Seq<(Seq<char>, Seq<char>, Seq<char>)>, ms: Seq<int>, idx: nat) -> Seq<Seq<char>> {
    seq![group_header(rows[ms[0]].1, rows[ms[0]].2, idx)] + Seq::new(ms.len(), |j: int| "  - "@ + rows[ms[j]].0)
}

/// The lines of `parts`, one part after the other.
pub open spec fn concat_all(parts: Seq<Seq<Seq<char>>>) -> Seq<Seq<char>>
    decreases parts.len(),
{
    if parts.len() == 0 {
        Seq::<Seq<char>>::empty()
    } else {
        concat_all(parts.drop_last()) + parts.last()
    }
}

/// The lines of a section of duplicates under `label`: nothing when no key
/// is shared, else the first `limit` groups and an empty line.
pub open spec fn section_lines(label: Seq<char>, rows: Seq<(Seq<char>, Seq<char>, Seq<char>)>, keys: Seq<Seq<char>>, limit: nat) -> Seq<Seq<char>> {
    let g = shared_keys(keys, first_keys(keys));
    if g.len() == 0 {
        Seq::<Seq<char>>::empty()
    } else {
        let n: nat = if limit < g.len() {
            limit
        } else {
            g.len()
        };
        seq!["## "@ + label] + concat_all(
            Seq::new(n, |i: int| group_lines(rows, members(keys, g[i]), (i + 1) as nat)),
        ) + seq![Seq::<char>::empty()]
    }
}

/// The keys by title: each title reduced for comparison.
pub open spec fn title_keys(rows: Seq<(Seq<char>, Seq<char>, Seq<char>)>) -> Seq<Seq<char>> {
    Seq::new(rows.len(), |i: int| spec_normalize_title(rows[i].1))
}

/// The keys by DOI.
pub open spec fn doi_keys(rows: Seq<(Seq<char>, Seq<char>, Seq<char>)>) -> Seq<Seq<char>> {
    Seq::new(rows.len(), |i: int| rows[i].2)
}

/// The duplicates report of `items`: groups of items with the same reduced
/// title (method "title" or "both") and with the same DOI (method "doi" or
/// "both"), at most `limit` groups of each, or "No duplicates found.".
pub open spec fn spec_duplicates_report(items: Seq<ZoteroItem>, method: Seq<char>, limit: nat) -> Seq<char> {
    let rows = items.map_values(|it: ZoteroItem| row_of(it));
    let by_title = if method == "title"@ || method == "both"@ {
        section_lines("Title duplicates"@, rows, title_keys(rows), limit)
    } else {
        Seq::<Seq<char>>::empty()
    };
    let by_doi = if method == "doi"@ || method == "both"@ {
        section_lines("DOI duplicates"@, rows, doi_keys(rows), limit)
    } else {
        Seq::<Seq<char>>::empty()
    };
    let lines = by_title + by_doi;
    if lines.len() == 0 {
        "No duplicates found."@
    } else {
        trim(join(lines, "\n"@))
    }
}

fn rows_of(items: &[ZoteroItem]) -> (r: Vec<DupRow>)
    ensures
        r@.map_values(|x: DupRow| row_view(x)) == items@.map_values(|it: ZoteroItem| row_of(it)),
{
    let mut out: Vec<DupRow> = Vec::new();
    let mut i: usize = 0;
    while i < items.len()
        invariant
            i <= items.len(),
            out@.map_values(|x: DupRow| row_view(x)) == items@.take(i as int).map_values(|it: ZoteroItem| row_of(it)),
        decreases items.len() - i,
    {
        let it = &items[i];
        proof {
            reveal_strlit("");
        }
        let title = trim_str(crate::formatters::str_or(&it.data.title, ""));
        let doi = match &it.data.doi {
            Some(d) => safe_normalize_doi(Some(d.as_str())),
            None => safe_normalize_doi(None),
        };
        let row = DupRow { key: it.key.clone(), title, doi };
        assert(row_view(row) == row_of(items@[i as int]));
        let ghost before = out@.map_values(|x: DupRow| row_view(x));
        out.push(row);
        assert(out@.map_values(|x: DupRow| row_view(x)) =~= before.push(row_view(row)));
        assert(items@.take(i + 1).map_values(|it: ZoteroItem| row_of(it)) =~= items@.take(i as int).map_values(
            |it: ZoteroItem| row_of(it),
        ).push(row_of(items@[i as int])));
        i = i + 1;
    }
    assert(items@.take(items.len() as int) =~= items@);
    out
}

fn section_exec(label: &str, rows: &Vec<DupRow>, keys: &Vec<String>, limit: usize) -> (r: Vec<String>)
    requires
        rows@.len() == keys@.len(),
    ensures
        views(r@) == section_lines(label@, rows@.map_values(|x: DupRow| row_view(x)), views(keys@), limit as nat),
{
    let ghost rv = rows@.map_values(|x: DupRow| row_view(x));
    let ghost kv = views(keys@);
    let fk = first_keys_of(keys);
    let mut shared: Vec<String> = Vec::new();
    let mut shared_members: Vec<Vec<usize>> = Vec::new();
    let mut i: usize = 0;
    while i < fk.len()
        invariant
            i <= fk.len(),
            views(fk@) == first_keys(kv),
            kv == views(keys@),
            views(shared@) == shared_keys(kv, views(fk@).take(i as int)),
            shared_members@.len() == shared@.len(),
            forall|g: int| 0 <= g < shared@.len() ==> (#[trigger] shared_members@[g])@.len() == members(kv, shared@[g]@).len(),
            forall|g: int, j: int| 0 <= g < shared@.len() && 0 <= j < shared_members@[g]@.len() ==> shared_members@[g]@[j] as int == #[trigger] members(kv, shared@[g]@)[j],
            forall|g: int| 0 <= g < shared@.len() ==> members(kv, #[trigger] shared@[g]@).len() >= 2,
        decreases fk.len() - i,
    {
        assert(views(fk@).take(i + 1).drop_last() =~= views(fk@).take(i as int));
        assert(views(fk@).take(i + 1).last() == fk@[i as int]@);
        let ms = members_of(keys, &fk[i]);
        if ms.len() >= 2 {
            let ghost before = views(shared@);
            shared.push(fk[i].clone());
            shared_members.push(ms);
            assert(views(shared@) =~= before.push(fk@[i as int]@));
        }
        i = i + 1;
    }
    assert(views(fk@).take(fk.len() as int) =~= views(fk@));
    let mut lines: Vec<String> = Vec::new();
    if shared.len() == 0 {
        return lines;
    }
    let n: usize = if limit < shared.len() {
        limit
    } else {
        shared.len()
    };
    lines.push(concat2("## ", label));
    let ghost gv = views(shared@);
    let ghost parts = Seq::new(n as nat, |g: int| group_lines(rv, members(kv, gv[g]), (g + 1) as nat));
    let mut g: usize = 0;
    assert(views(lines@) =~= seq!["## "@ + label@] + concat_all(parts.take(0)));
    while g < n
        invariant
            g <= n,
            n <= shared@.len(),
            rows@.len() == keys@.len(),
            kv == views(keys@),
            rv == rows@.map_values(|x: DupRow| row_view(x)),
            gv == views(shared@),
            parts == Seq::new(n as nat, |g: int| group_lines(rv, members(kv, gv[g]), (g + 1) as nat)),
            shared_members@.len() == shared@.len(),
            forall|g: int| 0 <= g < shared@.len() ==> (#[trigger] shared_members@[g])@.len() == members(kv, shared@[g]@).len(),
            forall|g: int, j: int| 0 <= g < shared@.len() && 0 <= j < shared_members@[g]@.len() ==> shared_members@[g]@[j] as int == #[trigger] members(kv, shared@[g]@)[j],
            forall|g: int| 0 <= g < shared@.len() ==> members(kv, #[trigger] shared@[g]@).len() >= 2,
            views(lines@) == seq!["## "@ + label@] + concat_all(parts.take(g as int)),
        decreases n - g,
    {
        let ghost ms_spec = members(kv, gv[g as int]);
        proof {
            lemma_members_range(kv, gv[g as int]);
        }
        let ms = &shared_members[g];
        assert(ms@.len() == ms_spec.len());
        let first = ms[0];
        assert(first as int == ms_spec[0]);
        let row = &rows[first];
        let idx = decimal_string((g + 1) as u64);
        proof {
            reveal_strlit("(untitled)");
        }
        let shown = crate::notes::or_default_str(row.title.as_str(), "(untitled)");
        let mut header = concat3(idx.as_str(), ". ", shown.as_str());
        if !row.doi.as_str().is_empty() {
            push_str(&mut header, " [");
            push_str(&mut header, row.doi.as_str());
            push_str(&mut header, "]");
        }
        assert(rv[ms_spec[0]] == row_view(rows@[first as int]));
        assert(header@ =~= group_header(rv[ms_spec[0]].1, rv[ms_spec[0]].2, (g + 1) as nat));
        let ghost before = views(lines@);
        lines.push(header);
        assert(views(lines@) =~= before + seq![group_header(rv[ms_spec[0]].1, rv[ms_spec[0]].2, (g + 1) as nat)] + Seq::new(0 as nat, |t: int| "  - "@ + rv[ms_spec[t]].0));
        let mut j: usize = 0;
        while j < ms.len()
            invariant
                j <= ms@.len(),
                ms@.len() == ms_spec.len(),
                forall|t: int| 0 <= t < ms@.len() ==> ms@[t] as int == #[trigger] ms_spec[t],
                forall|t: int| 0 <= t < ms_spec.len() ==> 0 <= #[trigger] ms_spec[t] < kv.len(),
                kv.len() == rows@.len(),
                rv == rows@.map_values(|x: DupRow| row_view(x)),
                views(lines@) == before + seq![group_header(rv[ms_spec[0]].1, rv[ms_spec[0]].2, (g + 1) as nat)] + Seq::new(j as nat, |t: int| "  - "@ + rv[ms_spec[t]].0),
            decreases ms@.len() - j,
        {
            let k = ms[j];
            assert(k as int == ms_spec[j as int]);
            assert(rv[ms_spec[j as int]] == row_view(rows@[k as int]));
            let line = concat2("  - ", rows[k].key.as_str());
            let ghost b2 = views(lines@);
            lines.push(line);
            assert(views(lines@) =~= b2.push(line@));
            assert(line@ == "  - "@ + rv[ms_spec[j as int]].0);
            assert(Seq::new((j + 1) as nat, |t: int| "  - "@ + rv[ms_spec[t]].0) =~= Seq::new(j as nat, |t: int| "  - "@ + rv[ms_spec[t]].0).push("  - "@ + rv[ms_spec[j as int]].0));
            j = j + 1;
            assert(views(lines@) =~= before + seq![group_header(rv[ms_spec[0]].1, rv[ms_spec[0]].2, (g + 1) as nat)] + Seq::new(j as nat, |t: int| "  - "@ + rv[ms_spec[t]].0));
        }
        assert(group_lines(rv, ms_spec, (g + 1) as nat) =~= seq![group_header(rv[ms_spec[0]].1, rv[ms_spec[0]].2, (g + 1) as nat)] + Seq::new(ms@.len() as nat, |t: int| "  - "@ + rv[ms_spec[t]].0));
        assert(parts.take(g + 1).drop_last() =~= parts.take(g as int));
        g = g + 1;
        assert(views(lines@) =~= seq!["## "@ + label@] + concat_all(parts.take(g as int)));
    }
    assert(parts.take(n as int) =~= parts);
    let ghost before = views(lines@);
    lines.push(String::new());
    assert(views(lines@) =~= before + seq![Seq::<char>::empty()]);
    lines
}

fn title_keys_exec(rows: &Vec<DupRow>) -> (r: Vec<String>)
    ensures
        views(r@) == title_keys(rows@.map_values(|x: DupRow| row_view(x))),
{
    let mut out: Vec<String> = Vec::new();
    let mut i: usize = 0;
    while i < rows.len()
        invariant
            i <= rows.len(),
            views(out@) == Seq::new(i as nat, |j: int| spec_normalize_title(rows@[j].title@)),
        decreases rows.len() - i,
    {
        let t = normalize_title(rows[i].title.as_str());
        let ghost before = views(out@);
        out.push(t);
        assert(views(out@) =~= before.push(t@));
        i = i + 1;
        assert(views(out@) =~= Seq::new(i as nat, |j: int| spec_normalize_title(rows@[j].title@)));
    }
    assert(views(out@) =~= title_keys(rows@.map_values(|x: DupRow| row_view(x))));
    out
}

fn doi_keys_exec(rows: &Vec<DupRow>) -> (r: Vec<String>)
    ensures
        views(r@) == doi_keys(rows@.map_values(|x: DupRow| row_view(x))),
{
    let mut out: Vec<String> = Vec::new();
    let mut i: usize = 0;
    while i < rows.len()
        invariant
            i <= rows.len(),
            views(out@) == Seq::new(i as nat, |j: int| rows@[j].doi@),
        decreases rows.len() - i,
    {
        let d = rows[i].doi.clone();
        let ghost before = views(out@);
        out.push(d);
        assert(views(out@) =~= before.push(rows@[i as int].doi@));
        i = i + 1;
        assert(views(out@) =~= Seq::new(i as nat, |j: int| rows@[j].doi@));
    }
    assert(views(out@) =~= doi_keys(rows@.map_values(|x: DupRow| row_view(x))));
    out
}

pub(crate) fn append_lines(lines: &mut Vec<String>, more: Vec<String>)
    ensures
        views(final(lines)@) == views(old(lines)@) + views(more@),
{
    let mut rest = more;
    let ghost all = views(rest@);
    let ghost start = views(lines@);
    let mut i: usize = 0;
    let n = rest.len();
    assert(views(rest@) =~= all.skip(0));
    while rest.len() > 0
        invariant
            i + rest@.len() == all.len(),
            all.len() == n,
            views(rest@) =~= all.skip(i as int),
            views(lines@) =~= start + all.take(i as int),
        decreases rest.len(),
    {
        let ghost before = rest@;
        let t = rest.remove(0);
        assert(t@ == all[i as int]) by {
            assert(views(before)[0] == before[0]@);
        }
        assert(views(rest@) =~= views(before).skip(1));
        let ghost lb = views(lines@);
        lines.push(t);
        assert(views(lines@) =~= lb.push(all[i as int]));
        i = i + 1;
        assert(all.take(i as int) =~= all.take(i - 1).push(all[i - 1]));
    }
    assert(all.take(i as int) =~= all);
}

/// Reports the duplicates among `items` (see `spec_duplicates_report`).
pub fn find_duplicates(items: &[ZoteroItem], method: &str, limit: usize) -> (r: String)
    ensures
        r@ == spec_duplicates_report(items@, method@, limit as nat),
{
    let rows = rows_of(items);
    let ghost rv = items@.map_values(|it: ZoteroItem| row_of(it));
    let mut lines: Vec<String> = Vec::new();
    let by_title = crate::text::str_eq(method, "title") || crate::text::str_eq(method, "both");
    if by_title {
        let keys = title_keys_exec(&rows);
        assert(views(keys@).len() == keys@.len());
        let sec = section_exec("Title duplicates", &rows, &keys, limit);
        append_lines(&mut lines, sec);
    }
    let ghost mid = views(lines@);
    let by_doi = crate::text::str_eq(method, "doi") || crate::text::str_eq(method, "both");
    if by_doi {
        let keys = doi_keys_exec(&rows);
        assert(views(keys@).len() == keys@.len());
        let sec = section_exec("DOI duplicates", &rows, &keys, limit);
        append_lines(&mut lines, sec);
    }
    let ghost t = if by_title {
        section_lines("Title duplicates"@, rv, title_keys(rv), limit as nat)
    } else {
        Seq::<Seq<char>>::empty()
    };
    let ghost d = if by_doi {
        section_lines("DOI duplicates"@, rv, doi_keys(rv), limit as nat)
    } else {
        Seq::<Seq<char>>::empty()
    };
    assert(mid =~= t);
    assert(views(lines@) =~= t + d);
    if lines.len() == 0 {
        return owned("No duplicates found.");
    }
    let joined = join_strs(&lines, "\n");
    trim_str(joined.as_str())
}

// ---------------------------------------------------------------------------
// Merging duplicates
// ---------------------------------------------------------------------------

/// The error for an action other than "find" and "merge".
pub open spec fn spec_dedup_action_error(action: Seq<char>) -> Option<Seq<char>> {
    if action == "find"@ || action == "merge"@ {
        None
    } else {
        Some("Invalid action: '"@ + action + "'. Must be one of: find, merge"@)
    }
}

/// The error for an action other than "find" and "merge" (see
/// `spec_dedup_action_error`).
pub fn dedup_action_error(action: &str) -> (r: Option<String>)
    ensures
        crate::types::opt_view(r) == spec_dedup_action_error(action@),
{
    if crate::text::str_eq(action, "find") || crate::text::str_eq(action, "merge") {
        None
    } else {
        Some(concat3("Invalid action: '", action, "'. Must be one of: find, merge"))
    }
}

/// `v` without the strings equal to `x`.
pub open spec fn without(v: Seq<Seq<char>>, x: Seq<char>) -> Seq<Seq<char>>
    decreases v.len(),
{
    if v.len() == 0 {
        Seq::<Seq<char>>::empty()
    } else {
        let prev = without(v.drop_last(), x);
        if v.last() == x {
            prev
        } else {
            prev.push(v.last())
        }
    }
}

/// The keys of the duplicates to merge into `keeper`: the parameter's
/// strings, trimmed and deduplicated case-insensitively, the keeper left out.
pub open spec fn spec_merge_keys(keys: Option<StringOrList>, keeper: Seq<char>) -> Seq<Seq<char>> {
    without(spec_dedupe(spec_parse_str_list(keys)), keeper)
}

/// The keys of the duplicates to merge (see `spec_merge_keys`).
pub fn merge_keys(keys: Option<StringOrList>, keeper: &str) -> (r: Vec<String>)
    ensures
        views(r@) == spec_merge_keys(keys, keeper@),
{
    let ghost parsed = spec_parse_str_list(keys);
    let all = dedupe_strings(parse_str_list(keys));
    let mut out: Vec<String> = Vec::new();
    let mut i: usize = 0;
    while i < all.len()
        invariant
            i <= all.len(),
            views(out@) == without(views(all@).take(i as int), keeper@),
        decreases all.len() - i,
    {
        assert(views(all@).take(i + 1).drop_last() =~= views(all@).take(i as int));
        assert(views(all@).take(i + 1).last() == all@[i as int]@);
        if !crate::text::str_eq(all[i].as_str(), keeper) {
            let ghost before = views(out@);
            out.push(all[i].clone());
            assert(views(out@) =~= before.push(all@[i as int]@));
        }
        i = i + 1;
    }
    assert(views(all@).take(all.len() as int) =~= views(all@));
    out
}

/// The distinct strings of `v`, in the order of their first appearance.
pub open spec fn distinct(v: Seq<Seq<char>>) -> Seq<Seq<char>>
    decreases v.len(),
{
    if v.len() == 0 {
        Seq::<Seq<char>>::empty()
    } else {
        let prev = distinct(v.drop_last());
        if prev.contains(v.last()) {
            prev
        } else {
            prev.push(v.last())
        }
    }
}

fn push_distinct(out: &mut Vec<String>, more: &Vec<String>)
    ensures
        views(final(out)@) == distinct_onto(views(old(out)@), views(more@)),
{
    let ghost start = views(out@);
    let mut i: usize = 0;
    while i < more.len()
        invariant
            i <= more.len(),
            views(out@) == distinct_onto(start, views(more@).take(i as int)),
        decreases more.len() - i,
    {
        assert(views(more@).take(i + 1).drop_last() =~= views(more@).take(i as int));
        assert(views(more@).take(i + 1).last() == more@[i as int]@);
        if !contains_string(out, &more[i]) {
            let ghost before = views(out@);
            out.push(more[i].clone());
            assert(views(out@) =~= before.push(more@[i as int]@));
        }
        i = i + 1;
    }
    assert(views(more@).take(more.len() as int) =~= views(more@));
}

/// `base` followed by the strings of `more` it does not hold yet, each once.
pub open spec fn distinct_onto(base: Seq<Seq<char>>, more: Seq<Seq<char>>) -> Seq<Seq<char>>
    decreases more.len(),
{
    if more.len() == 0 {
        base
    } else {
        let prev = distinct_onto(base, more.drop_last());
        if prev.contains(more.last()) {
            prev
        } else {
            prev.push(more.last())
        }
    }
}

/// The tag names of an item.
pub open spec fn item_tag_names(item: ZoteroItem) -> Seq<Seq<char>> {
    tag_names(item_tags(item.data.tags))
}

/// The collections of an item.
pub open spec fn item_collections(item: ZoteroItem) -> Seq<Seq<char>> {
    match item.data.collections {
        Some(v) => views(v@),
        None => Seq::<Seq<char>>::empty(),
    }
}

/// The names gathered from the items `items[..n]`, each once.
pub open spec fn gathered(items: Seq<ZoteroItem>, names: spec_fn(ZoteroItem) -> Seq<Seq<char>>, base: Seq<Seq<char>>) -> Seq<Seq<char>>
    decreases items.len(),
{
    if items.len() == 0 {
        base
    } else {
        distinct_onto(gathered(items.drop_last(), names, base), names(items.last()))
    }
}

/// The tags of the keeper and its duplicates, each once, in the order of
/// first appearance.
pub open spec fn spec_merged_tags(keeper: ZoteroItem, dups: Seq<ZoteroItem>) -> Seq<Seq<char>> {
    gathered(dups, |it: ZoteroItem| item_tag_names(it), distinct(item_tag_names(keeper)))
}

/// The collections of the keeper and its duplicates, each once, in the
/// order of first appearance.
pub open spec fn spec_merged_collections(keeper: ZoteroItem, dups: Seq<ZoteroItem>) -> Seq<Seq<char>> {
    gathered(dups, |it: ZoteroItem| item_collections(it), distinct(item_collections(keeper)))
}

proof fn lemma_distinct_onto_empty(v: Seq<Seq<char>>)
    ensures
        distinct_onto(Seq::<Seq<char>>::empty(), v) == distinct(v),
    decreases v.len(),
{
    if v.len() > 0 {
        lemma_distinct_onto_empty(v.drop_last());
    }
}

fn names_of_tags(item: &ZoteroItem) -> (r: Vec<String>)
    ensures
        views(r@) == item_tag_names(*item),
{
    crate::formatters::tag_name_list(crate::formatters::tags_slice(&item.data.tags))
}

fn names_of_collections(item: &ZoteroItem) -> (r: Vec<String>)
    ensures
        views(r@) == item_collections(*item),
{
    match &item.data.collections {
        Some(v) => {
            let mut out: Vec<String> = Vec::new();
            let mut i: usize = 0;
            while i < v.len()
                invariant
                    i <= v.len(),
                    views(out@) == views(v@).take(i as int),
                decreases v.len() - i,
            {
                let ghost before = views(out@);
                out.push(v[i].clone());
                assert(views(out@) =~= before.push(v@[i as int]@));
                assert(views(v@).take(i + 1) =~= views(v@).take(i as int).push(v@[i as int]@));
                i = i + 1;
            }
            assert(views(v@).take(v.len() as int) =~= views(v@));
            out
        },
        None => Vec::new(),
    }
}

/// The tags of the keeper and its duplicates (see `spec_merged_tags`).
pub fn merged_tags(keeper: &ZoteroItem, dups: &[ZoteroItem]) -> (r: Vec<String>)
    ensures
        views(r@) == spec_merged_tags(*keeper, dups@),
{
    let mut out: Vec<String> = Vec::new();
    let k = names_of_tags(keeper);
    assert(views(out@) =~= Seq::<Seq<char>>::empty());
    push_distinct(&mut out, &k);
    proof {
        assert(views(out@) == distinct_onto(Seq::<Seq<char>>::empty(), views(k@)));
        lemma_distinct_onto_empty(views(k@));
    }
    let ghost f = |it: ZoteroItem| item_tag_names(it);
    let mut i: usize = 0;
    while i < dups.len()
        invariant
            i <= dups.len(),
            f == (|it: ZoteroItem| item_tag_names(it)),
            views(out@) == gathered(dups@.take(i as int), f, distinct(item_tag_names(*keeper))),
        decreases dups.len() - i,
    {
        assert(dups@.take(i + 1).drop_last() =~= dups@.take(i as int));
        assert(dups@.take(i + 1).last() == dups@[i as int]);
        let more = names_of_tags(&dups[i]);
        push_distinct(&mut out, &more);
        i = i + 1;
    }
    assert(dups@.take(dups.len() as int) =~= dups@);
    out
}

/// The collections of the keeper and its duplicates (see
/// `spec_merged_collections`).
pub fn merged_collections(keeper: &ZoteroItem, dups: &[ZoteroItem]) -> (r: Vec<String>)
    ensures
        views(r@) == spec_merged_collections(*keeper, dups@),
{
    let mut out: Vec<String> = Vec::new();
    let k = names_of_collections(keeper);
    assert(views(out@) =~= Seq::<Seq<char>>::empty());
    push_distinct(&mut out, &k);
    proof {
        assert(views(out@) == distinct_onto(Seq::<Seq<char>>::empty(), views(k@)));
        lemma_distinct_onto_empty(views(k@));
    }
    let ghost f = |it: ZoteroItem| item_collections(it);
    let mut i: usize = 0;
    while i < dups.len()
        invariant
            i <= dups.len(),
            f == (|it: ZoteroItem| item_collections(it)),
            views(out@) == gathered(dups@.take(i as int), f, distinct(item_collections(*keeper))),
        decreases dups.len() - i,
    {
        assert(dups@.take(i + 1).drop_last() =~= dups@.take(i as int));
        assert(dups@.take(i + 1).last() == dups@[i as int]);
        let more = names_of_collections(&dups[i]);
        push_distinct(&mut out, &more);
        i = i + 1;
    }
    assert(dups@.take(dups.len() as int) =~= dups@);
    out
}

/// The preview of a merge that was not confirmed.
pub open spec fn spec_merge_preview(keeper: Seq<char>, dups: Seq<Seq<char>>, tags: nat, collections: nat, children: nat) -> Seq<char> {
    join(
        seq![
            "Dry run preview:"@,
            "Keeper: "@ + keeper,
            "Duplicates: "@ + join(dups, ", "@),
            "Merged tags: "@ + decimal(tags),
            "Merged collections: "@ + decimal(collections),
            "Children to re-parent: "@ + decimal(children),
            "Set confirm=true to execute merge."@,
        ],
        "\n"@,
    )
}

/// The preview of a merge that was not confirmed (see `spec_merge_preview`).
pub fn merge_preview(keeper: &str, dups: &Vec<String>, tags: usize, collections: usize, children: usize) -> (r: String)
    ensures
        r@ == spec_merge_preview(keeper@, views(dups@), tags as nat, collections as nat, children as nat),
{
    let mut lines: Vec<String> = Vec::new();
    lines.push(owned("Dry run preview:"));
    lines.push(concat2("Keeper: ", keeper));
    let d = join_strs(dups, ", ");
    lines.push(concat2("Duplicates: ", d.as_str()));
    let t = decimal_string(tags as u64);
    lines.push(concat2("Merged tags: ", t.as_str()));
    let c = decimal_string(collections as u64);
    lines.push(concat2("Merged collections: ", c.as_str()));
    let ch = decimal_string(children as u64);
    lines.push(concat2("Children to re-parent: ", ch.as_str()));
    lines.push(owned("Set confirm=true to execute merge."));
    let ghost expected = seq![
        "Dry run preview:"@,
        "Keeper: "@ + keeper@,
        "Duplicates: "@ + join(views(dups@), ", "@),
        "Merged tags: "@ + decimal(tags as nat),
        "Merged collections: "@ + decimal(collections as nat),
        "Children to re-parent: "@ + decimal(children as nat),
        "Set confirm=true to execute merge."@,
    ];
    assert(views(lines@) =~= expected);
    join_strs(&lines, "\n")
}

/// The report of a merge that was carried out.
pub open spec fn spec_merge_report(keeper: Seq<char>, trashed: nat, children: nat) -> Seq<char> {
    "Merged into keeper: "@ + keeper + "\nDuplicates trashed: "@ + decimal(trashed) + "\nChildren re-parented: "@ + decimal(children)
}

/// The report of a merge that was carried out (see `spec_merge_report`).
pub fn merge_report(keeper: &str, trashed: usize, children: usize) -> (r: String)
    ensures
        r@ == spec_merge_report(keeper@, trashed as nat, children as nat),
{
    let mut out = concat2("Merged into keeper: ", keeper);
    push_str(&mut out, "\nDuplicates trashed: ");
    let t = decimal_string(trashed as u64);
    push_str(&mut out, t.as_str());
    push_str(&mut out, "\nChildren re-parented: ");
    let c = decimal_string(children as u64);
    push_str(&mut out, c.as_str());
    out
}

/// The keeper's data with the merged tags (untyped) and collections.
pub fn with_merged(data: ZoteroItemData, tags: Vec<String>, collections: Vec<String>) -> (r: ZoteroItemData)
    ensures
        r == (ZoteroItemData { tags: r.tags, collections: r.collections, ..data }),
        r.tags matches Some(t) && crate::notes::plain_tags(t@, views(tags@)),
        r.collections matches Some(c) && views(c@) == views(collections@),
{
    let t = crate::notes::tags_named(tags);
    let mut d = data;
    d.tags = Some(t);
    d.collections = Some(collections);
    d
}

/// A child's data moved under `parent`.
pub fn reparented(data: ZoteroItemData, parent: &str) -> (r: ZoteroItemData)
    ensures
        r == (ZoteroItemData { parent_item: r.parent_item, ..data }),
        crate::types::opt_view(r.parent_item) == Some(parent@),
{
    let mut d = data;
    d.parent_item = Some(owned(parent));
    d
}

// ---------------------------------------------------------------------------
// Fetching an item's text
// ---------------------------------------------------------------------------

/// Whether an item's DOI, lower-cased, is `doi_lower`.
pub open spec fn doi_match(item: ZoteroItem, doi_lower: Seq<char>) -> bool {
    item.data.doi is Some && spec_to_lowercase(item.data.doi.unwrap()@) == doi_lower
}

/// Whether an item's URL holds `arxiv_id`, or its extra field does, both
/// lower-cased.
pub open spec fn arxiv_match(item: ZoteroItem, arxiv_id: Seq<char>) -> bool {
    (item.data.url is Some && crate::text::contains(item.data.url.unwrap()@, arxiv_id)) || (item.data.extra is Some
        && crate::text::contains(spec_to_lowercase(item.data.extra.unwrap()@), spec_to_lowercase(arxiv_id)))
}

/// The first item whose DOI is `doi`, ignoring case.
pub fn find_by_doi(items: &[ZoteroItem], doi: &str) -> (r: Option<usize>)
    ensures
        match r {
            Some(i) => i < items@.len() && doi_match(items@[i as int], spec_to_lowercase(doi@)) && forall|j: int|
                0 <= j < i ==> !doi_match(#[trigger] items@[j], spec_to_lowercase(doi@)),
            None => forall|j: int| 0 <= j < items@.len() ==> !doi_match(#[trigger] items@[j], spec_to_lowercase(doi@)),
        },
{
    let target = to_lowercase(doi);
    let mut i: usize = 0;
    while i < items.len()
        invariant
            i <= items@.len(),
            target@ == spec_to_lowercase(doi@),
            forall|j: int| 0 <= j < i ==> !doi_match(#[trigger] items@[j], spec_to_lowercase(doi@)),
        decreases items.len() - i,
    {
        let hit = match &items[i].data.doi {
            Some(d) => {
                let l = to_lowercase(d.as_str());
                l == target
            },
            None => false,
        };
        if hit {
            return Some(i);
        }
        i = i + 1;
    }
    None
}

/// The first item that mentions the arXiv id `arxiv_id` (see `arxiv_match`).
pub fn find_by_arxiv(items: &[ZoteroItem], arxiv_id: &str) -> (r: Option<usize>)
    ensures
        match r {
            Some(i) => i < items@.len() && arxiv_match(items@[i as int], arxiv_id@) && forall|j: int|
                0 <= j < i ==> !arxiv_match(#[trigger] items@[j], arxiv_id@),
            None => forall|j: int| 0 <= j < items@.len() ==> !arxiv_match(#[trigger] items@[j], arxiv_id@),
        },
{
    let lower_id = to_lowercase(arxiv_id);
    let mut i: usize = 0;
    while i < items.len()
        invariant
            i <= items@.len(),
            lower_id@ == spec_to_lowercase(arxiv_id@),
            forall|j: int| 0 <= j < i ==> !arxiv_match(#[trigger] items@[j], arxiv_id@),
        decreases items.len() - i,
    {
        let in_url = match &items[i].data.url {
            Some(u) => crate::text::contains_str(u.as_str(), arxiv_id),
            None => false,
        };
        let in_extra = match &items[i].data.extra {
            Some(e) => {
                let l = to_lowercase(e.as_str());
                crate::text::contains_str(l.as_str(), lower_id.as_str())
            },
            None => false,
        };
        if in_url || in_extra {
            return Some(i);
        }
        i = i + 1;
    }
    None
}

/// The message when no item has a DOI or an arXiv id (`kind` names which).
pub open spec fn spec_not_found(kind: Seq<char>, id: Seq<char>) -> Seq<char> {
    "No item found with "@ + kind + ": "@ + id + ". Use zotero_add_paper to add this paper."@
}

/// The message when no item has a DOI or an arXiv id (see `spec_not_found`).
pub fn not_found_message(kind: &str, id: &str) -> (r: String)
    ensures
        r@ == spec_not_found(kind@, id@),
{
    let mut out = concat3("No item found with ", kind, ": ");
    push_str(&mut out, id);
    push_str(&mut out, ". Use zotero_add_paper to add this paper.");
    out
}

/// The text of an annotation: its text and its comment, the non-empty ones,
/// one per line.
pub open spec fn annotation_segment(item: ZoteroItem) -> Seq<char> {
    join(
        crate::formatters::line_if(crate::formatters::present(item.data.annotation_text), field_text(item.data.annotation_text))
            + crate::formatters::line_if(crate::formatters::present(item.data.annotation_comment), field_text(item.data.annotation_comment)),
        "\n"@,
    )
}

/// The pieces of text of an item and its children: its title, its abstract
/// and its extra field when present, the text of each child note, then the
/// text of each child annotation.
pub open spec fn fetch_pieces(item: ZoteroItem, children: Seq<ZoteroItem>) -> Seq<Seq<char>> {
    let notes = children.filter(|c: ZoteroItem| c.data.item_type@ == "note"@);
    let anns = children.filter(|c: ZoteroItem| c.data.item_type@ == "annotation"@);
    seq![field_text(item.data.title)] + crate::formatters::line_if(
        crate::formatters::present(item.data.abstract_note),
        spec_clean_html(field_text(item.data.abstract_note), false),
    ) + crate::formatters::line_if(crate::formatters::present(item.data.extra), field_text(item.data.extra))
        + notes.map_values(|n: ZoteroItem| spec_clean_html(field_text(n.data.note), false))
        + anns.map_values(|a: ZoteroItem| annotation_segment(a))
}

/// The non-empty strings of `v`.
pub open spec fn nonempty(v: Seq<Seq<char>>) -> Seq<Seq<char>> {
    v.filter(|s: Seq<char>| s.len() > 0)
}

/// The text of an item for reading: its non-empty pieces, separated by
/// blank lines.
pub open spec fn spec_fetch_text(item: ZoteroItem, children: Seq<ZoteroItem>) -> Seq<char> {
    join(nonempty(fetch_pieces(item, children)), "\n\n"@)
}

fn annotation_segment_exec(item: &ZoteroItem) -> (r: String)
    ensures
        r@ == annotation_segment(*item),
{
    let mut parts: Vec<String> = Vec::new();
    let has_text = crate::formatters::is_present(&item.data.annotation_text);
    if has_text {
        parts.push(crate::notes::field_string(&item.data.annotation_text));
    }
    let has_comment = crate::formatters::is_present(&item.data.annotation_comment);
    if has_comment {
        parts.push(crate::notes::field_string(&item.data.annotation_comment));
    }
    assert(views(parts@) =~= crate::formatters::line_if(has_text, field_text(item.data.annotation_text))
        + crate::formatters::line_if(has_comment, field_text(item.data.annotation_comment)));
    join_strs(&parts, "\n")
}

/// The text of an item for reading (see `spec_fetch_text`).
pub fn fetch_text(item: &ZoteroItem, children: &[ZoteroItem]) -> (r: String)
    ensures
        r@ == spec_fetch_text(*item, children@),
{
    let ghost is_note = |c: ZoteroItem| c.data.item_type@ == "note"@;
    let ghost is_ann = |c: ZoteroItem| c.data.item_type@ == "annotation"@;
    let ghost note_text = |n: ZoteroItem| spec_clean_html(field_text(n.data.note), false);
    let ghost ann_text = |a: ZoteroItem| annotation_segment(a);
    let mut pieces: Vec<String> = Vec::new();
    pieces.push(crate::notes::field_string(&item.data.title));
    let has_abstract = crate::formatters::is_present(&item.data.abstract_note);
    if has_abstract {
        let a = crate::notes::field_string(&item.data.abstract_note);
        pieces.push(crate::formatters::clean_html(a.as_str(), false));
    }
    let has_extra = crate::formatters::is_present(&item.data.extra);
    if has_extra {
        pieces.push(crate::notes::field_string(&item.data.extra));
    }
    let ghost base = seq![field_text(item.data.title)] + crate::formatters::line_if(
        has_abstract,
        spec_clean_html(field_text(item.data.abstract_note), false),
    ) + crate::formatters::line_if(has_extra, field_text(item.data.extra));
    assert(views(pieces@) =~= base);
    let mut i: usize = 0;
    proof {
        reveal(Seq::filter);
    }
    assert(children@.take(0).filter(is_note).map_values(note_text) =~= Seq::<Seq<char>>::empty());
    while i < children.len()
        invariant
            i <= children@.len(),
            is_note == (|c: ZoteroItem| c.data.item_type@ == "note"@),
            note_text == (|n: ZoteroItem| spec_clean_html(field_text(n.data.note), false)),
            views(pieces@) == base + children@.take(i as int).filter(is_note).map_values(note_text),
        decreases children.len() - i,
    {
        proof {
            reveal_strlit("note");
            reveal(Seq::filter);
        }
        assert(children@.take(i + 1).drop_last() =~= children@.take(i as int));
        let ghost prev = children@.take(i as int).filter(is_note);
        if crate::text::str_eq(children[i].data.item_type.as_str(), "note") {
            let body = crate::notes::field_string(&children[i].data.note);
            let t = crate::formatters::clean_html(body.as_str(), false);
            let ghost before = views(pieces@);
            pieces.push(t);
            assert(children@.take(i + 1).filter(is_note) == prev.push(children@[i as int]));
            assert(prev.push(children@[i as int]).map_values(note_text) =~= prev.map_values(note_text).push(t@));
            assert(views(pieces@) =~= before.push(t@));
        } else {
            assert(children@.take(i + 1).filter(is_note) == prev);
        }
        i = i + 1;
    }
    assert(children@.take(children@.len() as int) =~= children@);
    let ghost with_notes = views(pieces@);
    let mut i: usize = 0;
    assert(children@.take(0).filter(is_ann).map_values(ann_text) =~= Seq::<Seq<char>>::empty());
    assert(views(pieces@) =~= with_notes + children@.take(0).filter(is_ann).map_values(ann_text));
    while i < children.len()
        invariant
            i <= children@.len(),
            is_ann == (|c: ZoteroItem| c.data.item_type@ == "annotation"@),
            ann_text == (|a: ZoteroItem| annotation_segment(a)),
            views(pieces@) == with_notes + children@.take(i as int).filter(is_ann).map_values(ann_text),
        decreases children.len() - i,
    {
        proof {
            reveal_strlit("annotation");
            reveal(Seq::filter);
        }
        assert(children@.take(i + 1).drop_last() =~= children@.take(i as int));
        let ghost prev = children@.take(i as int).filter(is_ann);
        if crate::text::str_eq(children[i].data.item_type.as_str(), "annotation") {
            let t = annotation_segment_exec(&children[i]);
            let ghost before = views(pieces@);
            pieces.push(t);
            assert(children@.take(i + 1).filter(is_ann) == prev.push(children@[i as int]));
            assert(prev.push(children@[i as int]).map_values(ann_text) =~= prev.map_values(ann_text).push(t@));
            assert(views(pieces@) =~= before.push(t@));
        } else {
            assert(children@.take(i + 1).filter(is_ann) == prev);
        }
        i = i + 1;
    }
    let ghost all = views(pieces@);
    assert(all =~= fetch_pieces(*item, children@));
    let mut kept: Vec<String> = Vec::new();
    let mut k: usize = 0;
    let ghost keep = |s: Seq<char>| s.len() > 0;
    assert(all.take(0).filter(keep) =~= Seq::<Seq<char>>::empty());
    while k < pieces.len()
        invariant
            k <= pieces@.len(),
            all == views(pieces@),
            keep == (|s: Seq<char>| s.len() > 0),
            views(kept@) == all.take(k as int).filter(keep),
        decreases pieces.len() - k,
    {
        proof {
            reveal(Seq::filter);
        }
        assert(all.take(k + 1).drop_last() =~= all.take(k as int));
        assert(all.take(k + 1).last() == pieces@[k as int]@);
        if !pieces[k].as_str().is_empty() {
            let ghost before = views(kept@);
            kept.push(pieces[k].clone());
            assert(views(kept@) =~= before.push(pieces@[k as int]@));
        }
        k = k + 1;
    }
    assert(all.take(pieces@.len() as int) =~= all);
    join_strs(&kept, "\n\n")
}

// ---------------------------------------------------------------------------
// Recent items
// ---------------------------------------------------------------------------

/// The report of recent items: each as a numbered summary with tags, or
/// "No recent items found.".
pub open spec fn spec_recent_report(items: Seq<ZoteroItem>) -> Seq<char> {
    if items.len() == 0 {
        "No recent items found."@
    } else {
        join(
            Seq::new(
                items.len(),
                |i: int| join(crate::formatters::item_result_lines(items[i], Some((i + 1) as usize), true), "\n"@),
            ),
            "\n\n"@,
        )
    }
}

/// Reports recent items (see `spec_recent_report`).
pub fn recent_report(items: &[ZoteroItem]) -> (r: String)
    ensures
        r@ == spec_recent_report(items@),
{
    if items.len() == 0 {
        return owned("No recent items found.");
    }
    let mut blocks: Vec<String> = Vec::new();
    let mut i: usize = 0;
    while i < items.len()
        invariant
            i <= items@.len(),
            views(blocks@) == Seq::new(
                i as nat,
                |j: int| join(crate::formatters::item_result_lines(items@[j], Some((j + 1) as usize), true), "\n"@),
            ),
        decreases items.len() - i,
    {
        let b = crate::formatters::format_item_result(&items[i], Some(i + 1), true);
        let ghost before = views(blocks@);
        blocks.push(b);
        assert(views(blocks@) =~= before.push(b@));
        i = i + 1;
        assert(views(blocks@) =~= Seq::new(
            i as nat,
            |j: int| join(crate::formatters::item_result_lines(items@[j], Some((j + 1) as usize), true), "\n"@),
        ));
    }
    join_strs(&blocks, "\n\n")
}

// ---------------------------------------------------------------------------
// Tags
// ---------------------------------------------------------------------------

/// Whether `a` comes no later than `b` in lexicographic order of characters
/// (the order of `String`'s `Ord`, as UTF-8 keeps the order of code points).
pub open spec fn lex_le(a: Seq<char>, b: Seq<char>) -> bool
    decreases a.len(),
{
    if a.len() == 0 {
        true
    } else if b.len() == 0 {
        false
    } else if a[0] != b[0] {
        a[0] < b[0]
    } else {
        lex_le(a.drop_first(), b.drop_first())
    }
}

/// `s` (sorted by lower-cased text) with `x` put after the last string whose
/// key is not greater than its own.
pub open spec fn insert_by_lower(s: Seq<Seq<char>>, x: Seq<char>) -> Seq<Seq<char>>
    decreases s.len(),
{
    if s.len() == 0 {
        seq![x]
    } else if lex_le(spec_to_lowercase(s.last()), spec_to_lowercase(x)) {
        s.push(x)
    } else {
        insert_by_lower(s.drop_last(), x).push(s.last())
    }
}

/// `v` stably sorted by lower-cased text (`sort_by_key(to_lowercase)`).
pub open spec fn sort_by_lower(v: Seq<Seq<char>>) -> Seq<Seq<char>>
    decreases v.len(),
{
    if v.len() == 0 {
        v
    } else {
        insert_by_lower(sort_by_lower(v.drop_last()), v.last())
    }
}

pub(crate) fn lex_le_exec(a: &Vec<char>, b: &Vec<char>) -> (r: bool)
    ensures
        r == lex_le(a@, b@),
{
    let mut i: usize = 0;
    assert(a@.skip(0) =~= a@);
    assert(b@.skip(0) =~= b@);
    while i < a.len() && i < b.len() && a[i] == b[i]
        invariant
            i <= a@.len(),
            i <= b@.len(),
            lex_le(a@, b@) == lex_le(a@.skip(i as int), b@.skip(i as int)),
        decreases a.len() - i,
    {
        assert(a@.skip(i as int).drop_first() =~= a@.skip(i + 1));
        assert(b@.skip(i as int).drop_first() =~= b@.skip(i + 1));
        i = i + 1;
    }
    if i == a.len() {
        true
    } else if i == b.len() {
        false
    } else {
        a[i] < b[i]
    }
}

proof fn lemma_insert_by_lower_split(s: Seq<Seq<char>>, x: Seq<char>, j: int)
    requires
        0 <= j <= s.len(),
        j == 0 || lex_le(spec_to_lowercase(s[j - 1]), spec_to_lowercase(x)),
        forall|t: int| j <= t < s.len() ==> !lex_le(spec_to_lowercase(#[trigger] s[t]), spec_to_lowercase(x)),
    ensures
        insert_by_lower(s, x) == s.take(j) + seq![x] + s.skip(j),
    decreases s.len(),
{
    if s.len() == 0 {
        assert(s.take(j) + seq![x] + s.skip(j) =~= seq![x]);
    } else if j == s.len() {
        assert(s.take(j) + seq![x] + s.skip(j) =~= s.push(x));
    } else {
        lemma_insert_by_lower_split(s.drop_last(), x, j);
        assert(s.drop_last().take(j) + seq![x] + s.drop_last().skip(j) + seq![s.last()] =~= s.take(j) + seq![x] + s.skip(j));
    }
}

/// Sorts strings by their lower-cased text, keeping the order of strings
/// whose keys are equal (see `sort_by_lower`).
pub fn sort_by_lowercase(v: Vec<String>) -> (r: Vec<String>)
    ensures
        views(r@) == sort_by_lower(views(v@)),
{
    let mut out: Vec<String> = Vec::new();
    let mut keys: Vec<Vec<char>> = Vec::new();
    let mut i: usize = 0;
    let ghost all = views(v@);
    while i < v.len()
        invariant
            i <= v@.len(),
            all == views(v@),
            views(out@) == sort_by_lower(all.take(i as int)),
            keys@.len() == out@.len(),
            forall|t: int| 0 <= t < keys@.len() ==> (#[trigger] keys@[t])@ == spec_to_lowercase(out@[t]@),
        decreases v.len() - i,
    {
        assert(all.take(i + 1).drop_last() =~= all.take(i as int));
        assert(all.take(i + 1).last() == v@[i as int]@);
        let x = v[i].clone();
        let xl = to_lowercase(x.as_str());
        let xk = crate::text::chars_of(xl.as_str());
        let ghost s = views(out@);
        let mut j: usize = out.len();
        while j > 0 && !lex_le_exec(&keys[j - 1], &xk)
            invariant
                j <= out@.len(),
                keys@.len() == out@.len(),
                forall|t: int| 0 <= t < keys@.len() ==> (#[trigger] keys@[t])@ == spec_to_lowercase(out@[t]@),
                xk@ == spec_to_lowercase(x@),
                s == views(out@),
                forall|t: int| j <= t < s.len() ==> !lex_le(spec_to_lowercase(#[trigger] s[t]), spec_to_lowercase(x@)),
            decreases j,
        {
            j = j - 1;
        }
        proof {
            if j > 0 {
                assert(keys@[j - 1]@ == spec_to_lowercase(s[j - 1]));
            }
            lemma_insert_by_lower_split(s, x@, j as int);
        }
        let ghost ok = keys@;
        let ghost oo = out@;
        out.insert(j, x);
        keys.insert(j, xk);
        assert(views(out@) =~= s.take(j as int) + seq![x@] + s.skip(j as int));
        i = i + 1;
        assert forall|t: int| 0 <= t < keys@.len() implies (#[trigger] keys@[t])@ == spec_to_lowercase(out@[t]@) by {
            if t < j {
            } else if t == j {
            } else {
                assert(keys@[t] == ok[t - 1]);
                assert(out@[t] == oo[t - 1]);
            }
        }
    }
    assert(all.take(v@.len() as int) =~= all);
    out
}

/// Whether `c` is an ASCII letter.
pub open spec fn ascii_alpha(c: char) -> bool {
    ('a' <= c <= 'z') || ('A' <= c <= 'Z')
}

/// The section a tag is listed under: the upper-case form of its first
/// character when that is a single ASCII letter, else "#".
pub open spec fn tag_bucket(tag: Seq<char>) -> Seq<char> {
    let initial = crate::text::spec_char_to_uppercase(if tag.len() == 0 { '#' } else { tag[0] });
    if initial.len() == 1 && ascii_alpha(initial[0]) {
        initial
    } else {
        "#"@
    }
}

/// The names of the sections, in the order of `String`'s `Ord`: "#", the
/// upper-case letters, then the lower-case ones.
pub open spec fn bucket_labels() -> Seq<Seq<char>> {
    Seq::new(
        53,
        |i: int|
            if i == 0 {
                "#"@
            } else if i <= 26 {
                seq![((64 + i) as u8) as char]
            } else {
                seq![((70 + i) as u8) as char]
            },
    )
}

/// The lines of the section `label` of the sorted tags: nothing when no tag
/// falls in it, else its heading, one line per tag and an empty line.
pub open spec fn bucket_section(label: Seq<char>, sorted: Seq<Seq<char>>) -> Seq<Seq<char>> {
    let members = sorted.filter(|t: Seq<char>| tag_bucket(t) == label);
    if members.len() == 0 {
        Seq::<Seq<char>>::empty()
    } else {
        seq!["## "@ + label] + members.map_values(|t: Seq<char>| "- "@ + t) + seq![Seq::<char>::empty()]
    }
}

/// The tags report: the non-blank tags sorted by lower-cased text and
/// listed under the sections of their first letters, or "No tags found.".
pub open spec fn spec_tags_report(tags: Seq<Seq<char>>) -> Seq<char> {
    let sorted = sort_by_lower(tags.filter(|t: Seq<char>| trim(t).len() > 0));
    if sorted.len() == 0 {
        "No tags found."@
    } else {
        trim(join(concat_all(bucket_labels().map_values(|b: Seq<char>| bucket_section(b, sorted))), "\n"@))
    }
}

fn tag_bucket_exec(tag: &str) -> (r: String)
    ensures
        r@ == tag_bucket(tag@),
{
    proof {
        reveal_strlit("#");
    }
    let v = crate::text::chars_of(tag);
    let c = if v.len() == 0 {
        '#'
    } else {
        v[0]
    };
    let initial = crate::text::char_to_uppercase(c);
    let iv = crate::text::chars_of(initial.as_str());
    if iv.len() == 1 && (('a' <= iv[0] && iv[0] <= 'z') || ('A' <= iv[0] && iv[0] <= 'Z')) {
        initial
    } else {
        owned("#")
    }
}

fn bucket_labels_exec() -> (r: Vec<String>)
    ensures
        views(r@) == bucket_labels(),
{
    proof {
        reveal_strlit("#");
    }
    let mut out: Vec<String> = Vec::new();
    out.push(owned("#"));
    let mut k: u8 = 1;
    while k <= 52
        invariant
            1 <= k <= 53,
            views(out@) == bucket_labels().take(k as int),
        decreases 53 - k,
    {
        let c: char = if k <= 26 {
            (64 + k) as char
        } else {
            (70 + k) as char
        };
        let mut s = String::new();
        crate::text::push_char(&mut s, c);
        let ghost before = views(out@);
        out.push(s);
        assert(views(out@) =~= before.push(seq![c]));
        assert(bucket_labels().take(k + 1) =~= bucket_labels().take(k as int).push(seq![c]));
        k = k + 1;
    }
    assert(bucket_labels().take(53) =~= bucket_labels());
    out
}

/// Reports the tags of the library (see `spec_tags_report`).
pub fn tags_report(tags: &Vec<String>) -> (r: String)
    ensures
        r@ == spec_tags_report(views(tags@)),
{
    let ghost nonblank = |t: Seq<char>| trim(t).len() > 0;
    let mut kept: Vec<String> = Vec::new();
    let mut i: usize = 0;
    proof {
        reveal(Seq::filter);
    }
    assert(views(tags@).take(0).filter(nonblank) =~= Seq::<Seq<char>>::empty());
    while i < tags.len()
        invariant
            i <= tags@.len(),
            nonblank == (|t: Seq<char>| trim(t).len() > 0),
            views(kept@) == views(tags@).take(i as int).filter(nonblank),
        decreases tags.len() - i,
    {
        proof {
            reveal(Seq::filter);
        }
        assert(views(tags@).take(i + 1).drop_last() =~= views(tags@).take(i as int));
        assert(views(tags@).take(i + 1).last() == tags@[i as int]@);
        if !trim_str(tags[i].as_str()).as_str().is_empty() {
            let ghost before = views(kept@);
            kept.push(tags[i].clone());
            assert(views(kept@) =~= before.push(tags@[i as int]@));
        }
        i = i + 1;
    }
    assert(views(tags@).take(tags@.len() as int) =~= views(tags@));
    let sorted = sort_by_lowercase(kept);
    if sorted.len() == 0 {
        return owned("No tags found.");
    }
    let mut buckets: Vec<String> = Vec::new();
    let mut t: usize = 0;
    while t < sorted.len()
        invariant
            t <= sorted@.len(),
            buckets@.len() == t,
            forall|q: int| 0 <= q < t ==> (#[trigger] buckets@[q])@ == tag_bucket(sorted@[q]@),
        decreases sorted.len() - t,
    {
        buckets.push(tag_bucket_exec(sorted[t].as_str()));
        t = t + 1;
    }
    let labels = bucket_labels_exec();
    let ghost sv = views(sorted@);
    let ghost parts = bucket_labels().map_values(|b: Seq<char>| bucket_section(b, sv));
    let mut lines: Vec<String> = Vec::new();
    let mut li: usize = 0;
    assert(concat_all(parts.take(0)) =~= Seq::<Seq<char>>::empty());
    while li < labels.len()
        invariant
            li <= labels@.len(),
            views(labels@) == bucket_labels(),
            sv == views(sorted@),
            parts == bucket_labels().map_values(|b: Seq<char>| bucket_section(b, sv)),
            buckets@.len() == sorted@.len(),
            forall|q: int| 0 <= q < sorted@.len() ==> (#[trigger] buckets@[q])@ == tag_bucket(sorted@[q]@),
            views(lines@) == concat_all(parts.take(li as int)),
        decreases labels.len() - li,
    {
        let label = &labels[li];
        let ghost lv = label@;
        let ghost in_b = |x: Seq<char>| tag_bucket(x) == lv;
        let mut section: Vec<String> = Vec::new();
        let mut q: usize = 0;
        proof {
            reveal(Seq::filter);
        }
        assert(sv.take(0).filter(in_b).map_values(|x: Seq<char>| "- "@ + x) =~= Seq::<Seq<char>>::empty());
        while q < sorted.len()
            invariant
                q <= sorted@.len(),
                sv == views(sorted@),
                in_b == (|x: Seq<char>| tag_bucket(x) == lv),
                lv == label@,
                buckets@.len() == sorted@.len(),
                forall|q: int| 0 <= q < sorted@.len() ==> (#[trigger] buckets@[q])@ == tag_bucket(sorted@[q]@),
                views(section@) == sv.take(q as int).filter(in_b).map_values(|x: Seq<char>| "- "@ + x),
            decreases sorted.len() - q,
        {
            proof {
                reveal(Seq::filter);
            }
            assert(sv.take(q + 1).drop_last() =~= sv.take(q as int));
            assert(sv.take(q + 1).last() == sorted@[q as int]@);
            let ghost prev = sv.take(q as int).filter(in_b);
            if buckets[q] == *label {
                let line = concat2("- ", sorted[q].as_str());
                let ghost before = views(section@);
                section.push(line);
                assert(sv.take(q + 1).filter(in_b) == prev.push(sorted@[q as int]@));
                assert(prev.push(sorted@[q as int]@).map_values(|x: Seq<char>| "- "@ + x) =~= prev.map_values(|x: Seq<char>| "- "@ + x).push(line@));
                assert(views(section@) =~= before.push(line@));
            } else {
                assert(sv.take(q + 1).filter(in_b) == prev);
            }
            q = q + 1;
        }
        assert(sv.take(sorted@.len() as int) =~= sv);
        let ghost before = views(lines@);
        let ghost sec = views(section@);
        assert(in_b =~= (|t: Seq<char>| tag_bucket(t) == lv));
        assert(sec == sv.filter(|t: Seq<char>| tag_bucket(t) == lv).map_values(|t: Seq<char>| "- "@ + t));
        if section.len() > 0 {
            let h = concat2("## ", label.as_str());
            lines.push(h);
            assert(views(lines@) =~= before.push(h@));
            append_lines(&mut lines, section);
            let ghost mid = views(lines@);
            lines.push(String::new());
            assert(views(lines@) =~= mid.push(Seq::<char>::empty()));
        }
        assert(parts[li as int] == bucket_section(lv, sv));
        assert(views(lines@) =~= before + parts[li as int]);
        assert(parts.take(li + 1).drop_last() =~= parts.take(li as int));
        li = li + 1;
    }
    assert(parts.take(labels@.len() as int) =~= parts);
    let joined = join_strs(&lines, "\n");
    trim_str(joined.as_str())
}

// ---------------------------------------------------------------------------
// The payload of fetch
// ---------------------------------------------------------------------------

/// An optional text as JSON: the string, or null.
pub open spec fn opt_json(o: Option<String>) -> JsonSpec {
    match o {
        Some(v) => JsonSpec::Str(v@),
        None => JsonSpec::Null,
    }
}

/// What fetch answers for an item and its children: its key, its title
/// ("(untitled)" when absent), its text for reading, its URL, and its type,
/// date, DOI and tag names.
pub open spec fn spec_fetch_payload(item: ZoteroItem, children: Seq<ZoteroItem>) -> JsonSpec {
    JsonSpec::Object(
        seq![
            ("id"@, JsonSpec::Str(item.key@)),
            ("title"@, JsonSpec::Str(text_or(item.data.title, "(untitled)"@))),
            ("text"@, JsonSpec::Str(spec_fetch_text(item, children))),
            ("url"@, opt_json(item.data.url)),
            ("metadata"@, JsonSpec::Object(
                seq![
                    ("itemType"@, JsonSpec::Str(item.data.item_type@)),
                    ("date"@, opt_json(item.data.date)),
                    ("doi"@, opt_json(item.data.doi)),
                    ("tags"@, JsonSpec::Array(
                        tag_names(item_tags(item.data.tags)).map_values(|t: Seq<char>| JsonSpec::Str(t)),
                    )),
                ],
            )),
        ],
    )
}

fn opt_json_exec(o: &Option<String>) -> (r: JsonValue)
    ensures
        jview(r) == opt_json(*o),
{
    match o {
        Some(v) => JsonValue::Str(v.clone()),
        None => JsonValue::Null,
    }
}

fn string_array(v: Vec<String>) -> (r: JsonValue)
    ensures
        jview(r) == JsonSpec::Array(views(v@).map_values(|t: Seq<char>| JsonSpec::Str(t))),
{
    let mut items: Vec<JsonValue> = Vec::new();
    let mut rest = v;
    let ghost raw = rest@;
    let ghost all = views(raw);
    let n = rest.len();
    let mut i: usize = 0;
    assert(raw.len() == n);
    assert(raw.skip(0) =~= raw);
    while rest.len() > 0
        invariant
            i + rest@.len() == raw.len(),
            raw.len() <= usize::MAX,
            all == views(raw),
            rest@ =~= raw.skip(i as int),
            items@.len() == i,
            forall|j: int| 0 <= j < i ==> jview(#[trigger] items@[j]) == JsonSpec::Str(all[j]),
        decreases rest.len(),
    {
        let t = rest.remove(0);
        assert(t == raw[i as int]);
        items.push(JsonValue::Str(t));
        i = i + 1;
        assert(rest@ =~= raw.skip(i as int));
    }
    let r = JsonValue::Array(items);
    proof {
        if let JsonSpec::Array(x) = jview(r) {
            assert(x =~= all.map_values(|t: Seq<char>| JsonSpec::Str(t)));
        }
    }
    r
}

/// What fetch answers for an item and its children (see `spec_fetch_payload`).
pub fn fetch_payload(item: &ZoteroItem, children: &[ZoteroItem]) -> (r: JsonValue)
    ensures
        jview(r) == spec_fetch_payload(*item, children@),
{
    proof {
        reveal_strlit("(untitled)");
    }
    let tags = crate::formatters::tag_name_list(crate::formatters::tags_slice(&item.data.tags));
    let mut meta: Vec<(String, JsonValue)> = Vec::new();
    meta.push((owned("itemType"), JsonValue::Str(item.data.item_type.clone())));
    meta.push((owned("date"), opt_json_exec(&item.data.date)));
    meta.push((owned("doi"), opt_json_exec(&item.data.doi)));
    meta.push((owned("tags"), string_array(tags)));
    proof {
        crate::json::lemma_object_view(meta);
        assert(entries_view(meta@) =~= seq![
            ("itemType"@, JsonSpec::Str(item.data.item_type@)),
            ("date"@, opt_json(item.data.date)),
            ("doi"@, opt_json(item.data.doi)),
            ("tags"@, JsonSpec::Array(
                tag_names(item_tags(item.data.tags)).map_values(|t: Seq<char>| JsonSpec::Str(t)),
            )),
        ]);
    }
    let metadata = JsonValue::Object(meta);
    let mut top: Vec<(String, JsonValue)> = Vec::new();
    top.push((owned("id"), JsonValue::Str(item.key.clone())));
    top.push((owned("title"), JsonValue::Str(owned(crate::formatters::str_or(&item.data.title, "(untitled)")))));
    top.push((owned("text"), JsonValue::Str(fetch_text(item, children))));
    top.push((owned("url"), opt_json_exec(&item.data.url)));
    top.push((owned("metadata"), metadata));
    proof {
        crate::json::lemma_object_view(top);
        assert(entries_view(top@) =~= seq![
            ("id"@, JsonSpec::Str(item.key@)),
            ("title"@, JsonSpec::Str(text_or(item.data.title, "(untitled)"@))),
            ("text"@, JsonSpec::Str(spec_fetch_text(*item, children@))),
            ("url"@, opt_json(item.data.url)),
            ("metadata"@, jview(metadata)),
        ]);
    }
    JsonValue::Object(top)
}

// ---------------------------------------------------------------------------
// Arguments of fetch
// ---------------------------------------------------------------------------

/// The identifier fetched: the argument trimmed, or the answer asking for one
/// when nothing is left.
pub fn fetch_id(raw: &str) -> (r: Result<String, &'static str>)
    ensures
        match r {
            Ok(k) => k@ == trim(raw@) && k@.len() > 0,
            Err(m) => trim(raw@).len() == 0 && m@
                == "Input cannot be empty. Provide a Zotero item key, DOI, or arXiv ID."@,
        },
{
    let t = trim_str(raw);
    if t.as_str().is_empty() {
        Err("Input cannot be empty. Provide a Zotero item key, DOI, or arXiv ID.")
    } else {
        Ok(t)
    }
}

} // verus!
