//! The search tool: which search a request asks for, and what is kept of
//! the items found.

use vstd::prelude::*;

use crate::formatters::{concat3, item_result_lines};
use crate::json::JsonValue;
use crate::search_engine::{parse_tag_clause, read_citation_key_from_extra, TagClause};
use crate::text::{join, join_strs, owned, spec_to_lowercase, to_lowercase, trim, trim_str, views};
use crate::types::ZoteroItem;

verus! {

broadcast use vstd::std_specs::vec::group_vec_axioms;

/// The search a request asks for.
#[derive(Debug, Clone, Copy, PartialEq, Eq, Structural)]
pub enum SearchPath {
    /// By citation key.
    CitationKey,
    /// By field conditions.
    Conditions,
    /// By tag clauses alone.
    TagsOnly,
    /// By text, optionally narrowed by tags.
    Text,
}

/// The search a request asks for: a citation key first, then conditions,
/// then tags without a query, else a text search.
pub open spec fn spec_search_path(has_citation_key: bool, has_conditions: bool, has_tags: bool, query_blank: bool) -> SearchPath {
    if has_citation_key {
        SearchPath::CitationKey
    } else if has_conditions {
        SearchPath::Conditions
    } else if has_tags && query_blank {
        SearchPath::TagsOnly
    } else {
        SearchPath::Text
    }
}

/// The search a request asks for (see `spec_search_path`).
pub fn search_path(has_citation_key: bool, has_conditions: bool, has_tags: bool, query_blank: bool) -> (r: SearchPath)
    ensures
        r == spec_search_path(has_citation_key, has_conditions, has_tags, query_blank),
{
    if has_citation_key {
        SearchPath::CitationKey
    } else if has_conditions {
        SearchPath::Conditions
    } else if has_tags && query_blank {
        SearchPath::TagsOnly
    } else {
        SearchPath::Text
    }
}

// ---------------------------------------------------------------------------
// Results
// ---------------------------------------------------------------------------

/// Numbered summaries of items separated by blank lines, or `empty_message`.
pub open spec fn spec_results(items: Seq<ZoteroItem>, empty_message: Seq<char>) -> Seq<char> {
    if items.len() == 0 {
        empty_message
    } else {
        join(
            Seq::new(items.len(), |i: int| join(item_result_lines(items[i], Some((i + 1) as usize), true), "\n"@)),
            "\n\n"@,
        )
    }
}

/// Reports items found (see `spec_results`).
pub fn results_report(items: &[ZoteroItem], empty_message: &str) -> (r: String)
    ensures
        r@ == spec_results(items@, empty_message@),
{
    if items.len() == 0 {
        return owned(empty_message);
    }
    let mut blocks: Vec<String> = Vec::new();
    let mut i: usize = 0;
    while i < items.len()
        invariant
            i <= items@.len(),
            views(blocks@) == Seq::new(
                i as nat,
                |j: int| join(item_result_lines(items@[j], Some((j + 1) as usize), true), "\n"@),
            ),
        decreases items.len() - i,
    {
        let b = crate::formatters::format_item_result(&items[i], Some(i + 1), true);
        let ghost before = views(blocks@);
        blocks.push(b);
        assert(views(blocks@) =~= before.push(b@));
        i = i + 1;
        assert(views(blocks@) =~= Seq::new(
            i as nat,
            |j: int| join(item_result_lines(items@[j], Some((j + 1) as usize), true), "\n"@),
        ));
    }
    join_strs(&blocks, "\n\n")
}

/// The first `limit` items of `items`.
pub open spec fn first_n(items: Seq<ZoteroItem>, limit: nat) -> Seq<ZoteroItem> {
    if items.len() <= limit {
        items
    } else {
        items.take(limit as int)
    }
}

/// Keeps the first `limit` items.
pub fn keep_first(items: Vec<ZoteroItem>, limit: usize) -> (r: Vec<ZoteroItem>)
    ensures
        r@ == first_n(items@, limit as nat),
{
    let mut v = items;
    if v.len() > limit {
        v.truncate(limit);
    }
    v
}

// ---------------------------------------------------------------------------
// Citation keys
// ---------------------------------------------------------------------------

/// Whether the citation key in an item's extra field is `key`, ignoring case.
pub open spec fn cites_key(item: ZoteroItem, key: Seq<char>) -> bool {
    match crate::search_engine::first_citation_key(crate::search_engine::text_lines(crate::notes::field_text(item.data.extra))) {
        Some(k) => spec_to_lowercase(k) == spec_to_lowercase(key),
        None => false,
    }
}

/// The items whose citation key is `key`, in order.
pub open spec fn spec_with_key(items: Seq<ZoteroItem>, key: Seq<char>) -> Seq<ZoteroItem>
    decreases items.len(),
{
    if items.len() == 0 {
        Seq::<ZoteroItem>::empty()
    } else {
        let prev = spec_with_key(items.drop_last(), key);
        if cites_key(items.last(), key) {
            prev.push(items.last())
        } else {
            prev
        }
    }
}

/// Keeps the items whose citation key is `key` (see `spec_with_key`).
pub fn with_citation_key(items: Vec<ZoteroItem>, key: &str) -> (r: Vec<ZoteroItem>)
    ensures
        r@ == spec_with_key(items@, key@),
{
    let want = to_lowercase(key);
    let mut out: Vec<ZoteroItem> = Vec::new();
    let mut rest = items;
    let ghost all = rest@;
    let n = rest.len();
    let mut i: usize = 0;
    assert(all.skip(0) =~= all);
    while rest.len() > 0
        invariant
            i + rest@.len() == all.len(),
            all.len() == n,
            rest@ =~= all.skip(i as int),
            want@ == spec_to_lowercase(key@),
            out@ == spec_with_key(all.take(i as int), key@),
        decreases rest.len(),
    {
        let it = rest.remove(0);
        assert(it == all[i as int]);
        assert(all.take(i + 1).drop_last() =~= all.take(i as int));
        let extra = crate::notes::field_string(&it.data.extra);
        let hit = match read_citation_key_from_extra(extra.as_str()) {
            Some(k) => {
                let l = to_lowercase(k.as_str());
                l == want
            },
            None => false,
        };
        if hit {
            out.push(it);
        }
        i = i + 1;
        assert(rest@ =~= all.skip(i as int));
    }
    assert(all.take(i as int) =~= all);
    out
}

/// The message when no item has a citation key.
pub fn no_citation_match(key: &str) -> (r: String)
    ensures
        r@ == "No items found for citation key '"@ + key@ + "'."@,
{
    concat3("No items found for citation key '", key, "'.")
}

// ---------------------------------------------------------------------------
// Conditions
// ---------------------------------------------------------------------------

/// The outcomes of the conditions combined: all of them under "all", any
/// of them otherwise.
pub open spec fn spec_join_outcomes(outcomes: Seq<bool>, mode: Seq<char>) -> bool {
    if mode == "all"@ {
        forall|i: int| 0 <= i < outcomes.len() ==> #[trigger] outcomes[i]
    } else {
        exists|i: int| 0 <= i < outcomes.len() && #[trigger] outcomes[i]
    }
}

/// Combines the outcomes of conditions (see `spec_join_outcomes`).
pub fn join_outcomes(outcomes: &Vec<bool>, mode: &str) -> (r: bool)
    ensures
        r == spec_join_outcomes(outcomes@, mode@),
{
    let all = crate::text::str_eq(mode, "all");
    let mut i: usize = 0;
    while i < outcomes.len()
        invariant
            i <= outcomes@.len(),
            all == (mode@ == "all"@),
            all ==> forall|j: int| 0 <= j < i ==> #[trigger] outcomes@[j],
            !all ==> forall|j: int| 0 <= j < i ==> !#[trigger] outcomes@[j],
        decreases outcomes.len() - i,
    {
        if all && !outcomes[i] {
            return false;
        }
        if !all && outcomes[i] {
            assert(outcomes@[i as int]);
            return true;
        }
        i = i + 1;
    }
    all
}

// ---------------------------------------------------------------------------
// Tags
// ---------------------------------------------------------------------------

/// The clauses of the tag strings that are not empty.
pub open spec fn spec_clauses(tags: Seq<Seq<char>>) -> Seq<(Seq<Seq<char>>, Seq<Seq<char>>)>
    decreases tags.len(),
{
    if tags.len() == 0 {
        Seq::<(Seq<Seq<char>>, Seq<Seq<char>>)>::empty()
    } else {
        let prev = spec_clauses(tags.drop_last());
        let c = crate::search_engine::spec_tag_clause(tags.last());
        if c.0.len() > 0 || c.1.len() > 0 {
            prev.push(c)
        } else {
            prev
        }
    }
}

/// The content of a clause.
pub open spec fn clause_view(c: TagClause) -> (Seq<Seq<char>>, Seq<Seq<char>>) {
    (views(c.wanted@), views(c.unwanted@))
}

/// Parses tag strings into clauses, dropping empty ones (see `spec_clauses`).
pub fn tag_clauses(tags: &Vec<String>) -> (r: Vec<TagClause>)
    ensures
        r@.map_values(|c: TagClause| clause_view(c)) == spec_clauses(views(tags@)),
{
    let mut out: Vec<TagClause> = Vec::new();
    let mut i: usize = 0;
    while i < tags.len()
        invariant
            i <= tags@.len(),
            out@.map_values(|c: TagClause| clause_view(c)) == spec_clauses(views(tags@).take(i as int)),
        decreases tags.len() - i,
    {
        assert(views(tags@).take(i + 1).drop_last() =~= views(tags@).take(i as int));
        assert(views(tags@).take(i + 1).last() == tags@[i as int]@);
        let c = parse_tag_clause(tags[i].as_str());
        if c.wanted.len() > 0 || c.unwanted.len() > 0 {
            let ghost before = out@.map_values(|c: TagClause| clause_view(c));
            let ghost cv = clause_view(c);
            out.push(c);
            assert(out@.map_values(|c: TagClause| clause_view(c)) =~= before.push(cv));
        }
        i = i + 1;
    }
    assert(views(tags@).take(tags@.len() as int) =~= views(tags@));
    out
}

/// The items that satisfy every clause, in order, at most `limit`.
pub open spec fn spec_select_by_clauses(items: Seq<ZoteroItem>, clauses: Seq<TagClause>, limit: nat) -> Seq<ZoteroItem>
    decreases items.len(),
{
    if items.len() == 0 {
        Seq::<ZoteroItem>::empty()
    } else {
        let prev = spec_select_by_clauses(items.drop_last(), clauses, limit);
        if crate::search_engine::spec_matches_tag_clauses(items.last(), clauses) && prev.len() < limit {
            prev.push(items.last())
        } else {
            prev
        }
    }
}

/// Keeps the items that satisfy every clause (see `spec_select_by_clauses`).
pub fn select_by_clauses(items: Vec<ZoteroItem>, clauses: &[TagClause], limit: usize) -> (r: Vec<ZoteroItem>)
    ensures
        r@ == spec_select_by_clauses(items@, clauses@, limit as nat),
{
    let mut out: Vec<ZoteroItem> = Vec::new();
    let mut rest = items;
    let ghost all = rest@;
    let n = rest.len();
    let mut i: usize = 0;
    assert(all.skip(0) =~= all);
    while rest.len() > 0
        invariant
            i + rest@.len() == all.len(),
            all.len() == n,
            rest@ =~= all.skip(i as int),
            out@ == spec_select_by_clauses(all.take(i as int), clauses@, limit as nat),
        decreases rest.len(),
    {
        let it = rest.remove(0);
        assert(it == all[i as int]);
        assert(all.take(i + 1).drop_last() =~= all.take(i as int));
        if crate::search_engine::matches_tag_clauses(&it, clauses) && out.len() < limit {
            out.push(it);
        }
        i = i + 1;
        assert(rest@ =~= all.skip(i as int));
    }
    assert(all.take(i as int) =~= all);
    out
}

// ---------------------------------------------------------------------------
// Arguments
// ---------------------------------------------------------------------------

/// The citation key searched for: the argument trimmed, or the answer
/// "citation_key cannot be empty" when nothing is left.
pub fn citation_key_query(raw: &str) -> (r: Result<String, &'static str>)
    ensures
        match r {
            Ok(k) => k@ == trim(raw@) && k@.len() > 0,
            Err(m) => trim(raw@).len() == 0 && m@ == "citation_key cannot be empty"@,
        },
{
    let t = trim_str(raw);
    if t.as_str().is_empty() {
        Err("citation_key cannot be empty")
    } else {
        Ok(t)
    }
}

} // verus!
