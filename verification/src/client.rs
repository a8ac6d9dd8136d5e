//! What the Zotero Web API client decides: where requests go, which header
//! carries a version, when paging stops, and how an item joins or leaves a
//! collection.

use vstd::prelude::*;

use crate::formatters::concat2;
use crate::text::{owned, push_str, signed_decimal, signed_decimal_string, starts_with, views};
use crate::types::ZoteroItemData;

verus! {

broadcast use vstd::std_specs::vec::group_vec_axioms;

/// A tag of the library, as the tags endpoint lists it.
#[derive(Debug)]
pub struct TagEntry {
    pub tag: String,
}

/// The address of the Web API.
pub const ZOTERO_API_BASE: &'static str = "https://api.zotero.org";

/// The page size used when paging through a listing.
pub const PAGE_SIZE: usize = 100;

/// `s` without the '/' characters at its end.
pub open spec fn trim_slashes(s: Seq<char>) -> Seq<char>
    decreases s.len(),
{
    if s.len() > 0 && s.last() == '/' {
        trim_slashes(s.drop_last())
    } else {
        s
    }
}

/// `s` without the '/' characters at its end.
pub fn trim_trailing_slashes(s: &str) -> (r: String)
    ensures
        r@ == trim_slashes(s@),
{
    let v = crate::text::chars_of(s);
    let mut n = v.len();
    assert(v@.take(n as int) =~= v@);
    while n > 0 && v[n - 1] == '/'
        invariant
            n <= v@.len(),
            v@ == s@,
            trim_slashes(s@) == trim_slashes(v@.take(n as int)),
        decreases n,
    {
        assert(v@.take(n as int).drop_last() =~= v@.take(n - 1));
        n = n - 1;
    }
    crate::text::string_from_range(&v, 0, n)
}

/// Whether `a` equals "group" ignoring ASCII case.
pub open spec fn is_group(a: Seq<char>) -> bool {
    crate::search_engine::eq_ignore_case(a, "group"@)
}

/// The path of a library: "/groups/{id}" for a group library, else "/users/{id}".
pub open spec fn spec_library_path(library_type: Seq<char>, library_id: Seq<char>) -> Seq<char> {
    if is_group(library_type) {
        "/groups/"@ + library_id
    } else {
        "/users/"@ + library_id
    }
}

/// The path of a library (see `spec_library_path`).
pub fn library_path(library_type: &str, library_id: &str) -> (r: String)
    ensures
        r@ == spec_library_path(library_type@, library_id@),
{
    let t = crate::text::chars_of(library_type);
    let group = crate::search_engine::eq_ignore_case_exec(&t, 0, "group");
    assert(t@.skip(0) =~= t@);
    if group {
        concat2("/groups/", library_id)
    } else {
        concat2("/users/", library_id)
    }
}

/// The URL of `path` below `base`, with exactly the slash that joins them
/// when `path` has none.
pub open spec fn spec_build_url(base: Seq<char>, path: Seq<char>) -> Seq<char> {
    if starts_with(path, "/"@) {
        base + path
    } else {
        base + "/"@ + path
    }
}

/// The URL of `path` below `base` (see `spec_build_url`).
pub fn build_url(base: &str, path: &str) -> (r: String)
    ensures
        r@ == spec_build_url(base@, path@),
{
    if crate::text::starts_with_str(path, "/") {
        concat2(base, path)
    } else {
        crate::formatters::concat3(base, "/", path)
    }
}

/// The header that makes a write conditional on an item's version.
pub fn version_header(version: i64) -> (r: (&'static str, String))
    ensures
        r.0@ == "If-Unmodified-Since-Version"@,
        r.1@ == signed_decimal(version as int),
{
    ("If-Unmodified-Since-Version", signed_decimal_string(version))
}

/// Whether a deletion succeeded: the API answered 204 No Content.
pub fn deletion_succeeded(status: u16) -> (r: bool)
    ensures
        r == (status == 204),
{
    status == 204
}

// ---------------------------------------------------------------------------
// Paging
// ---------------------------------------------------------------------------

/// What to do after a page of a listing arrives.
#[derive(Debug, Clone, Copy, PartialEq, Eq, Structural)]
pub enum PageStep {
    /// Stop with what was gathered.
    Stop,
    /// Stop, keeping only the first this many results.
    StopAt(usize),
    /// Ask for the next page.
    Next,
}

/// The step after a page of `page_len` results arrives, `total` results
/// being gathered with it: stop on an empty page; stop at `max_items` once
/// that many are gathered; stop on a short page; else go on.
pub open spec fn spec_page_step(page_len: nat, total: nat, max_items: Option<usize>, page_size: nat) -> PageStep {
    if page_len == 0 {
        PageStep::Stop
    } else if max_items matches Some(m) && total >= m {
        PageStep::StopAt(max_items.unwrap())
    } else if page_len < page_size {
        PageStep::Stop
    } else {
        PageStep::Next
    }
}

/// The step after a page of a listing arrives (see `spec_page_step`).
pub fn page_step(page_len: usize, total: usize, max_items: Option<usize>, page_size: usize) -> (r: PageStep)
    ensures
        r == spec_page_step(page_len as nat, total as nat, max_items, page_size as nat),
{
    if page_len == 0 {
        return PageStep::Stop;
    }
    match max_items {
        Some(m) => {
            if total >= m {
                return PageStep::StopAt(m);
            }
        },
        None => {},
    }
    if page_len < page_size {
        PageStep::Stop
    } else {
        PageStep::Next
    }
}

/// The offset a listing starts at: the "start" parameter when it is a
/// number, else 0.
pub fn start_offset(start: Option<&str>) -> (r: usize)
    ensures
        r == match start {
            Some(s) => match crate::numbers::spec_parse_usize(s@) {
                Some(n) => n as usize,
                None => 0,
            },
            None => 0,
        },
{
    match start {
        Some(s) => match crate::numbers::parse_usize(s) {
            Some(n) => n,
            None => 0,
        },
        None => 0,
    }
}

// ---------------------------------------------------------------------------
// Collection membership
// ---------------------------------------------------------------------------

/// The collections of item data, none when absent.
pub open spec fn collections_of(d: ZoteroItemData) -> Seq<Seq<char>> {
    match d.collections {
        Some(v) => views(v@),
        None => Seq::<Seq<char>>::empty(),
    }
}

/// Item data placed in a collection: the key appended to its collections
/// unless it is already there; nothing else changes.
pub fn with_collection(data: ZoteroItemData, key: &str) -> (r: ZoteroItemData)
    ensures
        r == (ZoteroItemData { collections: r.collections, ..data }),
        r.collections matches Some(v) && views(v@) == (if collections_of(data).contains(key@) {
            collections_of(data)
        } else {
            collections_of(data).push(key@)
        }),
{
    let mut d = data;
    let mut list: Vec<String> = match d.collections {
        Some(v) => v,
        None => Vec::new(),
    };
    d.collections = None;
    let ghost before = views(list@);
    assert(before =~= collections_of(data));
    let mut i: usize = 0;
    let mut found = false;
    while i < list.len()
        invariant
            i <= list@.len(),
            views(list@) == before,
            found == exists|j: int| 0 <= j < i && #[trigger] list@[j]@ == key@,
        decreases list.len() - i,
    {
        if crate::text::str_eq(list[i].as_str(), key) {
            found = true;
        }
        i = i + 1;
    }
    assert(found == before.contains(key@)) by {
        if found {
            let j = choose|j: int| 0 <= j < list@.len() && #[trigger] list@[j]@ == key@;
            assert(before[j] == key@);
        }
        if before.contains(key@) {
            let j = choose|j: int| 0 <= j < before.len() && before[j] == key@;
            assert(list@[j]@ == key@);
        }
    }
    if !found {
        list.push(owned(key));
        assert(views(list@) =~= before.push(key@));
    }
    d.collections = Some(list);
    d
}

/// The collections without `key`.
pub open spec fn without_key(v: Seq<Seq<char>>, key: Seq<char>) -> Seq<Seq<char>> {
    v.filter(|k: Seq<char>| k != key)
}

/// Item data taken out of a collection: every occurrence of the key
/// dropped from its collections (which are then present, possibly empty);
/// nothing else changes.
pub fn without_collection(data: ZoteroItemData, key: &str) -> (r: ZoteroItemData)
    ensures
        r == (ZoteroItemData { collections: r.collections, ..data }),
        r.collections matches Some(v) && views(v@) == without_key(collections_of(data), key@),
{
    let mut d = data;
    let list: Vec<String> = match d.collections {
        Some(v) => v,
        None => Vec::new(),
    };
    d.collections = None;
    let ghost all = views(list@);
    assert(all =~= collections_of(data));
    let ghost keep = |k: Seq<char>| k != key@;
    let mut out: Vec<String> = Vec::new();
    let mut i: usize = 0;
    proof {
        reveal(Seq::filter);
    }
    assert(all.take(0).filter(keep) =~= Seq::<Seq<char>>::empty());
    while i < list.len()
        invariant
            i <= list@.len(),
            all == views(list@),
            keep == (|k: Seq<char>| k != key@),
            views(out@) == all.take(i as int).filter(keep),
        decreases list.len() - i,
    {
        proof {
            reveal(Seq::filter);
        }
        assert(all.take(i + 1).drop_last() =~= all.take(i as int));
        assert(all.take(i + 1).last() == list@[i as int]@);
        if !crate::text::str_eq(list[i].as_str(), key) {
            let ghost before = views(out@);
            out.push(list[i].clone());
            assert(views(out@) =~= before.push(list@[i as int]@));
        }
        i = i + 1;
    }
    assert(all.take(list@.len() as int) =~= all);
    d.collections = Some(out);
    d
}

} // verus!
