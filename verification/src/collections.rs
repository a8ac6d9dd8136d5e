//! Listing and managing collections.

use vstd::prelude::*;

use crate::formatters::{concat2, concat3, item_result_lines};
use crate::json::{json_get, json_object, json_str, jview, JsonSpec, JsonValue};
use crate::library::{concat_all, lex_le};
use crate::text::{contains, contains_str, decimal, decimal_string, join, join_strs, owned, push_str, spec_to_lowercase, to_lowercase, trim, trim_str, views};
use crate::types::{spec_parent_collection_key, ZoteroCollection, ZoteroCollectionData, ZoteroItem};

verus! {

broadcast use vstd::std_specs::vec::group_vec_axioms;

// ---------------------------------------------------------------------------
// Sorting by name
// ---------------------------------------------------------------------------

/// The key collections are sorted by: the lower-cased name.
pub open spec fn name_key(c: ZoteroCollection) -> Seq<char> {
    spec_to_lowercase(c.data.name@)
}

/// `s` (sorted by name) with `x` put after the last collection whose key is
/// not greater than its own.
pub open spec fn insert_by_name(s: Seq<ZoteroCollection>, x: ZoteroCollection) -> Seq<ZoteroCollection>
    decreases s.len(),
{
    if s.len() == 0 {
        seq![x]
    } else if lex_le(name_key(s.last()), name_key(x)) {
        s.push(x)
    } else {
        insert_by_name(s.drop_last(), x).push(s.last())
    }
}

/// `v` stably sorted by lower-cased name (`sort_by` on `to_lowercase`).
pub open spec fn sort_by_name(v: Seq<ZoteroCollection>) -> Seq<ZoteroCollection>
    decreases v.len(),
{
    if v.len() == 0 {
        v
    } else {
        insert_by_name(sort_by_name(v.drop_last()), v.last())
    }
}

proof fn lemma_insert_by_name_split(s: Seq<ZoteroCollection>, x: ZoteroCollection, j: int)
    requires
        0 <= j <= s.len(),
        j == 0 || lex_le(name_key(s[j - 1]), name_key(x)),
        forall|t: int| j <= t < s.len() ==> !lex_le(name_key(#[trigger] s[t]), name_key(x)),
    ensures
        insert_by_name(s, x) == s.take(j) + seq![x] + s.skip(j),
    decreases s.len(),
{
    if s.len() == 0 {
        assert(s.take(j) + seq![x] + s.skip(j) =~= seq![x]);
    } else if j == s.len() {
        assert(s.take(j) + seq![x] + s.skip(j) =~= s.push(x));
    } else {
        lemma_insert_by_name_split(s.drop_last(), x, j);
        assert(s.drop_last().take(j) + seq![x] + s.drop_last().skip(j) + seq![s.last()] =~= s.take(j) + seq![x] + s.skip(j));
    }
}

fn lex_le_chars(a: &Vec<char>, b: &Vec<char>) -> (r: bool)
    ensures
        r == lex_le(a@, b@),
{
    let mut i: usize = 0;
    assert(a@.skip(0) =~= a@);
    assert(b@.skip(0) =~= b@);
    while i < a.len() && i < b.len() && a[i] == b[i]
        invariant
            i <= a@.len(),
            i <= b@.len(),
            lex_le(a@, b@) == lex_le(a@.skip(i as int), b@.skip(i as int)),
        decreases a.len() - i,
    {
        assert(a@.skip(i as int).drop_first() =~= a@.skip(i + 1));
        assert(b@.skip(i as int).drop_first() =~= b@.skip(i + 1));
        i = i + 1;
    }
    if i == a.len() {
        true
    } else if i == b.len() {
        false
    } else {
        a[i] < b[i]
    }
}

fn name_key_exec(c: &ZoteroCollection) -> (r: Vec<char>)
    ensures
        r@ == name_key(*c),
{
    let l = to_lowercase(c.data.name.as_str());
    crate::text::chars_of(l.as_str())
}

/// Sorts collections by lower-cased name, keeping the order of those whose
/// keys are equal (see `sort_by_name`).
pub fn sort_collections(v: Vec<ZoteroCollection>) -> (r: Vec<ZoteroCollection>)
    ensures
        r@ == sort_by_name(v@),
{
    let mut out: Vec<ZoteroCollection> = Vec::new();
    let mut keys: Vec<Vec<char>> = Vec::new();
    let mut rest = v;
    let ghost all = rest@;
    let n = rest.len();
    let mut i: usize = 0;
    assert(all.skip(0) =~= all);
    while rest.len() > 0
        invariant
            i + rest@.len() == all.len(),
            all.len() == n,
            rest@ =~= all.skip(i as int),
            out@ == sort_by_name(all.take(i as int)),
            keys@.len() == out@.len(),
            forall|t: int| 0 <= t < keys@.len() ==> (#[trigger] keys@[t])@ == name_key(out@[t]),
        decreases rest.len(),
    {
        let x = rest.remove(0);
        assert(x == all[i as int]);
        assert(all.take(i + 1).drop_last() =~= all.take(i as int));
        let xk = name_key_exec(&x);
        let ghost s = out@;
        let mut j: usize = out.len();
        while j > 0 && !lex_le_chars(&keys[j - 1], &xk)
            invariant
                j <= out@.len(),
                keys@.len() == out@.len(),
                forall|t: int| 0 <= t < keys@.len() ==> (#[trigger] keys@[t])@ == name_key(out@[t]),
                xk@ == name_key(x),
                s == out@,
                forall|t: int| j <= t < s.len() ==> !lex_le(name_key(#[trigger] s[t]), name_key(x)),
            decreases j,
        {
            j = j - 1;
        }
        proof {
            if j > 0 {
                assert(keys@[j - 1]@ == name_key(s[j - 1]));
            }
            lemma_insert_by_name_split(s, x, j as int);
        }
        let ghost ok = keys@;
        out.insert(j, x);
        keys.insert(j, xk);
        assert(out@ =~= s.take(j as int) + seq![x] + s.skip(j as int));
        i = i + 1;
        assert(rest@ =~= all.skip(i as int));
        assert forall|t: int| 0 <= t < keys@.len() implies (#[trigger] keys@[t])@ == name_key(out@[t]) by {
            if t < j {
            } else if t == j {
            } else {
                assert(keys@[t] == ok[t - 1]);
                assert(out@[t] == s[t - 1]);
            }
        }
    }
    assert(all.take(i as int) =~= all);
    out
}

// ---------------------------------------------------------------------------
// Searching by name
// ---------------------------------------------------------------------------

/// The lower-cased, trimmed query, when it is not empty.
pub open spec fn spec_name_query(query: Option<Seq<char>>) -> Option<Seq<char>> {
    match query {
        Some(q) => if spec_to_lowercase(trim(q)).len() > 0 {
            Some(spec_to_lowercase(trim(q)))
        } else {
            None
        },
        None => None,
    }
}

/// The lower-cased, trimmed query, when it is not empty.
pub fn name_query(query: &Option<String>) -> (r: Option<String>)
    ensures
        crate::types::opt_view(r) == spec_name_query(crate::types::opt_view(*query)),
{
    match query {
        Some(q) => {
            let t = trim_str(q.as_str());
            let l = to_lowercase(t.as_str());
            if l.as_str().is_empty() {
                None
            } else {
                Some(l)
            }
        },
        None => None,
    }
}

/// The line of a collection found by name, numbered `idx`.
pub open spec fn match_line(c: ZoteroCollection, idx: nat) -> Seq<char> {
    decimal(idx) + ". "@ + c.data.name@ + " ("@ + c.key@ + ")"@
}

/// The collections whose lower-cased name contains `query_lower`, sorted by
/// name and numbered, or "No collections matched.".
pub open spec fn spec_query_report(cs: Seq<ZoteroCollection>, query_lower: Seq<char>) -> Seq<char> {
    let found = sort_by_name(cs.filter(|c: ZoteroCollection| contains(name_key(c), query_lower)));
    if found.len() == 0 {
        "No collections matched."@
    } else {
        join(Seq::new(found.len(), |i: int| match_line(found[i], (i + 1) as nat)), "\n"@)
    }
}

/// Reports the collections whose name contains a query (see `spec_query_report`).
pub fn query_report(cs: Vec<ZoteroCollection>, query_lower: &str) -> (r: String)
    ensures
        r@ == spec_query_report(cs@, query_lower@),
{
    let ghost all = cs@;
    let ghost pred = |c: ZoteroCollection| contains(name_key(c), query_lower@);
    let mut kept: Vec<ZoteroCollection> = Vec::new();
    let mut rest = cs;
    let n = rest.len();
    let mut i: usize = 0;
    proof {
        reveal(Seq::filter);
    }
    assert(all.skip(0) =~= all);
    assert(all.take(0).filter(pred) =~= Seq::<ZoteroCollection>::empty());
    while rest.len() > 0
        invariant
            i + rest@.len() == all.len(),
            all.len() == n,
            rest@ =~= all.skip(i as int),
            pred == (|c: ZoteroCollection| contains(name_key(c), query_lower@)),
            kept@ == all.take(i as int).filter(pred),
        decreases rest.len(),
    {
        proof {
            reveal(Seq::filter);
        }
        let c = rest.remove(0);
        assert(c == all[i as int]);
        assert(all.take(i + 1).drop_last() =~= all.take(i as int));
        let k = to_lowercase(c.data.name.as_str());
        if contains_str(k.as_str(), query_lower) {
            kept.push(c);
        }
        i = i + 1;
        assert(rest@ =~= all.skip(i as int));
    }
    assert(all.take(i as int) =~= all);
    let found = sort_collections(kept);
    if found.len() == 0 {
        return owned("No collections matched.");
    }
    let mut lines: Vec<String> = Vec::new();
    let mut j: usize = 0;
    while j < found.len()
        invariant
            j <= found@.len(),
            views(lines@) == Seq::new(j as nat, |t: int| match_line(found@[t], (t + 1) as nat)),
        decreases found.len() - j,
    {
        let mut line = decimal_string((j + 1) as u64);
        push_str(&mut line, ". ");
        push_str(&mut line, found[j].data.name.as_str());
        push_str(&mut line, " (");
        push_str(&mut line, found[j].key.as_str());
        push_str(&mut line, ")");
        let ghost before = views(lines@);
        lines.push(line);
        assert(views(lines@) =~= before.push(line@));
        j = j + 1;
        assert(views(lines@) =~= Seq::new(j as nat, |t: int| match_line(found@[t], (t + 1) as nat)));
    }
    join_strs(&lines, "\n")
}

// ---------------------------------------------------------------------------
// The items of a collection
// ---------------------------------------------------------------------------

/// The report of a collection's items: a heading and their summaries, or a
/// note that it has none.
pub open spec fn spec_collection_items_report(name: Seq<char>, items: Seq<ZoteroItem>) -> Seq<char> {
    if items.len() == 0 {
        "Collection '"@ + name + "' has no items."@
    } else {
        join(
            seq!["# Collection: "@ + name, Seq::<char>::empty()] + Seq::new(
                items.len(),
                |i: int| join(item_result_lines(items[i], Some((i + 1) as usize), true), "\n"@),
            ),
            "\n\n"@,
        )
    }
}

/// Reports the items of a collection (see `spec_collection_items_report`).
pub fn collection_items_report(name: &str, items: &[ZoteroItem]) -> (r: String)
    ensures
        r@ == spec_collection_items_report(name@, items@),
{
    if items.len() == 0 {
        return concat3("Collection '", name, "' has no items.");
    }
    let mut lines: Vec<String> = Vec::new();
    lines.push(concat2("# Collection: ", name));
    lines.push(String::new());
    let ghost head = seq!["# Collection: "@ + name@, Seq::<char>::empty()];
    assert(views(lines@) =~= head);
    let mut i: usize = 0;
    while i < items.len()
        invariant
            i <= items@.len(),
            views(lines@) == head + Seq::new(
                i as nat,
                |j: int| join(item_result_lines(items@[j], Some((j + 1) as usize), true), "\n"@),
            ),
        decreases items.len() - i,
    {
        let b = crate::formatters::format_item_result(&items[i], Some(i + 1), true);
        let ghost before = views(lines@);
        lines.push(b);
        assert(views(lines@) =~= before.push(b@));
        i = i + 1;
        assert(views(lines@) =~= head + Seq::new(
            i as nat,
            |j: int| join(item_result_lines(items@[j], Some((j + 1) as usize), true), "\n"@),
        ));
    }
    join_strs(&lines, "\n\n")
}

// ---------------------------------------------------------------------------
// The tree of collections
// ---------------------------------------------------------------------------

/// The keys of the collections.
pub open spec fn keys_of(cs: Seq<ZoteroCollection>) -> Seq<Seq<char>> {
    cs.map_values(|c: ZoteroCollection| c.key@)
}

/// The parent of a collection, when it is one of `cs`.
pub open spec fn parent_within(cs: Seq<ZoteroCollection>, c: ZoteroCollection) -> Option<Seq<char>> {
    match spec_parent_collection_key(c.data) {
        Some(p) => if keys_of(cs).contains(p) {
            Some(p)
        } else {
            None
        },
        None => None,
    }
}

/// The collections of `list` whose parent among `cs` is `want`.
pub open spec fn with_parent(cs: Seq<ZoteroCollection>, list: Seq<ZoteroCollection>, want: Option<Seq<char>>) -> Seq<ZoteroCollection>
    decreases list.len(),
{
    if list.len() == 0 {
        Seq::<ZoteroCollection>::empty()
    } else {
        let prev = with_parent(cs, list.drop_last(), want);
        if parent_within(cs, list.last()) == want {
            prev.push(list.last())
        } else {
            prev
        }
    }
}

/// The collections without a parent among `cs`, sorted by name.
pub open spec fn roots(cs: Seq<ZoteroCollection>) -> Seq<ZoteroCollection> {
    sort_by_name(with_parent(cs, cs, None))
}

/// The collections whose parent is `key`, sorted by name.
pub open spec fn kids(cs: Seq<ZoteroCollection>, key: Seq<char>) -> Seq<ZoteroCollection> {
    sort_by_name(with_parent(cs, cs, Some(key)))
}

/// `n` copies of two spaces.
pub open spec fn indent(n: nat) -> Seq<char>
    decreases n,
{
    if n == 0 {
        Seq::<char>::empty()
    } else {
        indent((n - 1) as nat) + "  "@
    }
}

/// The line of a collection at depth `depth`.
pub open spec fn tree_line(c: ZoteroCollection, depth: nat) -> Seq<char> {
    indent(depth) + "- "@ + c.data.name@ + " ("@ + c.key@ + ")"@
}

/// The lines of a collection and, below it, of its sub-collections, walked
/// at most `fuel` levels down.
pub open spec fn walk(cs: Seq<ZoteroCollection>, c: ZoteroCollection, depth: nat, fuel: nat) -> Seq<Seq<char>>
    decreases fuel, 0nat,
{
    seq![tree_line(c, depth)] + if fuel == 0 {
        Seq::<Seq<char>>::empty()
    } else {
        walk_list(cs, kids(cs, c.key@), depth + 1, (fuel - 1) as nat)
    }
}

/// The lines of each collection of `list` and of what lies below it.
pub open spec fn walk_list(cs: Seq<ZoteroCollection>, list: Seq<ZoteroCollection>, depth: nat, fuel: nat) -> Seq<Seq<char>>
    decreases fuel, list.len(),
{
    if list.len() == 0 {
        Seq::<Seq<char>>::empty()
    } else {
        walk_list(cs, list.drop_last(), depth, fuel) + walk(cs, list.last(), depth, fuel)
    }
}

/// The tree of collections: each root, then its sub-collections indented
/// below it, depth first, every level sorted by name; "No collections
/// found." when there are none. A path from a root meets each collection
/// once (each has one parent), so it is shorter than the number of
/// collections, which bounds the walk.
pub open spec fn spec_tree_report(cs: Seq<ZoteroCollection>) -> Seq<char> {
    if cs.len() == 0 {
        "No collections found."@
    } else {
        join(walk_list(cs, roots(cs), 0, cs.len()), "\n"@)
    }
}

/// The collections at the positions `idx`.
pub open spec fn at(cs: Seq<ZoteroCollection>, idx: Seq<usize>) -> Seq<ZoteroCollection> {
    idx.map_values(|i: usize| cs[i as int])
}

/// Whether every position of `idx` is a position of `cs`.
pub open spec fn in_range(cs: Seq<ZoteroCollection>, idx: Seq<usize>) -> bool {
    forall|t: int| 0 <= t < idx.len() ==> (#[trigger] idx[t]) < cs.len()
}

fn sort_positions(cs: &Vec<ZoteroCollection>, idx: Vec<usize>) -> (r: Vec<usize>)
    requires
        in_range(cs@, idx@),
    ensures
        in_range(cs@, r@),
        at(cs@, r@) == sort_by_name(at(cs@, idx@)),
{
    let mut out: Vec<usize> = Vec::new();
    let mut keys: Vec<Vec<char>> = Vec::new();
    let mut i: usize = 0;
    let ghost src = at(cs@, idx@);
    while i < idx.len()
        invariant
            i <= idx@.len(),
            in_range(cs@, idx@),
            in_range(cs@, out@),
            src == at(cs@, idx@),
            at(cs@, out@) == sort_by_name(src.take(i as int)),
            keys@.len() == out@.len(),
            forall|t: int| 0 <= t < keys@.len() ==> (#[trigger] keys@[t])@ == name_key(cs@[out@[t] as int]),
        decreases idx.len() - i,
    {
        assert(src.take(i + 1).drop_last() =~= src.take(i as int));
        let p = idx[i];
        let ghost x = cs@[p as int];
        assert(src.take(i + 1).last() == x);
        let xk = name_key_exec(&cs[p]);
        let ghost s = at(cs@, out@);
        let mut j: usize = out.len();
        while j > 0 && !lex_le_chars(&keys[j - 1], &xk)
            invariant
                j <= out@.len(),
                keys@.len() == out@.len(),
                in_range(cs@, out@),
                forall|t: int| 0 <= t < keys@.len() ==> (#[trigger] keys@[t])@ == name_key(cs@[out@[t] as int]),
                xk@ == name_key(x),
                s == at(cs@, out@),
                forall|t: int| j <= t < s.len() ==> !lex_le(name_key(#[trigger] s[t]), name_key(x)),
            decreases j,
        {
            j = j - 1;
        }
        proof {
            if j > 0 {
                assert(keys@[j - 1]@ == name_key(s[j - 1]));
            }
            lemma_insert_by_name_split(s, x, j as int);
        }
        let ghost ok = keys@;
        let ghost oo = out@;
        out.insert(j, p);
        keys.insert(j, xk);
        assert(at(cs@, out@) =~= s.take(j as int) + seq![x] + s.skip(j as int));
        i = i + 1;
        assert forall|t: int| 0 <= t < keys@.len() implies (#[trigger] keys@[t])@ == name_key(cs@[out@[t] as int]) by {
            if t < j {
            } else if t == j {
            } else {
                assert(keys@[t] == ok[t - 1]);
                assert(out@[t] == oo[t - 1]);
            }
        }
        assert forall|t: int| 0 <= t < out@.len() implies (#[trigger] out@[t]) < cs@.len() by {
            if t < j {
                assert(out@[t] == oo[t]);
            } else if t == j {
            } else {
                assert(out@[t] == oo[t - 1]);
            }
        }
    }
    assert(src.take(idx@.len() as int) =~= src);
    out
}

fn key_present(cs: &Vec<ZoteroCollection>, k: &str) -> (r: bool)
    ensures
        r == keys_of(cs@).contains(k@),
{
    let mut i: usize = 0;
    while i < cs.len()
        invariant
            i <= cs@.len(),
            forall|j: int| 0 <= j < i ==> cs@[j].key@ != k@,
        decreases cs.len() - i,
    {
        if crate::text::str_eq(cs[i].key.as_str(), k) {
            assert(keys_of(cs@)[i as int] == k@);
            return true;
        }
        i = i + 1;
    }
    assert(!keys_of(cs@).contains(k@)) by {
        if keys_of(cs@).contains(k@) {
            let j = choose|j: int| 0 <= j < keys_of(cs@).len() && keys_of(cs@)[j] == k@;
            assert(cs@[j].key@ == k@);
        }
    }
    false
}

fn parent_within_exec(cs: &Vec<ZoteroCollection>, c: &ZoteroCollection) -> (r: Option<String>)
    ensures
        crate::types::opt_view(r) == parent_within(cs@, *c),
{
    match c.data.parent_collection_key() {
        Some(p) => {
            if key_present(cs, p) {
                Some(owned(p))
            } else {
                None
            }
        },
        None => None,
    }
}

/// The positions of the collections whose parent is `parent` (or which have
/// no parent among `cs`, when `parent` is `None`), sorted by name.
fn kid_positions(cs: &Vec<ZoteroCollection>, parent: Option<&str>) -> (r: Vec<usize>)
    ensures
        in_range(cs@, r@),
        at(cs@, r@) == sort_by_name(
            with_parent(
                cs@,
                cs@,
                match parent {
                    Some(p) => Some(p@),
                    None => None,
                },
            ),
        ),
{
    let ghost want = match parent {
        Some(p) => Some(p@),
        None => None::<Seq<char>>,
    };
    let mut idx: Vec<usize> = Vec::new();
    let mut i: usize = 0;
    assert(at(cs@, idx@) =~= with_parent(cs@, cs@.take(0), want));
    while i < cs.len()
        invariant
            i <= cs@.len(),
            want == (match parent {
                Some(p) => Some(p@),
                None => None::<Seq<char>>,
            }),
            in_range(cs@, idx@),
            at(cs@, idx@) == with_parent(cs@, cs@.take(i as int), want),
        decreases cs.len() - i,
    {
        assert(cs@.take(i + 1).drop_last() =~= cs@.take(i as int));
        assert(cs@.take(i + 1).last() == cs@[i as int]);
        let pw = parent_within_exec(cs, &cs[i]);
        let hit = match (&pw, parent) {
            (Some(a), Some(b)) => crate::text::str_eq(a.as_str(), b),
            (None, None) => true,
            _ => false,
        };
        assert(hit == (parent_within(cs@, cs@[i as int]) == want));
        let ghost before = at(cs@, idx@);
        if hit {
            idx.push(i);
            assert(at(cs@, idx@) =~= before.push(cs@[i as int]));
        } else {
            assert(at(cs@, idx@) =~= before);
        }
        i = i + 1;
    }
    assert(cs@.take(cs@.len() as int) =~= cs@);
    sort_positions(cs, idx)
}

fn indent_exec(depth: usize) -> (r: String)
    ensures
        r@ == indent(depth as nat),
{
    let mut out = String::new();
    let mut d: usize = 0;
    while d < depth
        invariant
            d <= depth,
            out@ == indent(d as nat),
        decreases depth - d,
    {
        push_str(&mut out, "  ");
        d = d + 1;
    }
    out
}

fn walk_exec(cs: &Vec<ZoteroCollection>, c: usize, depth: usize, fuel: usize, lines: &mut Vec<String>)
    requires
        c < cs@.len(),
        depth + fuel <= usize::MAX,
    ensures
        views(final(lines)@) == views(old(lines)@) + walk(cs@, cs@[c as int], depth as nat, fuel as nat),
    decreases fuel, 0nat,
{
    let ghost start = views(lines@);
    let mut line = indent_exec(depth);
    push_str(&mut line, "- ");
    push_str(&mut line, cs[c].data.name.as_str());
    push_str(&mut line, " (");
    push_str(&mut line, cs[c].key.as_str());
    push_str(&mut line, ")");
    lines.push(line);
    assert(views(lines@) =~= start + seq![tree_line(cs@[c as int], depth as nat)]);
    if fuel > 0 {
        let ks = kid_positions(cs, Some(cs[c].key.as_str()));
        let ghost mid = views(lines@);
        walk_list_exec(cs, &ks, depth + 1, fuel - 1, lines);
        assert(at(cs@, ks@) == kids(cs@, cs@[c as int].key@));
    } else {
        assert(views(lines@) =~= start + walk(cs@, cs@[c as int], depth as nat, fuel as nat));
    }
}

fn walk_list_exec(cs: &Vec<ZoteroCollection>, list: &Vec<usize>, depth: usize, fuel: usize, lines: &mut Vec<String>)
    requires
        in_range(cs@, list@),
        depth + fuel <= usize::MAX,
    ensures
        views(final(lines)@) == views(old(lines)@) + walk_list(cs@, at(cs@, list@), depth as nat, fuel as nat),
    decreases fuel, list@.len(),
{
    let ghost start = views(lines@);
    let mut i: usize = 0;
    assert(at(cs@, list@).take(0) =~= Seq::<ZoteroCollection>::empty());
    assert(views(lines@) =~= start + walk_list(cs@, at(cs@, list@).take(0), depth as nat, fuel as nat));
    while i < list.len()
        invariant
            i <= list@.len(),
            in_range(cs@, list@),
            depth + fuel <= usize::MAX,
            views(lines@) == start + walk_list(cs@, at(cs@, list@).take(i as int), depth as nat, fuel as nat),
        decreases list@.len() - i,
    {
        assert(at(cs@, list@).take(i + 1).drop_last() =~= at(cs@, list@).take(i as int));
        assert(at(cs@, list@).take(i + 1).last() == cs@[list@[i as int] as int]);
        let ghost before = views(lines@);
        walk_exec(cs, list[i], depth, fuel, lines);
        i = i + 1;
        assert(views(lines@) =~= start + walk_list(cs@, at(cs@, list@).take(i as int), depth as nat, fuel as nat));
    }
    assert(at(cs@, list@).take(list@.len() as int) =~= at(cs@, list@));
}

/// Formats the tree of collections (see `spec_tree_report`).
pub fn tree_report(cs: &Vec<ZoteroCollection>) -> (r: String)
    ensures
        r@ == spec_tree_report(cs@),
{
    if cs.len() == 0 {
        return owned("No collections found.");
    }
    let rs = kid_positions(cs, None);
    let mut lines: Vec<String> = Vec::new();
    assert(views(lines@) =~= Seq::<Seq<char>>::empty());
    walk_list_exec(cs, &rs, 0, cs.len(), &mut lines);
    assert(at(cs@, rs@) == roots(cs@));
    assert(views(lines@) =~= walk_list(cs@, roots(cs@), 0, cs@.len()));
    join_strs(&lines, "\n")
}

// ---------------------------------------------------------------------------
// Resolving references
// ---------------------------------------------------------------------------

/// A collection reference: "collection reference cannot be empty" when
/// blank, the key itself when it has the shape of a key, else a name to
/// look up (`None`).
pub open spec fn spec_classify_ref(r: Seq<char>) -> Result<Option<Seq<char>>, Seq<char>> {
    if trim(r).len() == 0 {
        Err("collection reference cannot be empty"@)
    } else if crate::validators::spec_is_collection_key(trim(r)) {
        Ok(Some(trim(r)))
    } else {
        Ok(None)
    }
}

/// Classifies a collection reference (see `spec_classify_ref`).
pub fn classify_ref(r: &str) -> (out: Result<Option<String>, String>)
    ensures
        match out {
            Ok(Some(k)) => spec_classify_ref(r@) == Ok::<Option<Seq<char>>, Seq<char>>(Some(k@)),
            Ok(None) => spec_classify_ref(r@) == Ok::<Option<Seq<char>>, Seq<char>>(None),
            Err(e) => spec_classify_ref(r@) == Err::<Option<Seq<char>>, Seq<char>>(e@),
        },
{
    let t = trim_str(r);
    if t.as_str().is_empty() {
        return Err(owned("collection reference cannot be empty"));
    }
    proof {
        crate::text::lemma_trim_idempotent(r@);
    }
    if crate::validators::is_collection_key(t.as_str()) {
        Ok(Some(t))
    } else {
        Ok(None)
    }
}

/// The key of the collection a name designates among `cs` (exactly, then
/// ignoring case, then as part of a name), or "Collection not found: ..." .
pub open spec fn spec_resolve_name(cs: Seq<ZoteroCollection>, name: Seq<char>) -> Result<Seq<char>, Seq<char>> {
    let found = crate::identifiers::spec_match_collection_names(cs, seq![name]);
    if found.len() == 0 {
        Err("Collection not found: "@ + trim(name))
    } else {
        Ok(found[0])
    }
}

/// Resolves a collection name to its key (see `spec_resolve_name`).
pub fn resolve_name(cs: &[ZoteroCollection], name: &str) -> (out: Result<String, String>)
    ensures
        match out {
            Ok(k) => spec_resolve_name(cs@, name@) == Ok::<Seq<char>, Seq<char>>(k@),
            Err(e) => spec_resolve_name(cs@, name@) == Err::<Seq<char>, Seq<char>>(e@),
        },
{
    let names = vec![owned(name)];
    assert(names@.map_values(|n: String| n@) =~= seq![name@]);
    let found = crate::identifiers::match_collection_names(cs, names.as_slice());
    if found.len() == 0 {
        let t = trim_str(name);
        Err(concat2("Collection not found: ", t.as_str()))
    } else {
        assert(views(found@)[0] == found@[0]@);
        Ok(found[0].clone())
    }
}

// ---------------------------------------------------------------------------
// Managing collections
// ---------------------------------------------------------------------------

/// What a request to manage collections asks.
#[derive(Debug, Clone, Copy, PartialEq, Eq, Structural)]
pub enum ManageAction {
    Create,
    Delete,
    AddItems,
    RemoveItems,
}

/// The action named, or the error for an unknown one.
pub open spec fn spec_manage_action(action: Seq<char>) -> Result<ManageAction, Seq<char>> {
    if action == "create"@ {
        Ok(ManageAction::Create)
    } else if action == "delete"@ {
        Ok(ManageAction::Delete)
    } else if action == "add_items"@ {
        Ok(ManageAction::AddItems)
    } else if action == "remove_items"@ {
        Ok(ManageAction::RemoveItems)
    } else {
        Err("Invalid action: "@ + action + ". Must be one of: create, delete, add_items, remove_items"@)
    }
}

/// Reads the action of a request (see `spec_manage_action`).
pub fn manage_action(action: &str) -> (out: Result<ManageAction, String>)
    ensures
        match out {
            Ok(a) => spec_manage_action(action@) == Ok::<ManageAction, Seq<char>>(a),
            Err(e) => spec_manage_action(action@) == Err::<ManageAction, Seq<char>>(e@),
        },
{
    if crate::text::str_eq(action, "create") {
        Ok(ManageAction::Create)
    } else if crate::text::str_eq(action, "delete") {
        Ok(ManageAction::Delete)
    } else if crate::text::str_eq(action, "add_items") {
        Ok(ManageAction::AddItems)
    } else if crate::text::str_eq(action, "remove_items") {
        Ok(ManageAction::RemoveItems)
    } else {
        Err(concat3("Invalid action: ", action, ". Must be one of: create, delete, add_items, remove_items"))
    }
}

/// A required text argument, trimmed: `missing` when absent or blank.
pub open spec fn spec_required(value: Option<Seq<char>>, missing: Seq<char>) -> Result<Seq<char>, Seq<char>> {
    let t = match value {
        Some(v) => trim(v),
        None => Seq::<char>::empty(),
    };
    if t.len() == 0 {
        Err(missing)
    } else {
        Ok(t)
    }
}

/// A required text argument, trimmed (see `spec_required`).
pub fn required_arg(value: &Option<String>, missing: &str) -> (out: Result<String, String>)
    ensures
        match out {
            Ok(v) => spec_required(crate::types::opt_view(*value), missing@) == Ok::<Seq<char>, Seq<char>>(v@),
            Err(e) => spec_required(crate::types::opt_view(*value), missing@) == Err::<Seq<char>, Seq<char>>(e@),
        },
{
    let t = match value {
        Some(v) => trim_str(v.as_str()),
        None => String::new(),
    };
    if t.as_str().is_empty() {
        Err(owned(missing))
    } else {
        Ok(t)
    }
}

/// The data of a new collection: its name, and its parent's key or `false`.
pub fn new_collection_data(name: String, parent: Option<String>) -> (r: ZoteroCollectionData)
    ensures
        r.key is None,
        r.version is None,
        r.name == name,
        r.parent_collection matches Some(p) && jview(p) == match parent {
            Some(k) => JsonSpec::Str(k@),
            None => JsonSpec::Bool(false),
        },
{
    let p = match parent {
        Some(k) => JsonValue::Str(k),
        None => JsonValue::Bool(false),
    };
    ZoteroCollectionData { key: None, version: None, name, parent_collection: Some(p) }
}

/// The key a create request returned: the first value of its "success"
/// member, when that is a string.
pub open spec fn spec_created_key(data: Option<JsonSpec>) -> Option<Seq<char>> {
    match data {
        Some(d) => match json_get(d, "success"@) {
            Some(s) => match json_object(s) {
                Some(entries) => if entries.len() > 0 {
                    json_str(entries[0].1)
                } else {
                    None
                },
                None => None,
            },
            None => None,
        },
        None => None,
    }
}

/// The message after creating a collection, with its key when the reply
/// gave one (see `spec_created_key`).
pub open spec fn spec_created_message(name: Seq<char>, data: Option<JsonSpec>) -> Seq<char> {
    match spec_created_key(data) {
        Some(k) => if k.len() > 0 {
            "Collection created: "@ + name + " ("@ + k + ")"@
        } else {
            "Collection created: "@ + name
        },
        None => "Collection created: "@ + name,
    }
}

/// The message after creating a collection (see `spec_created_message`).
pub fn created_message(name: &str, data: &Option<JsonValue>) -> (r: String)
    ensures
        r@ == spec_created_message(
            name@,
            match data {
                Some(d) => Some(jview(*d)),
                None => None,
            },
        ),
{
    proof {
        reveal_strlit("success");
    }
    let key: Option<&str> = match data {
        Some(d) => match d.get("success") {
            Some(sv) => match sv.as_object() {
                Some(entries) => {
                    if entries.len() > 0 {
                        assert(crate::json::entries_view(entries@)[0].1 == jview(entries@[0].1));
                        entries[0].1.as_str()
                    } else {
                        None
                    }
                },
                None => None,
            },
            None => None,
        },
        None => None,
    };
    match key {
        Some(k) => {
            if k.is_empty() {
                concat2("Collection created: ", name)
            } else {
                let mut out = concat3("Collection created: ", name, " (");
                push_str(&mut out, k);
                push_str(&mut out, ")");
                out
            }
        },
        None => concat2("Collection created: ", name),
    }
}

/// The message after deleting a collection.
pub fn deleted_message(name: &str, key: &str) -> (r: String)
    ensures
        r@ == "Collection deleted: "@ + name@ + " ("@ + key@ + ")"@,
{
    let mut out = concat3("Collection deleted: ", name, " (");
    push_str(&mut out, key);
    push_str(&mut out, ")");
    out
}

/// The report after adding items to a collection or removing them.
pub open spec fn spec_links_report(action: Seq<char>, key: Seq<char>, requested: nat, changed: nat) -> Seq<char> {
    "Action: "@ + action + "\nCollection: "@ + key + "\nItems requested: "@ + decimal(requested) + "\nCollection links changed: "@
        + decimal(changed)
}

/// The report after adding or removing items (see `spec_links_report`).
pub fn links_report(action: &str, key: &str, requested: usize, changed: usize) -> (r: String)
    ensures
        r@ == spec_links_report(action@, key@, requested as nat, changed as nat),
{
    let mut out = concat2("Action: ", action);
    push_str(&mut out, "\nCollection: ");
    push_str(&mut out, key);
    push_str(&mut out, "\nItems requested: ");
    push_str(&mut out, decimal_string(requested as u64).as_str());
    push_str(&mut out, "\nCollection links changed: ");
    push_str(&mut out, decimal_string(changed as u64).as_str());
    out
}

} // verus!
