//! Reading, editing and deleting items.
//!
//! Tags are edited through a table keyed by lower-cased name, as the server
//! does with a hash map; here the table keeps its entries in the order in
//! which their keys first entered it, one of the orders the map could give.

use vstd::prelude::*;

use crate::formatters::{concat2, concat3, item_tags, spec_clean_html, tag_names, text_or};
use crate::notes::{field_string, field_text, or_default, plain_tags};
use crate::text::{decimal, decimal_string, join, join_strs, owned, push_str, spec_to_lowercase, to_lowercase, trim, trim_str, views};
use crate::types::{opt_view, ZoteroItem, ZoteroItemData, ZoteroTag};
use crate::validators::{spec_dedupe, spec_parse_str_list, StringOrList};

verus! {

broadcast use vstd::std_specs::vec::group_vec_axioms;

// ---------------------------------------------------------------------------
// Tag operations
// ---------------------------------------------------------------------------

/// A table of tags keyed by lower-cased name, in the order keys entered it.
pub type TagTable = Seq<(Seq<char>, Seq<char>)>;

/// The position of key `k` in the table, if it is there.
pub open spec fn table_find(t: TagTable, k: Seq<char>) -> Option<int>
    decreases t.len(),
{
    if t.len() == 0 {
        None
    } else if t.last().0 == k {
        Some(t.len() - 1)
    } else {
        table_find(t.drop_last(), k)
    }
}

/// The table with `v` stored under `k`: in place when `k` is there, else at the end.
pub open spec fn table_insert(t: TagTable, k: Seq<char>, v: Seq<char>) -> TagTable {
    match table_find(t, k) {
        Some(i) => t.update(i, (k, v)),
        None => t.push((k, v)),
    }
}

/// The table without the entry of `k`.
pub open spec fn table_remove(t: TagTable, k: Seq<char>) -> TagTable {
    match table_find(t, k) {
        Some(i) => t.remove(i),
        None => t,
    }
}

/// The table of the current tags: each non-blank tag under its lower-cased
/// name, a later tag replacing an earlier one with the same key.
pub open spec fn current_table(tags: Seq<Seq<char>>) -> TagTable
    decreases tags.len(),
{
    if tags.len() == 0 {
        Seq::<(Seq<char>, Seq<char>)>::empty()
    } else {
        let prev = current_table(tags.drop_last());
        if trim(tags.last()).len() == 0 {
            prev
        } else {
            table_insert(prev, spec_to_lowercase(tags.last()), tags.last())
        }
    }
}

/// The table after adding each tag of `add` in turn.
pub open spec fn table_add_all(t: TagTable, add: Seq<Seq<char>>) -> TagTable
    decreases add.len(),
{
    if add.len() == 0 {
        t
    } else {
        let prev = table_add_all(t, add.drop_last());
        table_insert(prev, spec_to_lowercase(add.last()), add.last())
    }
}

/// The table after removing the key of each tag of `remove`.
pub open spec fn table_remove_all(t: TagTable, remove: Seq<Seq<char>>) -> TagTable
    decreases remove.len(),
{
    if remove.len() == 0 {
        t
    } else {
        table_remove(table_remove_all(t, remove.drop_last()), spec_to_lowercase(remove.last()))
    }
}

/// The tag names after the operations: the current tags, those of `add`
/// put in (replacing a tag with the same lower-cased name), those of
/// `remove` taken out by lower-cased name.
pub open spec fn spec_tag_ops(current: Seq<Seq<char>>, add: Seq<Seq<char>>, remove: Seq<Seq<char>>) -> Seq<Seq<char>> {
    table_remove_all(table_add_all(current_table(current), add), remove).map_values(|e: (Seq<char>, Seq<char>)| e.1)
}

/// The table as exec data: keys and names side by side.
pub struct ExecTable {
    pub keys: Vec<String>,
    pub names: Vec<String>,
}

/// The content of an exec table.
pub open spec fn exec_table_view(t: ExecTable) -> TagTable {
    Seq::new(t.keys@.len(), |i: int| (t.keys@[i]@, t.names@[i]@))
}

/// Whether the two columns of an exec table have the same length.
pub open spec fn exec_table_wf(t: ExecTable) -> bool {
    t.keys@.len() == t.names@.len()
}

fn find_key(t: &ExecTable, k: &String) -> (r: Option<usize>)
    requires
        exec_table_wf(*t),
    ensures
        match r {
            Some(i) => table_find(exec_table_view(*t), k@) == Some(i as int) && i < t.keys@.len(),
            None => table_find(exec_table_view(*t), k@) is None,
        },
{
    let ghost tv = exec_table_view(*t);
    let mut j: usize = t.keys.len();
    assert(tv.take(j as int) =~= tv);
    while j > 0
        invariant
            j <= t.keys@.len(),
            exec_table_wf(*t),
            tv == exec_table_view(*t),
            table_find(tv, k@) == table_find(tv.take(j as int), k@),
        decreases j,
    {
        assert(tv.take(j as int).drop_last() =~= tv.take(j - 1));
        if t.keys[j - 1] == *k {
            return Some(j - 1);
        }
        j = j - 1;
    }
    None
}

fn exec_insert(t: &mut ExecTable, k: String, v: String)
    requires
        exec_table_wf(*old(t)),
    ensures
        exec_table_wf(*final(t)),
        exec_table_view(*final(t)) == table_insert(exec_table_view(*old(t)), k@, v@),
{
    let ghost before = exec_table_view(*t);
    match find_key(t, &k) {
        Some(i) => {
            t.names.set(i, v);
            t.keys.set(i, k);
            assert(exec_table_view(*t) =~= before.update(i as int, (k@, v@)));
        },
        None => {
            t.keys.push(k);
            t.names.push(v);
            assert(exec_table_view(*t) =~= before.push((k@, v@)));
        },
    }
}

fn exec_remove(t: &mut ExecTable, k: &String)
    requires
        exec_table_wf(*old(t)),
    ensures
        exec_table_wf(*final(t)),
        exec_table_view(*final(t)) == table_remove(exec_table_view(*old(t)), k@),
{
    let ghost before = exec_table_view(*t);
    match find_key(t, k) {
        Some(i) => {
            t.keys.remove(i);
            t.names.remove(i);
            assert(exec_table_view(*t) =~= before.remove(i as int));
        },
        None => {},
    }
}

/// The names of tags.
pub fn tag_name_strings(tags: &[ZoteroTag]) -> (r: Vec<String>)
    ensures
        views(r@) == tag_names(tags@),
{
    crate::formatters::tag_name_list(tags)
}

/// Applies tag additions and removals to a list of tags (see
/// `spec_tag_ops`); the resulting tags have no type.
pub fn apply_tag_ops(current: &[ZoteroTag], add: &[String], remove: &[String]) -> (r: Vec<ZoteroTag>)
    ensures
        plain_tags(r@, spec_tag_ops(tag_names(current@), views(add@), views(remove@))),
{
    let names = tag_name_strings(current);
    let ghost cv = views(names@);
    let mut t = ExecTable { keys: Vec::new(), names: Vec::new() };
    assert(exec_table_view(t) =~= current_table(cv.take(0)));
    let mut i: usize = 0;
    while i < names.len()
        invariant
            i <= names@.len(),
            cv == views(names@),
            exec_table_wf(t),
            exec_table_view(t) == current_table(cv.take(i as int)),
        decreases names.len() - i,
    {
        assert(cv.take(i + 1).drop_last() =~= cv.take(i as int));
        assert(cv.take(i + 1).last() == names@[i as int]@);
        if !trim_str(names[i].as_str()).as_str().is_empty() {
            let k = to_lowercase(names[i].as_str());
            exec_insert(&mut t, k, names[i].clone());
        }
        i = i + 1;
    }
    assert(cv.take(names@.len() as int) =~= cv);
    let ghost base = exec_table_view(t);
    let ghost av = views(add@);
    let mut a: usize = 0;
    while a < add.len()
        invariant
            a <= add@.len(),
            av == views(add@),
            exec_table_wf(t),
            exec_table_view(t) == table_add_all(base, av.take(a as int)),
        decreases add.len() - a,
    {
        assert(av.take(a + 1).drop_last() =~= av.take(a as int));
        assert(av.take(a + 1).last() == add@[a as int]@);
        let k = to_lowercase(add[a].as_str());
        exec_insert(&mut t, k, add[a].clone());
        a = a + 1;
    }
    assert(av.take(add@.len() as int) =~= av);
    let ghost added = exec_table_view(t);
    let ghost rv = views(remove@);
    let mut q: usize = 0;
    while q < remove.len()
        invariant
            q <= remove@.len(),
            rv == views(remove@),
            exec_table_wf(t),
            exec_table_view(t) == table_remove_all(added, rv.take(q as int)),
        decreases remove.len() - q,
    {
        assert(rv.take(q + 1).drop_last() =~= rv.take(q as int));
        assert(rv.take(q + 1).last() == remove@[q as int]@);
        let k = to_lowercase(remove[q].as_str());
        exec_remove(&mut t, &k);
        q = q + 1;
    }
    assert(rv.take(remove@.len() as int) =~= rv);
    let ghost fin = exec_table_view(t);
    let out_names = t.names;
    assert(views(out_names@) =~= fin.map_values(|e: (Seq<char>, Seq<char>)| e.1));
    crate::notes::tags_named(out_names)
}

/// Whether two lists of tag names hold the same names once deduplicated:
/// the deduplicated lists have the same length and every name of the first
/// is in the second (both are free of repeats, so this is equality as sets).
pub open spec fn same_tag_set(before: Seq<Seq<char>>, after: Seq<Seq<char>>) -> bool {
    let b = crate::validators::spec_dedupe(before);
    let a = crate::validators::spec_dedupe(after);
    b.len() == a.len() && forall|i: int| 0 <= i < b.len() ==> a.contains(#[trigger] b[i])
}

/// Whether editing the tags left their names unchanged (see `same_tag_set`).
pub fn tags_unchanged(before: &[ZoteroTag], after: &[ZoteroTag]) -> (r: bool)
    ensures
        r == same_tag_set(tag_names(before@), tag_names(after@)),
{
    let b = crate::validators::dedupe_strings(tag_name_strings(before));
    let a = crate::validators::dedupe_strings(tag_name_strings(after));
    if b.len() != a.len() {
        return false;
    }
    let mut i: usize = 0;
    while i < b.len()
        invariant
            i <= b@.len(),
            b@.len() == a@.len(),
            views(b@) == crate::validators::spec_dedupe(tag_names(before@)),
            views(a@) == crate::validators::spec_dedupe(tag_names(after@)),
            forall|j: int| 0 <= j < i ==> views(a@).contains(#[trigger] views(b@)[j]),
        decreases b.len() - i,
    {
        assert(views(b@)[i as int] == b@[i as int]@);
        if !contains_string(&a, &b[i]) {
            assert(!views(a@).contains(views(b@)[i as int]));
            assert(views(b@) == crate::validators::spec_dedupe(tag_names(before@)));
            assert(views(a@) == crate::validators::spec_dedupe(tag_names(after@)));
            assert(!same_tag_set(tag_names(before@), tag_names(after@)));
            return false;
        }
        i = i + 1;
    }
    true
}

fn contains_string(v: &Vec<String>, s: &String) -> (b: bool)
    ensures
        b == views(v@).contains(s@),
{
    let mut i: usize = 0;
    while i < v.len()
        invariant
            i <= v.len(),
            forall|j: int| 0 <= j < i ==> v@[j]@ != s@,
        decreases v.len() - i,
    {
        if v[i] == *s {
            assert(views(v@)[i as int] == s@);
            return true;
        }
        i = i + 1;
    }
    assert(!views(v@).contains(s@)) by {
        if views(v@).contains(s@) {
            let j = choose|j: int| 0 <= j < views(v@).len() && views(v@)[j] == s@;
            assert(v@[j]@ == s@);
        }
    }
    false
}

// ---------------------------------------------------------------------------
// Children
// ---------------------------------------------------------------------------

/// The first `n` characters of `s`.
pub open spec fn first_chars(s: Seq<char>, n: nat) -> Seq<char> {
    if s.len() <= n {
        s
    } else {
        s.take(n as int)
    }
}

/// The line of a child in a group of kind `kind`.
pub open spec fn child_line(item: ZoteroItem, kind: Seq<char>) -> Seq<char> {
    if kind == "attachment"@ {
        let title = match item.data.title {
            Some(t) => t@,
            None => text_or(item.data.filename, "Attachment"@),
        };
        "- "@ + title + " ("@ + item.key@ + ") ["@ + text_or(item.data.content_type, "unknown"@) + "]"@
    } else if kind == "note"@ {
        let preview = trim(first_chars(spec_clean_html(field_text(item.data.note), true), 160));
        "- "@ + or_default(preview, "(empty note)"@) + " ("@ + item.key@ + ")"@
    } else {
        "- "@ + item.data.item_type@ + ": "@ + text_or(item.data.title, "(untitled)"@) + " ("@ + item.key@ + ")"@
    }
}

/// The lines of a group of children: one per child, or "- none".
pub open spec fn group_lines(items: Seq<ZoteroItem>, kind: Seq<char>) -> Seq<Seq<char>> {
    if items.len() == 0 {
        seq!["- none"@]
    } else {
        items.map_values(|it: ZoteroItem| child_line(it, kind))
    }
}

fn child_line_exec(item: &ZoteroItem, kind: &str) -> (r: String)
    ensures
        r@ == child_line(*item, kind@),
{
    proof {
        reveal_strlit("Attachment");
        reveal_strlit("unknown");
        reveal_strlit("(empty note)");
        reveal_strlit("(untitled)");
    }
    if crate::text::str_eq(kind, "attachment") {
        let title = match &item.data.title {
            Some(t) => t.clone(),
            None => owned(crate::formatters::str_or(&item.data.filename, "Attachment")),
        };
        let mut out = concat3("- ", title.as_str(), " (");
        push_str(&mut out, item.key.as_str());
        push_str(&mut out, ") [");
        push_str(&mut out, crate::formatters::str_or(&item.data.content_type, "unknown"));
        push_str(&mut out, "]");
        out
    } else if crate::text::str_eq(kind, "note") {
        let body = field_string(&item.data.note);
        let cleaned = crate::formatters::clean_html(body.as_str(), true);
        let v = crate::text::chars_of(cleaned.as_str());
        let n: usize = if v.len() <= 160 {
            v.len()
        } else {
            160
        };
        let head = crate::text::string_from_range(&v, 0, n);
        assert(head@ =~= first_chars(cleaned@, 160));
        let preview = trim_str(head.as_str());
        let shown = crate::notes::or_default_str(preview.as_str(), "(empty note)");
        let mut out = concat3("- ", shown.as_str(), " (");
        push_str(&mut out, item.key.as_str());
        push_str(&mut out, ")");
        out
    } else {
        let mut out = concat3("- ", item.data.item_type.as_str(), ": ");
        push_str(&mut out, crate::formatters::str_or(&item.data.title, "(untitled)"));
        push_str(&mut out, " (");
        push_str(&mut out, item.key.as_str());
        push_str(&mut out, ")");
        out
    }
}

/// Formats a group of children of kind `kind` (see `group_lines`).
pub fn format_children_group(items: &[ZoteroItem], kind: &str) -> (r: Vec<String>)
    ensures
        views(r@) == group_lines(items@, kind@),
{
    let mut out: Vec<String> = Vec::new();
    if items.len() == 0 {
        out.push(owned("- none"));
        assert(views(out@) =~= seq!["- none"@]);
        return out;
    }
    let mut i: usize = 0;
    while i < items.len()
        invariant
            i <= items@.len(),
            views(out@) == items@.take(i as int).map_values(|it: ZoteroItem| child_line(it, kind@)),
        decreases items.len() - i,
    {
        let line = child_line_exec(&items[i], kind);
        let ghost before = views(out@);
        out.push(line);
        assert(views(out@) =~= before.push(line@));
        assert(items@.take(i + 1).map_values(|it: ZoteroItem| child_line(it, kind@)) =~= items@.take(i as int).map_values(
            |it: ZoteroItem| child_line(it, kind@),
        ).push(child_line(items@[i as int], kind@)));
        i = i + 1;
    }
    assert(items@.take(items@.len() as int) =~= items@);
    out
}

/// The children of kind `kind`: attachments, notes, or the others.
pub open spec fn children_of(children: Seq<ZoteroItem>, kind: Seq<char>) -> Seq<ZoteroItem> {
    if kind == "attachment"@ {
        children.filter(|c: ZoteroItem| c.data.item_type@ == "attachment"@)
    } else if kind == "note"@ {
        children.filter(|c: ZoteroItem| c.data.item_type@ == "note"@)
    } else {
        children.filter(|c: ZoteroItem| c.data.item_type@ != "attachment"@ && c.data.item_type@ != "note"@)
    }
}

/// The section listing an item's children by kind.
pub open spec fn spec_children_section(children: Seq<ZoteroItem>) -> Seq<char> {
    if children.len() == 0 {
        "## Children\n\nThis item has no children."@
    } else {
        join(
            seq!["## Children"@, Seq::<char>::empty(), "### Attachments"@] + group_lines(
                children_of(children, "attachment"@),
                "attachment"@,
            ) + seq![Seq::<char>::empty(), "### Notes"@] + group_lines(children_of(children, "note"@), "note"@)
                + seq![Seq::<char>::empty(), "### Others"@] + group_lines(children_of(children, "other"@), "other"@),
            "\n"@,
        )
    }
}

/// Splits children into attachments, notes and the others, each in order.
pub fn partition_children(children: Vec<ZoteroItem>) -> (r: (Vec<ZoteroItem>, Vec<ZoteroItem>, Vec<ZoteroItem>))
    ensures
        r.0@ == children_of(children@, "attachment"@),
        r.1@ == children_of(children@, "note"@),
        r.2@ == children_of(children@, "other"@),
{
    let ghost all = children@;
    let ghost pa = |c: ZoteroItem| c.data.item_type@ == "attachment"@;
    let ghost pn = |c: ZoteroItem| c.data.item_type@ == "note"@;
    let ghost po = |c: ZoteroItem| c.data.item_type@ != "attachment"@ && c.data.item_type@ != "note"@;
    let mut atts: Vec<ZoteroItem> = Vec::new();
    let mut notes: Vec<ZoteroItem> = Vec::new();
    let mut others: Vec<ZoteroItem> = Vec::new();
    let mut rest = children;
    let n = rest.len();
    let mut i: usize = 0;
    proof {
        reveal(Seq::filter);
    }
    assert(all.skip(0) =~= all);
    assert(all.take(0).filter(pa) =~= Seq::<ZoteroItem>::empty());
    assert(all.take(0).filter(pn) =~= Seq::<ZoteroItem>::empty());
    assert(all.take(0).filter(po) =~= Seq::<ZoteroItem>::empty());
    while rest.len() > 0
        invariant
            i + rest@.len() == all.len(),
            all.len() == n,
            rest@ =~= all.skip(i as int),
            pa == (|c: ZoteroItem| c.data.item_type@ == "attachment"@),
            pn == (|c: ZoteroItem| c.data.item_type@ == "note"@),
            po == (|c: ZoteroItem| c.data.item_type@ != "attachment"@ && c.data.item_type@ != "note"@),
            atts@ == all.take(i as int).filter(pa),
            notes@ == all.take(i as int).filter(pn),
            others@ == all.take(i as int).filter(po),
        decreases rest.len(),
    {
        proof {
            reveal(Seq::filter);
            reveal_strlit("attachment");
            reveal_strlit("note");
        }
        let it = rest.remove(0);
        assert(it == all[i as int]);
        assert(all.take(i + 1).drop_last() =~= all.take(i as int));
        assert(all.take(i + 1).last() == it);
        let ghost ta = all.take(i as int);
        if crate::text::str_eq(it.data.item_type.as_str(), "attachment") {
            assert(it.data.item_type@ == "attachment"@);
            assert("attachment"@.len() == 10);
            assert("note"@.len() == 4);
            assert("attachment"@ != "note"@);
            assert(pa(it));
            assert(!pn(it));
            assert(!po(it));
            atts.push(it);
        } else if crate::text::str_eq(it.data.item_type.as_str(), "note") {
            assert(pn(it) && !po(it) && !pa(it));
            notes.push(it);
        } else {
            assert(!pn(it) && po(it) && !pa(it));
            others.push(it);
        }
        assert(all.take(i + 1).filter(pa) == (if pa(it) { ta.filter(pa).push(it) } else { ta.filter(pa) }));
        assert(all.take(i + 1).filter(pn) == (if pn(it) { ta.filter(pn).push(it) } else { ta.filter(pn) }));
        assert(all.take(i + 1).filter(po) == (if po(it) { ta.filter(po).push(it) } else { ta.filter(po) }));
        i = i + 1;
        assert(rest@ =~= all.skip(i as int));
    }
    assert(all.take(i as int) =~= all);
    proof {
        reveal_strlit("other");
        reveal_strlit("attachment");
        reveal_strlit("note");
        assert("other"@.len() == 5);
        assert("attachment"@.len() == 10);
        assert("note"@.len() == 4);
    }
    assert(children_of(all, "attachment"@) == all.filter(pa));
    assert(children_of(all, "note"@) == all.filter(pn));
    assert(children_of(all, "other"@) == all.filter(po));
    (atts, notes, others)
}

/// Formats the section listing an item's children (see
/// `spec_children_section`).
pub fn children_section(children: Vec<ZoteroItem>) -> (r: String)
    ensures
        r@ == spec_children_section(children@),
{
    if children.len() == 0 {
        return owned("## Children\n\nThis item has no children.");
    }
    let ghost all = children@;
    let (atts, notes, others) = partition_children(children);
    let mut lines: Vec<String> = Vec::new();
    lines.push(owned("## Children"));
    lines.push(String::new());
    lines.push(owned("### Attachments"));
    let ghost l1 = views(lines@);
    crate::library::append_lines(&mut lines, format_children_group(atts.as_slice(), "attachment"));
    let ghost l2 = views(lines@);
    lines.push(String::new());
    lines.push(owned("### Notes"));
    let ghost l3 = views(lines@);
    crate::library::append_lines(&mut lines, format_children_group(notes.as_slice(), "note"));
    let ghost l4 = views(lines@);
    lines.push(String::new());
    lines.push(owned("### Others"));
    let ghost l5 = views(lines@);
    crate::library::append_lines(&mut lines, format_children_group(others.as_slice(), "other"));
    assert(l1 =~= seq!["## Children"@, Seq::<char>::empty(), "### Attachments"@]);
    assert(l3 =~= l2 + seq![Seq::<char>::empty(), "### Notes"@]);
    assert(l5 =~= l4 + seq![Seq::<char>::empty(), "### Others"@]);
    assert(views(lines@) =~= seq!["## Children"@, Seq::<char>::empty(), "### Attachments"@] + group_lines(
        children_of(all, "attachment"@),
        "attachment"@,
    ) + seq![Seq::<char>::empty(), "### Notes"@] + group_lines(children_of(all, "note"@), "note"@)
        + seq![Seq::<char>::empty(), "### Others"@] + group_lines(children_of(all, "other"@), "other"@));
    join_strs(&lines, "\n")
}

// ---------------------------------------------------------------------------
// Sections of an item
// ---------------------------------------------------------------------------

/// Whether the section `name` is asked for: by default only "metadata".
pub open spec fn spec_wants(sections: Seq<Seq<char>>, name: Seq<char>) -> bool {
    if sections.len() == 0 {
        name == "metadata"@
    } else {
        sections.contains(name)
    }
}

/// Whether the section `name` is asked for (see `spec_wants`).
pub fn wants_section(sections: &Vec<String>, name: &str) -> (r: bool)
    ensures
        r == spec_wants(views(sections@), name@),
{
    if sections.len() == 0 {
        return crate::text::str_eq(name, "metadata");
    }
    let target = owned(name);
    contains_string(sections, &target)
}

/// The text of a full-text reply worth showing: its content trimmed, when
/// there is some.
pub open spec fn spec_usable_text(content: Option<Seq<char>>) -> Option<Seq<char>> {
    match content {
        Some(c) => if trim(c).len() > 0 {
            Some(trim(c))
        } else {
            None
        },
        None => None,
    }
}

/// The text of a full-text reply worth showing (see `spec_usable_text`).
pub fn usable_text(content: &Option<String>) -> (r: Option<String>)
    ensures
        crate::types::opt_view(r) == spec_usable_text(crate::types::opt_view(*content)),
{
    match content {
        Some(c) => {
            let t = trim_str(c.as_str());
            if t.as_str().is_empty() {
                None
            } else {
                Some(t)
            }
        },
        None => None,
    }
}

/// A page count, or "?".
pub open spec fn count_text(n: Option<i64>) -> Seq<char> {
    match n {
        Some(v) => crate::text::signed_decimal(v as int),
        None => "?"@,
    }
}

/// The full-text section: the text found (empty when none), with the
/// indexed and total page counts when either is known.
pub open spec fn spec_fulltext_section(content: Seq<char>, indexed: Option<i64>, total: Option<i64>) -> Seq<char> {
    if content.len() == 0 {
        "## Full Text\n\nNo indexed full text content available."@
    } else if indexed is Some || total is Some {
        "## Full Text\n\nIndexed pages: "@ + count_text(indexed) + "/"@ + count_text(total) + "\n\n"@ + content
    } else {
        "## Full Text\n\n"@ + content
    }
}

fn count_text_exec(n: Option<i64>) -> (r: String)
    ensures
        r@ == count_text(n),
{
    match n {
        Some(v) => crate::text::signed_decimal_string(v),
        None => owned("?"),
    }
}

/// Formats the full-text section (see `spec_fulltext_section`).
pub fn fulltext_section(content: &str, indexed: Option<i64>, total: Option<i64>) -> (r: String)
    ensures
        r@ == spec_fulltext_section(content@, indexed, total),
{
    if content.is_empty() {
        return owned("## Full Text\n\nNo indexed full text content available.");
    }
    if indexed.is_some() || total.is_some() {
        let mut out = owned("## Full Text\n\nIndexed pages: ");
        let ip = count_text_exec(indexed);
        push_str(&mut out, ip.as_str());
        push_str(&mut out, "/");
        let tp = count_text_exec(total);
        push_str(&mut out, tp.as_str());
        push_str(&mut out, "\n\n");
        push_str(&mut out, content);
        out
    } else {
        concat2("## Full Text\n\n", content)
    }
}

/// The BibTeX section of an item.
pub fn bibtex_section(item: &ZoteroItem) -> (r: String)
    ensures
        r@ == "## BibTeX\n\n"@ + join(crate::formatters::bibtex_lines(*item), "\n"@),
{
    let b = crate::formatters::generate_bibtex(item);
    concat2("## BibTeX\n\n", b.as_str())
}

// ---------------------------------------------------------------------------
// Batch tag updates
// ---------------------------------------------------------------------------

/// How an update request is carried out.
#[derive(Debug, Clone, Copy, PartialEq, Eq, Structural)]
pub enum UpdateMode {
    /// Edit the tags of the items a selector picks.
    Batch,
    /// Edit one item.
    Single,
    /// Neither a selector nor an item key was given.
    MissingKey,
}

/// The mode of an update: a batch when a selector is given and no item key,
/// a single edit when an item key is given, else an error.
pub open spec fn spec_update_mode(has_selector: bool, has_item_key: bool) -> UpdateMode {
    if has_selector && !has_item_key {
        UpdateMode::Batch
    } else if has_item_key {
        UpdateMode::Single
    } else {
        UpdateMode::MissingKey
    }
}

/// The mode of an update (see `spec_update_mode`).
pub fn update_mode(has_selector: bool, has_item_key: bool) -> (r: UpdateMode)
    ensures
        r == spec_update_mode(has_selector, has_item_key),
{
    if has_selector && !has_item_key {
        UpdateMode::Batch
    } else if has_item_key {
        UpdateMode::Single
    } else {
        UpdateMode::MissingKey
    }
}

/// Whether an item carries every required tag, comparing lower-cased names.
pub open spec fn has_required_tags(item: ZoteroItem, required: Seq<Seq<char>>) -> bool {
    let names = tag_names(item_tags(item.data.tags)).map_values(|t: Seq<char>| spec_to_lowercase(t));
    forall|i: int| 0 <= i < required.len() ==> names.contains(spec_to_lowercase(#[trigger] required[i]))
}

fn lower_all(v: &Vec<String>) -> (r: Vec<String>)
    ensures
        views(r@) == views(v@).map_values(|t: Seq<char>| spec_to_lowercase(t)),
{
    let mut out: Vec<String> = Vec::new();
    let mut i: usize = 0;
    while i < v.len()
        invariant
            i <= v@.len(),
            views(out@) == views(v@).take(i as int).map_values(|t: Seq<char>| spec_to_lowercase(t)),
        decreases v.len() - i,
    {
        let l = to_lowercase(v[i].as_str());
        let ghost before = views(out@);
        out.push(l);
        assert(views(out@) =~= before.push(l@));
        assert(views(v@).take(i + 1).map_values(|t: Seq<char>| spec_to_lowercase(t)) =~= views(v@).take(i as int).map_values(
            |t: Seq<char>| spec_to_lowercase(t),
        ).push(spec_to_lowercase(v@[i as int]@)));
        i = i + 1;
    }
    assert(views(v@).take(v@.len() as int) =~= views(v@));
    out
}

/// Whether an item carries every required tag (see `has_required_tags`).
pub fn carries_tags(item: &ZoteroItem, required: &Vec<String>) -> (r: bool)
    ensures
        r == has_required_tags(*item, views(required@)),
{
    let names = tag_name_strings(crate::formatters::tags_slice(&item.data.tags));
    let lower = lower_all(&names);
    let mut i: usize = 0;
    while i < required.len()
        invariant
            i <= required@.len(),
            views(lower@) == tag_names(item_tags(item.data.tags)).map_values(|t: Seq<char>| spec_to_lowercase(t)),
            forall|j: int| 0 <= j < i ==> views(lower@).contains(spec_to_lowercase(#[trigger] views(required@)[j])),
        decreases required.len() - i,
    {
        let want = to_lowercase(required[i].as_str());
        assert(views(required@)[i as int] == required@[i as int]@);
        if !contains_string(&lower, &want) {
            assert(!has_required_tags(*item, views(required@)));
            return false;
        }
        i = i + 1;
    }
    true
}

/// The items of `candidates` that carry every required tag, at most `limit`.
pub open spec fn spec_select_batch(candidates: Seq<ZoteroItem>, required: Seq<Seq<char>>, limit: nat) -> Seq<ZoteroItem>
    decreases candidates.len(),
{
    if candidates.len() == 0 {
        Seq::<ZoteroItem>::empty()
    } else {
        let prev = spec_select_batch(candidates.drop_last(), required, limit);
        if has_required_tags(candidates.last(), required) && prev.len() < limit {
            prev.push(candidates.last())
        } else {
            prev
        }
    }
}

/// Picks the items of a batch (see `spec_select_batch`).
pub fn select_batch(candidates: Vec<ZoteroItem>, required: &Vec<String>, limit: usize) -> (r: Vec<ZoteroItem>)
    ensures
        r@ == spec_select_batch(candidates@, views(required@), limit as nat),
{
    let mut out: Vec<ZoteroItem> = Vec::new();
    let mut rest = candidates;
    let ghost all = rest@;
    let n = rest.len();
    let mut i: usize = 0;
    assert(all.skip(0) =~= all);
    while rest.len() > 0
        invariant
            i + rest@.len() == all.len(),
            all.len() == n,
            rest@ =~= all.skip(i as int),
            out@ == spec_select_batch(all.take(i as int), views(required@), limit as nat),
        decreases rest.len(),
    {
        let it = rest.remove(0);
        assert(it == all[i as int]);
        assert(all.take(i + 1).drop_last() =~= all.take(i as int));
        if carries_tags(&it, required) && out.len() < limit {
            out.push(it);
        }
        i = i + 1;
        assert(rest@ =~= all.skip(i as int));
    }
    assert(all.take(i as int) =~= all);
    out
}

/// How many items the search of a batch asks for: three times the limit,
/// at most 500.
pub fn batch_search_limit(limit: usize) -> (r: usize)
    ensures
        r == (if limit * 3 < 500 { limit * 3 } else { 500 }),
{
    if limit < 167 {
        limit * 3
    } else {
        500
    }
}

/// The tag names an item has after the batch's additions and removals.
pub open spec fn batch_next_names(item: ZoteroItem, add: Seq<Seq<char>>, remove: Seq<Seq<char>>) -> Seq<Seq<char>> {
    spec_tag_ops(tag_names(item_tags(item.data.tags)), add, remove)
}

/// Whether the batch changes the tag names of an item (see `same_tag_set`).
pub open spec fn batch_changes(item: ZoteroItem, add: Seq<Seq<char>>, remove: Seq<Seq<char>>) -> bool {
    !same_tag_set(tag_names(item_tags(item.data.tags)), batch_next_names(item, add, remove))
}

/// The positions of the items whose tags the batch changes, in order.
pub open spec fn changed_positions(items: Seq<ZoteroItem>, add: Seq<Seq<char>>, remove: Seq<Seq<char>>) -> Seq<int>
    decreases items.len(),
{
    if items.len() == 0 {
        Seq::<int>::empty()
    } else {
        let prev = changed_positions(items.drop_last(), add, remove);
        if batch_changes(items.last(), add, remove) {
            prev.push(items.len() - 1)
        } else {
            prev
        }
    }
}

/// A change of the batch: the position of an item and its new tags.
pub struct TagChange {
    pub index: usize,
    pub tags: Vec<ZoteroTag>,
}

/// What a batch update does: the changes to send, in order, the number of
/// items looked at and the number left as they were.
pub struct BatchPlan {
    pub changes: Vec<TagChange>,
    pub processed: usize,
    pub skipped: usize,
}

/// Plans a batch tag update: each item whose tag names the additions and
/// removals change gets a change with its new tags (no type); the others are
/// skipped. Every item is processed, and each is either updated or skipped.
pub fn plan_batch(items: &[ZoteroItem], add: &[String], remove: &[String]) -> (r: BatchPlan)
    ensures
        r.processed == items@.len(),
        r.changes@.len() + r.skipped == r.processed,
        r.changes@.len() == changed_positions(items@, views(add@), views(remove@)).len(),
        forall|k: int|
            0 <= k < r.changes@.len() ==> (#[trigger] r.changes@[k]).index == changed_positions(items@, views(add@), views(remove@))[k]
                && plain_tags(r.changes@[k].tags@, batch_next_names(items@[r.changes@[k].index as int], views(add@), views(remove@))),
{
    let empty: Vec<ZoteroTag> = Vec::new();
    let mut changes: Vec<TagChange> = Vec::new();
    let mut skipped: usize = 0;
    let mut i: usize = 0;
    let ghost a = views(add@);
    let ghost rm = views(remove@);
    assert(items@.take(0) =~= Seq::<ZoteroItem>::empty());
    while i < items.len()
        invariant
            i <= items@.len(),
            empty@.len() == 0,
            a == views(add@),
            rm == views(remove@),
            changes@.len() + skipped == i,
            changes@.len() == changed_positions(items@.take(i as int), a, rm).len(),
            forall|k: int|
                0 <= k < changes@.len() ==> (#[trigger] changes@[k]).index == changed_positions(items@.take(i as int), a, rm)[k]
                    && 0 <= changes@[k].index < i
                    && plain_tags(changes@[k].tags@, batch_next_names(items@[changes@[k].index as int], a, rm)),
        decreases items.len() - i,
    {
        let item = &items[i];
        let current: &[ZoteroTag] = match &item.data.tags {
            Some(v) => v.as_slice(),
            None => empty.as_slice(),
        };
        assert(current@ == item_tags(item.data.tags));
        let next = apply_tag_ops(current, add, remove);
        let same = tags_unchanged(current, next.as_slice());
        proof {
            assert(tag_names(next@) =~= batch_next_names(items@[i as int], a, rm));
            assert(items@.take(i + 1).drop_last() =~= items@.take(i as int));
            assert(items@.take(i + 1).last() == items@[i as int]);
        }
        if same {
            skipped = skipped + 1;
        } else {
            changes.push(TagChange { index: i, tags: next });
        }
        i = i + 1;
    }
    assert(items@.take(items.len() as int) =~= items@);
    BatchPlan { changes, processed: items.len(), skipped }
}

/// The report of a batch update.
pub open spec fn spec_batch_report(processed: nat, updated: nat, skipped: nat) -> Seq<char> {
    "Processed: "@ + decimal(processed) + "\nUpdated: "@ + decimal(updated) + "\nSkipped (no changes): "@ + decimal(skipped)
}

/// The report of a batch update (see `spec_batch_report`).
pub fn batch_report(processed: usize, updated: usize, skipped: usize) -> (r: String)
    ensures
        r@ == spec_batch_report(processed as nat, updated as nat, skipped as nat),
{
    let mut out = owned("Processed: ");
    push_str(&mut out, decimal_string(processed as u64).as_str());
    push_str(&mut out, "\nUpdated: ");
    push_str(&mut out, decimal_string(updated as u64).as_str());
    push_str(&mut out, "\nSkipped (no changes): ");
    push_str(&mut out, decimal_string(skipped as u64).as_str());
    out
}

// ---------------------------------------------------------------------------
// Editing one item
// ---------------------------------------------------------------------------

/// The edits asked for one item. Tags to add and remove are given already
/// deduplicated, and collections to add already resolved to keys.
pub struct ItemEdits {
    pub title: Option<String>,
    pub date: Option<String>,
    pub publication_title: Option<String>,
    pub abstract_note: Option<String>,
    pub url: Option<String>,
    pub extra: Option<String>,
    pub doi: Option<String>,
    pub creators: Option<StringOrList>,
    pub tags: Option<StringOrList>,
    pub add_tags: Vec<String>,
    pub remove_tags: Vec<String>,
    pub add_collections: Vec<String>,
}

/// Whether the DOI edit cannot be carried out: it is not blank and holds no DOI.
pub open spec fn bad_doi(edits: ItemEdits) -> bool {
    edits.doi matches Some(d) && trim(d@).len() > 0 && crate::identifiers::spec_normalize_doi(d@) is None
}

/// The collections of item data.
pub open spec fn data_collections(d: ZoteroItemData) -> Seq<Seq<char>> {
    match d.collections {
        Some(v) => views(v@),
        None => Seq::<Seq<char>>::empty(),
    }
}

/// Whether `r` is `data` with `edits` applied: each given text field
/// replaced (the abstract cleaned of HTML, the DOI normalized, or emptied
/// when blank), the creators parsed from their names, the tags replaced by
/// the given list deduplicated or else edited by the additions and removals,
/// the new collections appended when not present yet, and nothing else changed.
pub open spec fn edited(data: ZoteroItemData, edits: ItemEdits, r: ZoteroItemData) -> bool {
    &&& r == (ZoteroItemData {
        title: r.title,
        date: r.date,
        publication_title: r.publication_title,
        abstract_note: r.abstract_note,
        url: r.url,
        extra: r.extra,
        doi: r.doi,
        creators: r.creators,
        tags: r.tags,
        collections: r.collections,
        ..data
    })
    &&& r.title == (if edits.title is Some { edits.title } else { data.title })
    &&& r.date == (if edits.date is Some { edits.date } else { data.date })
    &&& r.publication_title == (if edits.publication_title is Some { edits.publication_title } else { data.publication_title })
    &&& r.url == (if edits.url is Some { edits.url } else { data.url })
    &&& r.extra == (if edits.extra is Some { edits.extra } else { data.extra })
    &&& match edits.abstract_note {
        Some(a) => opt_view(r.abstract_note) == Some(spec_clean_html(a@, false)),
        None => r.abstract_note == data.abstract_note,
    }
    &&& match edits.doi {
        Some(d) => opt_view(r.doi) == Some(
            if trim(d@).len() == 0 {
                Seq::<char>::empty()
            } else {
                crate::identifiers::spec_normalize_doi(d@).unwrap()
            },
        ),
        None => r.doi == data.doi,
    }
    &&& match edits.creators {
        Some(c) => r.creators matches Some(v) && crate::validators::creators_fields(v@) == crate::validators::spec_parse_creators(
            spec_parse_str_list(Some(c)),
        ),
        None => r.creators == data.creators,
    }
    &&& match edits.tags {
        Some(t) => r.tags matches Some(v) && plain_tags(v@, spec_dedupe(spec_parse_str_list(Some(t)))),
        None => if edits.add_tags@.len() > 0 || edits.remove_tags@.len() > 0 {
            r.tags matches Some(v) && plain_tags(
                v@,
                spec_tag_ops(tag_names(item_tags(data.tags)), views(edits.add_tags@), views(edits.remove_tags@)),
            )
        } else {
            r.tags == data.tags
        },
    }
    &&& if edits.add_collections@.len() > 0 {
        r.collections matches Some(v) && views(v@) == crate::library::distinct_onto(
            data_collections(data),
            views(edits.add_collections@),
        )
    } else {
        r.collections == data.collections
    }
}

fn append_new_keys(existing: Vec<String>, more: &Vec<String>) -> (r: Vec<String>)
    ensures
        views(r@) == crate::library::distinct_onto(views(existing@), views(more@)),
{
    let mut out = existing;
    let ghost start = views(out@);
    let mut i: usize = 0;
    while i < more.len()
        invariant
            i <= more@.len(),
            views(out@) == crate::library::distinct_onto(start, views(more@).take(i as int)),
        decreases more.len() - i,
    {
        assert(views(more@).take(i + 1).drop_last() =~= views(more@).take(i as int));
        assert(views(more@).take(i + 1).last() == more@[i as int]@);
        if !contains_string(&out, &more[i]) {
            let ghost before = views(out@);
            out.push(more[i].clone());
            assert(views(out@) =~= before.push(more@[i as int]@));
        }
        i = i + 1;
    }
    assert(views(more@).take(more@.len() as int) =~= views(more@));
    out
}

/// Applies edits to item data (see `edited`); "Invalid DOI" when the DOI
/// edit holds no DOI (see `bad_doi`).
pub fn apply_item_edits(data: ZoteroItemData, edits: ItemEdits) -> (r: Result<ZoteroItemData, String>)
    ensures
        match r {
            Ok(d) => !bad_doi(edits) && edited(data, edits, d),
            Err(e) => bad_doi(edits) && e@ == "Invalid DOI"@,
        },
{
    let ghost e0 = edits;
    let ghost d0 = data;
    let ItemEdits {
        title,
        date,
        publication_title,
        abstract_note,
        url,
        extra,
        doi,
        creators,
        tags,
        add_tags,
        remove_tags,
        add_collections,
    } = edits;
    let new_doi = match doi {
        Some(d) => {
            if trim_str(d.as_str()).as_str().is_empty() {
                Some(String::new())
            } else {
                match crate::identifiers::normalize_doi(d.as_str()) {
                    Ok(n) => Some(n),
                    Err(e) => {
                        return Err(e);
                    },
                }
            }
        },
        None => None,
    };
    let mut next = data;
    if title.is_some() {
        next.title = title;
    }
    if date.is_some() {
        next.date = date;
    }
    if publication_title.is_some() {
        next.publication_title = publication_title;
    }
    match abstract_note {
        Some(a) => {
            next.abstract_note = Some(crate::formatters::clean_html(a.as_str(), false));
        },
        None => {},
    }
    if url.is_some() {
        next.url = url;
    }
    if extra.is_some() {
        next.extra = extra;
    }
    if new_doi.is_some() {
        next.doi = new_doi;
    }
    match creators {
        Some(c) => {
            let names = crate::validators::parse_str_list(Some(c));
            next.creators = Some(crate::validators::parse_creator_names(names));
        },
        None => {},
    }
    match tags {
        Some(t) => {
            let names = crate::validators::dedupe_strings(crate::validators::parse_str_list(Some(t)));
            next.tags = Some(crate::notes::tags_named(names));
        },
        None => {
            if add_tags.len() > 0 || remove_tags.len() > 0 {
                let current = crate::formatters::tags_slice(&next.tags);
                let edited_tags = apply_tag_ops(current, add_tags.as_slice(), remove_tags.as_slice());
                next.tags = Some(edited_tags);
            }
        },
    }
    if add_collections.len() > 0 {
        let existing = match &next.collections {
            Some(v) => clone_strings(v),
            None => Vec::new(),
        };
        assert(views(existing@) =~= data_collections(d0));
        next.collections = Some(append_new_keys(existing, &add_collections));
    }
    Ok(next)
}

fn clone_strings(v: &Vec<String>) -> (r: Vec<String>)
    ensures
        views(r@) == views(v@),
{
    let mut out: Vec<String> = Vec::new();
    let mut i: usize = 0;
    while i < v.len()
        invariant
            i <= v@.len(),
            views(out@) == views(v@).take(i as int),
        decreases v.len() - i,
    {
        let ghost before = views(out@);
        out.push(v[i].clone());
        assert(views(out@) =~= before.push(v@[i as int]@));
        assert(views(v@).take(i + 1) =~= views(v@).take(i as int).push(v@[i as int]@));
        i = i + 1;
    }
    assert(views(v@).take(v@.len() as int) =~= views(v@));
    out
}

/// Collection references split into keys and names: each non-blank
/// reference trimmed, a key when it has the shape of one.
pub open spec fn spec_split_refs(refs: Seq<Seq<char>>) -> (Seq<Seq<char>>, Seq<Seq<char>>)
    decreases refs.len(),
{
    if refs.len() == 0 {
        (Seq::<Seq<char>>::empty(), Seq::<Seq<char>>::empty())
    } else {
        let (k, n) = spec_split_refs(refs.drop_last());
        let t = trim(refs.last());
        if t.len() == 0 {
            (k, n)
        } else if crate::validators::spec_is_collection_key(t) {
            (k.push(t), n)
        } else {
            (k, n.push(t))
        }
    }
}

/// Splits collection references into keys and names (see `spec_split_refs`).
pub fn split_collection_refs(refs: &Vec<String>) -> (r: (Vec<String>, Vec<String>))
    ensures
        (views(r.0@), views(r.1@)) == spec_split_refs(views(refs@)),
{
    let mut keys: Vec<String> = Vec::new();
    let mut names: Vec<String> = Vec::new();
    let mut i: usize = 0;
    while i < refs.len()
        invariant
            i <= refs@.len(),
            (views(keys@), views(names@)) == spec_split_refs(views(refs@).take(i as int)),
        decreases refs.len() - i,
    {
        assert(views(refs@).take(i + 1).drop_last() =~= views(refs@).take(i as int));
        assert(views(refs@).take(i + 1).last() == refs@[i as int]@);
        let t = trim_str(refs[i].as_str());
        if !t.as_str().is_empty() {
            proof {
                crate::text::lemma_trim_idempotent(refs@[i as int]@);
            }
            if crate::validators::is_collection_key(t.as_str()) {
                let ghost before = views(keys@);
                keys.push(t);
                assert(views(keys@) =~= before.push(trim(refs@[i as int]@)));
            } else {
                let ghost before = views(names@);
                names.push(t);
                assert(views(names@) =~= before.push(trim(refs@[i as int]@)));
            }
        }
        i = i + 1;
    }
    assert(views(refs@).take(refs@.len() as int) =~= views(refs@));
    (keys, names)
}

// ---------------------------------------------------------------------------
// Deleting
// ---------------------------------------------------------------------------

/// The report of a deletion.
pub open spec fn spec_delete_report(requested: nat, deleted: nat, failed: nat, files: nat) -> Seq<char> {
    "Requested: "@ + decimal(requested) + "\nDeleted: "@ + decimal(deleted) + "\nFailed: "@ + decimal(failed) + (if files > 0 {
        "\nWebDAV files deleted: "@ + decimal(files)
    } else {
        Seq::<char>::empty()
    })
}

/// The report of a deletion (see `spec_delete_report`).
pub fn delete_report(requested: usize, deleted: usize, failed: usize, files: usize) -> (r: String)
    ensures
        r@ == spec_delete_report(requested as nat, deleted as nat, failed as nat, files as nat),
{
    let mut out = owned("Requested: ");
    push_str(&mut out, decimal_string(requested as u64).as_str());
    push_str(&mut out, "\nDeleted: ");
    push_str(&mut out, decimal_string(deleted as u64).as_str());
    push_str(&mut out, "\nFailed: ");
    push_str(&mut out, decimal_string(failed as u64).as_str());
    if files > 0 {
        push_str(&mut out, "\nWebDAV files deleted: ");
        push_str(&mut out, decimal_string(files as u64).as_str());
    }
    out
}

// ---------------------------------------------------------------------------
// Requests without work
// ---------------------------------------------------------------------------

/// The answer to a batch update that asks for no tag to be added or removed.
pub fn no_tag_ops(add: &Vec<String>, remove: &Vec<String>) -> (r: Option<&'static str>)
    ensures
        match r {
            Some(m) => add@.len() == 0 && remove@.len() == 0 && m@ == "No tag operations requested."@,
            None => add@.len() > 0 || remove@.len() > 0,
        },
{
    if add.len() == 0 && remove.len() == 0 {
        Some("No tag operations requested.")
    } else {
        None
    }
}

} // verus!
