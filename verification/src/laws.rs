//! Properties of the library that hold across inputs and across calls.

use vstd::prelude::*;

use crate::client::{collections_of, without_key};
use crate::items::{same_tag_set, spec_tag_ops, table_add_all, table_find, table_insert, table_remove, table_remove_all, current_table, TagTable};
use crate::library::{row_of, section_lines, title_keys, doi_keys, spec_duplicates_report, insert_by_lower, lex_le, sort_by_lower, distinct, distinct_onto, gathered, item_collections, item_tag_names, members, shared_keys, first_keys, spec_merge_keys, spec_merged_tags, without};
use crate::text::{join, split_char, spec_to_lowercase, spec_char_to_uppercase};
use crate::types::{opt_view, ZoteroCreator, ZoteroItem, ZoteroTag};
use crate::crossref::{spec_mapped_type, CrossrefWork};
use crate::validators::{distinct_lower, has_lower, lemma_dedupe_props, spec_dedupe, spec_parse_creator, spec_parse_creators, trimmed_nonblank, StringOrList};
use crate::text::{lemma_trim_idempotent, trim, trim_end, trim_start, spec_is_whitespace};
use crate::webdav::hex_lower;
use crate::template_eval::{spec_common, count_attr, attr_or, cut_and_replace, spec_compare_values, text_order};
use crate::numbers::{all_digits, decimal_order, digit_value, digits_value, dot_pos, is_digit, scaled_digits, spec_decimal};
use crate::text::{decimal, digit_char, views};
use crate::text::{ends_with, replace_all, starts_with};
use crate::formatters::{bibtex_lines, spec_bibtex_type, spec_cite_key, spec_escape_html};
use crate::search_engine::{creator_names, creator_search_name, name_part, spec_extract_values};
use crate::arxiv::{spec_arxiv_plan, spec_xml_unescape, collapse_ws, clean_names, spec_parse_arxiv_atom, ArxivSpec};
use crate::text::{split_ws, split_ws_acc, occurs_at};
use crate::template_engine::{outer_pieces, joined_case_acc, trim_char, spec_joined_case, spec_text_case, attr_get, spec_hyphen_to_camel, file_name_char, file_name_chars, spec_valid_file_name, strip_leading_dots};

verus! {

// ---------------------------------------------------------------------------
// Splitting and joining
// ---------------------------------------------------------------------------

proof fn lemma_join_push_last(r: Seq<Seq<char>>, x: char, sep: Seq<char>)
    requires
        r.len() >= 1,
    ensures
        join(r.update(r.len() - 1, r.last().push(x)), sep) == join(r, sep).push(x),
{
    let r2 = r.update(r.len() - 1, r.last().push(x));
    if r.len() == 1 {
    } else {
        assert(r2.drop_last() =~= r.drop_last());
        assert(join(r, sep) + seq![x] =~= join(r.drop_last(), sep) + sep + r.last().push(x));
    }
}

/// Splitting a text at a character and joining the pieces with that
/// character gives the text back.
pub proof fn law_split_then_join(s: Seq<char>, c: char)
    ensures
        join(split_char(s, c), seq![c]) == s,
    decreases s.len(),
{
    if s.len() == 0 {
    } else {
        let r = split_char(s.drop_last(), c);
        law_split_then_join(s.drop_last(), c);
        crate::text::lemma_split_char_nonempty(s.drop_last(), c);
        if s.last() == c {
            assert(r.push(Seq::<char>::empty()).drop_last() =~= r);
            assert(join(r, seq![c]) + seq![c] + Seq::<char>::empty() =~= s);
        } else {
            lemma_join_push_last(r, s.last(), seq![c]);
            assert(s.drop_last().push(s.last()) =~= s);
        }
    }
}

// ---------------------------------------------------------------------------
// Merging duplicates
// ---------------------------------------------------------------------------

proof fn lemma_without_absent(v: Seq<Seq<char>>, x: Seq<char>)
    ensures
        !without(v, x).contains(x),
    decreases v.len(),
{
    if v.len() > 0 {
        lemma_without_absent(v.drop_last(), x);
        let prev = without(v.drop_last(), x);
        if v.last() != x {
            assert forall|i: int| 0 <= i < prev.push(v.last()).len() implies prev.push(v.last())[i] != x by {
                if i < prev.len() {
                    assert(prev.push(v.last())[i] == prev[i]);
                }
            }
        }
    }
}

/// The keeper is never among the duplicates merged into it.
pub proof fn law_keeper_not_merged(keys: Option<StringOrList>, keeper: Seq<char>)
    ensures
        !spec_merge_keys(keys, keeper).contains(keeper),
{
    lemma_without_absent(crate::validators::spec_dedupe(crate::validators::spec_parse_str_list(keys)), keeper);
}

proof fn lemma_distinct_onto_props(base: Seq<Seq<char>>, more: Seq<Seq<char>>)
    requires
        base.no_duplicates(),
    ensures
        distinct_onto(base, more).no_duplicates(),
        forall|i: int| 0 <= i < base.len() ==> distinct_onto(base, more).contains(#[trigger] base[i]),
        forall|i: int| 0 <= i < more.len() ==> distinct_onto(base, more).contains(#[trigger] more[i]),
    decreases more.len(),
{
    if more.len() > 0 {
        lemma_distinct_onto_props(base, more.drop_last());
        let prev = distinct_onto(base, more.drop_last());
        let x = more.last();
        if !prev.contains(x) {
            let next = prev.push(x);
            assert forall|a: int, b: int| 0 <= a < next.len() && 0 <= b < next.len() && a != b implies next[a] != next[b] by {
                if a < prev.len() && b < prev.len() {
                } else if a == prev.len() {
                    assert(next[b] == prev[b]);
                } else {
                    assert(next[a] == prev[a]);
                }
            }
            assert forall|i: int| 0 <= i < base.len() implies next.contains(#[trigger] base[i]) by {
                let j = choose|j: int| 0 <= j < prev.len() && prev[j] == base[i];
                assert(next[j] == base[i]);
            }
            assert forall|i: int| 0 <= i < more.len() implies next.contains(#[trigger] more[i]) by {
                if i < more.len() - 1 {
                    assert(more.drop_last()[i] == more[i]);
                    let j = choose|j: int| 0 <= j < prev.len() && prev[j] == more[i];
                    assert(next[j] == more[i]);
                } else {
                    assert(next[prev.len() as int] == more[i]);
                }
            }
        } else {
            assert forall|i: int| 0 <= i < more.len() implies prev.contains(#[trigger] more[i]) by {
                if i < more.len() - 1 {
                    assert(more.drop_last()[i] == more[i]);
                }
            }
        }
    }
}

proof fn lemma_distinct_props(v: Seq<Seq<char>>)
    ensures
        distinct(v).no_duplicates(),
        forall|i: int| 0 <= i < v.len() ==> distinct(v).contains(#[trigger] v[i]),
    decreases v.len(),
{
    if v.len() > 0 {
        lemma_distinct_props(v.drop_last());
        let prev = distinct(v.drop_last());
        let x = v.last();
        if !prev.contains(x) {
            let next = prev.push(x);
            assert forall|a: int, b: int| 0 <= a < next.len() && 0 <= b < next.len() && a != b implies next[a] != next[b] by {
                if a < prev.len() && b < prev.len() {
                } else if a == prev.len() {
                    assert(next[b] == prev[b]);
                } else {
                    assert(next[a] == prev[a]);
                }
            }
            assert forall|i: int| 0 <= i < v.len() implies next.contains(#[trigger] v[i]) by {
                if i < v.len() - 1 {
                    assert(v.drop_last()[i] == v[i]);
                    let j = choose|j: int| 0 <= j < prev.len() && prev[j] == v[i];
                    assert(next[j] == v[i]);
                } else {
                    assert(next[prev.len() as int] == v[i]);
                }
            }
        } else {
            assert forall|i: int| 0 <= i < v.len() implies prev.contains(#[trigger] v[i]) by {
                if i < v.len() - 1 {
                    assert(v.drop_last()[i] == v[i]);
                }
            }
        }
    }
}

proof fn lemma_gathered_props(items: Seq<ZoteroItem>, names: spec_fn(ZoteroItem) -> Seq<Seq<char>>, base: Seq<Seq<char>>)
    requires
        base.no_duplicates(),
    ensures
        gathered(items, names, base).no_duplicates(),
        forall|i: int| 0 <= i < base.len() ==> gathered(items, names, base).contains(#[trigger] base[i]),
        forall|k: int, i: int|
            0 <= k < items.len() && 0 <= i < names(items[k]).len() ==> gathered(items, names, base).contains(
                #[trigger] names(items[k])[i],
            ),
    decreases items.len(),
{
    if items.len() > 0 {
        lemma_gathered_props(items.drop_last(), names, base);
        let prev = gathered(items.drop_last(), names, base);
        lemma_distinct_onto_props(prev, names(items.last()));
        let next = gathered(items, names, base);
        assert forall|i: int| 0 <= i < base.len() implies next.contains(#[trigger] base[i]) by {
            let j = choose|j: int| 0 <= j < prev.len() && prev[j] == base[i];
            assert(prev.contains(prev[j]));
        }
        assert forall|k: int, i: int| 0 <= k < items.len() && 0 <= i < names(items[k]).len() implies next.contains(
            #[trigger] names(items[k])[i],
        ) by {
            if k < items.len() - 1 {
                assert(items.drop_last()[k] == items[k]);
                let j = choose|j: int| 0 <= j < prev.len() && prev[j] == names(items[k])[i];
                assert(prev.contains(prev[j]));
            }
        }
    }
}

/// The tags of a merged item: each tag of the keeper and of its duplicates
/// is there, and none twice.
pub proof fn law_merged_tags(keeper: ZoteroItem, dups: Seq<ZoteroItem>)
    ensures
        spec_merged_tags(keeper, dups).no_duplicates(),
        forall|i: int| 0 <= i < item_tag_names(keeper).len() ==> spec_merged_tags(keeper, dups).contains(
            #[trigger] item_tag_names(keeper)[i],
        ),
        forall|k: int, i: int|
            0 <= k < dups.len() && 0 <= i < item_tag_names(dups[k]).len() ==> spec_merged_tags(keeper, dups).contains(
                #[trigger] item_tag_names(dups[k])[i],
            ),
{
    let f = |it: ZoteroItem| item_tag_names(it);
    lemma_distinct_props(item_tag_names(keeper));
    lemma_gathered_props(dups, f, distinct(item_tag_names(keeper)));
    let g = gathered(dups, f, distinct(item_tag_names(keeper)));
    assert forall|i: int| 0 <= i < item_tag_names(keeper).len() implies g.contains(#[trigger] item_tag_names(keeper)[i]) by {
        let d = distinct(item_tag_names(keeper));
        let j = choose|j: int| 0 <= j < d.len() && d[j] == item_tag_names(keeper)[i];
        assert(g.contains(d[j]));
    }
    assert forall|k: int, i: int| 0 <= k < dups.len() && 0 <= i < item_tag_names(dups[k]).len() implies g.contains(
        #[trigger] item_tag_names(dups[k])[i],
    ) by {
        assert(f(dups[k]) == item_tag_names(dups[k]));
        assert(g.contains(f(dups[k])[i]));
    }
}

// ---------------------------------------------------------------------------
// Collections of an item
// ---------------------------------------------------------------------------

/// The collections after putting an item in `key`.
pub open spec fn add_key(v: Seq<Seq<char>>, key: Seq<char>) -> Seq<Seq<char>> {
    if v.contains(key) {
        v
    } else {
        v.push(key)
    }
}

/// Putting an item in a collection places it there, and doing it twice is
/// the same as doing it once.
pub proof fn law_add_to_collection(v: Seq<Seq<char>>, key: Seq<char>)
    ensures
        add_key(v, key).contains(key),
        add_key(add_key(v, key), key) == add_key(v, key),
{
    if !v.contains(key) {
        assert(v.push(key)[v.len() as int] == key);
    }
}

/// Taking an item out of a collection leaves no trace of it.
pub proof fn law_remove_from_collection(v: Seq<Seq<char>>, key: Seq<char>)
    ensures
        !without_key(v, key).contains(key),
{
    let f = |k: Seq<char>| k != key;
    if without_key(v, key).contains(key) {
        let i = choose|i: int| 0 <= i < without_key(v, key).len() && without_key(v, key)[i] == key;
        v.lemma_filter_pred(f, i);
    }
}

proof fn lemma_without_absent_key(v: Seq<Seq<char>>, key: Seq<char>)
    requires
        !v.contains(key),
    ensures
        without_key(v, key) == v,
    decreases v.len(),
{
    reveal(Seq::filter);
    if v.len() > 0 {
        let front = v.drop_last();
        assert(!front.contains(key)) by {
            if front.contains(key) {
                let i = choose|i: int| 0 <= i < front.len() && front[i] == key;
                assert(v[i] == key);
            }
        }
        lemma_without_absent_key(front, key);
        assert(v[v.len() - 1] != key);
        assert(front.push(v.last()) =~= v);
    }
}

/// Taking an item out of a collection it was just put in gives back the
/// collections it had, when it was not in that collection before.
pub proof fn law_remove_undoes_add(v: Seq<Seq<char>>, key: Seq<char>)
    requires
        !v.contains(key),
    ensures
        without_key(add_key(v, key), key) == v,
{
    reveal(Seq::filter);
    lemma_without_absent_key(v, key);
    assert(v.push(key).drop_last() =~= v);
}

// ---------------------------------------------------------------------------
// Reports
// ---------------------------------------------------------------------------

/// Every group of duplicates reported has two members or more.
pub proof fn law_groups_have_duplicates(keys: Seq<Seq<char>>, fks: Seq<Seq<char>>)
    ensures
        forall|g: int| 0 <= g < shared_keys(keys, fks).len() ==> members(keys, #[trigger] shared_keys(keys, fks)[g]).len() >= 2,
    decreases fks.len(),
{
    if fks.len() > 0 {
        law_groups_have_duplicates(keys, fks.drop_last());
        let prev = shared_keys(keys, fks.drop_last());
        assert forall|g: int| 0 <= g < shared_keys(keys, fks).len() implies members(keys, #[trigger] shared_keys(keys, fks)[g]).len() >= 2 by {
            if g < prev.len() {
                assert(shared_keys(keys, fks)[g] == prev[g]);
            }
        }
    }
}

/// A list of tags is unchanged when compared with itself.
pub proof fn law_same_tags_reflexive(tags: Seq<Seq<char>>)
    ensures
        same_tag_set(tags, tags),
{
    let d = crate::validators::spec_dedupe(tags);
    assert forall|i: int| 0 <= i < d.len() implies d.contains(#[trigger] d[i]) by {
    }
}

/// An MD5 digest in hexadecimal has two digits per byte.
pub proof fn law_hex_length(bytes: Seq<u8>)
    ensures
        hex_lower(bytes).len() == 2 * bytes.len(),
    decreases bytes.len(),
{
    if bytes.len() > 0 {
        law_hex_length(bytes.drop_last());
    }
}

// ---------------------------------------------------------------------------
// Editing tags
// ---------------------------------------------------------------------------

/// Whether no two entries of a table share a key.
pub open spec fn keys_distinct(t: TagTable) -> bool {
    forall|i: int, j: int| 0 <= i < j < t.len() ==> (#[trigger] t[i]).0 != (#[trigger] t[j]).0
}

/// Whether a table has an entry under `k`.
pub open spec fn has_key(t: TagTable, k: Seq<char>) -> bool {
    exists|i: int| 0 <= i < t.len() && (#[trigger] t[i]).0 == k
}

proof fn lemma_find(t: TagTable, k: Seq<char>)
    ensures
        table_find(t, k) matches Some(i) ==> 0 <= i < t.len() && t[i].0 == k,
        table_find(t, k) is None ==> !has_key(t, k),
        has_key(t, k) ==> table_find(t, k) is Some,
    decreases t.len(),
{
    if t.len() > 0 {
        lemma_find(t.drop_last(), k);
        if t.last().0 != k {
            if has_key(t, k) {
                let i = choose|i: int| 0 <= i < t.len() && (#[trigger] t[i]).0 == k;
                assert(t.drop_last()[i] == t[i]);
            }
            if table_find(t, k) is None {
                assert forall|i: int| 0 <= i < t.len() implies (#[trigger] t[i]).0 != k by {
                    if i < t.len() - 1 {
                        assert(t.drop_last()[i] == t[i]);
                    }
                }
            }
        }
    }
}

proof fn lemma_insert(t: TagTable, k: Seq<char>, v: Seq<char>)
    requires
        keys_distinct(t),
    ensures
        keys_distinct(table_insert(t, k, v)),
        has_key(table_insert(t, k, v), k),
        forall|o: Seq<char>| o != k ==> (has_key(table_insert(t, k, v), o) <==> has_key(t, o)),
{
    lemma_find(t, k);
    let n = table_insert(t, k, v);
    match table_find(t, k) {
        Some(i) => {
            assert(n[i].0 == k);
            assert forall|o: Seq<char>| o != k implies (has_key(n, o) <==> has_key(t, o)) by {
                if has_key(n, o) {
                    let j = choose|j: int| 0 <= j < n.len() && (#[trigger] n[j]).0 == o;
                    assert(t[j].0 == o);
                }
                if has_key(t, o) {
                    let j = choose|j: int| 0 <= j < t.len() && (#[trigger] t[j]).0 == o;
                    assert(n[j].0 == o);
                }
            }
        },
        None => {
            assert(n[t.len() as int].0 == k);
            assert forall|a: int, b: int| 0 <= a < b < n.len() implies (#[trigger] n[a]).0 != (#[trigger] n[b]).0 by {
                if b == t.len() {
                    assert(n[a] == t[a]);
                } else {
                    assert(n[a] == t[a] && n[b] == t[b]);
                }
            }
            assert forall|o: Seq<char>| o != k implies (has_key(n, o) <==> has_key(t, o)) by {
                if has_key(n, o) {
                    let j = choose|j: int| 0 <= j < n.len() && (#[trigger] n[j]).0 == o;
                    assert(j < t.len());
                    assert(t[j].0 == o);
                }
                if has_key(t, o) {
                    let j = choose|j: int| 0 <= j < t.len() && (#[trigger] t[j]).0 == o;
                    assert(n[j].0 == o);
                }
            }
        },
    }
}

proof fn lemma_remove(t: TagTable, k: Seq<char>)
    requires
        keys_distinct(t),
    ensures
        keys_distinct(table_remove(t, k)),
        !has_key(table_remove(t, k), k),
        forall|o: Seq<char>| o != k ==> (has_key(table_remove(t, k), o) <==> has_key(t, o)),
{
    lemma_find(t, k);
    let n = table_remove(t, k);
    match table_find(t, k) {
        Some(i) => {
            assert forall|a: int, b: int| 0 <= a < b < n.len() implies (#[trigger] n[a]).0 != (#[trigger] n[b]).0 by {
                let a2 = if a < i { a } else { a + 1 };
                let b2 = if b < i { b } else { b + 1 };
                assert(n[a] == t[a2] && n[b] == t[b2]);
            }
            if has_key(n, k) {
                let j = choose|j: int| 0 <= j < n.len() && (#[trigger] n[j]).0 == k;
                let j2 = if j < i { j } else { j + 1 };
                assert(n[j] == t[j2]);
                assert(t[i].0 == k);
            }
            assert forall|o: Seq<char>| o != k implies (has_key(n, o) <==> has_key(t, o)) by {
                if has_key(n, o) {
                    let j = choose|j: int| 0 <= j < n.len() && (#[trigger] n[j]).0 == o;
                    let j2 = if j < i { j } else { j + 1 };
                    assert(n[j] == t[j2]);
                }
                if has_key(t, o) {
                    let j = choose|j: int| 0 <= j < t.len() && (#[trigger] t[j]).0 == o;
                    assert(j != i);
                    let j2 = if j < i { j } else { j - 1 };
                    assert(n[j2] == t[j]);
                }
            }
        },
        None => {},
    }
}

proof fn lemma_current_distinct(tags: Seq<Seq<char>>)
    ensures
        keys_distinct(current_table(tags)),
    decreases tags.len(),
{
    if tags.len() > 0 {
        lemma_current_distinct(tags.drop_last());
        if crate::text::trim(tags.last()).len() > 0 {
            lemma_insert(current_table(tags.drop_last()), spec_to_lowercase(tags.last()), tags.last());
        }
    }
}

proof fn lemma_add_all(t: TagTable, add: Seq<Seq<char>>)
    requires
        keys_distinct(t),
    ensures
        keys_distinct(table_add_all(t, add)),
        forall|i: int| 0 <= i < add.len() ==> has_key(table_add_all(t, add), spec_to_lowercase(#[trigger] add[i])),
    decreases add.len(),
{
    if add.len() > 0 {
        lemma_add_all(t, add.drop_last());
        let prev = table_add_all(t, add.drop_last());
        lemma_insert(prev, spec_to_lowercase(add.last()), add.last());
        assert forall|i: int| 0 <= i < add.len() implies has_key(table_add_all(t, add), spec_to_lowercase(#[trigger] add[i])) by {
            if i < add.len() - 1 {
                assert(add.drop_last()[i] == add[i]);
            }
        }
    }
}

proof fn lemma_remove_all(t: TagTable, remove: Seq<Seq<char>>)
    requires
        keys_distinct(t),
    ensures
        keys_distinct(table_remove_all(t, remove)),
        forall|j: int| 0 <= j < remove.len() ==> !has_key(table_remove_all(t, remove), spec_to_lowercase(#[trigger] remove[j])),
        forall|o: Seq<char>|
            (forall|j: int| 0 <= j < remove.len() ==> o != spec_to_lowercase(#[trigger] remove[j])) ==> (has_key(
                table_remove_all(t, remove),
                o,
            ) <==> has_key(t, o)),
    decreases remove.len(),
{
    if remove.len() > 0 {
        lemma_remove_all(t, remove.drop_last());
        let prev = table_remove_all(t, remove.drop_last());
        let k = spec_to_lowercase(remove.last());
        lemma_remove(prev, k);
        assert forall|j: int| 0 <= j < remove.len() implies !has_key(table_remove_all(t, remove), spec_to_lowercase(#[trigger] remove[j])) by {
            if j < remove.len() - 1 {
                assert(remove.drop_last()[j] == remove[j]);
                if spec_to_lowercase(remove[j]) != k {
                }
            }
        }
        assert forall|o: Seq<char>|
            (forall|j: int| 0 <= j < remove.len() ==> o != spec_to_lowercase(#[trigger] remove[j])) implies (has_key(
                table_remove_all(t, remove),
                o,
            ) <==> has_key(t, o)) by {
            assert(o != spec_to_lowercase(remove[remove.len() - 1]));
            assert forall|j: int| 0 <= j < remove.drop_last().len() implies o != spec_to_lowercase(#[trigger] remove.drop_last()[j]) by {
                assert(remove.drop_last()[j] == remove[j]);
            }
        }
    }
}

/// After editing tags: no two tags share a lower-cased name; each tag
/// removed is absent; each tag added is present unless a removal took its
/// lower-cased name away.
pub proof fn law_tag_ops(current: Seq<Seq<char>>, add: Seq<Seq<char>>, remove: Seq<Seq<char>>)
    ensures
        keys_distinct(table_remove_all(table_add_all(current_table(current), add), remove)),
        forall|j: int| 0 <= j < remove.len() ==> !has_key(
            table_remove_all(table_add_all(current_table(current), add), remove),
            spec_to_lowercase(#[trigger] remove[j]),
        ),
        forall|i: int|
            0 <= i < add.len() && (forall|j: int| 0 <= j < remove.len() ==> spec_to_lowercase(add[i]) != spec_to_lowercase(#[trigger] remove[j]))
                ==> has_key(table_remove_all(table_add_all(current_table(current), add), remove), spec_to_lowercase(#[trigger] add[i])),
        spec_tag_ops(current, add, remove) == table_remove_all(table_add_all(current_table(current), add), remove).map_values(
            |e: (Seq<char>, Seq<char>)| e.1,
        ),
{
    lemma_current_distinct(current);
    let t1 = table_add_all(current_table(current), add);
    lemma_add_all(current_table(current), add);
    lemma_remove_all(t1, remove);
}

// ---------------------------------------------------------------------------
// Sorting tags
// ---------------------------------------------------------------------------

proof fn lemma_lex_total(a: Seq<char>, b: Seq<char>)
    ensures
        lex_le(a, b) || lex_le(b, a),
    decreases a.len(),
{
    if a.len() > 0 && b.len() > 0 && a[0] == b[0] {
        lemma_lex_total(a.drop_first(), b.drop_first());
    } else if a.len() > 0 && b.len() > 0 {
        assert(a[0] < b[0] || b[0] < a[0]);
    }
}

proof fn lemma_lex_trans(a: Seq<char>, b: Seq<char>, c: Seq<char>)
    requires
        lex_le(a, b),
        lex_le(b, c),
    ensures
        lex_le(a, c),
    decreases a.len(),
{
    if a.len() > 0 && b.len() > 0 && c.len() > 0 && a[0] == b[0] && b[0] == c[0] {
        lemma_lex_trans(a.drop_first(), b.drop_first(), c.drop_first());
    }
}

/// Whether strings are in order of their lower-cased text.
pub open spec fn sorted_by_lower(s: Seq<Seq<char>>) -> bool {
    forall|i: int, j: int| 0 <= i < j < s.len() ==> lex_le(spec_to_lowercase(#[trigger] s[i]), spec_to_lowercase(#[trigger] s[j]))
}

proof fn lemma_insert_sorted(s: Seq<Seq<char>>, x: Seq<char>)
    requires
        sorted_by_lower(s),
    ensures
        sorted_by_lower(insert_by_lower(s, x)),
        insert_by_lower(s, x).to_multiset() == s.to_multiset().insert(x),
    decreases s.len(),
{
    broadcast use vstd::seq_lib::group_to_multiset_ensures;
    let kx = spec_to_lowercase(x);
    if s.len() == 0 {
        assert(seq![x] =~= s.push(x));
    } else if lex_le(spec_to_lowercase(s.last()), kx) {
        let r = s.push(x);
        assert forall|i: int, j: int| 0 <= i < j < r.len() implies lex_le(spec_to_lowercase(#[trigger] r[i]), spec_to_lowercase(#[trigger] r[j])) by {
            if j == s.len() {
                if i < s.len() - 1 {
                    lemma_lex_trans(spec_to_lowercase(s[i]), spec_to_lowercase(s.last()), kx);
                }
            }
        }
    } else {
        let s2 = s.drop_last();
        let last = s.last();
        assert(sorted_by_lower(s2)) by {
            assert forall|i: int, j: int| 0 <= i < j < s2.len() implies lex_le(spec_to_lowercase(#[trigger] s2[i]), spec_to_lowercase(#[trigger] s2[j])) by {
                assert(s2[i] == s[i] && s2[j] == s[j]);
            }
        }
        lemma_insert_sorted(s2, x);
        let ins = insert_by_lower(s2, x);
        lemma_lex_total(spec_to_lowercase(last), kx);
        assert(s2.push(last) =~= s);
        assert forall|e: Seq<char>| ins.contains(e) implies lex_le(spec_to_lowercase(e), spec_to_lowercase(last)) by {
            assert(ins.to_multiset().count(e) > 0);
            if e != x {
                assert(s2.to_multiset().count(e) > 0);
                let i = choose|i: int| 0 <= i < s2.len() && s2[i] == e;
                assert(s[i] == e);
                assert(lex_le(spec_to_lowercase(s[i]), spec_to_lowercase(s[s.len() - 1])));
            }
        }
        let r = ins.push(last);
        assert forall|i: int, j: int| 0 <= i < j < r.len() implies lex_le(spec_to_lowercase(#[trigger] r[i]), spec_to_lowercase(#[trigger] r[j])) by {
            if j == ins.len() {
                assert(ins.contains(ins[i]));
            } else {
                assert(r[i] == ins[i] && r[j] == ins[j]);
            }
        }
        assert(r.to_multiset() =~= s.to_multiset().insert(x));
    }
}

/// Tags listed by name come in the order of their lower-cased text, and
/// none is lost or repeated: the sorted list is a reordering of the input.
pub proof fn law_sorted_tags(v: Seq<Seq<char>>)
    ensures
        sorted_by_lower(sort_by_lower(v)),
        sort_by_lower(v).to_multiset() == v.to_multiset(),
    decreases v.len(),
{
    broadcast use vstd::seq_lib::group_to_multiset_ensures;
    if v.len() > 0 {
        law_sorted_tags(v.drop_last());
        lemma_insert_sorted(sort_by_lower(v.drop_last()), v.last());
        assert(v.drop_last().push(v.last()) =~= v);
    } else {
        assert(v.to_multiset() =~= Seq::<Seq<char>>::empty().to_multiset());
    }
}

// ---------------------------------------------------------------------------
// Outer brackets
// ---------------------------------------------------------------------------

proof fn lemma_flatten_cons(a: Seq<char>, rest: Seq<Seq<char>>)
    ensures
        (seq![a] + rest).flatten() == a + rest.flatten(),
{
    assert((seq![a] + rest).drop_first() =~= rest);
    assert((seq![a] + rest)[0] == a);
}

proof fn lemma_outer_pieces_join(s: Seq<char>, left: Seq<char>, right: Seq<char>, i: int, start: int, depth: nat)
    requires
        left.len() > 0,
        right.len() > 0,
        0 <= start <= i <= s.len(),
    ensures
        outer_pieces(s, left, right, i, start, depth).flatten() == s.subrange(start, s.len() as int),
    decreases s.len() - i,
{
    let r = outer_pieces(s, left, right, i, start, depth);
    if i >= s.len() {
        if start < s.len() {
            lemma_flatten_cons(s.subrange(start, s.len() as int), Seq::<Seq<char>>::empty());
            assert(Seq::<Seq<char>>::empty().flatten() =~= Seq::<char>::empty());
            assert(s.subrange(start, s.len() as int) + Seq::<char>::empty() =~= s.subrange(start, s.len() as int));
            assert(seq![s.subrange(start, s.len() as int)] + Seq::<Seq<char>>::empty() =~= seq![s.subrange(start, s.len() as int)]);
        } else {
            assert(s.subrange(start, s.len() as int) =~= Seq::<char>::empty());
        }
    } else if occurs_at(s, left, i) {
        if depth == 0 {
            lemma_outer_pieces_join(s, left, right, i + left.len(), i, 1);
            let rest = outer_pieces(s, left, right, i + left.len(), i, 1);
            lemma_flatten_cons(s.subrange(start, i), rest);
            assert(s.subrange(start, i) + s.subrange(i, s.len() as int) =~= s.subrange(start, s.len() as int));
        } else {
            lemma_outer_pieces_join(s, left, right, i + left.len(), start, depth + 1);
        }
    } else if occurs_at(s, right, i) {
        let d: nat = if depth > 0 { (depth - 1) as nat } else { 0 };
        if d == 0 {
            let end = i + right.len();
            lemma_outer_pieces_join(s, left, right, end, end, 0);
            let rest = outer_pieces(s, left, right, end, end, 0);
            lemma_flatten_cons(s.subrange(start, end), rest);
            assert(s.subrange(start, end) + s.subrange(end, s.len() as int) =~= s.subrange(start, s.len() as int));
        } else {
            lemma_outer_pieces_join(s, left, right, i + right.len(), start, d);
        }
    } else {
        lemma_outer_pieces_join(s, left, right, i + 1, start, depth);
    }
}

/// Joining the pieces of a text split around its outermost bracket groups
/// gives the text back.
pub proof fn law_outer_pieces_join(s: Seq<char>, left: Seq<char>, right: Seq<char>)
    requires
        left.len() > 0,
        right.len() > 0,
    ensures
        outer_pieces(s, left, right, 0, 0, 0).flatten() == s,
{
    lemma_outer_pieces_join(s, left, right, 0, 0, 0);
    assert(s.subrange(0, s.len() as int) =~= s);
}

// ---------------------------------------------------------------------------
// File names
// ---------------------------------------------------------------------------

/// Whether a character is kept as it is in a file name.
pub open spec fn kept_in_file_name(c: char) -> bool {
    file_name_char(c) == seq![c]
}

proof fn lemma_file_name_chars_kept(s: Seq<char>)
    ensures
        forall|i: int| 0 <= i < file_name_chars(s).len() ==> kept_in_file_name(#[trigger] file_name_chars(s)[i]),
    decreases s.len(),
{
    if s.len() > 0 {
        lemma_file_name_chars_kept(s.drop_last());
        let prev = file_name_chars(s.drop_last());
        let tail = file_name_char(s.last());
        assert(kept_in_file_name(' '));
        assert forall|i: int| 0 <= i < file_name_chars(s).len() implies kept_in_file_name(#[trigger] file_name_chars(s)[i]) by {
            if i >= prev.len() {
                assert(file_name_chars(s)[i] == tail[i - prev.len()]);
            } else {
                assert(file_name_chars(s)[i] == prev[i]);
            }
        }
    }
}

proof fn lemma_kept_is_fixed(t: Seq<char>)
    requires
        forall|i: int| 0 <= i < t.len() ==> kept_in_file_name(#[trigger] t[i]),
    ensures
        file_name_chars(t) == t,
    decreases t.len(),
{
    if t.len() > 0 {
        lemma_kept_is_fixed(t.drop_last());
        assert(kept_in_file_name(t[t.len() - 1]));
        assert(t.drop_last() + seq![t.last()] =~= t);
    }
}

proof fn lemma_strip_dots_kept(t: Seq<char>)
    requires
        forall|i: int| 0 <= i < t.len() ==> kept_in_file_name(#[trigger] t[i]),
    ensures
        forall|i: int| 0 <= i < strip_leading_dots(t).len() ==> kept_in_file_name(#[trigger] strip_leading_dots(t)[i]),
        strip_leading_dots(t).len() > 0 ==> strip_leading_dots(t)[0] != '.',
    decreases t.len(),
{
    if t.len() > 0 && t[0] == '.' {
        assert forall|i: int| 0 <= i < t.drop_first().len() implies kept_in_file_name(#[trigger] t.drop_first()[i]) by {
            assert(t.drop_first()[i] == t[i + 1]);
        }
        lemma_strip_dots_kept(t.drop_first());
    }
}

/// A valid file name is never empty, does not start with a dot, holds none
/// of the characters a file name may not contain, and is its own valid file
/// name.
pub proof fn law_valid_file_name(s: Seq<char>)
    ensures
        spec_valid_file_name(s).len() > 0,
        spec_valid_file_name(s)[0] != '.',
        forall|i: int| 0 <= i < spec_valid_file_name(s).len() ==> {
            let c = #[trigger] spec_valid_file_name(s)[i];
            c != '/' && c != '\\' && c != '?' && c != '*' && c != ':' && c != '|' && c != '"' && c != '<' && c != '>'
                && c != '\r' && c != '\n' && c != '\t'
        },
        spec_valid_file_name(spec_valid_file_name(s)) == spec_valid_file_name(s),
{
    let t = file_name_chars(s);
    lemma_file_name_chars_kept(s);
    lemma_strip_dots_kept(t);
    let c = strip_leading_dots(t);
    let r = spec_valid_file_name(s);
    assert(".."@.len() == 2 && ".."@[0] == '.') by {
        reveal_strlit("..");
    }
    assert("."@.len() == 1 && "."@[0] == '.') by {
        reveal_strlit(".");
    }
    assert("_"@ == seq!['_']) by {
        reveal_strlit("_");
    }
    assert(kept_in_file_name('_'));
    assert forall|i: int| 0 <= i < r.len() implies kept_in_file_name(#[trigger] r[i]) by {
        if r != c {
            assert(r == seq!['_']);
        }
    }
    lemma_kept_is_fixed(r);
    assert forall|i: int| 0 <= i < r.len() implies {
        let c = #[trigger] r[i];
        c != '/' && c != '\\' && c != '?' && c != '*' && c != ':' && c != '|' && c != '"' && c != '<' && c != '>'
            && c != '\r' && c != '\n' && c != '\t'
    } by {
        let c = r[i];
        assert(kept_in_file_name(c));
        assert(file_name_char(c).len() == 1 && file_name_char(c)[0] == c);
    }
    assert(r.len() > 0 && r[0] != '.');
    assert(strip_leading_dots(r) == r);
}

proof fn lemma_file_name_chars_dots(s: Seq<char>)
    requires
        forall|i: int| 0 <= i < s.len() ==> file_name_char(#[trigger] s[i]).len() == 0 || s[i] == '.',
    ensures
        forall|i: int| 0 <= i < file_name_chars(s).len() ==> #[trigger] file_name_chars(s)[i] == '.',
    decreases s.len(),
{
    if s.len() > 0 {
        lemma_file_name_chars_dots(s.drop_last());
        let prev = file_name_chars(s.drop_last());
        let tail = file_name_char(s.last());
        assert(file_name_char(s[s.len() - 1]).len() == 0 || s[s.len() - 1] == '.');
        assert forall|i: int| 0 <= i < file_name_chars(s).len() implies #[trigger] file_name_chars(s)[i] == '.' by {
            if i >= prev.len() {
                assert(file_name_chars(s)[i] == tail[i - prev.len()]);
                assert(file_name_char('.') == seq!['.']);
            } else {
                assert(file_name_chars(s)[i] == prev[i]);
            }
        }
    }
}

proof fn lemma_strip_all_dots(t: Seq<char>)
    requires
        forall|i: int| 0 <= i < t.len() ==> #[trigger] t[i] == '.',
    ensures
        strip_leading_dots(t).len() == 0,
    decreases t.len(),
{
    if t.len() > 0 {
        assert forall|i: int| 0 <= i < t.drop_first().len() implies #[trigger] t.drop_first()[i] == '.' by {
            assert(t.drop_first()[i] == t[i + 1]);
        }
        lemma_strip_all_dots(t.drop_first());
    }
}

/// A name made only of characters a file name drops and of dots becomes "_".
pub proof fn law_file_name_fallback(s: Seq<char>)
    requires
        forall|i: int| 0 <= i < s.len() ==> file_name_char(#[trigger] s[i]).len() == 0 || s[i] == '.',
    ensures
        spec_valid_file_name(s) == "_"@,
{
    lemma_file_name_chars_dots(s);
    lemma_strip_all_dots(file_name_chars(s));
}

/// A name without hyphens is left as it is by the conversion to camel case
/// (`hyphen_to_camel`).
pub proof fn law_camel_without_hyphens(s: Seq<char>)
    requires
        !s.contains('-'),
    ensures
        spec_hyphen_to_camel(s) == s,
    decreases s.len(),
{
    if s.len() > 0 {
        assert(!s.drop_last().contains('-')) by {
            if s.drop_last().contains('-') {
                let i = choose|i: int| 0 <= i < s.drop_last().len() && s.drop_last()[i] == '-';
                assert(s[i] == '-');
            }
        }
        law_camel_without_hyphens(s.drop_last());
        assert(s[s.len() - 1] != '-');
        if s.len() >= 2 {
            assert(s[s.len() - 2] != '-');
        }
        assert(s.drop_last().push(s.last()) =~= s);
    }
}

/// Conversion to camel case leaves no hyphen, as long as upper-casing
/// (`char::to_uppercase`) a character that follows a hyphen gives none.
pub proof fn law_camel_no_hyphen(s: Seq<char>)
    requires
        forall|i: int|
            0 < i < s.len() && s[i - 1] == '-' && s[i] != '-' ==> !(#[trigger] spec_char_to_uppercase(s[i])).contains('-'),
    ensures
        !spec_hyphen_to_camel(s).contains('-'),
    decreases s.len(),
{
    if s.len() > 0 {
        let q = s.drop_last();
        assert forall|i: int|
            0 < i < q.len() && q[i - 1] == '-' && q[i] != '-' implies !(#[trigger] spec_char_to_uppercase(q[i])).contains('-') by {
            assert(q[i] == s[i] && q[i - 1] == s[i - 1]);
        }
        law_camel_no_hyphen(q);
        let p = spec_hyphen_to_camel(q);
        let c = s.last();
        let r = spec_hyphen_to_camel(s);
        if c != '-' && s.len() >= 2 && s[s.len() - 2] == '-' {
            let u = spec_char_to_uppercase(c);
            assert(s[s.len() - 1] == c);
            assert(!u.contains('-'));
            if r.contains('-') {
                let k = choose|k: int| 0 <= k < r.len() && r[k] == '-';
                if k < p.len() {
                    assert(r[k] == p[k]);
                } else {
                    assert(r[k] == u[k - p.len()]);
                }
            }
        } else if c != '-' {
            if r.contains('-') {
                let k = choose|k: int| 0 <= k < r.len() && r[k] == '-';
                if k < p.len() {
                    assert(r[k] == p[k]);
                }
            }
        }
    }
}

// ---------------------------------------------------------------------------
// Parameters
// ---------------------------------------------------------------------------

proof fn lemma_dedupe_prefix_fixed(r: Seq<Seq<char>>, k: int)
    requires
        0 <= k <= r.len(),
        distinct_lower(r),
        forall|i: int| 0 <= i < r.len() ==> #[trigger] trim(r[i]) == r[i] && r[i].len() > 0,
    ensures
        spec_dedupe(r.take(k)) == r.take(k),
    decreases k,
{
    if k > 0 {
        lemma_dedupe_prefix_fixed(r, k - 1);
        let p = r.take(k);
        assert(p.drop_last() =~= r.take(k - 1));
        assert(p.last() == r[k - 1]);
        assert(trim(r[k - 1]) == r[k - 1]);
        assert(!has_lower(r.take(k - 1), spec_to_lowercase(r[k - 1]))) by {
            if has_lower(r.take(k - 1), spec_to_lowercase(r[k - 1])) {
                let j = choose|j: int| 0 <= j < r.take(k - 1).len() && spec_to_lowercase(#[trigger] r.take(k - 1)[j]) == spec_to_lowercase(r[k - 1]);
                assert(r.take(k - 1)[j] == r[j]);
                assert(spec_to_lowercase(r[j]) != spec_to_lowercase(r[k - 1]));
            }
        }
        assert(r.take(k - 1).push(r[k - 1]) =~= p);
    }
}

/// Deduplication keeps one trimmed, non-blank string for each non-blank input
/// (ignoring case), no two of them alike ignoring case, and deduplicating its
/// result changes nothing.
#[verifier::spinoff_prover]
pub proof fn law_dedupe(v: Seq<Seq<char>>)
    ensures
        distinct_lower(spec_dedupe(v)),
        forall|i: int|
            0 <= i < spec_dedupe(v).len() ==> #[trigger] trim(spec_dedupe(v)[i]) == spec_dedupe(v)[i] && spec_dedupe(v)[i].len() > 0,
        forall|i: int|
            0 <= i < v.len() && trim(#[trigger] v[i]).len() > 0 ==> has_lower(spec_dedupe(v), spec_to_lowercase(trim(v[i]))),
        spec_dedupe(spec_dedupe(v)) == spec_dedupe(v),
{
    lemma_dedupe_props(v);
    let r = spec_dedupe(v);
    assert forall|i: int| 0 <= i < r.len() implies #[trigger] trim(r[i]) == r[i] && r[i].len() > 0 by {
        assert(trim(spec_dedupe(v)[i]) == spec_dedupe(v)[i]);
    }
    lemma_dedupe_prefix_fixed(r, r.len() as int);
    assert(r.take(r.len() as int) =~= r);
}

/// How one name is read: blank gives nothing; with a comma, the family name
/// is the trimmed text before the first comma and the given name the
/// trimmed rest; otherwise two words or more give the last word as family
/// name and the others, joined by spaces, as given name; a single word is
/// kept as a single-field name. Each is an author.
pub proof fn law_creator_forms(value: Seq<char>)
    ensures
        trim(value).len() == 0 ==> spec_parse_creator(value) is None,
        forall|idx: int|
            0 <= idx < trim(value).len() && #[trigger] trim(value)[idx] == ',' && (forall|j: int| 0 <= j < idx ==> trim(value)[j] != ',')
                ==> spec_parse_creator(value) == Some(
                ("author"@, Some(trim(trim(value).skip(idx + 1))), Some(trim(trim(value).take(idx))), None::<Seq<char>>),
            ),
        trim(value).len() > 0 && !trim(value).contains(',') && split_ws(trim(value)).len() >= 2 ==> spec_parse_creator(value)
            == Some(
            (
                "author"@,
                Some(join(split_ws(trim(value)).drop_last(), " "@)),
                Some(split_ws(trim(value)).last()),
                None::<Seq<char>>,
            ),
        ),
        trim(value).len() > 0 && !trim(value).contains(',') && split_ws(trim(value)).len() < 2 ==> spec_parse_creator(value)
            == Some(("author"@, None::<Seq<char>>, None::<Seq<char>>, Some(trim(value)))),
{
    let v = trim(value);
    assert forall|idx: int|
        0 <= idx < v.len() && #[trigger] v[idx] == ',' && (forall|j: int| 0 <= j < idx ==> v[j] != ',')
        implies spec_parse_creator(value) == Some(
            ("author"@, Some(trim(v.skip(idx + 1))), Some(trim(v.take(idx))), None::<Seq<char>>),
        ) by {
        assert(v.contains(','));
        let k = choose|i: int| 0 <= i < v.len() && v[i] == ',' && forall|j: int| 0 <= j < i ==> v[j] != ',';
        if k < idx {
            assert(v[k] != ',');
        }
        if idx < k {
            assert(v[idx] != ',');
        }
        assert(k == idx);
    }
}

/// Reading creator names gives one author for each non-blank name, in order:
/// the name as trimmed, read as "Last, First", "First ... Last" or a single
/// name.
pub proof fn law_creators_one_per_name(values: Seq<Seq<char>>)
    ensures
        spec_parse_creators(values).len() == trimmed_nonblank(values).len(),
        forall|i: int|
            0 <= i < spec_parse_creators(values).len() ==> spec_parse_creator(trimmed_nonblank(values)[i]) == Some(
                #[trigger] spec_parse_creators(values)[i],
            ) && spec_parse_creators(values)[i].0 == "author"@,
    decreases values.len(),
{
    if values.len() > 0 {
        law_creators_one_per_name(values.drop_last());
        let t = trim(values.last());
        lemma_trim_idempotent(values.last());
        assert(spec_parse_creator(t) == spec_parse_creator(values.last()));
        let prev = spec_parse_creators(values.drop_last());
        let tn = trimmed_nonblank(values.drop_last());
        assert forall|i: int|
            0 <= i < spec_parse_creators(values).len() implies spec_parse_creator(trimmed_nonblank(values)[i]) == Some(
                #[trigger] spec_parse_creators(values)[i],
            ) && spec_parse_creators(values)[i].0 == "author"@ by {
            if i < prev.len() {
                assert(spec_parse_creators(values)[i] == prev[i]);
                assert(trimmed_nonblank(values)[i] == tn[i]);
            }
        }
    }
}

// ---------------------------------------------------------------------------
// Duplicates
// ---------------------------------------------------------------------------

/// Whether no non-empty key occurs at two positions.
pub open spec fn no_shared_key(keys: Seq<Seq<char>>) -> bool {
    forall|i: int, j: int| 0 <= i < j < keys.len() && (#[trigger] keys[i]).len() > 0 ==> keys[i] != #[trigger] keys[j]
}

proof fn lemma_members_some(keys: Seq<Seq<char>>, k: Seq<char>)
    ensures
        members(keys, k).len() >= 1 <==> exists|i: int| 0 <= i < keys.len() && keys[i] == k,
    decreases keys.len(),
{
    if keys.len() > 0 {
        let p = keys.drop_last();
        lemma_members_some(p, k);
        if exists|i: int| 0 <= i < p.len() && p[i] == k {
            let i = choose|i: int| 0 <= i < p.len() && p[i] == k;
            assert(keys[i] == k);
        }
        if exists|i: int| 0 <= i < keys.len() && keys[i] == k {
            let i = choose|i: int| 0 <= i < keys.len() && keys[i] == k;
            if i < p.len() {
                assert(p[i] == k);
            }
        }
    }
}

proof fn lemma_members_two(keys: Seq<Seq<char>>, k: Seq<char>)
    ensures
        members(keys, k).len() >= 2 <==> exists|i: int, j: int| 0 <= i < j < keys.len() && keys[i] == k && keys[j] == k,
    decreases keys.len(),
{
    if keys.len() > 0 {
        let p = keys.drop_last();
        lemma_members_two(p, k);
        lemma_members_some(p, k);
        if exists|i: int, j: int| 0 <= i < j < p.len() && p[i] == k && p[j] == k {
            let (i, j) = choose|i: int, j: int| 0 <= i < j < p.len() && p[i] == k && p[j] == k;
            assert(keys[i] == k && keys[j] == k);
        }
        if exists|i: int| 0 <= i < p.len() && p[i] == k {
            let i = choose|i: int| 0 <= i < p.len() && p[i] == k;
            assert(keys[i] == k);
            if keys.last() == k {
                assert(keys[keys.len() - 1] == k);
            }
        }
        if exists|i: int, j: int| 0 <= i < j < keys.len() && keys[i] == k && keys[j] == k {
            let (i, j) = choose|i: int, j: int| 0 <= i < j < keys.len() && keys[i] == k && keys[j] == k;
            assert(p[i] == k);
            if j < p.len() {
                assert(p[j] == k);
            } else {
                assert(keys.last() == k);
            }
        }
    }
}

proof fn lemma_first_keys_contains(keys: Seq<Seq<char>>, k: Seq<char>)
    ensures
        first_keys(keys).contains(k) <==> k.len() > 0 && exists|i: int| 0 <= i < keys.len() && keys[i] == k,
    decreases keys.len(),
{
    if keys.len() > 0 {
        let p = keys.drop_last();
        lemma_first_keys_contains(p, k);
        let fp = first_keys(p);
        if exists|i: int| 0 <= i < p.len() && p[i] == k {
            let i = choose|i: int| 0 <= i < p.len() && p[i] == k;
            assert(keys[i] == k);
        }
        if exists|i: int| 0 <= i < keys.len() && keys[i] == k {
            let i = choose|i: int| 0 <= i < keys.len() && keys[i] == k;
            if i < p.len() {
                assert(p[i] == k);
            }
        }
        if first_keys(keys).contains(k) && first_keys(keys) != fp {
            let n = choose|n: int| 0 <= n < first_keys(keys).len() && first_keys(keys)[n] == k;
            if n < fp.len() {
                assert(fp[n] == first_keys(keys)[n]);
            }
        }
        if fp.contains(k) && first_keys(keys) != fp {
            let n = choose|n: int| 0 <= n < fp.len() && fp[n] == k;
            assert(first_keys(keys)[n] == fp[n]);
        }
        if k.len() > 0 && keys.last() == k && !fp.contains(k) {
            assert(first_keys(keys)[fp.len() as int] == k);
        }
    }
}

proof fn lemma_shared_empty(keys: Seq<Seq<char>>, fks: Seq<Seq<char>>)
    ensures
        shared_keys(keys, fks).len() == 0 <==> forall|n: int| 0 <= n < fks.len() ==> members(keys, #[trigger] fks[n]).len() < 2,
    decreases fks.len(),
{
    if fks.len() > 0 {
        lemma_shared_empty(keys, fks.drop_last());
        if forall|n: int| 0 <= n < fks.len() ==> members(keys, #[trigger] fks[n]).len() < 2 {
            assert forall|n: int| 0 <= n < fks.drop_last().len() implies members(keys, #[trigger] fks.drop_last()[n]).len() < 2 by {
                assert(fks.drop_last()[n] == fks[n]);
            }
            assert(members(keys, fks[fks.len() - 1]).len() < 2);
        }
        if shared_keys(keys, fks).len() == 0 {
            assert forall|n: int| 0 <= n < fks.len() implies members(keys, #[trigger] fks[n]).len() < 2 by {
                if n < fks.len() - 1 {
                    assert(fks[n] == fks.drop_last()[n]);
                }
            }
        }
    }
}

proof fn lemma_no_groups_iff(keys: Seq<Seq<char>>)
    ensures
        shared_keys(keys, first_keys(keys)).len() == 0 <==> no_shared_key(keys),
{
    let fks = first_keys(keys);
    lemma_shared_empty(keys, fks);
    if no_shared_key(keys) {
        assert forall|n: int| 0 <= n < fks.len() implies members(keys, #[trigger] fks[n]).len() < 2 by {
            let k = fks[n];
            lemma_first_keys_contains(keys, k);
            lemma_members_two(keys, k);
            if members(keys, k).len() >= 2 {
                let (i, j) = choose|i: int, j: int| 0 <= i < j < keys.len() && keys[i] == k && keys[j] == k;
                assert(keys[i].len() > 0);
                assert(keys[i] != keys[j]);
            }
        }
    }
    if !no_shared_key(keys) {
        let (i, j) = choose|i: int, j: int| 0 <= i < j < keys.len() && (#[trigger] keys[i]).len() > 0 && keys[i] == #[trigger] keys[j];
        let k = keys[i];
        lemma_first_keys_contains(keys, k);
        lemma_members_two(keys, k);
        let n = choose|n: int| 0 <= n < fks.len() && fks[n] == k;
        assert(members(keys, fks[n]).len() >= 2);
    }
}

proof fn lemma_join_first(parts: Seq<Seq<char>>, sep: Seq<char>)
    requires
        parts.len() > 0,
        parts[0].len() > 0,
    ensures
        join(parts, sep).len() > 0,
        join(parts, sep)[0] == parts[0][0],
    decreases parts.len(),
{
    if parts.len() > 1 {
        lemma_join_first(parts.drop_last(), sep);
    }
}

proof fn lemma_trim_end_first(s: Seq<char>)
    requires
        s.len() > 0,
        !spec_is_whitespace(s[0]),
    ensures
        trim_end(s).len() > 0,
        trim_end(s)[0] == s[0],
    decreases s.len(),
{
    if spec_is_whitespace(s.last()) {
        lemma_trim_end_first(s.drop_last());
    }
}

/// Whether `g` is a real group of `keys`: a non-empty key held at two
/// positions or more, its members listed in increasing order, each within
/// `keys` and holding `g`.
pub open spec fn real_group(keys: Seq<Seq<char>>, g: Seq<char>) -> bool {
    &&& g.len() > 0
    &&& members(keys, g).len() >= 2
    &&& forall|j: int| 0 <= j < members(keys, g).len() ==> 0 <= #[trigger] members(keys, g)[j] < keys.len() && keys[members(keys, g)[j]] == g
    &&& forall|j: int, l: int| 0 <= j < l < members(keys, g).len() ==> #[trigger] members(keys, g)[j] < #[trigger] members(keys, g)[l]
}

proof fn lemma_members_props(keys: Seq<Seq<char>>, k: Seq<char>)
    ensures
        forall|j: int| 0 <= j < members(keys, k).len() ==> 0 <= #[trigger] members(keys, k)[j] < keys.len() && keys[members(keys, k)[j]] == k,
        forall|j: int, l: int| 0 <= j < l < members(keys, k).len() ==> #[trigger] members(keys, k)[j] < #[trigger] members(keys, k)[l],
    decreases keys.len(),
{
    if keys.len() > 0 {
        let p = keys.drop_last();
        lemma_members_props(p, k);
        let prev = members(p, k);
        let m = members(keys, k);
        assert forall|j: int| 0 <= j < m.len() implies 0 <= #[trigger] m[j] < keys.len() && keys[m[j]] == k by {
            if j < prev.len() {
                assert(m[j] == prev[j]);
                assert(keys[prev[j]] == p[prev[j]]);
            }
        }
        assert forall|j: int, l: int| 0 <= j < l < m.len() implies #[trigger] m[j] < #[trigger] m[l] by {
            assert(m[j] == prev[j]);
            if l < prev.len() {
                assert(m[l] == prev[l]);
            }
        }
    }
}

proof fn lemma_shared_from(keys: Seq<Seq<char>>, fks: Seq<Seq<char>>)
    ensures
        forall|g: int| 0 <= g < shared_keys(keys, fks).len() ==> fks.contains(#[trigger] shared_keys(keys, fks)[g]),
    decreases fks.len(),
{
    if fks.len() > 0 {
        lemma_shared_from(keys, fks.drop_last());
        let prev = shared_keys(keys, fks.drop_last());
        assert forall|g: int| 0 <= g < shared_keys(keys, fks).len() implies fks.contains(#[trigger] shared_keys(keys, fks)[g]) by {
            if g < prev.len() {
                assert(shared_keys(keys, fks)[g] == prev[g]);
                let n = choose|n: int| 0 <= n < fks.drop_last().len() && fks.drop_last()[n] == prev[g];
                assert(fks[n] == prev[g]);
            } else {
                assert(fks[fks.len() - 1] == shared_keys(keys, fks)[g]);
            }
        }
    }
}

proof fn lemma_groups_real(keys: Seq<Seq<char>>)
    ensures
        forall|g: int| 0 <= g < shared_keys(keys, first_keys(keys)).len() ==> real_group(keys, #[trigger] shared_keys(keys, first_keys(keys))[g]),
{
    let fks = first_keys(keys);
    law_groups_have_duplicates(keys, fks);
    lemma_shared_from(keys, fks);
    assert forall|g: int| 0 <= g < shared_keys(keys, fks).len() implies real_group(keys, #[trigger] shared_keys(keys, fks)[g]) by {
        let k = shared_keys(keys, fks)[g];
        lemma_first_keys_contains(keys, k);
        lemma_members_props(keys, k);
    }
}

/// The rows compared when looking for duplicates.
pub open spec fn dup_rows(items: Seq<ZoteroItem>) -> Seq<(Seq<char>, Seq<char>, Seq<char>)> {
    items.map_values(|it: ZoteroItem| row_of(it))
}

/// The groups reported for `keys`: the non-empty keys shared by two
/// positions or more, in the order they first appear.
pub open spec fn reported_groups(keys: Seq<Seq<char>>) -> Seq<Seq<char>> {
    shared_keys(keys, first_keys(keys))
}

/// Each group of the duplicates report, by title and by DOI, is a non-empty
/// key (a reduced title, a DOI) that two items or more share, listed with
/// those items in their order.
pub proof fn law_duplicate_groups(items: Seq<ZoteroItem>)
    ensures
        forall|g: int|
            0 <= g < reported_groups(title_keys(dup_rows(items))).len() ==> real_group(
                title_keys(dup_rows(items)),
                #[trigger] reported_groups(title_keys(dup_rows(items)))[g],
            ),
        forall|g: int|
            0 <= g < reported_groups(doi_keys(dup_rows(items))).len() ==> real_group(
                doi_keys(dup_rows(items)),
                #[trigger] reported_groups(doi_keys(dup_rows(items)))[g],
            ),
        title_keys(dup_rows(items)).len() == items.len(),
        doi_keys(dup_rows(items)).len() == items.len(),
        forall|i: int|
            0 <= i < items.len() ==> #[trigger] title_keys(dup_rows(items))[i] == crate::library::spec_normalize_title(
                row_of(items[i]).1,
            ) && doi_keys(dup_rows(items))[i] == row_of(items[i]).2,
{
    let rows = dup_rows(items);
    lemma_groups_real(title_keys(rows));
    lemma_groups_real(doi_keys(rows));
}

/// Looking for duplicates by title and DOI finds none exactly when no two
/// items share a non-empty reduced title and no two share a non-empty DOI.
pub proof fn law_no_duplicates_found(items: Seq<ZoteroItem>, limit: nat)
    ensures
        spec_duplicates_report(items, "both"@, limit) == "No duplicates found."@ <==> no_shared_key(
            title_keys(items.map_values(|it: ZoteroItem| row_of(it))),
        ) && no_shared_key(doi_keys(items.map_values(|it: ZoteroItem| row_of(it)))),
{
    let rows = items.map_values(|it: ZoteroItem| row_of(it));
    let tk = title_keys(rows);
    let dk = doi_keys(rows);
    lemma_no_groups_iff(tk);
    lemma_no_groups_iff(dk);
    let a = section_lines("Title duplicates"@, rows, tk, limit);
    let b = section_lines("DOI duplicates"@, rows, dk, limit);
    let lines = a + b;
    assert(spec_duplicates_report(items, "both"@, limit) == (if lines.len() == 0 {
        "No duplicates found."@
    } else {
        trim(join(lines, "\n"@))
    }));
    reveal_strlit("## ");
    reveal_strlit("No duplicates found.");
    if lines.len() > 0 {
        let first = lines[0];
        assert(first.len() > 0 && first[0] == '#') by {
            if a.len() > 0 {
                assert(first == "## "@ + "Title duplicates"@);
            } else {
                assert(first == b[0]);
                assert(first == "## "@ + "DOI duplicates"@);
            }
            assert(("## "@ + first.skip(3))[0] == '#');
        }
        lemma_join_first(lines, "\n"@);
        let j = join(lines, "\n"@);
        assert(!spec_is_whitespace(j[0]));
        assert(trim_start(j) == j);
        lemma_trim_end_first(j);
        assert(trim(j)[0] == '#');
        assert("No duplicates found."@[0] == 'N');
    }
}

// ---------------------------------------------------------------------------
// Template values
// ---------------------------------------------------------------------------

proof fn lemma_single_attr(name: Seq<char>, val: Seq<char>, key: Seq<char>)
    ensures
        attr_get(seq![(name, val)], key) == (if key == name { Some(val) } else { None }),
{
    let a = seq![(name, val)];
    assert(a.drop_last() =~= Seq::<(Seq<char>, Seq<char>)>::empty());
    assert(attr_get(a.drop_last(), key) is None);
}

/// A suffix is never doubled: with a `suffix` attribute alone, a non-empty
/// value is trimmed and gets the suffix only when it does not already end
/// with it; an absent or empty value gives the empty text.
pub proof fn law_suffix_not_doubled(v: Seq<char>, sfx: Seq<char>)
    requires
        v.len() > 0,
        sfx.len() > 0,
        sfx != "/"@,
        sfx != "\\"@,
    ensures
        spec_common(Some(v), seq![("suffix"@, sfx)], Seq::<Seq<char>>::empty()).0 == (if ends_with(trim(v), sfx) {
            trim(v)
        } else {
            trim(v) + sfx
        }),
        spec_common(None, seq![("suffix"@, sfx)], Seq::<Seq<char>>::empty()).0 == Seq::<char>::empty(),
        spec_common(Some(Seq::<char>::empty()), seq![("suffix"@, sfx)], Seq::<Seq<char>>::empty()).0 == Seq::<char>::empty(),
{
    let attrs = seq![("suffix"@, sfx)];
    reveal_strlit("");
    reveal_strlit("suffix");
    reveal_strlit("prefix");
    reveal_strlit("regexOpts");
    reveal_strlit("match");
    reveal_strlit("start");
    reveal_strlit("truncate");
    reveal_strlit("replaceFrom");
    reveal_strlit("case");
    assert(attrs.drop_last() =~= Seq::<(Seq<char>, Seq<char>)>::empty());
    lemma_single_attr("suffix"@, sfx, "suffix"@);
    lemma_single_attr("suffix"@, sfx, "regexOpts"@);
    assert("suffix"@ != "prefix"@) by {
        assert("suffix"@[0] != "prefix"@[0]);
    }
    assert("suffix"@.len() == 6 && "regexOpts"@.len() == 9 && "match"@.len() == 5 && "start"@.len() == 5);
    assert("truncate"@.len() == 8 && "replaceFrom"@.len() == 11 && "case"@.len() == 4);
    assert("suffix"@ != "regexOpts"@);
    assert("suffix"@ != "match"@);
    assert("suffix"@ != "start"@);
    assert("suffix"@ != "truncate"@);
    assert("suffix"@ != "replaceFrom"@);
    assert("suffix"@ != "case"@);
    lemma_single_attr("suffix"@, sfx, "prefix"@);
    assert(attr_get(attrs, "prefix"@) is None);
    lemma_single_attr("suffix"@, sfx, "match"@);
    assert(attr_get(attrs, "match"@) is None);
    lemma_single_attr("suffix"@, sfx, "start"@);
    assert(attr_get(attrs, "start"@) is None);
    lemma_single_attr("suffix"@, sfx, "truncate"@);
    assert(attr_get(attrs, "truncate"@) is None);
    lemma_single_attr("suffix"@, sfx, "replaceFrom"@);
    assert(attr_get(attrs, "replaceFrom"@) is None);
    lemma_single_attr("suffix"@, sfx, "case"@);
    assert(attr_get(attrs, "case"@) is None);
    assert(attr_or(attrs, "start"@, ""@) == ""@);
    assert(count_attr(attrs, "start"@) <= 0);
    assert(count_attr(attrs, "truncate"@) <= 0);
    assert(cut_and_replace(v, attrs, Seq::<Seq<char>>::empty()) == (trim(v), trim(v)));
}

// ---------------------------------------------------------------------------
// Escaping HTML
// ---------------------------------------------------------------------------

/// The entity that escapes `c`, or `c` itself.
pub open spec fn html_entity(c: char) -> Seq<char> {
    if c == '&' {
        "&amp;"@
    } else if c == '<' {
        "&lt;"@
    } else if c == '>' {
        "&gt;"@
    } else if c == '"' {
        "&quot;"@
    } else if c == '\'' {
        "&#39;"@
    } else {
        seq![c]
    }
}

/// Whether `c` is escaped.
pub open spec fn escaped_char(c: char) -> bool {
    c == '&' || c == '<' || c == '>' || c == '"' || c == '\''
}

proof fn lemma_entities()
    ensures
        "&amp;"@ == seq!['&', 'a', 'm', 'p', ';'],
        "&lt;"@ == seq!['&', 'l', 't', ';'],
        "&gt;"@ == seq!['&', 'g', 't', ';'],
        "&quot;"@ == seq!['&', 'q', 'u', 'o', 't', ';'],
        "&#39;"@ == seq!['&', '#', '3', '9', ';'],
        "&"@ == seq!['&'],
        "<"@ == seq!['<'],
        ">"@ == seq!['>'],
        "\""@ == seq!['"'],
        "'"@ == seq!['\''],
{
    reveal_strlit("&amp;");
    reveal_strlit("&lt;");
    reveal_strlit("&gt;");
    reveal_strlit("&quot;");
    reveal_strlit("&#39;");
    reveal_strlit("&");
    reveal_strlit("<");
    reveal_strlit(">");
    reveal_strlit("\"");
    reveal_strlit("'");
}

proof fn lemma_replace_one_char_concat(a: Seq<char>, b: Seq<char>, f: Seq<char>, t: Seq<char>)
    requires
        f.len() == 1,
    ensures
        replace_all(a + b, f, t) == replace_all(a, f, t) + replace_all(b, f, t),
    decreases a.len(),
{
    if a.len() == 0 {
        assert(a + b =~= b);
        assert(replace_all(a, f, t) =~= Seq::<char>::empty());
        assert(Seq::<char>::empty() + replace_all(b, f, t) =~= replace_all(b, f, t));
    } else {
        let ab = a + b;
        assert(ab[0] == a[0]);
        assert(ab.take(1) =~= seq![a[0]]);
        assert(a.take(1) =~= seq![a[0]]);
        assert(f =~= seq![f[0]]);
        assert(starts_with(ab, f) == starts_with(a, f));
        if starts_with(a, f) {
            assert(ab.skip(1) =~= a.skip(1) + b);
            lemma_replace_one_char_concat(a.skip(1), b, f, t);
            assert(t + (replace_all(a.skip(1), f, t) + replace_all(b, f, t)) =~= (t + replace_all(a.skip(1), f, t)) + replace_all(b, f, t));
        } else {
            assert(ab.drop_first() =~= a.drop_first() + b);
            lemma_replace_one_char_concat(a.drop_first(), b, f, t);
            assert(seq![a[0]] + (replace_all(a.drop_first(), f, t) + replace_all(b, f, t)) =~= (seq![a[0]] + replace_all(a.drop_first(), f, t)) + replace_all(b, f, t));
        }
    }
}

proof fn lemma_replace_one_char_absent(x: Seq<char>, f: Seq<char>, t: Seq<char>)
    requires
        f.len() == 1,
        !x.contains(f[0]),
    ensures
        replace_all(x, f, t) == x,
    decreases x.len(),
{
    if x.len() > 0 {
        assert(x.take(1) =~= seq![x[0]]);
        assert(f =~= seq![f[0]]);
        assert(x[0] != f[0]);
        assert(!starts_with(x, f));
        assert(!x.drop_first().contains(f[0])) by {
            if x.drop_first().contains(f[0]) {
                let i = choose|i: int| 0 <= i < x.drop_first().len() && x.drop_first()[i] == f[0];
                assert(x[i + 1] == f[0]);
            }
        }
        lemma_replace_one_char_absent(x.drop_first(), f, t);
        assert(seq![x[0]] + x.drop_first() =~= x);
    }
}

proof fn lemma_replace_one_char_single(c: char, f: Seq<char>, t: Seq<char>)
    requires
        f.len() == 1,
    ensures
        replace_all(seq![c], f, t) == (if c == f[0] { t } else { seq![c] }),
{
    let x = seq![c];
    assert(x.take(1) =~= x);
    assert(f =~= seq![f[0]]);
    assert(x.skip(1) =~= Seq::<char>::empty());
    assert(x.drop_first() =~= Seq::<char>::empty());
    assert(replace_all(Seq::<char>::empty(), f, t) =~= Seq::<char>::empty());
    if c == f[0] {
        assert(t + Seq::<char>::empty() =~= t);
    } else {
        assert(seq![c] + Seq::<char>::empty() =~= seq![c]);
    }
}

/// The five replacements of `spec_escape_html`, one after the other.
proof fn lemma_escape_concat(a: Seq<char>, b: Seq<char>)
    ensures
        spec_escape_html(a + b) == spec_escape_html(a) + spec_escape_html(b),
{
    lemma_entities();
    let r1 = |x: Seq<char>| replace_all(x, "&"@, "&amp;"@);
    let r2 = |x: Seq<char>| replace_all(x, "<"@, "&lt;"@);
    let r3 = |x: Seq<char>| replace_all(x, ">"@, "&gt;"@);
    let r4 = |x: Seq<char>| replace_all(x, "\""@, "&quot;"@);
    lemma_replace_one_char_concat(a, b, "&"@, "&amp;"@);
    lemma_replace_one_char_concat(r1(a), r1(b), "<"@, "&lt;"@);
    lemma_replace_one_char_concat(r2(r1(a)), r2(r1(b)), ">"@, "&gt;"@);
    lemma_replace_one_char_concat(r3(r2(r1(a))), r3(r2(r1(b))), "\""@, "&quot;"@);
    lemma_replace_one_char_concat(r4(r3(r2(r1(a)))), r4(r3(r2(r1(b)))), "'"@, "&#39;"@);
}

proof fn lemma_no_char(x: Seq<char>, c: char)
    requires
        forall|i: int| 0 <= i < x.len() ==> x[i] != c,
    ensures
        !x.contains(c),
{
}

proof fn lemma_escape_one(c: char)
    ensures
        spec_escape_html(seq![c]) == html_entity(c),
{
    lemma_entities();
    lemma_replace_one_char_single(c, "&"@, "&amp;"@);
    let x1 = replace_all(seq![c], "&"@, "&amp;"@);
    // each later replacement either meets its character once or leaves the text alone
    if c == '&' {
        lemma_no_char(x1, '<');
        lemma_no_char(x1, '>');
        lemma_no_char(x1, '"');
        lemma_no_char(x1, '\'');
        lemma_replace_one_char_absent(x1, "<"@, "&lt;"@);
        lemma_replace_one_char_absent(x1, ">"@, "&gt;"@);
        lemma_replace_one_char_absent(x1, "\""@, "&quot;"@);
        lemma_replace_one_char_absent(x1, "'"@, "&#39;"@);
    } else {
        lemma_replace_one_char_single(c, "<"@, "&lt;"@);
        let x2 = replace_all(x1, "<"@, "&lt;"@);
        if c == '<' {
            lemma_no_char(x2, '>');
            lemma_no_char(x2, '"');
            lemma_no_char(x2, '\'');
            lemma_replace_one_char_absent(x2, ">"@, "&gt;"@);
            lemma_replace_one_char_absent(x2, "\""@, "&quot;"@);
            lemma_replace_one_char_absent(x2, "'"@, "&#39;"@);
        } else {
            lemma_replace_one_char_single(c, ">"@, "&gt;"@);
            let x3 = replace_all(x2, ">"@, "&gt;"@);
            if c == '>' {
                lemma_no_char(x3, '"');
                lemma_no_char(x3, '\'');
                lemma_replace_one_char_absent(x3, "\""@, "&quot;"@);
                lemma_replace_one_char_absent(x3, "'"@, "&#39;"@);
            } else {
                lemma_replace_one_char_single(c, "\""@, "&quot;"@);
                let x4 = replace_all(x3, "\""@, "&quot;"@);
                if c == '"' {
                    lemma_no_char(x4, '\'');
                    lemma_replace_one_char_absent(x4, "'"@, "&#39;"@);
                } else {
                    lemma_replace_one_char_single(c, "'"@, "&#39;"@);
                }
            }
        }
    }
}

/// `s` escaped character by character.
pub open spec fn entities_of(s: Seq<char>) -> Seq<char>
    decreases s.len(),
{
    if s.len() == 0 {
        Seq::<char>::empty()
    } else {
        html_entity(s[0]) + entities_of(s.drop_first())
    }
}

proof fn lemma_escape_is_entities(s: Seq<char>)
    ensures
        spec_escape_html(s) == entities_of(s),
    decreases s.len(),
{
    lemma_entities();
    if s.len() == 0 {
        assert(replace_all(s, "&"@, "&amp;"@) == s);
        assert(spec_escape_html(s) =~= Seq::<char>::empty());
    } else {
        assert(seq![s[0]] + s.drop_first() =~= s);
        lemma_escape_concat(seq![s[0]], s.drop_first());
        lemma_escape_one(s[0]);
        lemma_escape_is_entities(s.drop_first());
    }
}

proof fn lemma_entities_free_of(s: Seq<char>)
    ensures
        forall|i: int| 0 <= i < entities_of(s).len() ==> {
            let c = #[trigger] entities_of(s)[i];
            c != '<' && c != '>' && c != '"' && c != '\''
        },
    decreases s.len(),
{
    lemma_entities();
    if s.len() > 0 {
        lemma_entities_free_of(s.drop_first());
        let e = html_entity(s[0]);
        let rest = entities_of(s.drop_first());
        assert forall|i: int| 0 <= i < entities_of(s).len() implies {
            let c = #[trigger] entities_of(s)[i];
            c != '<' && c != '>' && c != '"' && c != '\''
        } by {
            if i < e.len() {
                assert(entities_of(s)[i] == e[i]);
            } else {
                assert(entities_of(s)[i] == rest[i - e.len()]);
            }
        }
    }
}

/// The piece of `c` after `k` of the five decoding steps of
/// `spec_xml_unescape` (which decode `<`, `>`, `"`, `'`, then `&`).
pub open spec fn decoded_piece(k: nat, c: char) -> Seq<char> {
    if (k > 0 && c == '<') || (k > 1 && c == '>') || (k > 2 && c == '"') || (k > 3 && c == '\'') || (k > 4 && c == '&') {
        seq![c]
    } else {
        html_entity(c)
    }
}

/// `s` with each character as its piece after `k` decoding steps.
pub open spec fn decoded_pieces(k: nat, s: Seq<char>) -> Seq<char>
    decreases s.len(),
{
    if s.len() == 0 {
        Seq::<char>::empty()
    } else {
        decoded_piece(k, s[0]) + decoded_pieces(k, s.drop_first())
    }
}

/// The character decoded at step `k`.
pub open spec fn step_char(k: nat) -> char {
    if k == 0 {
        '<'
    } else if k == 1 {
        '>'
    } else if k == 2 {
        '"'
    } else if k == 3 {
        '\''
    } else {
        '&'
    }
}

proof fn lemma_no_amp_prefix(x: Seq<char>, y: Seq<char>, p: Seq<char>, t: Seq<char>)
    requires
        p.len() > 0,
        p[0] == '&',
        !x.contains('&'),
    ensures
        replace_all(x + y, p, t) == x + replace_all(y, p, t),
    decreases x.len(),
{
    if x.len() == 0 {
        assert(x + y =~= y);
        assert(x + replace_all(y, p, t) =~= replace_all(y, p, t));
    } else {
        let xy = x + y;
        assert(xy[0] == x[0]);
        assert(x[0] != '&') by {
            assert(x.contains(x[0]));
        }
        assert(!starts_with(xy, p)) by {
            if starts_with(xy, p) {
                assert(xy.take(p.len() as int)[0] == p[0]);
            }
        }
        assert(!x.drop_first().contains('&')) by {
            if x.drop_first().contains('&') {
                let i = choose|i: int| 0 <= i < x.drop_first().len() && x.drop_first()[i] == '&';
                assert(x[i + 1] == '&');
            }
        }
        assert(xy.drop_first() =~= x.drop_first() + y);
        lemma_no_amp_prefix(x.drop_first(), y, p, t);
        assert(seq![x[0]] + (x.drop_first() + replace_all(y, p, t)) =~= x + replace_all(y, p, t));
    }
}

proof fn lemma_decode_step(k: nat, s: Seq<char>)
    requires
        k < 5,
    ensures
        replace_all(decoded_pieces(k, s), html_entity(step_char(k)), seq![step_char(k)]) == decoded_pieces(k + 1, s),
    decreases s.len(),
{
    lemma_entities();
    let p = html_entity(step_char(k));
    let t = seq![step_char(k)];
    if s.len() == 0 {
        assert(decoded_pieces(k, s) =~= Seq::<char>::empty());
        assert(decoded_pieces(k + 1, s) =~= Seq::<char>::empty());
    } else {
        let c = s[0];
        let piece = decoded_piece(k, c);
        let rest = decoded_pieces(k, s.drop_first());
        lemma_decode_step(k, s.drop_first());
        assert(decoded_pieces(k, s) == piece + rest);
        assert(decoded_pieces(k + 1, s) == decoded_piece(k + 1, c) + decoded_pieces(k + 1, s.drop_first()));
        let x = piece + rest;
        if piece == p {
            assert(x.take(p.len() as int) =~= p);
            assert(x.skip(p.len() as int) =~= rest);
            assert(decoded_piece(k + 1, c) == t);
        } else if !piece.contains('&') {
            lemma_no_amp_prefix(piece, rest, p, t);
            assert(decoded_piece(k + 1, c) == piece);
        } else {
            // `piece` is an entity other than `p`: they differ at their second character
            assert(piece.len() >= 4 && piece[0] == '&' && piece[1] != p[1]);
            assert(!starts_with(x, p)) by {
                if starts_with(x, p) {
                    assert(x.take(p.len() as int)[1] == x[1]);
                }
            }
            assert(!piece.drop_first().contains('&')) by {
                if piece.drop_first().contains('&') {
                    let i = choose|i: int| 0 <= i < piece.drop_first().len() && piece.drop_first()[i] == '&';
                    assert(piece[i + 1] == '&');
                }
            }
            assert(x.drop_first() =~= piece.drop_first() + rest);
            lemma_no_amp_prefix(piece.drop_first(), rest, p, t);
            assert(seq![x[0]] + (piece.drop_first() + replace_all(rest, p, t)) =~= piece + replace_all(rest, p, t));
            assert(decoded_piece(k + 1, c) == piece);
        }
    }
}

proof fn lemma_fully_decoded(s: Seq<char>)
    ensures
        decoded_pieces(5, s) == s,
    decreases s.len(),
{
    if s.len() > 0 {
        lemma_fully_decoded(s.drop_first());
        assert(seq![s[0]] + s.drop_first() =~= s);
    } else {
        assert(decoded_pieces(5, s) =~= s);
    }
}

proof fn lemma_entities_are_pieces(s: Seq<char>)
    ensures
        entities_of(s) == decoded_pieces(0, s),
    decreases s.len(),
{
    if s.len() > 0 {
        lemma_entities_are_pieces(s.drop_first());
    }
}

/// Escaped HTML (`escape_html`) holds none of `<`, `>`, `"` and `'`, and
/// decoding its XML entities as the arXiv reader does (`xml_unescape`) gives
/// the text back.
pub proof fn law_escape_html(s: Seq<char>)
    ensures
        forall|i: int| 0 <= i < spec_escape_html(s).len() ==> {
            let c = #[trigger] spec_escape_html(s)[i];
            c != '<' && c != '>' && c != '"' && c != '\''
        },
        spec_xml_unescape(spec_escape_html(s)) == s,
{
    lemma_entities();
    lemma_escape_is_entities(s);
    lemma_entities_free_of(s);
    lemma_entities_are_pieces(s);
    lemma_decode_step(0, s);
    lemma_decode_step(1, s);
    lemma_decode_step(2, s);
    lemma_decode_step(3, s);
    lemma_decode_step(4, s);
    lemma_fully_decoded(s);
}

// ---------------------------------------------------------------------------
// Text cases
// ---------------------------------------------------------------------------

/// Whether `s` has no whitespace, never two `sep` in a row, and no `sep` at
/// its start.
pub open spec fn joined_shape(s: Seq<char>, sep: char) -> bool {
    &&& forall|i: int| 0 <= i < s.len() ==> !spec_is_whitespace(#[trigger] s[i])
    &&& forall|i: int| 0 <= i < s.len() - 1 ==> !(#[trigger] s[i] == sep && s[i + 1] == sep)
}

proof fn lemma_joined_acc(s: Seq<char>, sep: char)
    requires
        !spec_is_whitespace(sep),
    ensures
        joined_shape(joined_case_acc(s, sep), sep),
        joined_case_acc(s, sep).len() > 0 ==> joined_case_acc(s, sep)[0] != sep,
    decreases s.len(),
{
    if s.len() > 0 {
        lemma_joined_acc(s.drop_last(), sep);
        let p = joined_case_acc(s.drop_last(), sep);
        let r = joined_case_acc(s, sep);
        assert forall|i: int| 0 <= i < r.len() - 1 implies !(#[trigger] r[i] == sep && r[i + 1] == sep) by {
            if i < p.len() - 1 {
                assert(r[i] == p[i] && r[i + 1] == p[i + 1]);
            } else if r.len() > p.len() {
                assert(r[i] == p.last());
            }
        }
        assert forall|i: int| 0 <= i < r.len() implies !spec_is_whitespace(#[trigger] r[i]) by {
            if i < p.len() {
                assert(r[i] == p[i]);
            }
        }
        if r.len() > 0 && p.len() > 0 {
            assert(r[0] == p[0]);
        }
    }
}

proof fn lemma_trim_char(s: Seq<char>, c: char)
    ensures
        exists|a: int, b: int| 0 <= a <= b <= s.len() && trim_char(s, c) == s.subrange(a, b),
        trim_char(s, c).len() > 0 ==> trim_char(s, c)[0] != c && trim_char(s, c).last() != c,
    decreases s.len(),
{
    if s.len() > 0 && s[0] == c {
        lemma_trim_char(s.drop_first(), c);
        let (a, b) = choose|a: int, b: int| 0 <= a <= b <= s.drop_first().len() && trim_char(s.drop_first(), c) == s.drop_first().subrange(a, b);
        assert(s.drop_first().subrange(a, b) =~= s.subrange(a + 1, b + 1));
    } else if s.len() > 0 && s.last() == c {
        lemma_trim_char(s.drop_last(), c);
        let (a, b) = choose|a: int, b: int| 0 <= a <= b <= s.drop_last().len() && trim_char(s.drop_last(), c) == s.drop_last().subrange(a, b);
        assert(s.drop_last().subrange(a, b) =~= s.subrange(a, b));
    } else {
        assert(s.subrange(0, s.len() as int) =~= s);
    }
}

/// Hyphen case has no whitespace, never two hyphens in a row and no hyphen at
/// either end.
pub proof fn law_hyphen_case(v: Seq<char>)
    ensures
        joined_shape(spec_text_case(v, "hyphen"@), '-'),
        spec_text_case(v, "hyphen"@).len() > 0 ==> spec_text_case(v, "hyphen"@)[0] != '-'
            && spec_text_case(v, "hyphen"@).last() != '-',
{
    reveal_strlit("hyphen");
    reveal_strlit("upper");
    reveal_strlit("lower");
    reveal_strlit("sentence");
    reveal_strlit("title");
    assert("hyphen"@.len() == 6 && "upper"@.len() == 5 && "lower"@.len() == 5 && "sentence"@.len() == 8 && "title"@.len() == 5);
    assert(spec_text_case(v, "hyphen"@) == spec_joined_case(v, '-'));
    let acc = joined_case_acc(spec_to_lowercase(v), '-');
    lemma_joined_acc(spec_to_lowercase(v), '-');
    lemma_trim_char(acc, '-');
    let h = trim_char(acc, '-');
    let (a, b) = choose|a: int, b: int| 0 <= a <= b <= acc.len() && h == acc.subrange(a, b);
    assert forall|i: int| 0 <= i < h.len() implies !spec_is_whitespace(#[trigger] h[i]) by {
        assert(h[i] == acc[a + i]);
    }
    assert forall|i: int| 0 <= i < h.len() - 1 implies !(#[trigger] h[i] == '-' && h[i + 1] == '-') by {
        assert(h[i] == acc[a + i] && h[i + 1] == acc[a + i + 1]);
    }
}

proof fn lemma_joined_acc_fixed(s: Seq<char>, sep: char)
    requires
        joined_shape(s, sep),
        s.len() > 0 ==> s[0] != sep,
    ensures
        joined_case_acc(s, sep) == s,
    decreases s.len(),
{
    if s.len() > 0 {
        let p = s.drop_last();
        assert forall|i: int| 0 <= i < p.len() implies !spec_is_whitespace(#[trigger] p[i]) by {
            assert(p[i] == s[i]);
        }
        assert forall|i: int| 0 <= i < p.len() - 1 implies !(#[trigger] p[i] == sep && p[i + 1] == sep) by {
            assert(p[i] == s[i] && p[i + 1] == s[i + 1]);
        }
        if p.len() > 0 {
            assert(p[0] == s[0]);
        }
        lemma_joined_acc_fixed(p, sep);
        assert(!spec_is_whitespace(s[s.len() - 1]));
        if s.last() == sep {
            assert(s.len() >= 2);
            assert(!(s[s.len() - 2] == sep && s[s.len() - 1] == sep));
            assert(p.last() == s[s.len() - 2]);
        }
        assert(p.push(s.last()) =~= s);
    }
}

/// Hyphen case applied to its own result changes nothing, as long as
/// lower-casing (`str::to_lowercase`) leaves that result as it is.
pub proof fn law_hyphen_case_idempotent(v: Seq<char>)
    requires
        spec_to_lowercase(spec_text_case(v, "hyphen"@)) == spec_text_case(v, "hyphen"@),
    ensures
        spec_text_case(spec_text_case(v, "hyphen"@), "hyphen"@) == spec_text_case(v, "hyphen"@),
{
    reveal_strlit("hyphen");
    reveal_strlit("upper");
    reveal_strlit("lower");
    reveal_strlit("sentence");
    reveal_strlit("title");
    assert("hyphen"@.len() == 6 && "upper"@.len() == 5 && "lower"@.len() == 5 && "sentence"@.len() == 8 && "title"@.len() == 5);
    law_hyphen_case(v);
    let h = spec_text_case(v, "hyphen"@);
    assert(spec_text_case(h, "hyphen"@) == spec_joined_case(h, '-'));
    lemma_joined_acc_fixed(h, '-');
    assert(trim_char(h, '-') == h);
}

/// A text case that is not one of the known names leaves the value as it is.
pub proof fn law_unknown_case(v: Seq<char>, case: Seq<char>)
    requires
        case != "upper"@,
        case != "lower"@,
        case != "sentence"@,
        case != "title"@,
        case != "hyphen"@,
        case != "snake"@,
        case != "camel"@,
        case != "pascal"@,
    ensures
        spec_text_case(v, case) == v,
{
}

// ---------------------------------------------------------------------------
// Search fields
// ---------------------------------------------------------------------------

proof fn lemma_creator_names_map(cs: Seq<ZoteroCreator>)
    ensures
        creator_names(cs) == cs.filter_map(|c: ZoteroCreator| creator_search_name(c)),
    decreases cs.len(),
{
    if cs.len() > 0 {
        lemma_creator_names_map(cs.drop_last());
        let prev = cs.drop_last().filter_map(|c: ZoteroCreator| creator_search_name(c));
        match creator_search_name(cs.last()) {
            Some(n) => {
                assert(prev + seq![n] =~= prev.push(n));
            },
            None => {},
        }
    }
}

/// A field named "creator" or "creators", in any spelling that trims and
/// lower-cases to one of them, gives for each creator in order its
/// single-field name when that is not empty, else its non-empty given and
/// family names joined by a space; creators with neither are skipped.
pub proof fn law_creator_field(item: ZoteroItem, f1: Seq<char>)
    ensures
        (spec_to_lowercase(trim(f1)) == "creator"@ || spec_to_lowercase(trim(f1)) == "creators"@) ==> spec_extract_values(
            item,
            f1,
        ) == match item.data.creators {
            Some(cs) => cs@.filter_map(|c: ZoteroCreator| creator_search_name(c)),
            None => Seq::<Seq<char>>::empty(),
        },
        forall|c: ZoteroCreator| #[trigger] creator_search_name(c) == (match c.name {
            Some(n) if n@.len() > 0 => Some(n@),
            _ => if name_part(c.first_name).len() + name_part(c.last_name).len() == 0 {
                None
            } else {
                Some(join(name_part(c.first_name) + name_part(c.last_name), " "@))
            },
        }),
        forall|o: Option<String>| #[trigger] name_part(o) == (match o {
            Some(f) if f@.len() > 0 => seq![f@],
            _ => Seq::<Seq<char>>::empty(),
        }),
{
    if let Some(cs) = item.data.creators {
        lemma_creator_names_map(cs@);
    }
    reveal_strlit("creator");
    reveal_strlit("creators");
    reveal_strlit("tag");
    reveal_strlit("year");
    assert("creators"@.len() == 8 && "tag"@.len() == 3 && "year"@.len() == 4 && "creator"@.len() == 7);
}

// ---------------------------------------------------------------------------
// arXiv metadata
// ---------------------------------------------------------------------------

/// Whether `t` has no whitespace at either end and no two whitespace
/// characters in a row.
pub open spec fn collapsed(t: Seq<char>) -> bool {
    &&& t.len() > 0 ==> !spec_is_whitespace(t[0]) && !spec_is_whitespace(t.last())
    &&& forall|i: int| 0 <= i < t.len() - 1 ==> !(spec_is_whitespace(#[trigger] t[i]) && spec_is_whitespace(t[i + 1]))
}

/// Whether `w` is a non-empty word without whitespace.
pub open spec fn plain_word(w: Seq<char>) -> bool {
    w.len() > 0 && forall|i: int| 0 <= i < w.len() ==> !spec_is_whitespace(#[trigger] w[i])
}

proof fn lemma_words_plain(s: Seq<char>)
    ensures
        forall|k: int| 0 <= k < split_ws_acc(s).0.len() ==> plain_word(#[trigger] split_ws_acc(s).0[k]),
        split_ws_acc(s).1 ==> split_ws_acc(s).0.len() > 0,
    decreases s.len(),
{
    if s.len() > 0 {
        lemma_words_plain(s.drop_last());
        let (r, open_run) = split_ws_acc(s.drop_last());
        let c = s.last();
        if !spec_is_whitespace(c) {
            if open_run {
                let w = r.last().push(c);
                assert(plain_word(r[r.len() - 1]));
                assert forall|i: int| 0 <= i < w.len() implies !spec_is_whitespace(#[trigger] w[i]) by {
                    if i < w.len() - 1 {
                        assert(w[i] == r.last()[i]);
                    }
                }
                let r2 = r.update(r.len() - 1, w);
                assert forall|k: int| 0 <= k < r2.len() implies plain_word(#[trigger] r2[k]) by {
                    if k < r.len() - 1 {
                        assert(r2[k] == r[k]);
                    }
                }
            } else {
                let r2 = r.push(seq![c]);
                assert forall|k: int| 0 <= k < r2.len() implies plain_word(#[trigger] r2[k]) by {
                    if k < r.len() {
                        assert(r2[k] == r[k]);
                    } else {
                        assert(r2[k] == seq![c]);
                    }
                }
            }
        }
    }
}

proof fn lemma_join_plain(parts: Seq<Seq<char>>)
    requires
        forall|k: int| 0 <= k < parts.len() ==> plain_word(#[trigger] parts[k]),
    ensures
        collapsed(join(parts, " "@)),
        parts.len() > 0 ==> join(parts, " "@).len() > 0,
    decreases parts.len(),
{
    reveal_strlit(" ");
    assert(!spec_is_whitespace('a') && spec_is_whitespace(' '));
    if parts.len() == 1 {
        assert(plain_word(parts[0]));
        let w = parts[0];
        assert(!spec_is_whitespace(w[0]) && !spec_is_whitespace(w[w.len() - 1]));
    } else if parts.len() > 1 {
        let p = parts.drop_last();
        assert forall|k: int| 0 <= k < p.len() implies plain_word(#[trigger] p[k]) by {
            assert(p[k] == parts[k]);
        }
        lemma_join_plain(p);
        let a = join(p, " "@);
        let w = parts.last();
        assert(plain_word(parts[parts.len() - 1]));
        let j = a + " "@ + w;
        assert(j == join(parts, " "@));
        assert(" "@ == seq![' ']);
        assert(j[0] == a[0]);
        assert(j.last() == w[w.len() - 1]);
        assert forall|i: int| 0 <= i < j.len() - 1 implies !(spec_is_whitespace(#[trigger] j[i]) && spec_is_whitespace(j[i + 1])) by {
            if i < a.len() - 1 {
                assert(j[i] == a[i] && j[i + 1] == a[i + 1]);
            } else if i == a.len() - 1 {
                assert(j[i] == a.last());
            } else if i == a.len() {
                assert(j[i + 1] == w[0]);
            } else {
                assert(j[i] == w[i - a.len() - 1]);
            }
        }
    }
}

/// Collapsed whitespace has none at either end and never two in a row.
pub proof fn law_collapse_ws(s: Seq<char>)
    ensures
        collapsed(collapse_ws(s)),
{
    lemma_words_plain(s);
    lemma_join_plain(split_ws(s));
}

proof fn lemma_clean_names(raw: Seq<Seq<char>>)
    ensures
        forall|k: int| 0 <= k < clean_names(raw).len() ==> (#[trigger] clean_names(raw)[k]).len() > 0,
    decreases raw.len(),
{
    if raw.len() > 0 {
        lemma_clean_names(raw.drop_last());
        let prev = clean_names(raw.drop_last());
        assert forall|k: int| 0 <= k < clean_names(raw).len() implies (#[trigger] clean_names(raw)[k]).len() > 0 by {
            if k < prev.len() {
                assert(clean_names(raw)[k] == prev[k]);
            }
        }
    }
}

/// The text of the first `<entry>` of an Atom feed, or empty.
pub open spec fn atom_entry(xml: Seq<char>) -> Seq<char> {
    match crate::patterns::capture_or_none(crate::arxiv::entry_pattern(), xml, 1) {
        Some(e) => e,
        None => Seq::<char>::empty(),
    }
}

/// A parsed arXiv entry has a non-empty title with whitespace collapsed and
/// only non-empty author names; its DOI is empty or the lower-cased form of
/// a text matching `^10\.\d{4,9}/.+`; without an `arxiv:primary_category`
/// its primary category is its first category, or empty when it has none.
pub proof fn law_arxiv_entry(xml: Seq<char>)
    ensures
        spec_parse_arxiv_atom(xml) matches Ok(p) ==> p.title.len() > 0 && collapsed(p.title)
            && forall|k: int| 0 <= k < p.authors.len() ==> (#[trigger] p.authors[k]).len() > 0,
        spec_parse_arxiv_atom(xml) matches Ok(p) ==> p.doi.len() == 0 || exists|d: Seq<char>|
            crate::patterns::matches_or_false("^10\\.\\d{4,9}/.+"@, d) && p.doi == #[trigger] spec_to_lowercase(d),
        spec_parse_arxiv_atom(xml) matches Ok(p) ==> (crate::patterns::capture_or_none(
            crate::arxiv::primary_pattern(),
            atom_entry(xml),
            1,
        ) is None ==> p.primary_category == (if p.categories.len() > 0 {
            p.categories[0]
        } else {
            Seq::<char>::empty()
        })),
{
    if let Ok(p) = spec_parse_arxiv_atom(xml) {
        let entry = atom_entry(xml);
        law_collapse_ws(spec_xml_unescape(crate::arxiv::spec_first_xml_tag(entry, "title"@)));
        lemma_clean_names(crate::patterns::capture_all_or_none(crate::arxiv::author_pattern(), entry, 1));
        let raw = crate::arxiv::first_tag_of(entry, "arxiv:doi"@, "doi"@);
        if let Some(d) = crate::arxiv::spec_normalize_doi_like(raw) {
            if d.len() > 0 {
                let t = trim(raw);
                assert(t.len() > 0);
                assert(crate::patterns::matches_or_false("^10\\.\\d{4,9}/.+"@, d));
                assert(p.doi == spec_to_lowercase(d));
            }
        }
    }
}


// ---------------------------------------------------------------------------
// Template comparisons
// ---------------------------------------------------------------------------

proof fn lemma_text_order_antisym(a: Seq<char>, b: Seq<char>)
    ensures
        text_order(a, b) == -text_order(b, a),
        -1 <= text_order(a, b) <= 1,
        text_order(a, b) == 0 <==> a == b,
    decreases a.len(),
{
    if a.len() > 0 && b.len() > 0 && a[0] == b[0] {
        lemma_text_order_antisym(a.drop_first(), b.drop_first());
        if a.drop_first() == b.drop_first() {
            assert(a =~= seq![a[0]] + a.drop_first());
            assert(b =~= seq![b[0]] + b.drop_first());
        }
    } else if a.len() > 0 && b.len() > 0 {
        assert(a[0] != b[0]);
    } else if a.len() == 0 && b.len() == 0 {
        assert(a =~= b);
    }
}

/// How the comparators of a template condition relate, for any two operand
/// values: `!=` holds exactly when `==` does not; `<` exactly when `>=`
/// does not, and `>` exactly when `<=` does not; `<=` is `<` or `==`, and
/// `>=` is `>` or `==`; exactly one of `<`, `==` and `>` holds; swapping the
/// operands swaps `<` and `>` and keeps `==`; a value equals itself; and an
/// unknown comparator never holds.
#[verifier::spinoff_prover]
pub proof fn law_comparators(l: Seq<char>, r: Seq<char>, op: Seq<char>)
    ensures
        spec_compare_values(l, "!="@, r) == !spec_compare_values(l, "=="@, r),
        spec_compare_values(l, "<"@, r) == !spec_compare_values(l, ">="@, r),
        spec_compare_values(l, ">"@, r) == !spec_compare_values(l, "<="@, r),
        spec_compare_values(l, "<="@, r) == (spec_compare_values(l, "<"@, r) || spec_compare_values(l, "=="@, r)),
        spec_compare_values(l, ">="@, r) == (spec_compare_values(l, ">"@, r) || spec_compare_values(l, "=="@, r)),
        !(spec_compare_values(l, "<"@, r) && spec_compare_values(l, "=="@, r)),
        !(spec_compare_values(l, ">"@, r) && spec_compare_values(l, "=="@, r)),
        !(spec_compare_values(l, "<"@, r) && spec_compare_values(l, ">"@, r)),
        spec_compare_values(l, "<"@, r) || spec_compare_values(l, "=="@, r) || spec_compare_values(l, ">"@, r),
        spec_compare_values(l, "<"@, r) == spec_compare_values(r, ">"@, l),
        spec_compare_values(l, "=="@, r) == spec_compare_values(r, "=="@, l),
        spec_compare_values(l, "=="@, l),
        op != "=="@ && op != "!="@ && op != "<"@ && op != ">"@ && op != "<="@ && op != ">="@ ==> !spec_compare_values(l, op, r),
{
    reveal_strlit("==");
    reveal_strlit("!=");
    reveal_strlit("<");
    reveal_strlit(">");
    reveal_strlit("<=");
    reveal_strlit(">=");
    assert("=="@[0] != "!="@[0] && "=="@[0] != "<="@[0] && "=="@[0] != ">="@[0] && "!="@[0] != "<="@[0]
        && "!="@[0] != ">="@[0] && "<="@[0] != ">="@[0]);
    assert("<"@[0] != ">"@[0]);
    assert("<"@.len() == 1 && ">"@.len() == 1 && "=="@.len() == 2 && "!="@.len() == 2 && "<="@.len() == 2 && ">="@.len() == 2);
    assert("<"@ != "=="@ && "<"@ != "!="@ && "<"@ != ">="@ && "<"@ != "<="@ && "<"@ != ">"@);
    assert(">"@ != "=="@ && ">"@ != "!="@ && ">"@ != ">="@ && ">"@ != "<="@);
    lemma_text_order_antisym(spec_to_lowercase(l), spec_to_lowercase(r));
    lemma_text_order_antisym(spec_to_lowercase(l), spec_to_lowercase(l));
}

proof fn lemma_digit_char(d: nat)
    requires
        d < 10,
    ensures
        is_digit(digit_char(d)),
        digit_value(digit_char(d)) == d,
{
    assert('0' as nat == 48 && '9' as nat == 57);
    assert('1' as nat == 49 && '2' as nat == 50 && '3' as nat == 51 && '4' as nat == 52);
    assert('5' as nat == 53 && '6' as nat == 54 && '7' as nat == 55 && '8' as nat == 56);
}

proof fn lemma_decimal_digits(n: nat)
    ensures
        decimal(n).len() > 0,
        all_digits(decimal(n)),
        digits_value(decimal(n)) == n,
    decreases n,
{
    lemma_digit_char(n % 10);
    if n < 10 {
        let d = decimal(n);
        assert(d =~= seq![digit_char(n)]);
        assert(d.drop_last() =~= Seq::<char>::empty());
        assert(is_digit(d[0]));
        assert(n % 10 == n);
        assert(d.last() == digit_char(n));
        assert(digits_value(d) == digits_value(d.drop_last()) * 10 + digit_value(d.last()));
        assert(digits_value(Seq::<char>::empty()) == 0);
    } else {
        lemma_decimal_digits(n / 10);
        let d = decimal(n / 10).push(digit_char(n % 10));
        assert(n == (n / 10) * 10 + n % 10);
        assert(d.drop_last() =~= decimal(n / 10));
        assert(d == decimal(n));
        assert(d.last() == digit_char(n % 10));
        assert(digits_value(d) == digits_value(d.drop_last()) * 10 + digit_value(d.last()));
        assert forall|i: int| 0 <= i < d.len() implies #[trigger] is_digit(d[i]) by {
            if i < d.len() - 1 {
                assert(d[i] == decimal(n / 10)[i]);
            }
        }
    }
}

proof fn lemma_dot_pos_digits(s: Seq<char>)
    requires
        all_digits(s),
    ensures
        dot_pos(s) == s.len(),
    decreases s.len(),
{
    if s.len() > 0 {
        assert(is_digit(s[0]));
        assert forall|i: int| 0 <= i < s.drop_first().len() implies #[trigger] is_digit(s.drop_first()[i]) by {
            assert(s.drop_first()[i] == s[i + 1]);
        }
        lemma_dot_pos_digits(s.drop_first());
    }
}

proof fn lemma_decimal_read(n: nat)
    ensures
        spec_decimal(decimal(n)) == Some((false, decimal(n), Seq::<char>::empty())),
{
    let d = decimal(n);
    lemma_decimal_digits(n);
    assert(is_digit(d[0]) && is_digit(d[d.len() - 1]));
    assert(trim_start(d) == d);
    assert(trim_end(d) == d);
    lemma_dot_pos_digits(d);
    assert(d.take(d.len() as int) =~= d);
}

/// Numbers in a template condition compare by value: for any two natural
/// numbers written in decimal, `<`, `==` and `>` hold exactly as they do for
/// the numbers.
#[verifier::spinoff_prover]
pub proof fn law_number_comparison(n: nat, m: nat)
    ensures
        spec_compare_values(decimal(n), "<"@, decimal(m)) <==> n < m,
        spec_compare_values(decimal(n), "=="@, decimal(m)) <==> n == m,
        spec_compare_values(decimal(n), ">"@, decimal(m)) <==> n > m,
        spec_compare_values(decimal(n), "!="@, decimal(m)) <==> n != m,
{
    reveal_strlit("==");
    reveal_strlit("!=");
    reveal_strlit("<");
    reveal_strlit(">");
    reveal_strlit("<=");
    reveal_strlit(">=");
    assert("<"@[0] != ">"@[0]);
    assert("<"@.len() == 1 && ">"@.len() == 1 && "=="@.len() == 2 && "!="@.len() == 2 && "<="@.len() == 2 && ">="@.len() == 2);
    assert("=="@[0] != "!="@[0]);
    lemma_decimal_read(n);
    lemma_decimal_read(m);
    lemma_decimal_digits(n);
    lemma_decimal_digits(m);
    let e = Seq::<char>::empty();
    assert(scaled_digits(decimal(n), e, 0) =~= decimal(n));
    assert(scaled_digits(decimal(m), e, 0) =~= decimal(m));
    assert(digits_value(scaled_digits(decimal(n), e, 0)) == n);
    assert(digits_value(scaled_digits(decimal(m), e, 0)) == m);
    assert(decimal_order((false, decimal(n), e), (false, decimal(m), e)) == (if n < m { -1int } else if n > m { 1int } else { 0int }));
}

// ---------------------------------------------------------------------------
// Search fields
// ---------------------------------------------------------------------------

/// The value of a text field when it is present and not blank.
pub open spec fn text_values(o: Option<String>) -> Seq<Seq<char>> {
    match o {
        Some(s) => if trim(s@).len() > 0 {
            seq![s@]
        } else {
            Seq::<Seq<char>>::empty()
        },
        None => Seq::<Seq<char>>::empty(),
    }
}

/// The decimal text of a numeric field when it is present.
pub open spec fn number_values(o: Option<i64>) -> Seq<Seq<char>> {
    match o {
        Some(x) => seq![crate::text::signed_decimal(x as int)],
        None => Seq::<Seq<char>>::empty(),
    }
}

/// Each item field is searched in the field of its own name: a field name
/// that trims and lower-cases to the name of an item field (`publicationtitle`,
/// `publisher`, `doi`, ...) gives that field's own value, when present and
/// not blank (numbers as their decimal text); `year` reads the date and
/// `abstract` the abstract.
#[verifier::spinoff_prover]
#[verifier::rlimit(60)]
pub proof fn law_field_values(item: ZoteroItem, field: Seq<char>)
    ensures
        spec_to_lowercase(trim(field)) == "date"@ ==> spec_extract_values(item, field) == text_values(item.data.date),
        spec_to_lowercase(trim(field)) == "abstract"@ ==> spec_extract_values(item, field) == text_values(item.data.abstract_note),
        spec_to_lowercase(trim(field)) == "abstractnote"@ ==> spec_extract_values(item, field) == text_values(item.data.abstract_note),
        spec_to_lowercase(trim(field)) == "title"@ ==> spec_extract_values(item, field) == text_values(item.data.title),
        spec_to_lowercase(trim(field)) == "key"@ ==> spec_extract_values(item, field) == text_values(item.data.key),
        spec_to_lowercase(trim(field)) == "dateadded"@ ==> spec_extract_values(item, field) == text_values(item.data.date_added),
        spec_to_lowercase(trim(field)) == "datemodified"@ ==> spec_extract_values(item, field) == text_values(item.data.date_modified),
        spec_to_lowercase(trim(field)) == "publicationtitle"@ ==> spec_extract_values(item, field) == text_values(item.data.publication_title),
        spec_to_lowercase(trim(field)) == "volume"@ ==> spec_extract_values(item, field) == text_values(item.data.volume),
        spec_to_lowercase(trim(field)) == "issue"@ ==> spec_extract_values(item, field) == text_values(item.data.issue),
        spec_to_lowercase(trim(field)) == "pages"@ ==> spec_extract_values(item, field) == text_values(item.data.pages),
        spec_to_lowercase(trim(field)) == "doi"@ ==> spec_extract_values(item, field) == text_values(item.data.doi),
        spec_to_lowercase(trim(field)) == "url"@ ==> spec_extract_values(item, field) == text_values(item.data.url),
        spec_to_lowercase(trim(field)) == "publisher"@ ==> spec_extract_values(item, field) == text_values(item.data.publisher),
        spec_to_lowercase(trim(field)) == "place"@ ==> spec_extract_values(item, field) == text_values(item.data.place),
        spec_to_lowercase(trim(field)) == "issn"@ ==> spec_extract_values(item, field) == text_values(item.data.issn),
        spec_to_lowercase(trim(field)) == "extra"@ ==> spec_extract_values(item, field) == text_values(item.data.extra),
        spec_to_lowercase(trim(field)) == "note"@ ==> spec_extract_values(item, field) == text_values(item.data.note),
        spec_to_lowercase(trim(field)) == "contenttype"@ ==> spec_extract_values(item, field) == text_values(item.data.content_type),
        spec_to_lowercase(trim(field)) == "filename"@ ==> spec_extract_values(item, field) == text_values(item.data.filename),
        spec_to_lowercase(trim(field)) == "md5"@ ==> spec_extract_values(item, field) == text_values(item.data.md5),
        spec_to_lowercase(trim(field)) == "parentitem"@ ==> spec_extract_values(item, field) == text_values(item.data.parent_item),
        spec_to_lowercase(trim(field)) == "annotationtype"@ ==> spec_extract_values(item, field) == text_values(item.data.annotation_type),
        spec_to_lowercase(trim(field)) == "annotationtext"@ ==> spec_extract_values(item, field) == text_values(item.data.annotation_text),
        spec_to_lowercase(trim(field)) == "annotationcomment"@ ==> spec_extract_values(item, field) == text_values(item.data.annotation_comment),
        spec_to_lowercase(trim(field)) == "annotationcolor"@ ==> spec_extract_values(item, field) == text_values(item.data.annotation_color),
        spec_to_lowercase(trim(field)) == "annotationpagelabel"@ ==> spec_extract_values(item, field) == text_values(item.data.annotation_page_label),
        spec_to_lowercase(trim(field)) == "annotationposition"@ ==> spec_extract_values(item, field) == text_values(item.data.annotation_position),
        spec_to_lowercase(trim(field)) == "linkmode"@ ==> spec_extract_values(item, field) == text_values(item.data.link_mode),
        spec_to_lowercase(trim(field)) == "year"@ ==> spec_extract_values(item, field) == text_values(item.data.date),
        spec_to_lowercase(trim(field)) == "itemtype"@ ==> spec_extract_values(item, field) == (if trim(item.data.item_type@).len() > 0 { seq![item.data.item_type@] } else { Seq::<Seq<char>>::empty() }),
        spec_to_lowercase(trim(field)) == "version"@ ==> spec_extract_values(item, field) == number_values(item.data.version),
        spec_to_lowercase(trim(field)) == "mtime"@ ==> spec_extract_values(item, field) == number_values(item.data.mtime),
        spec_to_lowercase(trim(field)) == "collections"@ ==> spec_extract_values(item, field) == (match item.data.collections { Some(c) => views(c@), None => Seq::<Seq<char>>::empty() }),
{
    reveal_strlit("date");
    reveal_strlit("abstract");
    reveal_strlit("abstractnote");
    reveal_strlit("title");
    reveal_strlit("key");
    reveal_strlit("dateadded");
    reveal_strlit("datemodified");
    reveal_strlit("publicationtitle");
    reveal_strlit("volume");
    reveal_strlit("issue");
    reveal_strlit("pages");
    reveal_strlit("doi");
    reveal_strlit("url");
    reveal_strlit("publisher");
    reveal_strlit("place");
    reveal_strlit("issn");
    reveal_strlit("extra");
    reveal_strlit("note");
    reveal_strlit("contenttype");
    reveal_strlit("filename");
    reveal_strlit("md5");
    reveal_strlit("parentitem");
    reveal_strlit("annotationtype");
    reveal_strlit("annotationtext");
    reveal_strlit("annotationcomment");
    reveal_strlit("annotationcolor");
    reveal_strlit("annotationpagelabel");
    reveal_strlit("annotationposition");
    reveal_strlit("linkmode");
    reveal_strlit("creators");
    reveal_strlit("creator");
    reveal_strlit("tags");
    reveal_strlit("tag");
    reveal_strlit("year");
    reveal_strlit("itemtype");
    reveal_strlit("version");
    reveal_strlit("mtime");
    reveal_strlit("collections");
    assert("date"@.len() == 4);
    assert("abstract"@.len() == 8);
    assert("abstractnote"@.len() == 12);
    assert("title"@.len() == 5);
    assert("key"@.len() == 3);
    assert("dateadded"@.len() == 9);
    assert("datemodified"@.len() == 12);
    assert("publicationtitle"@.len() == 16);
    assert("volume"@.len() == 6);
    assert("issue"@.len() == 5);
    assert("pages"@.len() == 5);
    assert("doi"@.len() == 3);
    assert("url"@.len() == 3);
    assert("publisher"@.len() == 9);
    assert("place"@.len() == 5);
    assert("issn"@.len() == 4);
    assert("extra"@.len() == 5);
    assert("note"@.len() == 4);
    assert("contenttype"@.len() == 11);
    assert("filename"@.len() == 8);
    assert("md5"@.len() == 3);
    assert("parentitem"@.len() == 10);
    assert("annotationtype"@.len() == 14);
    assert("annotationtext"@.len() == 14);
    assert("annotationcomment"@.len() == 17);
    assert("annotationcolor"@.len() == 15);
    assert("annotationpagelabel"@.len() == 19);
    assert("annotationposition"@.len() == 18);
    assert("linkmode"@.len() == 8);
    assert("creators"@.len() == 8);
    assert("creator"@.len() == 7);
    assert("tags"@.len() == 4);
    assert("tag"@.len() == 3);
    assert("year"@.len() == 4);
    assert("itemtype"@.len() == 8);
    assert("version"@.len() == 7);
    assert("mtime"@.len() == 5);
    assert("collections"@.len() == 11);
    assert("date"@[0] != "issn"@[0]);
    assert("date"@[0] != "note"@[0]);
    assert("date"@[0] != "tags"@[0]);
    assert("date"@[0] != "year"@[0]);
    assert("abstract"@[0] != "filename"@[0]);
    assert("abstract"@[0] != "linkmode"@[0]);
    assert("abstract"@[0] != "creators"@[0]);
    assert("abstract"@[0] != "itemtype"@[0]);
    assert("abstractnote"@[0] != "datemodified"@[0]);
    assert("title"@[0] != "issue"@[0]);
    assert("title"@[0] != "pages"@[0]);
    assert("title"@[0] != "place"@[0]);
    assert("title"@[0] != "extra"@[0]);
    assert("title"@[0] != "mtime"@[0]);
    assert("key"@[0] != "doi"@[0]);
    assert("key"@[0] != "url"@[0]);
    assert("key"@[0] != "md5"@[0]);
    assert("key"@[0] != "tag"@[0]);
    assert("dateadded"@[0] != "publisher"@[0]);
    assert("issue"@[0] != "pages"@[0]);
    assert("issue"@[0] != "place"@[0]);
    assert("issue"@[0] != "extra"@[0]);
    assert("issue"@[0] != "mtime"@[0]);
    assert("pages"@[1] != "place"@[1]);
    assert("pages"@[0] != "extra"@[0]);
    assert("pages"@[0] != "mtime"@[0]);
    assert("doi"@[0] != "url"@[0]);
    assert("doi"@[0] != "md5"@[0]);
    assert("doi"@[0] != "tag"@[0]);
    assert("url"@[0] != "md5"@[0]);
    assert("url"@[0] != "tag"@[0]);
    assert("place"@[0] != "extra"@[0]);
    assert("place"@[0] != "mtime"@[0]);
    assert("issn"@[0] != "note"@[0]);
    assert("issn"@[0] != "tags"@[0]);
    assert("issn"@[0] != "year"@[0]);
    assert("extra"@[0] != "mtime"@[0]);
    assert("note"@[0] != "tags"@[0]);
    assert("note"@[0] != "year"@[0]);
    assert("contenttype"@[2] != "collections"@[2]);
    assert("filename"@[0] != "linkmode"@[0]);
    assert("filename"@[0] != "creators"@[0]);
    assert("filename"@[0] != "itemtype"@[0]);
    assert("md5"@[0] != "tag"@[0]);
    assert("annotationtype"@[11] != "annotationtext"@[11]);
    assert("linkmode"@[0] != "creators"@[0]);
    assert("linkmode"@[0] != "itemtype"@[0]);
    assert("creators"@[0] != "itemtype"@[0]);
    assert("creator"@[0] != "version"@[0]);
    assert("tags"@[0] != "year"@[0]);
}

proof fn lemma_search_tag_names(ts: Seq<ZoteroTag>)
    ensures
        crate::search_engine::tag_names(ts) == ts.filter_map(|t: ZoteroTag| if trim(t.tag@).len() > 0 { Some(t.tag@) } else { None }),
    decreases ts.len(),
{
    if ts.len() > 0 {
        lemma_search_tag_names(ts.drop_last());
        let prev = ts.drop_last().filter_map(|t: ZoteroTag| if trim(t.tag@).len() > 0 { Some(t.tag@) } else { None });
        assert(prev + seq![ts.last().tag@] =~= prev.push(ts.last().tag@));
    }
}

/// A field named "tag" or "tags", in any spelling that trims and lower-cases
/// to one of them, gives the names of the item's tags that are not blank, in
/// order.
pub proof fn law_tag_field(item: ZoteroItem, field: Seq<char>)
    ensures
        (spec_to_lowercase(trim(field)) == "tag"@ || spec_to_lowercase(trim(field)) == "tags"@) ==> spec_extract_values(
            item,
            field,
        ) == match item.data.tags {
            Some(ts) => ts@.filter_map(|t: ZoteroTag| if trim(t.tag@).len() > 0 { Some(t.tag@) } else { None }),
            None => Seq::<Seq<char>>::empty(),
        },
{
    reveal_strlit("creator");
    reveal_strlit("creators");
    reveal_strlit("tag");
    reveal_strlit("tags");
    reveal_strlit("year");
    assert("creators"@.len() == 8 && "tag"@.len() == 3 && "year"@.len() == 4 && "creator"@.len() == 7 && "tags"@.len() == 4);
    assert("tags"@[0] != "year"@[0]);
    if let Some(ts) = item.data.tags {
        lemma_search_tag_names(ts@);
    }
}

proof fn lemma_join_prefix(parts: Seq<Seq<char>>, sep: Seq<char>)
    requires
        parts.len() > 0,
    ensures
        parts[0].is_prefix_of(join(parts, sep)),
    decreases parts.len(),
{
    if parts.len() > 1 {
        lemma_join_prefix(parts.drop_last(), sep);
        assert(parts.drop_last()[0] == parts[0]);
    }
}

/// The BibTeX export of an item opens with the entry type of its item type:
/// a journal article or preprint is an `@article`, a conference paper an
/// `@inproceedings`, a book a `@book`, a book section an `@incollection`, a
/// thesis a `@phdthesis`, a report a `@techreport`, anything else `@misc`;
/// then its citation key and a comma.
#[verifier::spinoff_prover]
pub proof fn law_bibtex_entry_type(item: ZoteroItem)
    ensures
        item.data.item_type@ == "journalArticle"@ ==> ("@"@ + "article"@ + "{"@ + spec_cite_key(item) + ","@).is_prefix_of(join(bibtex_lines(item), "\n"@)),
        item.data.item_type@ == "conferencePaper"@ ==> ("@"@ + "inproceedings"@ + "{"@ + spec_cite_key(item) + ","@).is_prefix_of(join(bibtex_lines(item), "\n"@)),
        item.data.item_type@ == "book"@ ==> ("@"@ + "book"@ + "{"@ + spec_cite_key(item) + ","@).is_prefix_of(join(bibtex_lines(item), "\n"@)),
        item.data.item_type@ == "bookSection"@ ==> ("@"@ + "incollection"@ + "{"@ + spec_cite_key(item) + ","@).is_prefix_of(join(bibtex_lines(item), "\n"@)),
        item.data.item_type@ == "thesis"@ ==> ("@"@ + "phdthesis"@ + "{"@ + spec_cite_key(item) + ","@).is_prefix_of(join(bibtex_lines(item), "\n"@)),
        item.data.item_type@ == "report"@ ==> ("@"@ + "techreport"@ + "{"@ + spec_cite_key(item) + ","@).is_prefix_of(join(bibtex_lines(item), "\n"@)),
        item.data.item_type@ == "webpage"@ ==> ("@"@ + "misc"@ + "{"@ + spec_cite_key(item) + ","@).is_prefix_of(join(bibtex_lines(item), "\n"@)),
        item.data.item_type@ == "preprint"@ ==> ("@"@ + "article"@ + "{"@ + spec_cite_key(item) + ","@).is_prefix_of(join(bibtex_lines(item), "\n"@)),
        item.data.item_type@ != "journalArticle"@ && item.data.item_type@ != "conferencePaper"@ && item.data.item_type@ != "book"@ && item.data.item_type@ != "bookSection"@ && item.data.item_type@ != "thesis"@ && item.data.item_type@ != "report"@ && item.data.item_type@ != "webpage"@ && item.data.item_type@ != "preprint"@ ==> ("@"@ + "misc"@ + "{"@ + spec_cite_key(item) + ","@).is_prefix_of(join(bibtex_lines(item), "\n"@)),
{
    reveal_strlit("article");
    reveal_strlit("book");
    reveal_strlit("bookSection");
    reveal_strlit("conferencePaper");
    reveal_strlit("incollection");
    reveal_strlit("inproceedings");
    reveal_strlit("journalArticle");
    reveal_strlit("misc");
    reveal_strlit("phdthesis");
    reveal_strlit("preprint");
    reveal_strlit("report");
    reveal_strlit("techreport");
    reveal_strlit("thesis");
    reveal_strlit("webpage");
    assert("journalArticle"@.len() == 14);
    assert("conferencePaper"@.len() == 15);
    assert("book"@.len() == 4);
    assert("bookSection"@.len() == 11);
    assert("thesis"@.len() == 6);
    assert("report"@.len() == 6);
    assert("webpage"@.len() == 7);
    assert("preprint"@.len() == 8);
    assert("thesis"@[0] != "report"@[0]);
    let lines = bibtex_lines(item);
    lemma_join_prefix(lines, "\n"@);
    let head = lines[0];
    assert(head == "@"@ + spec_bibtex_type(item.data.item_type@) + "{"@ + spec_cite_key(item) + ","@);
}

/// The Zotero item type of a CrossRef work follows the type table: a
/// journal article is a journalArticle, a proceedings article a
/// conferencePaper, a book chapter a bookSection, a dissertation a thesis,
/// posted content a preprint, a reference entry an encyclopediaArticle, a
/// book, monograph or edited book a book, a report a report, and a dataset,
/// peer review, standard or other work a document; any other or missing
/// type gives a journalArticle.
#[verifier::spinoff_prover]
pub proof fn law_crossref_item_type(work: CrossrefWork)
    ensures
        opt_view(work.work_type) == Some("journal-article"@) ==> spec_mapped_type(opt_view(work.work_type)) == "journalArticle"@,
        opt_view(work.work_type) == Some("book"@) ==> spec_mapped_type(opt_view(work.work_type)) == "book"@,
        opt_view(work.work_type) == Some("book-chapter"@) ==> spec_mapped_type(opt_view(work.work_type)) == "bookSection"@,
        opt_view(work.work_type) == Some("proceedings-article"@) ==> spec_mapped_type(opt_view(work.work_type)) == "conferencePaper"@,
        opt_view(work.work_type) == Some("report"@) ==> spec_mapped_type(opt_view(work.work_type)) == "report"@,
        opt_view(work.work_type) == Some("dissertation"@) ==> spec_mapped_type(opt_view(work.work_type)) == "thesis"@,
        opt_view(work.work_type) == Some("posted-content"@) ==> spec_mapped_type(opt_view(work.work_type)) == "preprint"@,
        opt_view(work.work_type) == Some("monograph"@) ==> spec_mapped_type(opt_view(work.work_type)) == "book"@,
        opt_view(work.work_type) == Some("reference-entry"@) ==> spec_mapped_type(opt_view(work.work_type)) == "encyclopediaArticle"@,
        opt_view(work.work_type) == Some("dataset"@) ==> spec_mapped_type(opt_view(work.work_type)) == "document"@,
        opt_view(work.work_type) == Some("peer-review"@) ==> spec_mapped_type(opt_view(work.work_type)) == "document"@,
        opt_view(work.work_type) == Some("edited-book"@) ==> spec_mapped_type(opt_view(work.work_type)) == "book"@,
        opt_view(work.work_type) == Some("standard"@) ==> spec_mapped_type(opt_view(work.work_type)) == "document"@,
        opt_view(work.work_type) == Some("other"@) ==> spec_mapped_type(opt_view(work.work_type)) == "document"@,
        opt_view(work.work_type) != Some("journal-article"@) && opt_view(work.work_type) != Some("book"@) && opt_view(work.work_type) != Some("book-chapter"@) && opt_view(work.work_type) != Some("proceedings-article"@) && opt_view(work.work_type) != Some("report"@) && opt_view(work.work_type) != Some("dissertation"@) && opt_view(work.work_type) != Some("posted-content"@) && opt_view(work.work_type) != Some("monograph"@) && opt_view(work.work_type) != Some("reference-entry"@) && opt_view(work.work_type) != Some("dataset"@) && opt_view(work.work_type) != Some("peer-review"@) && opt_view(work.work_type) != Some("edited-book"@) && opt_view(work.work_type) != Some("standard"@) && opt_view(work.work_type) != Some("other"@) ==> spec_mapped_type(opt_view(work.work_type)) == "journalArticle"@,
{
    reveal_with_fuel(crate::types::table_lookup, 15);
    reveal_strlit("journal-article");
    reveal_strlit("book");
    reveal_strlit("book-chapter");
    reveal_strlit("proceedings-article");
    reveal_strlit("report");
    reveal_strlit("dissertation");
    reveal_strlit("posted-content");
    reveal_strlit("monograph");
    reveal_strlit("reference-entry");
    reveal_strlit("dataset");
    reveal_strlit("peer-review");
    reveal_strlit("edited-book");
    reveal_strlit("standard");
    reveal_strlit("other");
    assert("journal-article"@.len() == 15);
    assert("book"@.len() == 4);
    assert("book-chapter"@.len() == 12);
    assert("proceedings-article"@.len() == 19);
    assert("report"@.len() == 6);
    assert("dissertation"@.len() == 12);
    assert("posted-content"@.len() == 14);
    assert("monograph"@.len() == 9);
    assert("reference-entry"@.len() == 15);
    assert("dataset"@.len() == 7);
    assert("peer-review"@.len() == 11);
    assert("edited-book"@.len() == 11);
    assert("standard"@.len() == 8);
    assert("other"@.len() == 5);
    assert("journal-article"@[0] != "reference-entry"@[0]);
    assert("book-chapter"@[0] != "dissertation"@[0]);
    assert("peer-review"@[0] != "edited-book"@[0]);
}

/// The item planned for an arXiv paper keeps the paper's own DOI: when the
/// entry carries a DOI, the planned DOI (and the identifier of its PDF) is
/// that DOI and the arXiv fields are not used; only an entry without a DOI
/// gets the arXiv DataCite DOI `10.48550/arXiv.<id>`, with `<id>` the
/// planned article id. The planned DOI is never empty.
pub proof fn law_arxiv_plan_doi(p: ArxivSpec, arxiv_id: Seq<char>)
    ensures
        spec_arxiv_plan(p, arxiv_id) matches Some(t) ==> (p.doi.len() > 0 ==> t.5 == p.doi && t.7 == p.doi && !t.8),
        spec_arxiv_plan(p, arxiv_id) matches Some(t) ==> (p.doi.len() == 0 ==> t.5 == "10.48550/arXiv."@ + t.2 && t.8),
        spec_arxiv_plan(p, arxiv_id) matches Some(t) ==> t.5.len() > 0,
{
    reveal_strlit("10.48550/arXiv.");
    assert("10.48550/arXiv."@.len() == 15);
}

proof fn lemma_text_order_lex(a: Seq<char>, b: Seq<char>)
    ensures
        text_order(a, b) < 0 <==> a != b && lex_le(a, b),
    decreases a.len(),
{
    lemma_text_order_antisym(a, b);
    if a.len() > 0 && b.len() > 0 && a[0] == b[0] {
        lemma_text_order_lex(a.drop_first(), b.drop_first());
        lemma_text_order_antisym(a.drop_first(), b.drop_first());
        if a.drop_first() == b.drop_first() {
            assert(a =~= seq![a[0]] + a.drop_first());
            assert(b =~= seq![b[0]] + b.drop_first());
        }
    } else if a.len() == 0 && b.len() == 0 {
        assert(a =~= b);
    }
}

/// Text operands (when either is not a number) compare as lower-cased text:
/// equal exactly when their lower-cased forms are equal, and `<` exactly
/// when the lower-cased left one comes first in the order of characters.
#[verifier::spinoff_prover]
pub proof fn law_text_comparison(l: Seq<char>, r: Seq<char>)
    requires
        spec_decimal(l) is None || spec_decimal(r) is None,
    ensures
        spec_compare_values(l, "=="@, r) <==> spec_to_lowercase(l) == spec_to_lowercase(r),
        spec_compare_values(l, "<"@, r) <==> spec_to_lowercase(l) != spec_to_lowercase(r) && lex_le(
            spec_to_lowercase(l),
            spec_to_lowercase(r),
        ),
{
    reveal_strlit("==");
    reveal_strlit("!=");
    reveal_strlit("<");
    reveal_strlit(">");
    reveal_strlit("<=");
    reveal_strlit(">=");
    assert("<"@[0] != ">"@[0]);
    assert("<"@.len() == 1 && ">"@.len() == 1 && "=="@.len() == 2 && "!="@.len() == 2 && "<="@.len() == 2 && ">="@.len() == 2);
    lemma_text_order_antisym(spec_to_lowercase(l), spec_to_lowercase(r));
    lemma_text_order_lex(spec_to_lowercase(l), spec_to_lowercase(r));
}
} // verus!
