//! A plain model of JSON documents, as the library reads them.

use vstd::prelude::*;

use crate::text::str_eq;

verus! {

broadcast use vstd::std_specs::vec::group_vec_axioms;

/// A JSON value. Object members keep the order in which the document lists
/// them; a number is held as the decimal text that `f64`'s `Display` prints
/// for it.
#[derive(Debug)]
pub enum JsonValue {
    Null,
    Bool(bool),
    Number(String),
    Str(String),
    Array(Vec<JsonValue>),
    Object(Vec<(String, JsonValue)>),
}

/// The mathematical content of a JSON value.
pub enum JsonSpec {
    Null,
    Bool(bool),
    Number(Seq<char>),
    Str(Seq<char>),
    Array(Seq<JsonSpec>),
    Object(Seq<(Seq<char>, JsonSpec)>),
}

/// The content of `v`.
pub open spec fn jview(v: JsonValue) -> JsonSpec
    decreases v,
{
    match v {
        JsonValue::Null => JsonSpec::Null,
        JsonValue::Bool(b) => JsonSpec::Bool(b),
        JsonValue::Number(n) => JsonSpec::Number(n@),
        JsonValue::Str(s) => JsonSpec::Str(s@),
        JsonValue::Array(items) => JsonSpec::Array(
            Seq::new(
                items@.len(),
                |i: int|
                    if 0 <= i < items@.len() {
                        jview(items@[i])
                    } else {
                        JsonSpec::Null
                    },
            ),
        ),
        JsonValue::Object(entries) => JsonSpec::Object(
            Seq::new(
                entries@.len(),
                |i: int|
                    if 0 <= i < entries@.len() {
                        (entries@[i].0@, jview(entries@[i].1))
                    } else {
                        (Seq::<char>::empty(), JsonSpec::Null)
                    },
            ),
        ),
    }
}

/// The content of an object's members.
pub open spec fn entries_view(entries: Seq<(String, JsonValue)>) -> Seq<(Seq<char>, JsonSpec)> {
    Seq::new(entries.len(), |i: int| (entries[i].0@, jview(entries[i].1)))
}

/// The content of an object is the content of its members.
pub proof fn lemma_object_view(entries: Vec<(String, JsonValue)>)
    ensures
        jview(JsonValue::Object(entries)) == JsonSpec::Object(entries_view(entries@)),
{
    if let JsonSpec::Object(x) = jview(JsonValue::Object(entries)) {
        assert(x =~= entries_view(entries@));
    }
}

/// The value of the first member named `key` among `entries`.
pub open spec fn entry_get(entries: Seq<(Seq<char>, JsonSpec)>, key: Seq<char>) -> Option<JsonSpec>
    decreases entries.len(),
{
    if entries.len() == 0 {
        None
    } else if entries[0].0 == key {
        Some(entries[0].1)
    } else {
        entry_get(entries.drop_first(), key)
    }
}

/// The member `key` of `v` when `v` is an object (`Value::get`).
pub open spec fn json_get(v: JsonSpec, key: Seq<char>) -> Option<JsonSpec> {
    match v {
        JsonSpec::Object(entries) => entry_get(entries, key),
        _ => None,
    }
}

/// The text of `v` when `v` is a string (`Value::as_str`).
pub open spec fn json_str(v: JsonSpec) -> Option<Seq<char>> {
    match v {
        JsonSpec::Str(s) => Some(s),
        _ => None,
    }
}

/// The members of `v` when `v` is an object (`Value::as_object`).
pub open spec fn json_object(v: JsonSpec) -> Option<Seq<(Seq<char>, JsonSpec)>> {
    match v {
        JsonSpec::Object(entries) => Some(entries),
        _ => None,
    }
}

/// The members of `v` reached by `key` when both are objects
/// (`v.get(key).and_then(|v| v.as_object())`).
pub open spec fn json_get_object(v: JsonSpec, key: Seq<char>) -> Option<Seq<(Seq<char>, JsonSpec)>> {
    match json_get(v, key) {
        Some(x) => json_object(x),
        None => None,
    }
}

/// Looks up the first member named `key`.
pub fn entries_get<'a>(entries: &'a Vec<(String, JsonValue)>, key: &str) -> (r: Option<&'a JsonValue>)
    ensures
        r matches Some(x) ==> entry_get(entries_view(entries@), key@) == Some(jview(*x)),
        r is None ==> entry_get(entries_view(entries@), key@) is None,
{
    let ghost ev = entries_view(entries@);
    let mut i: usize = 0;
    assert(ev.skip(0) =~= ev);
    while i < entries.len()
        invariant
            i <= entries.len(),
            ev == entries_view(entries@),
            entry_get(ev, key@) == entry_get(ev.skip(i as int), key@),
        decreases entries.len() - i,
    {
        assert(ev.skip(i as int).drop_first() =~= ev.skip(i + 1));
        assert(ev.skip(i as int)[0] == ev[i as int]);
        if str_eq(entries[i].0.as_str(), key) {
            return Some(&entries[i].1);
        }
        i = i + 1;
    }
    None
}

impl JsonValue {
    /// The member `key` when this is an object.
    pub fn get(&self, key: &str) -> (r: Option<&JsonValue>)
        ensures
            r matches Some(x) ==> json_get(jview(*self), key@) == Some(jview(*x)),
            r is None ==> json_get(jview(*self), key@) is None,
    {
        match self {
            JsonValue::Object(entries) => {
                proof {
                    lemma_object_view(*entries);
                }
                entries_get(entries, key)
            },
            _ => None,
        }
    }

    /// The text when this is a string.
    pub fn as_str(&self) -> (r: Option<&str>)
        ensures
            r matches Some(s) ==> json_str(jview(*self)) == Some(s@),
            r is None ==> json_str(jview(*self)) is None,
    {
        match self {
            JsonValue::Str(s) => Some(s.as_str()),
            _ => None,
        }
    }

    /// The members when this is an object.
    pub fn as_object(&self) -> (r: Option<&Vec<(String, JsonValue)>>)
        ensures
            r matches Some(e) ==> json_object(jview(*self)) == Some(entries_view(e@)),
            r is None ==> json_object(jview(*self)) is None,
    {
        match self {
            JsonValue::Object(entries) => {
                proof {
                    lemma_object_view(*entries);
                }
                Some(entries)
            },
            _ => None,
        }
    }
}

/// A copy of `v`.
pub fn clone_json(v: &JsonValue) -> (r: JsonValue)
    ensures
        jview(r) == jview(*v),
    decreases v,
{
    match v {
        JsonValue::Null => JsonValue::Null,
        JsonValue::Bool(b) => JsonValue::Bool(*b),
        JsonValue::Number(n) => JsonValue::Number(n.clone()),
        JsonValue::Str(s) => JsonValue::Str(s.clone()),
        JsonValue::Array(items) => {
            let mut out: Vec<JsonValue> = Vec::new();
            let mut i: usize = 0;
            while i < items.len()
                invariant
                    i <= items.len(),
                    *v == JsonValue::Array(*items),
                    out@.len() == i,
                    forall|k: int| 0 <= k < i ==> jview(#[trigger] out@[k]) == jview(items@[k]),
                decreases items.len() - i,
            {
                proof {
                    assert(decreases_to!(*v => (*v)->Array_0));
                    assert(decreases_to!(*items => items[i as int]));
                }
                let c = clone_json(&items[i]);
                out.push(c);
                i = i + 1;
            }
            let r = JsonValue::Array(out);
            proof {
                if let JsonSpec::Array(x) = jview(r) {
                    if let JsonSpec::Array(y) = jview(*v) {
                        assert(x =~= y);
                    }
                }
            }
            r
        },
        JsonValue::Object(entries) => {
            let mut out: Vec<(String, JsonValue)> = Vec::new();
            let mut i: usize = 0;
            while i < entries.len()
                invariant
                    i <= entries.len(),
                    *v == JsonValue::Object(*entries),
                    out@.len() == i,
                    forall|k: int|
                        0 <= k < i ==> #[trigger] out@[k].0@ == entries@[k].0@ && jview(out@[k].1)
                            == jview(entries@[k].1),
                decreases entries.len() - i,
            {
                proof {
                    assert(decreases_to!(*v => (*v)->Object_0));
                    assert(decreases_to!(*entries => entries[i as int]));
                    assert(decreases_to!(entries[i as int] => entries[i as int].1));
                }
                let c = clone_json(&entries[i].1);
                out.push((entries[i].0.clone(), c));
                i = i + 1;
            }
            let r = JsonValue::Object(out);
            proof {
                if let JsonSpec::Object(x) = jview(r) {
                    if let JsonSpec::Object(y) = jview(*v) {
                        assert(x =~= y);
                    }
                }
            }
            r
        },
    }
}

/// The text of the first member of `entries` whose value is a string.
pub open spec fn first_str_value(entries: Seq<(Seq<char>, JsonSpec)>) -> Option<Seq<char>>
    decreases entries.len(),
{
    if entries.len() == 0 {
        None
    } else {
        match json_str(entries[0].1) {
            Some(s) => Some(s),
            None => first_str_value(entries.drop_first()),
        }
    }
}

/// The `key` text of the first member of `entries` whose value is an object
/// with a string member `key`.
pub open spec fn first_key_field(entries: Seq<(Seq<char>, JsonSpec)>) -> Option<Seq<char>>
    decreases entries.len(),
{
    if entries.len() == 0 {
        None
    } else {
        match json_get(entries[0].1, "key"@) {
            Some(k) => match json_str(k) {
                Some(s) => Some(s),
                None => first_key_field(entries.drop_first()),
            },
            None => first_key_field(entries.drop_first()),
        }
    }
}

/// The text of the first member whose value is a string.
pub fn find_first_str_value(entries: &Vec<(String, JsonValue)>) -> (r: Option<String>)
    ensures
        r matches Some(s) ==> first_str_value(entries_view(entries@)) == Some(s@),
        r is None ==> first_str_value(entries_view(entries@)) is None,
{
    let ghost ev = entries_view(entries@);
    let mut i: usize = 0;
    assert(ev.skip(0) =~= ev);
    while i < entries.len()
        invariant
            i <= entries.len(),
            ev == entries_view(entries@),
            first_str_value(ev) == first_str_value(ev.skip(i as int)),
        decreases entries.len() - i,
    {
        assert(ev.skip(i as int).drop_first() =~= ev.skip(i + 1));
        assert(ev.skip(i as int)[0] == ev[i as int]);
        if let Some(s) = entries[i].1.as_str() {
            return Some(crate::text::owned(s));
        }
        i = i + 1;
    }
    None
}

/// The `key` text of the first member whose value has a string `key`.
pub fn find_first_key_field(entries: &Vec<(String, JsonValue)>) -> (r: Option<String>)
    ensures
        r matches Some(s) ==> first_key_field(entries_view(entries@)) == Some(s@),
        r is None ==> first_key_field(entries_view(entries@)) is None,
{
    let ghost ev = entries_view(entries@);
    let mut i: usize = 0;
    assert(ev.skip(0) =~= ev);
    while i < entries.len()
        invariant
            i <= entries.len(),
            ev == entries_view(entries@),
            first_key_field(ev) == first_key_field(ev.skip(i as int)),
        decreases entries.len() - i,
    {
        assert(ev.skip(i as int).drop_first() =~= ev.skip(i + 1));
        assert(ev.skip(i as int)[0] == ev[i as int]);
        if let Some(k) = entries[i].1.get("key") {
            if let Some(s) = k.as_str() {
                return Some(crate::text::owned(s));
            }
        }
        i = i + 1;
    }
    None
}

/// The position of the first member named `key`.
pub open spec fn entry_index(entries: Seq<(Seq<char>, JsonSpec)>, key: Seq<char>) -> Option<int>
    decreases entries.len(),
{
    if entries.len() == 0 {
        None
    } else if entries[0].0 == key {
        Some(0)
    } else {
        match entry_index(entries.drop_first(), key) {
            Some(i) => Some(i + 1),
            None => None,
        }
    }
}

/// The members with the value of the first member named `key` replaced by
/// `value`; unchanged when there is none (`Map::insert` on a key present).
pub open spec fn set_entry(entries: Seq<(Seq<char>, JsonSpec)>, key: Seq<char>, value: JsonSpec) -> Seq<(Seq<char>, JsonSpec)> {
    match entry_index(entries, key) {
        Some(i) => entries.update(i, (key, value)),
        None => entries,
    }
}

proof fn lemma_entry_index_range(entries: Seq<(Seq<char>, JsonSpec)>, key: Seq<char>)
    ensures
        entry_index(entries, key) matches Some(i) ==> 0 <= i < entries.len() && entries[i].0 == key,
        entry_index(entries, key) is None ==> entry_get(entries, key) is None,
        entry_index(entries, key) is Some ==> entry_get(entries, key) is Some,
    decreases entries.len(),
{
    if entries.len() > 0 {
        lemma_entry_index_range(entries.drop_first(), key);
    }
}

/// Replaces the value of the first member named `key` (see `set_entry`).
pub fn set_member(entries: &mut Vec<(String, JsonValue)>, key: &str, value: JsonValue)
    ensures
        entries_view(final(entries)@) == set_entry(entries_view(old(entries)@), key@, jview(value)),
{
    let ghost ev = entries_view(entries@);
    let mut i: usize = 0;
    assert(ev.skip(0) =~= ev);
    while i < entries.len()
        invariant
            i <= entries.len(),
            ev == entries_view(entries@),
            ev == entries_view(old(entries)@),
            forall|j: int| 0 <= j < i ==> ev[j].0 != key@,
            entry_index(ev, key@) == match entry_index(ev.skip(i as int), key@) {
                Some(t) => Some(t + i),
                None => None,
            },
        decreases entries.len() - i,
    {
        assert(ev.skip(i as int).drop_first() =~= ev.skip(i + 1));
        assert(ev.skip(i as int)[0] == ev[i as int]);
        if str_eq(entries[i].0.as_str(), key) {
            assert(ev[i as int].0 == key@);
            assert(entry_index(ev.skip(i as int), key@) == Some(0int));
            assert(entry_index(ev, key@) == Some(i as int));
            let k = entries[i].0.clone();
            let ghost vv = jview(value);
            entries.set(i, (k, value));
            assert(entries_view(entries@) =~= ev.update(i as int, (key@, vv)));
            return;
        }
        i = i + 1;
    }
    assert(ev.skip(i as int) =~= Seq::<(Seq<char>, JsonSpec)>::empty());
}

} // verus!
