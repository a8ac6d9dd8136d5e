//! Normalisation of tool parameters and interpretation of write replies.

use vstd::prelude::*;

use crate::json::{JsonSpec, JsonValue, clone_json, entries_view, find_first_key_field, find_first_str_value, first_key_field, first_str_value, json_get, json_get_object, json_object, json_str, jview};
use crate::text::{decimal, push_decimal, push_str, chars_of, is_blank, join, lemma_trim_idempotent, owned, split_char, split_char_str, split_ws, split_ws_str, spec_to_lowercase, str_eq, string_from_range, to_lowercase, trim, trim_bounds, trim_str, views, join_strs};
use crate::types::ZoteroCreator;

verus! {

/// A parameter given either as one string or as a list of strings.
#[derive(Debug)]
pub enum StringOrList {
    Single(String),
    List(Vec<String>),
}

/// The strings of a JSON array of strings, when `s` is one (the result of
/// `serde_json::from_str::<Vec<String>>`).
pub uninterp spec fn spec_json_string_list(s: Seq<char>) -> Option<Seq<Seq<char>>>;

/// `serde_json::from_str::<Vec<String>>`: the strings of the JSON array that
/// `s` spells, or `None` when `s` is not such an array. Both outcomes are named
/// by `spec_json_string_list`.
#[verifier::external_body]
fn parse_json_string_list(s: &str) -> (r: Option<Vec<String>>)
    ensures
        r is Some <==> spec_json_string_list(s@) is Some,
        r matches Some(v) ==> views(v@) == spec_json_string_list(s@).unwrap(),
{
    serde_json::from_str::<Vec<String>>(s).ok()
}

/// Each string trimmed, the blank ones left out, order kept.
pub open spec fn trimmed_nonblank(v: Seq<Seq<char>>) -> Seq<Seq<char>>
    decreases v.len(),
{
    if v.len() == 0 {
        Seq::<Seq<char>>::empty()
    } else {
        let r = trimmed_nonblank(v.drop_last());
        let t = trim(v.last());
        if t.len() > 0 {
            r.push(t)
        } else {
            r
        }
    }
}

/// Whether `t` has the shape of a JSON array: `[` first and `]` last.
pub open spec fn bracketed(t: Seq<char>) -> bool {
    t.len() > 0 && t[0] == '[' && t.last() == ']'
}

/// The strings a parameter stands for.
pub open spec fn spec_into_vec(x: StringOrList) -> Seq<Seq<char>> {
    match x {
        StringOrList::Single(s) => {
            let t = trim(s@);
            if t.len() == 0 {
                Seq::<Seq<char>>::empty()
            } else if bracketed(t) && spec_json_string_list(t) is Some {
                trimmed_nonblank(spec_json_string_list(t).unwrap())
            } else {
                trimmed_nonblank(split_char(s@, ','))
            }
        },
        StringOrList::List(v) => trimmed_nonblank(views(v@)),
    }
}

/// Each string of `v` trimmed, the blank ones left out.
pub fn trim_nonblank(v: &Vec<String>) -> (r: Vec<String>)
    ensures
        views(r@) == trimmed_nonblank(views(v@)),
        forall|i: int| 0 <= i < r.len() ==> trim(#[trigger] r@[i]@) == r@[i]@ && r@[i]@.len() > 0,
{
    let mut out: Vec<String> = Vec::new();
    let mut i: usize = 0;
    while i < v.len()
        invariant
            i <= v.len(),
            views(out@) == trimmed_nonblank(views(v@).take(i as int)),
            forall|k: int| 0 <= k < out.len() ==> trim(#[trigger] out@[k]@) == out@[k]@ && out@[k]@.len() > 0,
        decreases v.len() - i,
    {
        assert(views(v@).take(i + 1).drop_last() =~= views(v@).take(i as int));
        assert(views(v@).take(i + 1).last() == v@[i as int]@);
        let t = trim_str(v[i].as_str());
        if !t.as_str().is_empty() {
            proof {
                lemma_trim_idempotent(v@[i as int]@);
            }
            out.push(t);
            assert(views(out@) =~= views(out@.drop_last()).push(t@));
        }
        i = i + 1;
    }
    assert(views(v@).take(v.len() as int) =~= views(v@));
    out
}

impl StringOrList {
    /// The non-blank strings this parameter stands for, trimmed. A single
    /// string is read as a JSON array of strings when it has that shape and
    /// parses, and otherwise split at commas.
    pub fn into_vec(self) -> (r: Vec<String>)
        ensures
            views(r@) == spec_into_vec(self),
            forall|i: int| 0 <= i < r.len() ==> trim(#[trigger] r@[i]@) == r@[i]@ && r@[i]@.len() > 0,
    {
        match self {
            StringOrList::Single(s) => {
                let t = trim_str(s.as_str());
                let tv = chars_of(t.as_str());
                if tv.len() == 0 {
                    return Vec::new();
                }
                if tv[0] == '[' && tv[tv.len() - 1] == ']' {
                    if let Some(parsed) = parse_json_string_list(t.as_str()) {
                        return trim_nonblank(&parsed);
                    }
                }
                let pieces = split_char_str(s.as_str(), ',');
                trim_nonblank(&pieces)
            },
            StringOrList::List(v) => trim_nonblank(&v),
        }
    }
}

/// The strings a parameter stands for (`None`: none).
pub open spec fn spec_parse_str_list(value: Option<StringOrList>) -> Seq<Seq<char>> {
    match value {
        None => Seq::<Seq<char>>::empty(),
        Some(v) => spec_into_vec(v),
    }
}

/// The non-blank trimmed strings of an optional parameter.
pub fn parse_str_list(value: Option<StringOrList>) -> (r: Vec<String>)
    ensures
        views(r@) == spec_parse_str_list(value),
        forall|i: int| 0 <= i < r.len() ==> trim(#[trigger] r@[i]@) == r@[i]@ && r@[i]@.len() > 0,
{
    match value {
        None => Vec::new(),
        Some(v) => v.into_vec(),
    }
}

/// A limit clamped to `[1, max_val]`, or `default_val` when absent or not positive.
pub open spec fn spec_normalize_limit(value: Option<i64>, default_val: i64, max_val: i64) -> i64 {
    match value {
        None => default_val,
        Some(v) => if v <= 0 {
            default_val
        } else {
            let m = if v < max_val { v } else { max_val };
            if m < 1 { 1 } else { m }
        },
    }
}

/// A limit clamped to `[1, max_val]`, or `default_val` when absent or not positive.
pub fn normalize_limit(value: Option<i64>, default_val: i64, max_val: i64) -> (r: i64)
    ensures
        r == spec_normalize_limit(value, default_val, max_val),
        value matches Some(v) && v > 0 && max_val >= 1 ==> 1 <= r <= max_val,
{
    match value {
        None => default_val,
        Some(v) => {
            if v <= 0 {
                default_val
            } else {
                let m = if v < max_val { v } else { max_val };
                if m < 1 { 1 } else { m }
            }
        },
    }
}

/// Whether `c` is an ASCII upper-case letter or an ASCII digit.
pub open spec fn is_key_char(c: char) -> bool {
    ('A' <= c <= 'Z') || ('0' <= c <= '9')
}

/// Whether trimmed `s` is eight ASCII upper-case letters or digits.
pub open spec fn spec_is_collection_key(s: Seq<char>) -> bool {
    let t = trim(s);
    t.len() == 8 && forall|i: int| 0 <= i < t.len() ==> is_key_char(#[trigger] t[i])
}

/// Whether `value` (trimmed) is a collection key: eight ASCII upper-case
/// letters or digits. (Eight such characters are eight bytes, so counting
/// characters here agrees with counting bytes.)
pub fn is_collection_key(value: &str) -> (b: bool)
    ensures
        b == spec_is_collection_key(value@),
{
    let v = chars_of(value);
    let (a, e) = trim_bounds(&v);
    if e - a != 8 {
        return false;
    }
    let mut i = a;
    while i < e
        invariant
            a <= i <= e <= v.len(),
            e - a == 8,
            v@ == value@,
            trim(v@) == v@.subrange(a as int, e as int),
            forall|k: int| a <= k < i ==> is_key_char(v@[k]),
        decreases e - i,
    {
        let c = v[i];
        if !(('A' <= c && c <= 'Z') || ('0' <= c && c <= '9')) {
            assert(v@.subrange(a as int, e as int)[i - a] == c);
            return false;
        }
        i = i + 1;
    }
    assert forall|k: int| 0 <= k < trim(value@).len() implies is_key_char(#[trigger] trim(value@)[k]) by {
        assert(trim(value@)[k] == v@[a + k]);
    }
    true
}

/// Whether some string of `v` lower-cases to `l`.
pub open spec fn has_lower(v: Seq<Seq<char>>, l: Seq<char>) -> bool {
    exists|j: int| 0 <= j < v.len() && spec_to_lowercase(#[trigger] v[j]) == l
}

/// The trimmed non-blank strings of `v`, keeping the first of each group that
/// lower-case alike, in order.
pub open spec fn spec_dedupe(v: Seq<Seq<char>>) -> Seq<Seq<char>>
    decreases v.len(),
{
    if v.len() == 0 {
        Seq::<Seq<char>>::empty()
    } else {
        let r = spec_dedupe(v.drop_last());
        let t = trim(v.last());
        if t.len() == 0 || has_lower(r, spec_to_lowercase(t)) {
            r
        } else {
            r.push(t)
        }
    }
}

/// No two strings of `v` lower-case alike.
pub open spec fn distinct_lower(v: Seq<Seq<char>>) -> bool {
    forall|i: int, j: int|
        0 <= i < j < v.len() ==> spec_to_lowercase(#[trigger] v[i]) != spec_to_lowercase(
            #[trigger] v[j],
        )
}

/// The result of deduplication: pairwise distinct up to case, each trimmed
/// and non-blank, and each non-blank input represented.
pub proof fn lemma_dedupe_props(v: Seq<Seq<char>>)
    ensures
        distinct_lower(spec_dedupe(v)),
        forall|i: int|
            0 <= i < spec_dedupe(v).len() ==> #[trigger] trim(spec_dedupe(v)[i]) == spec_dedupe(
                v,
            )[i] && spec_dedupe(v)[i].len() > 0,
        forall|i: int|
            0 <= i < v.len() && trim(#[trigger] v[i]).len() > 0 ==> has_lower(
                spec_dedupe(v),
                spec_to_lowercase(trim(v[i])),
            ),
    decreases v.len(),
{
    if v.len() > 0 {
        let p = v.drop_last();
        lemma_dedupe_props(p);
        let r = spec_dedupe(p);
        let t = trim(v.last());
        lemma_trim_idempotent(v.last());
        if t.len() == 0 || has_lower(r, spec_to_lowercase(t)) {
            assert forall|i: int|
                0 <= i < v.len() && trim(#[trigger] v[i]).len() > 0 implies has_lower(
                spec_dedupe(v),
                spec_to_lowercase(trim(v[i])),
            ) by {
                if i < v.len() - 1 {
                    assert(v[i] == p[i]);
                }
            }
        } else {
            let r2 = r.push(t);
            assert forall|i: int|
                0 <= i < v.len() && trim(#[trigger] v[i]).len() > 0 implies has_lower(
                r2,
                spec_to_lowercase(trim(v[i])),
            ) by {
                if i < v.len() - 1 {
                    assert(v[i] == p[i]);
                    let j = choose|j: int| 0 <= j < r.len() && spec_to_lowercase(#[trigger] r[j]) == spec_to_lowercase(trim(p[i]));
                    assert(r2[j] == r[j]);
                } else {
                    assert(r2[r.len() as int] == t);
                }
            }
            assert forall|i: int, j: int|
                0 <= i < j < r2.len() implies spec_to_lowercase(#[trigger] r2[i]) != spec_to_lowercase(
                #[trigger] r2[j],
            ) by {
                if j == r.len() {
                    assert(r2[i] == r[i]);
                    if spec_to_lowercase(r2[i]) == spec_to_lowercase(r2[j]) {
                        assert(has_lower(r, spec_to_lowercase(t)));
                    }
                } else {
                    assert(r2[i] == r[i]);
                    assert(r2[j] == r[j]);
                }
            }
        }
    }
}

/// Deduplicates strings case-insensitively: each is trimmed, blank ones are
/// dropped, and of those that lower-case alike only the first is kept, with
/// its own case, in the original order.
pub fn dedupe_strings(values: Vec<String>) -> (out: Vec<String>)
    ensures
        views(out@) == spec_dedupe(views(values@)),
        distinct_lower(views(out@)),
        forall|i: int| 0 <= i < out.len() ==> trim(#[trigger] out@[i]@) == out@[i]@ && out@[i]@.len() > 0,
        forall|i: int|
            0 <= i < values.len() && !is_blank(#[trigger] values@[i]@) ==> has_lower(
                views(out@),
                spec_to_lowercase(trim(values@[i]@)),
            ),
{
    let mut out: Vec<String> = Vec::new();
    let mut lowers: Vec<String> = Vec::new();
    let mut i: usize = 0;
    while i < values.len()
        invariant
            i <= values.len(),
            views(out@) == spec_dedupe(views(values@).take(i as int)),
            lowers.len() == out.len(),
            forall|k: int| 0 <= k < lowers.len() ==> #[trigger] lowers@[k]@ == spec_to_lowercase(out@[k]@),
        decreases values.len() - i,
    {
        assert(views(values@).take(i + 1).drop_last() =~= views(values@).take(i as int));
        assert(views(values@).take(i + 1).last() == values@[i as int]@);
        let t = trim_str(values[i].as_str());
        if !t.as_str().is_empty() {
            let l = to_lowercase(t.as_str());
            let mut found = false;
            let mut k: usize = 0;
            while k < lowers.len()
                invariant
                    k <= lowers.len(),
                    lowers.len() == out.len(),
                    forall|q: int| 0 <= q < lowers.len() ==> #[trigger] lowers@[q]@ == spec_to_lowercase(out@[q]@),
                    found == exists|q: int| 0 <= q < k && spec_to_lowercase(#[trigger] views(out@)[q]) == l@,
                decreases lowers.len() - k,
            {
                assert(views(out@)[k as int] == out@[k as int]@);
                if str_eq(lowers[k].as_str(), l.as_str()) {
                    found = true;
                }
                k = k + 1;
            }
            if !found {
                let ghost before = views(out@);
                out.push(t);
                lowers.push(l);
                assert(views(out@) =~= before.push(t@));
            }
        }
        i = i + 1;
    }
    assert(views(values@).take(values.len() as int) =~= views(values@));
    proof {
        lemma_dedupe_props(views(values@));
        assert forall|i: int| 0 <= i < out.len() implies trim(#[trigger] out@[i]@) == out@[i]@ && out@[i]@.len() > 0 by {
            assert(views(out@)[i] == out@[i]@);
        }
        assert forall|i: int|
            0 <= i < values.len() && !is_blank(#[trigger] values@[i]@) implies has_lower(
            views(out@),
            spec_to_lowercase(trim(values@[i]@)),
        ) by {
            assert(views(values@)[i] == values@[i]@);
        }
    }
    out
}

/// The creator that a name string stands for: "Last, First" (split at the
/// first comma), "First ... Last" (two or more words), or a single name; all
/// as authors. `None` for a blank string.
pub open spec fn spec_parse_creator(value: Seq<char>) -> Option<(Seq<char>, Option<Seq<char>>, Option<Seq<char>>, Option<Seq<char>>)> {
    let v = trim(value);
    if v.len() == 0 {
        None
    } else if v.contains(',') {
        let idx = choose|i: int| 0 <= i < v.len() && v[i] == ',' && forall|j: int| 0 <= j < i ==> v[j] != ',';
        Some(("author"@, Some(trim(v.skip(idx + 1))), Some(trim(v.take(idx))), None))
    } else {
        let parts = split_ws(v);
        if parts.len() >= 2 {
            Some(("author"@, Some(join(parts.drop_last(), " "@)), Some(parts.last()), None))
        } else {
            Some(("author"@, None, None, Some(v)))
        }
    }
}

/// The contents of a creator: type, first name, last name, single name.
pub open spec fn creator_fields(c: ZoteroCreator) -> (Seq<char>, Option<Seq<char>>, Option<Seq<char>>, Option<Seq<char>>) {
    (c.creator_type@, crate::types::opt_view(c.first_name), crate::types::opt_view(c.last_name), crate::types::opt_view(c.name))
}

/// The creators parsed from a sequence of name strings, blank ones skipped.
pub open spec fn spec_parse_creators(values: Seq<Seq<char>>) -> Seq<(Seq<char>, Option<Seq<char>>, Option<Seq<char>>, Option<Seq<char>>)>
    decreases values.len(),
{
    if values.len() == 0 {
        Seq::empty()
    } else {
        let r = spec_parse_creators(values.drop_last());
        match spec_parse_creator(values.last()) {
            Some(c) => r.push(c),
            None => r,
        }
    }
}

/// The contents of a sequence of creators.
pub open spec fn creators_fields(cs: Seq<ZoteroCreator>) -> Seq<(Seq<char>, Option<Seq<char>>, Option<Seq<char>>, Option<Seq<char>>)> {
    cs.map_values(|c: ZoteroCreator| creator_fields(c))
}

/// Position of the first `c` in `v`, if any.
pub fn index_of_char(v: &Vec<char>, c: char) -> (r: Option<usize>)
    ensures
        r matches Some(i) ==> i < v.len() && v@[i as int] == c && forall|j: int| 0 <= j < i ==> v@[j] != c,
        r is None ==> !v@.contains(c),
{
    let mut i: usize = 0;
    while i < v.len()
        invariant
            i <= v.len(),
            forall|j: int| 0 <= j < i ==> v@[j] != c,
        decreases v.len() - i,
    {
        if v[i] == c {
            return Some(i);
        }
        i = i + 1;
    }
    None
}

/// Parses one name string into a creator (see `spec_parse_creator`).
fn parse_creator(value: &str) -> (r: Option<ZoteroCreator>)
    ensures
        r matches Some(c) ==> spec_parse_creator(value@) == Some(creator_fields(c)),
        r is None ==> spec_parse_creator(value@) is None,
{
    let v = trim_str(value);
    let vc = chars_of(v.as_str());
    if vc.len() == 0 {
        return None;
    }
    let author = owned("author");
    proof {
        reveal_strlit("author");
        reveal_strlit(" ");
    }
    match index_of_char(&vc, ',') {
        Some(idx) => {
            let last_raw = string_from_range(&vc, 0, idx);
            let first_raw = string_from_range(&vc, idx + 1, vc.len());
            let last = trim_str(last_raw.as_str());
            let first = trim_str(first_raw.as_str());
            proof {
                let ghost sv = v@;
                assert(sv.contains(','));
                let ghost ch = choose|i: int| 0 <= i < sv.len() && sv[i] == ',' && forall|j: int| 0 <= j < i ==> sv[j] != ',';
                assert(ch == idx as int) by {
                    if ch < idx as int {
                    } else if ch > idx as int {
                    }
                }
                assert(last_raw@ =~= sv.take(idx as int));
                assert(first_raw@ =~= sv.skip(idx + 1));
            }
            Some(ZoteroCreator { creator_type: author, first_name: Some(first), last_name: Some(last), name: None })
        },
        None => {
            let parts = split_ws_str(v.as_str());
            if parts.len() >= 2 {
                let mut init: Vec<String> = Vec::new();
                let mut k: usize = 0;
                while k + 1 < parts.len()
                    invariant
                        parts.len() >= 2,
                        k + 1 <= parts.len(),
                        init@ == parts@.take(k as int),
                    decreases parts.len() - k,
                {
                    init.push(parts[k].clone());
                    k = k + 1;
                    assert(init@ =~= parts@.take(k as int));
                }
                assert(views(init@) =~= views(parts@).drop_last());
                let first = join_strs(&init, " ");
                let last = parts[parts.len() - 1].clone();
                Some(ZoteroCreator { creator_type: author, first_name: Some(first), last_name: Some(last), name: None })
            } else {
                Some(ZoteroCreator { creator_type: author, first_name: None, last_name: None, name: Some(v) })
            }
        },
    }
}

/// Parses name strings ("Last, First", "First Last", or a single name) into
/// author creators, skipping blank strings.
pub fn parse_creator_names(values: Vec<String>) -> (creators: Vec<ZoteroCreator>)
    ensures
        creators_fields(creators@) == spec_parse_creators(views(values@)),
{
    let mut creators: Vec<ZoteroCreator> = Vec::new();
    let mut i: usize = 0;
    while i < values.len()
        invariant
            i <= values.len(),
            creators_fields(creators@) == spec_parse_creators(views(values@).take(i as int)),
        decreases values.len() - i,
    {
        assert(views(values@).take(i + 1).drop_last() =~= views(values@).take(i as int));
        assert(views(values@).take(i + 1).last() == values@[i as int]@);
        match parse_creator(values[i].as_str()) {
            Some(c) => {
                let ghost before = creators_fields(creators@);
                creators.push(c);
                assert(creators_fields(creators@) =~= before.push(creator_fields(c)));
            },
            None => {},
        }
        i = i + 1;
    }
    assert(views(values@).take(values.len() as int) =~= views(values@));
    creators
}


/// The outcome of a write request: success, a message, and the reply itself.
#[derive(Debug)]
pub struct WriteStatus {
    pub ok: bool,
    pub message: String,
    pub data: Option<JsonValue>,
}

/// "index: message" for each failed write that carries a string message.
pub open spec fn failure_reasons(failed: Seq<(Seq<char>, JsonSpec)>) -> Seq<Seq<char>>
    decreases failed.len(),
{
    if failed.len() == 0 {
        Seq::<Seq<char>>::empty()
    } else {
        let r = failure_reasons(failed.drop_last());
        let (idx, err) = failed.last();
        match json_get(err, "message"@) {
            Some(m) => match json_str(m) {
                Some(msg) => r.push(idx + ": "@ + msg),
                None => r,
            },
            None => r,
        }
    }
}

/// The number of members of the object `resp[key]` (0 when it is no object).
pub open spec fn member_count(resp: JsonSpec, key: Seq<char>) -> nat {
    match json_get_object(resp, key) {
        Some(e) => e.len(),
        None => 0,
    }
}

/// The outcome of a write reply: whether it succeeded, its message, and whether
/// the reply is kept as data.
pub open spec fn spec_write_status(resp: JsonSpec) -> (bool, Seq<char>, bool) {
    if json_object(resp) is None {
        (false, "Empty write response"@, false)
    } else if json_get_object(resp, "failed"@) is Some && json_get_object(resp, "failed"@).unwrap().len() > 0 {
        (false, "Write failed - "@ + join(failure_reasons(json_get_object(resp, "failed"@).unwrap()), "; "@), true)
    } else {
        let n = member_count(resp, "successful"@) + member_count(resp, "success"@) + member_count(resp, "unchanged"@);
        if n == 0 {
            (false, "Write response contained no successful items"@, true)
        } else {
            (true, "Write succeeded for "@ + decimal(n) + " item(s)"@, true)
        }
    }
}

/// The number of members of `resp[key]` when it is an object.
fn member_count_exec(resp: &JsonValue, key: &str) -> (n: usize)
    ensures
        n == member_count(jview(*resp), key@),
{
    match resp.get(key) {
        Some(v) => match v.as_object() {
            Some(e) => e.len(),
            None => 0,
        },
        None => 0,
    }
}

/// Interprets a write reply: it failed when it is no object or lists failed
/// writes (their messages are reported), it succeeded when it lists at least
/// one successful, created or unchanged item (the count is reported). The
/// reply is kept as `data` whenever it is an object.
pub fn handle_write_response(response: &JsonValue) -> (st: WriteStatus)
    ensures
        (st.ok, st.message@, st.data is Some) == spec_write_status(jview(*response)),
        st.data matches Some(d) ==> jview(d) == jview(*response),
{
    proof {
        reveal_strlit("failed");
        reveal_strlit("message");
        reveal_strlit("successful");
        reveal_strlit("success");
        reveal_strlit("unchanged");
    }
    let obj = response.as_object();
    if obj.is_none() {
        return WriteStatus { ok: false, message: owned("Empty write response"), data: None };
    }
    if let Some(fv) = response.get("failed") {
        if let Some(failed) = fv.as_object() {
            if failed.len() > 0 {
                let ghost fview = entries_view(failed@);
                let mut reasons: Vec<String> = Vec::new();
                let mut i: usize = 0;
                while i < failed.len()
                    invariant
                        i <= failed.len(),
                        fview == entries_view(failed@),
                        views(reasons@) == failure_reasons(fview.take(i as int)),
                    decreases failed.len() - i,
                {
                    assert(fview.take(i + 1).drop_last() =~= fview.take(i as int));
                    assert(fview.take(i + 1).last() == fview[i as int]);
                    if let Some(m) = failed[i].1.get("message") {
                        if let Some(msg) = m.as_str() {
                            let mut line = failed[i].0.clone();
                            push_str(&mut line, ": ");
                            push_str(&mut line, msg);
                            let ghost before = views(reasons@);
                            reasons.push(line);
                            assert(views(reasons@) =~= before.push(line@));
                        }
                    }
                    i = i + 1;
                }
                assert(fview.take(failed.len() as int) =~= fview);
                let mut message = owned("Write failed - ");
                let joined = join_strs(&reasons, "; ");
                push_str(&mut message, joined.as_str());
                return WriteStatus { ok: false, message, data: Some(clone_json(response)) };
            }
        }
    }
    let a = member_count_exec(response, "successful");
    let b = member_count_exec(response, "success");
    let c = member_count_exec(response, "unchanged");
    let n: u128 = a as u128 + b as u128 + c as u128;
    if n == 0 {
        return WriteStatus {
            ok: false,
            message: owned("Write response contained no successful items"),
            data: Some(clone_json(response)),
        };
    }
    let mut message = owned("Write succeeded for ");
    push_decimal(&mut message, n);
    push_str(&mut message, " item(s)");
    WriteStatus { ok: true, message, data: Some(clone_json(response)) }
}

/// The key of the first created item in a write reply: the first string value
/// of `success`, else the `key` of the first value of `successful` that has one.
pub open spec fn spec_created_key(data: JsonSpec) -> Option<Seq<char>> {
    let from_success = match json_get_object(data, "success"@) {
        Some(e) => first_str_value(e),
        None => None,
    };
    if from_success is Some {
        from_success
    } else {
        match json_get_object(data, "successful"@) {
            Some(e) => first_key_field(e),
            None => None,
        }
    }
}

/// The key of the first created item in a write reply, if any.
pub fn extract_created_key(data: &JsonValue) -> (r: Option<String>)
    ensures
        r matches Some(k) ==> spec_created_key(jview(*data)) == Some(k@),
        r is None ==> spec_created_key(jview(*data)) is None,
{
    proof {
        reveal_strlit("success");
        reveal_strlit("successful");
    }
    if let Some(sv) = data.get("success") {
        if let Some(success) = sv.as_object() {
            if let Some(k) = find_first_str_value(success) {
                return Some(k);
            }
        }
    }
    if let Some(sv) = data.get("successful") {
        if let Some(successful) = sv.as_object() {
            return find_first_key_field(successful);
        }
    }
    None
}

} // verus!
