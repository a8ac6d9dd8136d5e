//! Evaluation of file-name templates against an item: creator lists, the
//! common value options (prefix, suffix, truncation, regular expressions,
//! text case) and the conditional blocks.

use vstd::prelude::*;

use crate::json::{entries_get, entries_view, entry_get, JsonSpec, JsonValue};
use crate::numbers::{
    compare_decimals, decimal_order, parse_decimal, parse_i32, parse_usize, spec_decimal,
    spec_parse_i32, spec_parse_usize,
};
use crate::patterns::{capture_or_none, capture_str, find, find_or_none, replace_all, replace_all_or_same, spec_regex_find, spec_regex_replace_all, spec_regex_valid, Pattern};
use crate::template_engine::{
    apply_text_case, attr_get, attrs_view, first_ws, is_ascii, outer_pieces,
    get_valid_file_name, html_tag_pattern, spec_valid_file_name, split_by_outer_brackets,
    strip_html_tags, get_attributes, hyphen_to_camel,
    spec_attributes, spec_hyphen_to_camel, spec_split_statement, spec_text_case, split_statement,
    Attrs,
};
use crate::text::{
    char_to_uppercase, chars_of, contains, contains_str, decimal, decimal_string, ends_with, ends_with_str, join,
    join_strs, occurs_at, occurs_at_exec, owned, push_str, replace_all as seq_replace_all, replace_str, spec_char_to_uppercase,
    is_whitespace, spec_is_whitespace, spec_to_lowercase, to_lowercase, starts_with, starts_with_str, str_eq, string_from_range,
    trim, trim_str, views,
};
use crate::types::{opt_text, opt_view, ZoteroCreator, ZoteroItemData};

verus! {

// ---------------------------------------------------------------------------
// Attributes with defaults
// ---------------------------------------------------------------------------

/// The value of attribute `key`, or `default` when it is absent.
pub open spec fn attr_or(attrs: Seq<(Seq<char>, Seq<char>)>, key: Seq<char>, default: Seq<char>) -> Seq<char> {
    match attr_get(attrs, key) {
        Some(v) => v,
        None => default,
    }
}

fn get_or<'a>(attrs: &'a Attrs, key: &str, default: &'a str) -> (r: &'a str)
    ensures
        r@ == attr_or(attrs_view(*attrs), key@, default@),
{
    match attrs.get(key) {
        Some(v) => v,
        None => default,
    }
}

// ---------------------------------------------------------------------------
// Creators
// ---------------------------------------------------------------------------

/// The name a creator is known by in a short citation: the last name, else
/// the single-field name, else nothing.
pub open spec fn creator_short_name(c: ZoteroCreator) -> Seq<char> {
    match c.last_name {
        Some(l) => l@,
        None => opt_text(c.name),
    }
}

/// Whether a creator of type `ctype` belongs to the group `kind`: `authors`
/// holds the authors, `editors` the editors and series editors, and any other
/// group every creator.
pub open spec fn kind_includes(kind: Seq<char>, ctype: Seq<char>) -> bool {
    if kind == "authors"@ {
        ctype == "author"@
    } else if kind == "editors"@ {
        ctype == "editor"@ || ctype == "seriesEditor"@
    } else {
        true
    }
}

/// The creators of group `kind`, in order.
pub open spec fn creators_of_kind(cs: Seq<ZoteroCreator>, kind: Seq<char>) -> Seq<ZoteroCreator>
    decreases cs.len(),
{
    if cs.len() == 0 {
        Seq::<ZoteroCreator>::empty()
    } else {
        let r = creators_of_kind(cs.drop_last(), kind);
        if kind_includes(kind, cs.last().creator_type@) {
            r.push(cs.last())
        } else {
            r
        }
    }
}

/// The creator part of a short citation: one name, `A and B`, or `A et al.`,
/// taken from the authors, or from all creators when there is no author.
pub open spec fn spec_first_creator(cs: Seq<ZoteroCreator>) -> Seq<char> {
    let authors = creators_of_kind(cs, "authors"@);
    let eff = if authors.len() > 0 {
        authors
    } else {
        cs
    };
    if eff.len() == 0 {
        Seq::<char>::empty()
    } else if eff.len() == 1 {
        creator_short_name(eff[0])
    } else if eff.len() == 2 {
        creator_short_name(eff[0]) + " and "@ + creator_short_name(eff[1])
    } else {
        creator_short_name(eff[0]) + " et al."@
    }
}

/// `pos` lists positions in `cs` whose creators are `sel`, in order.
pub open spec fn picks(cs: Seq<ZoteroCreator>, pos: Seq<usize>, sel: Seq<ZoteroCreator>) -> bool {
    &&& pos.len() == sel.len()
    &&& forall|j: int| 0 <= j < pos.len() ==> (#[trigger] pos[j]) < cs.len() && cs[pos[j] as int] == sel[j]
}

fn kind_includes_exec(kind: &str, ctype: &str) -> (b: bool)
    ensures
        b == kind_includes(kind@, ctype@),
{
    if str_eq(kind, "authors") {
        str_eq(ctype, "author")
    } else if str_eq(kind, "editors") {
        str_eq(ctype, "editor") || str_eq(ctype, "seriesEditor")
    } else {
        true
    }
}

/// The positions of the creators of group `kind`.
fn kind_positions(cs: &[ZoteroCreator], kind: &str) -> (r: Vec<usize>)
    ensures
        picks(cs@, r@, creators_of_kind(cs@, kind@)),
{
    let mut r: Vec<usize> = Vec::new();
    let mut i: usize = 0;
    assert(cs@.take(0) =~= Seq::<ZoteroCreator>::empty());
    while i < cs.len()
        invariant
            i <= cs.len(),
            picks(cs@, r@, creators_of_kind(cs@.take(i as int), kind@)),
        decreases cs.len() - i,
    {
        assert(cs@.take(i + 1).drop_last() =~= cs@.take(i as int));
        assert(cs@.take(i + 1).last() == cs@[i as int]);
        if kind_includes_exec(kind, cs[i].creator_type.as_str()) {
            r.push(i);
        }
        i = i + 1;
    }
    assert(cs@.take(cs.len() as int) =~= cs@);
    r
}

fn short_name(c: &ZoteroCreator) -> (r: &str)
    ensures
        r@ == creator_short_name(*c),
{
    proof {
        reveal_strlit("");
    }
    match &c.last_name {
        Some(l) => l.as_str(),
        None => match &c.name {
            Some(n) => n.as_str(),
            None => "",
        },
    }
}

/// The creator part of a short citation (see `spec_first_creator`).
pub fn compute_first_creator(creators: &[ZoteroCreator]) -> (r: String)
    ensures
        r@ == spec_first_creator(creators@),
{
    let authors = kind_positions(creators, "authors");
    let ghost eff = if authors.len() > 0 {
        creators_of_kind(creators@, "authors"@)
    } else {
        creators@
    };
    let n = if authors.len() > 0 {
        authors.len()
    } else {
        creators.len()
    };
    if n == 0 {
        return String::new();
    }
    let i0 = if authors.len() > 0 {
        authors[0]
    } else {
        0
    };
    assert(creators@[i0 as int] == eff[0]);
    let mut out = owned(short_name(&creators[i0]));
    if n == 2 {
        let i1 = if authors.len() > 0 {
            authors[1]
        } else {
            1
        };
        assert(creators@[i1 as int] == eff[1]);
        push_str(&mut out, " and ");
        push_str(&mut out, short_name(&creators[i1]));
    } else if n > 2 {
        push_str(&mut out, " et al.");
    }
    out
}

/// A name part, or its upper-cased initial followed by `with`.
pub open spec fn spec_initialize_name(name: Option<Seq<char>>, should: bool, with: Seq<char>) -> Seq<char> {
    match name {
        None => Seq::<char>::empty(),
        Some(n) => if !should {
            n
        } else if n.len() == 0 {
            Seq::<char>::empty()
        } else {
            spec_char_to_uppercase(n[0]) + with
        },
    }
}

fn initialize_name(name: Option<&str>, should: bool, with: &str) -> (r: String)
    ensures
        r@ == spec_initialize_name(
            match name {
                Some(n) => Some(n@),
                None => None,
            },
            should,
            with@,
        ),
{
    match name {
        None => String::new(),
        Some(n) => {
            if !should {
                owned(n)
            } else {
                let v = chars_of(n);
                if v.len() == 0 {
                    String::new()
                } else {
                    let mut out = char_to_uppercase(v[0]);
                    push_str(&mut out, with);
                    out
                }
            }
        },
    }
}

fn opt_str(o: &Option<String>) -> (r: Option<&str>)
    ensures
        match r {
            Some(s) => opt_view(*o) == Some(s@),
            None => opt_view(*o) is None,
        },
{
    match o {
        Some(s) => Some(s.as_str()),
        None => None,
    }
}

/// A creator's name as the `name`, `namePartSeparator`, `initialize` and
/// `initializeWith` attributes ask: given and family names in either order or
/// alone, each optionally reduced to an initial. Single-field names are kept
/// whole unless `initialize` is `full` or `name`.
pub open spec fn spec_transform_name(c: ZoteroCreator, attrs: Seq<(Seq<char>, Seq<char>)>) -> Seq<char> {
    let fmt = attr_or(attrs, "name"@, "family"@);
    let sep = attr_or(attrs, "namePartSeparator"@, " "@);
    let init = attr_or(attrs, "initialize"@, ""@);
    let with = attr_or(attrs, "initializeWith"@, "."@);
    let init_first = init == "full"@ || init == "given"@ || init == "first"@;
    let init_last = init == "full"@ || init == "family"@ || init == "last"@;
    let first = spec_initialize_name(opt_view(c.first_name), init_first, with);
    let last = spec_initialize_name(opt_view(c.last_name), init_last, with);
    match c.name {
        Some(n) => spec_initialize_name(Some(n@), init == "full"@ || init == "name"@, with),
        None => if fmt == "full"@ || fmt == "given-family"@ || fmt == "first-last"@ {
            first + sep + last
        } else if fmt == "full-reversed"@ || fmt == "family-given"@ || fmt == "last-first"@ {
            last + sep + first
        } else if fmt == "given"@ || fmt == "first"@ {
            first
        } else {
            last
        },
    }
}

/// Formats one creator's name (see `spec_transform_name`).
pub fn transform_name(creator: &ZoteroCreator, attrs: &Attrs) -> (r: String)
    ensures
        r@ == spec_transform_name(*creator, attrs_view(*attrs)),
{
    let fmt = get_or(attrs, "name", "family");
    let sep = get_or(attrs, "namePartSeparator", " ");
    let init = get_or(attrs, "initialize", "");
    let with = get_or(attrs, "initializeWith", ".");
    if let Some(n) = &creator.name {
        let should = str_eq(init, "full") || str_eq(init, "name");
        return initialize_name(Some(n.as_str()), should, with);
    }
    let init_first = str_eq(init, "full") || str_eq(init, "given") || str_eq(init, "first");
    let init_last = str_eq(init, "full") || str_eq(init, "family") || str_eq(init, "last");
    let first = initialize_name(opt_str(&creator.first_name), init_first, with);
    let last = initialize_name(opt_str(&creator.last_name), init_last, with);
    if str_eq(fmt, "full") || str_eq(fmt, "given-family") || str_eq(fmt, "first-last") {
        let mut out = first;
        push_str(&mut out, sep);
        push_str(&mut out, last.as_str());
        out
    } else if str_eq(fmt, "full-reversed") || str_eq(fmt, "family-given") || str_eq(
        fmt,
        "last-first",
    ) {
        let mut out = last;
        push_str(&mut out, sep);
        push_str(&mut out, first.as_str());
        out
    } else if str_eq(fmt, "given") || str_eq(fmt, "first") {
        first
    } else {
        last
    }
}

/// At most `max` creators of `f`: all of them for a large `max`, none for 0,
/// and for a negative `max` the last `-max` of them in reverse order.
pub open spec fn select_creators(f: Seq<ZoteroCreator>, max: int) -> Seq<ZoteroCreator> {
    if max == 0 {
        Seq::<ZoteroCreator>::empty()
    } else if max > 0 {
        if max >= f.len() {
            f
        } else {
            f.take(max)
        }
    } else {
        let start = if f.len() > -max {
            f.len() + max
        } else {
            0
        };
        f.skip(start).reverse()
    }
}

/// The positions of the creators of group `kind`, selected by `max` (see
/// `select_creators`).
fn get_creators_of_type(creators: &[ZoteroCreator], creator_type: &str, max: i32) -> (r: Vec<usize>)
    ensures
        picks(creators@, r@, select_creators(creators_of_kind(creators@, creator_type@), max as int)),
{
    let p = kind_positions(creators, creator_type);
    let ghost f = creators_of_kind(creators@, creator_type@);
    let mut r: Vec<usize> = Vec::new();
    if max == 0 {
        return r;
    }
    if max > 0 {
        let limit: usize = if (max as u64) < (p.len() as u64) {
            max as usize
        } else {
            p.len()
        };
        let mut i: usize = 0;
        while i < limit
            invariant
                i <= limit <= p.len(),
                picks(creators@, p@, f),
                picks(creators@, r@, f.take(i as int)),
            decreases limit - i,
        {
            r.push(p[i]);
            i = i + 1;
        }
        assert(max >= f.len() ==> f.take(limit as int) =~= f);
        return r;
    }
    let m: u64 = (0 - (max as i64)) as u64;
    let start: usize = if (p.len() as u64) > m {
        p.len() - (m as usize)
    } else {
        0
    };
    let mut i: usize = p.len();
    while i > start
        invariant
            start <= i <= p.len(),
            picks(creators@, p@, f),
            picks(creators@, r@, f.skip(i as int).reverse()),
        decreases i,
    {
        i = i - 1;
        r.push(p[i]);
        assert(f.skip(i as int).reverse() =~= f.skip(i + 1).reverse().push(f[i as int]));
    }
    r
}

/// The value of the `max` attribute, `i32::MAX` when absent or not an `i32`.
pub open spec fn max_attr(attrs: Seq<(Seq<char>, Seq<char>)>) -> int {
    match attr_get(attrs, "max"@) {
        Some(v) => match spec_parse_i32(v) {
            Some(n) => n,
            None => i32::MAX as int,
        },
        None => i32::MAX as int,
    }
}

/// The names of the selected creators of group `kind`, joined by the `join`
/// attribute (default `, `).
pub open spec fn spec_format_creator_list(cs: Seq<ZoteroCreator>, kind: Seq<char>, attrs: Seq<(Seq<char>, Seq<char>)>) -> Seq<char> {
    let sel = select_creators(creators_of_kind(cs, kind), max_attr(attrs));
    join(
        Seq::new(sel.len(), |j: int| spec_transform_name(sel[j], attrs)),
        attr_or(attrs, "join"@, ", "@),
    )
}

/// Formats the creators of group `creator_type` (see `spec_format_creator_list`).
pub fn format_creator_list(creators: &[ZoteroCreator], creator_type: &str, attrs: &Attrs) -> (r: String)
    ensures
        r@ == spec_format_creator_list(creators@, creator_type@, attrs_view(*attrs)),
{
    let max: i32 = match attrs.get("max") {
        Some(v) => match parse_i32(v) {
            Some(n) => n,
            None => i32::MAX,
        },
        None => i32::MAX,
    };
    let join_with = get_or(attrs, "join", ", ");
    let pos = get_creators_of_type(creators, creator_type, max);
    let ghost sel = select_creators(creators_of_kind(creators@, creator_type@), max as int);
    let ghost av = attrs_view(*attrs);
    let mut names: Vec<String> = Vec::new();
    let mut i: usize = 0;
    while i < pos.len()
        invariant
            i <= pos.len(),
            picks(creators@, pos@, sel),
            av == attrs_view(*attrs),
            names.len() == i,
            forall|j: int| 0 <= j < i ==> (#[trigger] names@[j])@ == spec_transform_name(sel[j], av),
        decreases pos.len() - i,
    {
        let name = transform_name(&creators[pos[i]], attrs);
        names.push(name);
        i = i + 1;
    }
    assert(views(names@) =~= Seq::new(sel.len(), |j: int| spec_transform_name(sel[j], av)));
    join_strs(&names, join_with)
}

// ---------------------------------------------------------------------------
// Year
// ---------------------------------------------------------------------------

/// The pattern of a four-digit year.
pub open spec fn year_pattern() -> Seq<char> {
    "\\b(\\d{4})\\b"@
}

/// The first four-digit word of a date, unless it is `0000`.
pub open spec fn spec_extract_year(date: Option<Seq<char>>) -> Seq<char> {
    match date {
        None => Seq::<char>::empty(),
        Some(d) => match capture_or_none(year_pattern(), d, 1) {
            Some(y) => if y == "0000"@ {
                Seq::<char>::empty()
            } else {
                y
            },
            None => Seq::<char>::empty(),
        },
    }
}

/// The year of a date (see `spec_extract_year`).
pub fn extract_year(date: Option<&str>) -> (r: String)
    ensures
        r@ == spec_extract_year(
            match date {
                Some(d) => Some(d@),
                None => None,
            },
        ),
{
    match date {
        None => String::new(),
        Some(d) => match capture_str("\\b(\\d{4})\\b", d, 1) {
            Some(y) => {
                if str_eq(y.as_str(), "0000") {
                    String::new()
                } else {
                    y
                }
            },
            None => String::new(),
        },
    }
}

// ---------------------------------------------------------------------------
// The evaluation context
// ---------------------------------------------------------------------------

/// A value that received a prefix or suffix during evaluation.
pub struct Chunk {
    pub value: String,
    pub raw_value: String,
    pub suffix: String,
    pub prefix: String,
}

/// What evaluation records: the affixed values, and the literals that a
/// second pass must keep from being affixed again.
pub struct CommonContext {
    pub chunks: Vec<Chunk>,
    pub protected_literals: Vec<String>,
}

/// The content of a chunk.
pub struct ChunkSpec {
    pub value: Seq<char>,
    pub raw_value: Seq<char>,
    pub suffix: Seq<char>,
    pub prefix: Seq<char>,
}

/// The content of a context.
pub struct ContextSpec {
    pub chunks: Seq<ChunkSpec>,
    pub literals: Seq<Seq<char>>,
}

/// The content of `c`.
pub open spec fn chunk_view(c: Chunk) -> ChunkSpec {
    ChunkSpec { value: c.value@, raw_value: c.raw_value@, suffix: c.suffix@, prefix: c.prefix@ }
}

/// The content of `ctx`.
pub open spec fn ctx_view(ctx: CommonContext) -> ContextSpec {
    ContextSpec {
        chunks: ctx.chunks@.map_values(|c: Chunk| chunk_view(c)),
        literals: views(ctx.protected_literals@),
    }
}

/// Protected literals are never empty.
pub open spec fn ctx_wf(c: ContextSpec) -> bool {
    forall|i: int| 0 <= i < c.literals.len() ==> (#[trigger] c.literals[i]).len() > 0
}

/// `c` with one more chunk when `chunk` is some.
pub open spec fn with_chunk(c: ContextSpec, chunk: Option<ChunkSpec>) -> ContextSpec {
    match chunk {
        Some(k) => ContextSpec { chunks: c.chunks.push(k), literals: c.literals },
        None => c,
    }
}

// ---------------------------------------------------------------------------
// Common value options
// ---------------------------------------------------------------------------

/// The inline flags that the `regexOpts` letters select: `i` for
/// case-insensitive and `v` for verbose (`x`).
pub open spec fn regex_flags(opts: Seq<char>) -> Seq<char> {
    (if opts.contains('i') {
        seq!['i']
    } else {
        Seq::<char>::empty()
    }) + (if opts.contains('v') {
        seq!['x']
    } else {
        Seq::<char>::empty()
    })
}

/// `pattern` preceded by the inline flags of `opts`, if any.
pub open spec fn wrapped_pattern(pattern: Seq<char>, opts: Seq<char>) -> Seq<char> {
    let f = regex_flags(opts);
    if f.len() == 0 {
        pattern
    } else {
        "(?"@ + f + ")"@ + pattern
    }
}

fn has_char(s: &str, c: char) -> (b: bool)
    ensures
        b == s@.contains(c),
{
    let v = chars_of(s);
    let mut i: usize = 0;
    while i < v.len()
        invariant
            i <= v.len(),
            v@ == s@,
            forall|k: int| 0 <= k < i ==> v@[k] != c,
        decreases v.len() - i,
    {
        if v[i] == c {
            assert(s@[i as int] == c);
            return true;
        }
        i = i + 1;
    }
    false
}

/// Compiles `pattern` with the flags of `regex_opts`.
fn compile_regex(pattern: &str, regex_opts: &str) -> (r: Option<Pattern>)
    ensures
        r is Some <==> spec_regex_valid(wrapped_pattern(pattern@, regex_opts@)),
        r matches Some(p) ==> p.source() == wrapped_pattern(pattern@, regex_opts@),
{
    let mut flags = String::new();
    proof {
        reveal_strlit("");
    }
    assert(flags@ =~= Seq::<char>::empty());
    if has_char(regex_opts, 'i') {
        crate::text::push_char(&mut flags, 'i');
    }
    if has_char(regex_opts, 'v') {
        crate::text::push_char(&mut flags, 'x');
    }
    assert(flags@ =~= regex_flags(regex_opts@));
    if flags.as_str().is_empty() {
        proof {
            assert(flags@.len() == 0);
        }
        Pattern::new(pattern)
    } else {
        let mut wrapped = owned("(?");
        push_str(&mut wrapped, flags.as_str());
        push_str(&mut wrapped, ")");
        push_str(&mut wrapped, pattern);
        Pattern::new(wrapped.as_str())
    }
}

/// `value` with each literal `l` (in order) replaced by `\l//`.
pub open spec fn protect(value: Seq<char>, literals: Seq<Seq<char>>) -> Seq<char>
    decreases literals.len(),
{
    if literals.len() == 0 {
        value
    } else {
        let v = protect(value, literals.drop_last());
        seq_replace_all(v, literals.last(), "\\"@ + literals.last() + "//"@)
    }
}

fn protect_literals(value: &str, literals: &Vec<String>) -> (r: String)
    requires
        forall|i: int| 0 <= i < literals.len() ==> (#[trigger] literals@[i])@.len() > 0,
    ensures
        r@ == protect(value@, views(literals@)),
{
    let mut out = owned(value);
    let mut i: usize = 0;
    assert(views(literals@).take(0) =~= Seq::<Seq<char>>::empty());
    while i < literals.len()
        invariant
            i <= literals.len(),
            forall|k: int| 0 <= k < literals.len() ==> (#[trigger] literals@[k])@.len() > 0,
            out@ == protect(value@, views(literals@).take(i as int)),
        decreases literals.len() - i,
    {
        assert(views(literals@).take(i + 1).drop_last() =~= views(literals@).take(i as int));
        assert(views(literals@).take(i + 1).last() == literals@[i as int]@);
        let mut marked = owned("\\");
        push_str(&mut marked, literals[i].as_str());
        push_str(&mut marked, "//");
        out = replace_str(out.as_str(), literals[i].as_str(), marked.as_str());
        i = i + 1;
    }
    assert(views(literals@).take(literals.len() as int) =~= views(literals@));
    out
}

/// The characters of `s` after the first `n`.
pub open spec fn skip_chars(s: Seq<char>, n: int) -> Seq<char> {
    if n >= s.len() {
        Seq::<char>::empty()
    } else {
        s.skip(n)
    }
}

/// The first `n` characters of `s`.
pub open spec fn take_chars(s: Seq<char>, n: int) -> Seq<char> {
    if n >= s.len() {
        s
    } else {
        s.take(n)
    }
}

/// A count attribute read as `usize`, 0 when absent or malformed.
pub open spec fn count_attr(attrs: Seq<(Seq<char>, Seq<char>)>, key: Seq<char>) -> int {
    match spec_parse_usize(attr_or(attrs, key, ""@)) {
        Some(n) => n,
        None => 0,
    }
}

/// An affix attribute; a lone `\` or `/` means none.
pub open spec fn affix_attr(attrs: Seq<(Seq<char>, Seq<char>)>, key: Seq<char>) -> Seq<char> {
    let a = attr_or(attrs, key, ""@);
    if a == "\\"@ || a == "/"@ {
        Seq::<char>::empty()
    } else {
        a
    }
}

/// The value after cutting, trimming and the regular-expression replacement,
/// before the affixes: the `raw` value and the replaced one.
pub open spec fn cut_and_replace(v0: Seq<char>, attrs: Seq<(Seq<char>, Seq<char>)>, literals: Seq<Seq<char>>) -> (Seq<char>, Seq<char>) {
    let opts = attr_or(attrs, "regexOpts"@, "vi"@);
    let v1 = protect(v0, literals);
    let start = count_attr(attrs, "start"@);
    let truncate = count_attr(attrs, "truncate"@);
    let v2 = if start > 0 {
        skip_chars(v1, start)
    } else {
        v1
    };
    let v3 = if truncate > 0 {
        take_chars(v2, truncate)
    } else {
        v2
    };
    let raw = trim(v3);
    let from = attr_or(attrs, "replaceFrom"@, ""@);
    let replaced = if from.len() > 0 {
        replace_all_or_same(wrapped_pattern(from, opts), raw, attr_or(attrs, "replaceTo"@, ""@))
    } else {
        raw
    };
    (raw, replaced)
}

/// What the common options make of a value, and the chunk recorded when a
/// prefix or suffix was added. An absent or empty value gives nothing; a
/// `match` expression gives its first match and nothing else; otherwise the
/// value is protected, cut (`start`, `truncate`), trimmed, replaced
/// (`replaceFrom`, `replaceTo`), affixed (`prefix`, `suffix`, each only when
/// not already there) and put in the text case of `case`.
pub open spec fn spec_common(value: Option<Seq<char>>, attrs: Seq<(Seq<char>, Seq<char>)>, literals: Seq<Seq<char>>) -> (Seq<char>, Option<ChunkSpec>) {
    match value {
        None => (Seq::<char>::empty(), None),
        Some(v0) => if v0.len() == 0 {
            (Seq::<char>::empty(), None)
        } else {
            let prefix = affix_attr(attrs, "prefix"@);
            let suffix = affix_attr(attrs, "suffix"@);
            let opts = attr_or(attrs, "regexOpts"@, "vi"@);
            let match_str = attr_or(attrs, "match"@, ""@);
            if match_str.len() > 0 {
                (
                    match find_or_none(wrapped_pattern(match_str, opts), v0) {
                        Some(m) => m,
                        None => Seq::<char>::empty(),
                    },
                    None,
                )
            } else {
                let (raw, v4) = cut_and_replace(v0, attrs, literals);
                let add_prefix = prefix.len() > 0 && !starts_with(v4, prefix);
                let v5 = if add_prefix {
                    prefix + v4
                } else {
                    v4
                };
                let add_suffix = suffix.len() > 0 && !ends_with(v5, suffix);
                let v6 = if add_suffix {
                    v5 + suffix
                } else {
                    v5
                };
                let chunk = if add_prefix || add_suffix {
                    Some(ChunkSpec { value: v6, raw_value: raw, suffix, prefix })
                } else {
                    None
                };
                let case = attr_or(attrs, "case"@, ""@);
                (
                    if case.len() > 0 {
                        spec_text_case(v6, case)
                    } else {
                        v6
                    },
                    chunk,
                )
            }
        },
    }
}

fn affix_exec(attrs: &Attrs, key: &str) -> (r: String)
    ensures
        r@ == affix_attr(attrs_view(*attrs), key@),
{
    let a = get_or(attrs, key, "");
    if str_eq(a, "\\") || str_eq(a, "/") {
        proof {
            reveal_strlit("");
        }
        String::new()
    } else {
        owned(a)
    }
}

fn count_exec(attrs: &Attrs, key: &str) -> (r: usize)
    ensures
        r as int == count_attr(attrs_view(*attrs), key@),
{
    match parse_usize(get_or(attrs, key, "")) {
        Some(n) => n,
        None => 0,
    }
}

fn cut_and_replace_exec(v0: &str, attrs: &Attrs, literals: &Vec<String>) -> (r: (String, String))
    requires
        forall|i: int| 0 <= i < literals.len() ==> (#[trigger] literals@[i])@.len() > 0,
    ensures
        (r.0@, r.1@) == cut_and_replace(v0@, attrs_view(*attrs), views(literals@)),
{
    let opts = get_or(attrs, "regexOpts", "vi");
    let v1 = protect_literals(v0, literals);
    let start = count_exec(attrs, "start");
    let truncate = count_exec(attrs, "truncate");
    let c1 = chars_of(v1.as_str());
    let a = if start > 0 {
        if start >= c1.len() {
            c1.len()
        } else {
            start
        }
    } else {
        0
    };
    assert(a == 0 ==> c1@.subrange(0, c1.len() as int) =~= c1@);
    assert(start > 0 && start < c1.len() ==> c1@.subrange(a as int, c1.len() as int) =~= c1@.skip(
        start as int,
    ));
    assert(start >= c1.len() ==> c1@.subrange(a as int, c1.len() as int) =~= Seq::<char>::empty());
    let rest = c1.len() - a;
    let b = if truncate > 0 && truncate < rest {
        a + truncate
    } else {
        c1.len()
    };
    let v3 = string_from_range(&c1, a, b);
    proof {
        let v2 = c1@.subrange(a as int, c1.len() as int);
        assert(truncate > 0 && truncate < rest ==> v3@ =~= v2.take(truncate as int));
        assert(!(truncate > 0 && truncate < rest) ==> v3@ =~= v2);
    }
    let raw = trim_str(v3.as_str());
    let from = get_or(attrs, "replaceFrom", "");
    let replaced = if !from.is_empty() {
        let to = get_or(attrs, "replaceTo", "");
        match compile_regex(from, opts) {
            Some(p) => replace_all(&p, raw.as_str(), to),
            None => owned(raw.as_str()),
        }
    } else {
        owned(raw.as_str())
    };
    (raw, replaced)
}

/// Applies the common options to a value and records the chunk in `ctx`
/// (see `spec_common`).
pub fn apply_common(value: Option<&str>, attrs: &Attrs, ctx: &mut CommonContext) -> (r: String)
    requires
        ctx_wf(ctx_view(*old(ctx))),
    ensures
        ({
            let (text, chunk) = spec_common(
                match value {
                    Some(v) => Some(v@),
                    None => None,
                },
                attrs_view(*attrs),
                ctx_view(*old(ctx)).literals,
            );
            r@ == text && ctx_view(*final(ctx)) == with_chunk(ctx_view(*old(ctx)), chunk)
        }),
{
    let ghost old_view = ctx_view(*ctx);
    let initial = match value {
        None => {
            return String::new();
        },
        Some(v) => v,
    };
    if initial.is_empty() {
        proof {
            assert(initial@.len() == 0);
        }
        return String::new();
    }
    let prefix = affix_exec(attrs, "prefix");
    let suffix = affix_exec(attrs, "suffix");
    let opts = get_or(attrs, "regexOpts", "vi");
    let match_str = get_or(attrs, "match", "");
    if !match_str.is_empty() {
        let found = match compile_regex(match_str, opts) {
            Some(p) => find(&p, initial),
            None => None,
        };
        return match found {
            Some(m) => m,
            None => String::new(),
        };
    }
    proof {
        assert(ctx_wf(ctx_view(*ctx)));
        assert forall|i: int| 0 <= i < ctx.protected_literals.len() implies (
        #[trigger] ctx.protected_literals@[i])@.len() > 0 by {
            assert(ctx_view(*ctx).literals[i] == ctx.protected_literals@[i]@);
        }
    }
    let (raw, v4) = cut_and_replace_exec(initial, attrs, &ctx.protected_literals);
    let add_prefix = !prefix.as_str().is_empty() && !starts_with_str(v4.as_str(), prefix.as_str());
    let v5 = if add_prefix {
        let mut t = owned(prefix.as_str());
        push_str(&mut t, v4.as_str());
        t
    } else {
        v4
    };
    let add_suffix = !suffix.as_str().is_empty() && !ends_with_str(v5.as_str(), suffix.as_str());
    let v6 = if add_suffix {
        let mut t = v5;
        push_str(&mut t, suffix.as_str());
        t
    } else {
        v5
    };
    if add_prefix || add_suffix {
        let chunk = Chunk {
            value: owned(v6.as_str()),
            raw_value: raw,
            suffix: owned(suffix.as_str()),
            prefix: owned(prefix.as_str()),
        };
        ctx.chunks.push(chunk);
        proof {
            assert(ctx_view(*ctx).chunks =~= old_view.chunks.push(chunk_view(chunk)));
        }
    }
    let case = get_or(attrs, "case", "");
    if !case.is_empty() {
        apply_text_case(v6.as_str(), case)
    } else {
        v6
    }
}

// ---------------------------------------------------------------------------
// Identifiers
// ---------------------------------------------------------------------------

/// The text of extra field `ident` when it holds a JSON string.
pub open spec fn extra_text(item: ZoteroItemData, ident: Seq<char>) -> Option<Seq<char>> {
    match entry_get(entries_view(item.extra_fields@), ident) {
        Some(JsonSpec::Str(t)) => Some(t),
        _ => None,
    }
}

/// The item field named `ident` (camel case), or the extra field of that name.
pub open spec fn spec_lookup_field(item: ZoteroItemData, ident: Seq<char>) -> Option<Seq<char>> {
    if ident == "title"@ {
        opt_view(item.title)
    } else if ident == "date"@ {
        opt_view(item.date)
    } else if ident == "dateAdded"@ {
        opt_view(item.date_added)
    } else if ident == "dateModified"@ {
        opt_view(item.date_modified)
    } else if ident == "abstractNote"@ {
        opt_view(item.abstract_note)
    } else if ident == "publicationTitle"@ {
        opt_view(item.publication_title)
    } else if ident == "volume"@ {
        opt_view(item.volume)
    } else if ident == "issue"@ {
        opt_view(item.issue)
    } else if ident == "pages"@ {
        opt_view(item.pages)
    } else if ident == "doi"@ {
        opt_view(item.doi)
    } else if ident == "url"@ {
        opt_view(item.url)
    } else if ident == "publisher"@ {
        opt_view(item.publisher)
    } else if ident == "place"@ {
        opt_view(item.place)
    } else if ident == "issn"@ {
        opt_view(item.issn)
    } else if ident == "extra"@ {
        opt_view(item.extra)
    } else if ident == "parentItem"@ {
        opt_view(item.parent_item)
    } else if ident == "note"@ {
        opt_view(item.note)
    } else if ident == "contentType"@ {
        opt_view(item.content_type)
    } else if ident == "filename"@ {
        opt_view(item.filename)
    } else if ident == "md5"@ {
        opt_view(item.md5)
    } else if ident == "annotationType"@ {
        opt_view(item.annotation_type)
    } else if ident == "annotationText"@ {
        opt_view(item.annotation_text)
    } else if ident == "annotationComment"@ {
        opt_view(item.annotation_comment)
    } else if ident == "annotationColor"@ {
        opt_view(item.annotation_color)
    } else if ident == "annotationPageLabel"@ {
        opt_view(item.annotation_page_label)
    } else if ident == "annotationPosition"@ {
        opt_view(item.annotation_position)
    } else if ident == "linkMode"@ {
        opt_view(item.link_mode)
    } else {
        extra_text(item, ident)
    }
}

fn opt_owned(o: &Option<String>) -> (r: Option<String>)
    ensures
        match r {
            Some(s) => opt_view(*o) == Some(s@),
            None => opt_view(*o) is None,
        },
{
    match o {
        Some(s) => Some(owned(s.as_str())),
        None => None,
    }
}

fn lookup_extra_field(item: &ZoteroItemData, ident: &str) -> (r: Option<String>)
    ensures
        match r {
            Some(s) => extra_text(*item, ident@) == Some(s@),
            None => extra_text(*item, ident@) is None,
        },
{
    match entries_get(&item.extra_fields, ident) {
        Some(v) => match v {
            JsonValue::Str(t) => Some(owned(t.as_str())),
            _ => None,
        },
        None => None,
    }
}

/// Reads an item field by its camel-case name (see `spec_lookup_field`).
pub fn lookup_field(item: &ZoteroItemData, ident: &str) -> (r: Option<String>)
    ensures
        match r {
            Some(s) => spec_lookup_field(*item, ident@) == Some(s@),
            None => spec_lookup_field(*item, ident@) is None,
        },
{
    if str_eq(ident, "title") {
        opt_owned(&item.title)
    } else if str_eq(ident, "date") {
        opt_owned(&item.date)
    } else if str_eq(ident, "dateAdded") {
        opt_owned(&item.date_added)
    } else if str_eq(ident, "dateModified") {
        opt_owned(&item.date_modified)
    } else if str_eq(ident, "abstractNote") {
        opt_owned(&item.abstract_note)
    } else if str_eq(ident, "publicationTitle") {
        opt_owned(&item.publication_title)
    } else if str_eq(ident, "volume") {
        opt_owned(&item.volume)
    } else if str_eq(ident, "issue") {
        opt_owned(&item.issue)
    } else if str_eq(ident, "pages") {
        opt_owned(&item.pages)
    } else if str_eq(ident, "doi") {
        opt_owned(&item.doi)
    } else if str_eq(ident, "url") {
        opt_owned(&item.url)
    } else if str_eq(ident, "publisher") {
        opt_owned(&item.publisher)
    } else if str_eq(ident, "place") {
        opt_owned(&item.place)
    } else if str_eq(ident, "issn") {
        opt_owned(&item.issn)
    } else if str_eq(ident, "extra") {
        opt_owned(&item.extra)
    } else if str_eq(ident, "parentItem") {
        opt_owned(&item.parent_item)
    } else if str_eq(ident, "note") {
        opt_owned(&item.note)
    } else if str_eq(ident, "contentType") {
        opt_owned(&item.content_type)
    } else if str_eq(ident, "filename") {
        opt_owned(&item.filename)
    } else if str_eq(ident, "md5") {
        opt_owned(&item.md5)
    } else if str_eq(ident, "annotationType") {
        opt_owned(&item.annotation_type)
    } else if str_eq(ident, "annotationText") {
        opt_owned(&item.annotation_text)
    } else if str_eq(ident, "annotationComment") {
        opt_owned(&item.annotation_comment)
    } else if str_eq(ident, "annotationColor") {
        opt_owned(&item.annotation_color)
    } else if str_eq(ident, "annotationPageLabel") {
        opt_owned(&item.annotation_page_label)
    } else if str_eq(ident, "annotationPosition") {
        opt_owned(&item.annotation_position)
    } else if str_eq(ident, "linkMode") {
        opt_owned(&item.link_mode)
    } else {
        lookup_extra_field(item, ident)
    }
}

/// The creators of an item (none when absent).
pub open spec fn item_creators(item: ZoteroItemData) -> Seq<ZoteroCreator> {
    match item.creators {
        Some(v) => v@,
        None => Seq::<ZoteroCreator>::empty(),
    }
}

/// The number of creators of group `kind`, in decimal.
pub open spec fn count_text(cs: Seq<ZoteroCreator>, kind: Seq<char>) -> Seq<char> {
    decimal(select_creators(creators_of_kind(cs, kind), i32::MAX as int).len())
}

/// The value that identifier `ident` (camel case) names for an item before
/// the common options apply: creator lists and counts, the first creator,
/// the year, the item type, the attachment title, or an item field.
pub open spec fn identifier_value(item: ZoteroItemData, title: Seq<char>, ident: Seq<char>, attrs: Seq<(Seq<char>, Seq<char>)>) -> Option<Seq<char>> {
    let cs = item_creators(item);
    if ident == "authors"@ || ident == "editors"@ || ident == "creators"@ {
        Some(spec_format_creator_list(cs, ident, attrs))
    } else if ident == "authorsCount"@ {
        Some(count_text(cs, "authors"@))
    } else if ident == "editorsCount"@ {
        Some(count_text(cs, "editors"@))
    } else if ident == "creatorsCount"@ {
        Some(count_text(cs, "creators"@))
    } else if ident == "firstCreator"@ {
        Some(spec_first_creator(cs))
    } else if ident == "year"@ {
        Some(spec_extract_year(opt_view(item.date)))
    } else if ident == "itemType"@ {
        Some(item.item_type@)
    } else if ident == "attachmentTitle"@ {
        Some(title)
    } else {
        spec_lookup_field(item, ident)
    }
}

/// Evaluates an identifier with attributes: its value under the common
/// options, and the context with the chunk it recorded.
pub open spec fn spec_eval_identifier(item: ZoteroItemData, title: Seq<char>, ident: Seq<char>, attrs: Seq<(Seq<char>, Seq<char>)>, ctx: ContextSpec) -> (Seq<char>, ContextSpec) {
    let name = spec_hyphen_to_camel(trim(ident));
    let (text, chunk) = spec_common(identifier_value(item, title, name, attrs), attrs, ctx.literals);
    (text, with_chunk(ctx, chunk))
}

fn count_string(cs: &[ZoteroCreator], kind: &str) -> (r: String)
    ensures
        r@ == count_text(cs@, kind@),
{
    let p = get_creators_of_type(cs, kind, i32::MAX);
    decimal_string(p.len() as u64)
}

/// Evaluates an identifier (see `spec_eval_identifier`).
pub fn evaluate_identifier(item: &ZoteroItemData, title: &str, ident: &str, attrs: &Attrs, ctx: &mut CommonContext) -> (r: String)
    requires
        ctx_wf(ctx_view(*old(ctx))),
    ensures
        (r@, ctx_view(*final(ctx))) == spec_eval_identifier(*item, title@, ident@, attrs_view(*attrs), ctx_view(*old(ctx))),
        ctx_wf(ctx_view(*final(ctx))),
{
    let t = trim_str(ident);
    let name = hyphen_to_camel(t.as_str());
    let n = name.as_str();
    let none: Vec<ZoteroCreator> = Vec::new();
    let cs: &[ZoteroCreator] = match &item.creators {
        Some(v) => v.as_slice(),
        None => none.as_slice(),
    };
    assert(cs@ == item_creators(*item));
    let value: Option<String> = if str_eq(n, "authors") || str_eq(n, "editors") || str_eq(n, "creators") {
        Some(format_creator_list(cs, n, attrs))
    } else if str_eq(n, "authorsCount") {
        Some(count_string(cs, "authors"))
    } else if str_eq(n, "editorsCount") {
        Some(count_string(cs, "editors"))
    } else if str_eq(n, "creatorsCount") {
        Some(count_string(cs, "creators"))
    } else if str_eq(n, "firstCreator") {
        Some(compute_first_creator(cs))
    } else if str_eq(n, "year") {
        let date = match &item.date {
            Some(d) => Some(d.as_str()),
            None => None,
        };
        Some(extract_year(date))
    } else if str_eq(n, "itemType") {
        Some(owned(item.item_type.as_str()))
    } else if str_eq(n, "attachmentTitle") {
        Some(owned(title))
    } else {
        lookup_field(item, n)
    };
    let ghost expected = identifier_value(*item, title@, name@, attrs_view(*attrs));
    assert(match value {
        Some(v) => expected == Some(v@),
        None => expected is None,
    });
    let vref: Option<&str> = match &value {
        Some(v) => Some(v.as_str()),
        None => None,
    };
    let r = apply_common(vref, attrs, ctx);
    r
}

// ---------------------------------------------------------------------------
// Statements and operands
// ---------------------------------------------------------------------------

/// The first word of a trimmed statement and the rest, trimmed.
pub open spec fn statement_parts(statement: Seq<char>) -> (Seq<char>, Seq<char>) {
    let s = trim(statement);
    match first_ws(s) {
        Some(k) => (s.take(k), trim(s.skip(k))),
        None => (s, Seq::<char>::empty()),
    }
}

/// Evaluates `identifier attr="value" ...`.
pub open spec fn spec_eval_statement(item: ZoteroItemData, title: Seq<char>, statement: Seq<char>, ctx: ContextSpec) -> (Seq<char>, ContextSpec) {
    let (op, args) = statement_parts(statement);
    spec_eval_identifier(item, title, op, spec_attributes(args), ctx)
}

/// The position of the first whitespace character of `v`, or its length.
fn first_ws_index(v: &Vec<char>) -> (k: usize)
    ensures
        k <= v.len(),
        k < v.len() ==> first_ws(v@) == Some(k as int),
        k == v.len() ==> first_ws(v@) is None,
{
    let mut k: usize = 0;
    while k < v.len() && !is_whitespace(v[k])
        invariant
            k <= v.len(),
            forall|j: int| 0 <= j < k ==> !spec_is_whitespace(v@[j]),
        decreases v.len() - k,
    {
        k = k + 1;
    }
    if k < v.len() {
        let ghost ch = choose|i: int| 0 <= i < v@.len() && spec_is_whitespace(v@[i]) && forall|j: int| 0 <= j < i ==> !spec_is_whitespace(v@[j]);
        assert(ch == k as int) by {
            if ch < k as int {
            } else if ch > k as int {
            }
        }
    }
    k
}

fn evaluate_statement(item: &ZoteroItemData, title: &str, statement: &str, ctx: &mut CommonContext) -> (r: String)
    requires
        ctx_wf(ctx_view(*old(ctx))),
    ensures
        (r@, ctx_view(*final(ctx))) == spec_eval_statement(*item, title@, statement@, ctx_view(*old(ctx))),
        ctx_wf(ctx_view(*final(ctx))),
{
    let t = trim_str(statement);
    let v = chars_of(t.as_str());
    let k = first_ws_index(&v);
    let op = string_from_range(&v, 0, k);
    let rest = string_from_range(&v, k, v.len());
    let args = trim_str(rest.as_str());
    proof {
        if k < v.len() {
            assert(op@ =~= v@.take(k as int));
            assert(rest@ =~= v@.skip(k as int));
        } else {
            assert(op@ =~= v@);
            assert(rest@ =~= Seq::<char>::empty());
            reveal_strlit("");
            assert(trim(Seq::<char>::empty()) =~= Seq::<char>::empty());
        }
    }
    let attrs = get_attributes(args.as_str());
    evaluate_identifier(item, title, op.as_str(), &attrs, ctx)
}

/// An operand of a comparison.
pub enum Operand {
    Statement(String),
    Quoted(String),
    Bare(String),
}

/// The content of an operand.
pub enum OperandSpec {
    Statement(Seq<char>),
    Quoted(Seq<char>),
    Bare(Seq<char>),
}

/// The content of `o`.
pub open spec fn operand_view(o: Operand) -> OperandSpec {
    match o {
        Operand::Statement(s) => OperandSpec::Statement(s@),
        Operand::Quoted(s) => OperandSpec::Quoted(s@),
        Operand::Bare(s) => OperandSpec::Bare(s@),
    }
}

/// The text inside matching single or double quotes, with backslash-quote
/// read as the quote.
pub open spec fn spec_parse_quoted(input: Seq<char>) -> Option<Seq<char>> {
    let t = trim(input);
    if t.len() < 2 || !(t[0] == '"' || t[0] == '\'') || t.last() != t[0] {
        None
    } else {
        Some(seq_replace_all(t.subrange(1, t.len() - 1), seq!['\\', t[0]], seq![t[0]]))
    }
}

/// An operand: a `{{ statement }}`, a quoted string, or a bare word.
pub open spec fn spec_parse_operand(input: Seq<char>) -> OperandSpec {
    let t = trim(input);
    if starts_with(t, "{{"@) && ends_with(t, "}}"@) {
        let (op, args) = spec_split_statement(t);
        OperandSpec::Statement(
            if args.len() == 0 {
                op
            } else {
                op + " "@ + args
            },
        )
    } else {
        match spec_parse_quoted(t) {
            Some(q) => OperandSpec::Quoted(q),
            None => OperandSpec::Bare(t),
        }
    }
}

fn parse_quoted(input: &str) -> (r: Option<String>)
    ensures
        match r {
            Some(q) => spec_parse_quoted(input@) == Some(q@),
            None => spec_parse_quoted(input@) is None,
        },
{
    let t = trim_str(input);
    let v = chars_of(t.as_str());
    if v.len() < 2 {
        return None;
    }
    let q = v[0];
    if !(q == '"' || q == '\'') || v[v.len() - 1] != q {
        return None;
    }
    let inner = string_from_range(&v, 1, v.len() - 1);
    let mut esc = String::new();
    crate::text::push_char(&mut esc, '\\');
    crate::text::push_char(&mut esc, q);
    let mut single = String::new();
    crate::text::push_char(&mut single, q);
    proof {
        reveal_strlit("");
        assert(esc@ =~= seq!['\\', q]);
        assert(single@ =~= seq![q]);
    }
    Some(replace_str(inner.as_str(), esc.as_str(), single.as_str()))
}

/// Reads an operand (see `spec_parse_operand`).
pub fn parse_operand(input: &str) -> (r: Operand)
    ensures
        operand_view(r) == spec_parse_operand(input@),
{
    let t = trim_str(input);
    if starts_with_str(t.as_str(), "{{") && ends_with_str(t.as_str(), "}}") {
        let (op, args) = split_statement(t.as_str());
        if args.as_str().is_empty() {
            Operand::Statement(op)
        } else {
            let mut s = op;
            push_str(&mut s, " ");
            push_str(&mut s, args.as_str());
            Operand::Statement(s)
        }
    } else {
        proof {
            crate::text::lemma_trim_idempotent(input@);
        }
        match parse_quoted(t.as_str()) {
            Some(q) => Operand::Quoted(q),
            None => Operand::Bare(t),
        }
    }
}

// ---------------------------------------------------------------------------
// Conditions
// ---------------------------------------------------------------------------

/// The comparator that starts at position `i`, trying `==`, `!=`, `<=`, `>=`,
/// `<`, `>` in that order.
pub open spec fn comparator_at(s: Seq<char>, i: int) -> Option<Seq<char>> {
    if occurs_at(s, "=="@, i) {
        Some("=="@)
    } else if occurs_at(s, "!="@, i) {
        Some("!="@)
    } else if occurs_at(s, "<="@, i) {
        Some("<="@)
    } else if occurs_at(s, ">="@, i) {
        Some(">="@)
    } else if occurs_at(s, "<"@, i) {
        Some("<"@)
    } else if occurs_at(s, ">"@, i) {
        Some(">"@)
    } else {
        None
    }
}

/// The first comparator of `s` from position `i` on that stands outside
/// quotes (where a backslash skips the next character) and outside `{{ }}`,
/// given the open quote and the brace depth at `i`.
pub open spec fn comparison_at(s: Seq<char>, i: int, quote: Option<char>, depth: nat) -> Option<(int, Seq<char>)>
    decreases s.len() + 2 - i,
{
    if i < 0 || i >= s.len() {
        None
    } else {
        match quote {
            Some(q) => if s[i] == '\\' {
                comparison_at(s, i + 2, quote, depth)
            } else if s[i] == q {
                comparison_at(s, i + 1, None, depth)
            } else {
                comparison_at(s, i + 1, quote, depth)
            },
            None => if s[i] == '\'' || s[i] == '"' {
                comparison_at(s, i + 1, Some(s[i]), depth)
            } else if occurs_at(s, "{{"@, i) {
                comparison_at(s, i + 2, None, depth + 1)
            } else if occurs_at(s, "}}"@, i) {
                comparison_at(s, i + 2, None, if depth > 0 { (depth - 1) as nat } else { 0 })
            } else if depth == 0 && comparator_at(s, i) is Some {
                Some((i, comparator_at(s, i)->0))
            } else {
                comparison_at(s, i + 1, None, depth)
            },
        }
    }
}

/// A condition split at its first comparator into two operands.
pub open spec fn spec_split_comparison(s: Seq<char>) -> Option<(OperandSpec, Seq<char>, OperandSpec)> {
    match comparison_at(s, 0, None, 0) {
        Some((i, c)) => Some(
            (spec_parse_operand(s.take(i)), c, spec_parse_operand(s.skip(i + c.len()))),
        ),
        None => None,
    }
}

fn comparator_exec(v: &Vec<char>, i: usize) -> (r: Option<&'static str>)
    requires
        i < v.len(),
    ensures
        match r {
            Some(c) => comparator_at(v@, i as int) == Some(c@),
            None => comparator_at(v@, i as int) is None,
        },
{
    let eq = chars_of("==");
    let ne = chars_of("!=");
    let le = chars_of("<=");
    let ge = chars_of(">=");
    let lt = chars_of("<");
    let gt = chars_of(">");
    if occurs_at_exec(v, &eq, i) {
        Some("==")
    } else if occurs_at_exec(v, &ne, i) {
        Some("!=")
    } else if occurs_at_exec(v, &le, i) {
        Some("<=")
    } else if occurs_at_exec(v, &ge, i) {
        Some(">=")
    } else if occurs_at_exec(v, &lt, i) {
        Some("<")
    } else if occurs_at_exec(v, &gt, i) {
        Some(">")
    } else {
        None
    }
}

/// Splits a condition at its first comparator (see `spec_split_comparison`).
pub fn split_comparison(condition: &str) -> (r: Option<(Operand, &'static str, Operand)>)
    ensures
        match r {
            Some((l, c, rt)) => spec_split_comparison(condition@) == Some(
                (operand_view(l), c@, operand_view(rt)),
            ),
            None => spec_split_comparison(condition@) is None,
        },
{
    let v = chars_of(condition);
    let open = chars_of("{{");
    let close = chars_of("}}");
    proof {
        reveal_strlit("{{");
        reveal_strlit("}}");
        reveal_strlit("==");
        reveal_strlit("!=");
        reveal_strlit("<=");
        reveal_strlit(">=");
        reveal_strlit("<");
        reveal_strlit(">");
    }
    let mut i: usize = 0;
    let mut quote: Option<char> = None;
    let mut depth: usize = 0;
    while i < v.len()
        invariant
            v@ == condition@,
            open@ == "{{"@,
            close@ == "}}"@,
            depth <= i,
            comparison_at(v@, 0, None, 0) == comparison_at(v@, i as int, quote, depth as nat),
        decreases v.len() + 2 - i,
    {
        proof {
            reveal_strlit("{{");
            reveal_strlit("}}");
        }
        let c = v[i];
        let ghost gi = i as int;
        let ghost gq = quote;
        let ghost gd = depth as nat;
        match quote {
            Some(q) => {
                if c == '\\' {
                    if i + 1 < v.len() {
                        i = i + 2;
                    } else {
                        assert(comparison_at(v@, gi + 2, gq, gd) is None);
                        assert(comparison_at(v@, v.len() as int, gq, gd) is None);
                        i = v.len();
                    }
                } else {
                    if c == q {
                        quote = None;
                    }
                    i = i + 1;
                }
            },
            None => {
                if c == '\'' || c == '"' {
                    quote = Some(c);
                    i = i + 1;
                } else if occurs_at_exec(&v, &open, i) {
                    depth = depth + 1;
                    i = i + 2;
                } else if occurs_at_exec(&v, &close, i) {
                    depth = if depth > 0 {
                        depth - 1
                    } else {
                        0
                    };
                    i = i + 2;
                } else {
                    if depth == 0 {
                        match comparator_exec(&v, i) {
                            Some(found_op) => {
                                let left = string_from_range(&v, 0, i);
                                let n = chars_of(found_op).len();
                                let right = string_from_range(&v, i + n, v.len());
                                assert(left@ =~= v@.take(i as int));
                                assert(right@ =~= v@.skip(i + found_op@.len()));
                                assert(comparison_at(v@, i as int, quote, depth as nat) == Some((i as int, found_op@)));
                                return Some((parse_operand(left.as_str()), found_op, parse_operand(right.as_str())));
                            },
                            None => {},
                        }
                    }
                    i = i + 1;
                }
            },
        }
    }
    None
}

/// The value of an operand: a statement is evaluated, a quoted string is
/// itself, a bare number is itself, and another bare word is evaluated as an
/// identifier without attributes.
pub open spec fn spec_operand_value(item: ZoteroItemData, title: Seq<char>, o: OperandSpec, ctx: ContextSpec) -> (Seq<char>, ContextSpec) {
    match o {
        OperandSpec::Statement(st) => spec_eval_statement(item, title, st, ctx),
        OperandSpec::Quoted(q) => (q, ctx),
        OperandSpec::Bare(b) => if spec_decimal(b) is Some {
            (b, ctx)
        } else {
            spec_eval_identifier(item, title, b, Seq::<(Seq<char>, Seq<char>)>::empty(), ctx)
        },
    }
}

fn evaluate_operand(item: &ZoteroItemData, title: &str, operand: Operand, ctx: &mut CommonContext) -> (r: String)
    requires
        ctx_wf(ctx_view(*old(ctx))),
    ensures
        (r@, ctx_view(*final(ctx))) == spec_operand_value(*item, title@, operand_view(operand), ctx_view(*old(ctx))),
        ctx_wf(ctx_view(*final(ctx))),
{
    match operand {
        Operand::Statement(st) => {
            let t = trim_str(st.as_str());
            proof {
                crate::text::lemma_trim_idempotent(st@);
            }
            let r = evaluate_statement(item, title, t.as_str(), ctx);
            proof {
                assert(statement_parts(t@) == statement_parts(st@));
            }
            r
        },
        Operand::Quoted(q) => q,
        Operand::Bare(b) => {
            if parse_decimal(b.as_str()).is_some() {
                b
            } else {
                let none = Attrs::empty();
                evaluate_identifier(item, title, b.as_str(), &none, ctx)
            }
        },
    }
}

/// Lexicographic three-way order of two strings by code point (the order of
/// `String`).
pub open spec fn text_order(a: Seq<char>, b: Seq<char>) -> int
    decreases a.len(),
{
    if a.len() == 0 {
        if b.len() == 0 {
            0
        } else {
            -1
        }
    } else if b.len() == 0 {
        1
    } else if a[0] < b[0] {
        -1
    } else if a[0] > b[0] {
        1
    } else {
        text_order(a.drop_first(), b.drop_first())
    }
}

fn text_order_exec(a: &str, b: &str) -> (r: i8)
    ensures
        r as int == text_order(a@, b@),
{
    let x = chars_of(a);
    let y = chars_of(b);
    let mut i: usize = 0;
    assert(x@.skip(0) =~= x@);
    assert(y@.skip(0) =~= y@);
    while i < x.len() && i < y.len() && x[i] == y[i]
        invariant
            i <= x.len(),
            i <= y.len(),
            text_order(a@, b@) == text_order(x@.skip(i as int), y@.skip(i as int)),
            x@ == a@,
            y@ == b@,
        decreases x.len() - i,
    {
        assert(x@.skip(i as int).drop_first() =~= x@.skip(i + 1));
        assert(y@.skip(i as int).drop_first() =~= y@.skip(i + 1));
        i = i + 1;
    }
    if i == x.len() {
        if i == y.len() {
            0
        } else {
            -1
        }
    } else if i == y.len() {
        1
    } else if x[i] < y[i] {
        -1
    } else {
        1
    }
}

/// Whether a three-way order satisfies a comparator.
pub open spec fn order_holds(order: int, op: Seq<char>) -> bool {
    if op == "=="@ {
        order == 0
    } else if op == "!="@ {
        order != 0
    } else if op == ">="@ {
        order >= 0
    } else if op == "<="@ {
        order <= 0
    } else if op == ">"@ {
        order > 0
    } else if op == "<"@ {
        order < 0
    } else {
        false
    }
}

fn order_holds_exec(order: i8, op: &str) -> (b: bool)
    ensures
        b == order_holds(order as int, op@),
{
    if str_eq(op, "==") {
        order == 0
    } else if str_eq(op, "!=") {
        order != 0
    } else if str_eq(op, ">=") {
        order >= 0
    } else if str_eq(op, "<=") {
        order <= 0
    } else if str_eq(op, ">") {
        order > 0
    } else if str_eq(op, "<") {
        order < 0
    } else {
        false
    }
}

/// Two values compared: by exact decimal value when both are numbers,
/// otherwise as lower-cased text.
pub open spec fn spec_compare_values(l: Seq<char>, op: Seq<char>, r: Seq<char>) -> bool {
    match (spec_decimal(l), spec_decimal(r)) {
        (Some(a), Some(b)) => order_holds(decimal_order(a, b), op),
        _ => order_holds(text_order(spec_to_lowercase(l), spec_to_lowercase(r)), op),
    }
}

fn compare_values(l: &str, op: &str, r: &str) -> (b: bool)
    ensures
        b == spec_compare_values(l@, op@, r@),
{
    match (parse_decimal(l), parse_decimal(r)) {
        (Some(a), Some(b)) => order_holds_exec(compare_decimals(&a, &b), op),
        _ => {
            let ll = to_lowercase(l);
            let rl = to_lowercase(r);
            order_holds_exec(text_order_exec(ll.as_str(), rl.as_str()), op)
        },
    }
}

/// The truth of a condition: a comparison of two operands, or whether a
/// statement or identifier evaluates to non-empty text.
pub open spec fn spec_eval_condition(item: ZoteroItemData, title: Seq<char>, condition: Seq<char>, ctx: ContextSpec) -> (bool, ContextSpec) {
    let t = trim(condition);
    match spec_split_comparison(t) {
        Some((l, op, r)) => {
            let (lv, c1) = spec_operand_value(item, title, l, ctx);
            let (rv, c2) = spec_operand_value(item, title, r, c1);
            (spec_compare_values(lv, op, rv), c2)
        },
        None => if starts_with(t, "{{"@) && ends_with(t, "}}"@) {
            let (op, args) = spec_split_statement(t);
            let (v, c) = spec_eval_identifier(item, title, op, spec_attributes(args), ctx);
            (v.len() > 0, c)
        } else {
            let (v, c) = spec_eval_identifier(item, title, t, Seq::<(Seq<char>, Seq<char>)>::empty(), ctx);
            (v.len() > 0, c)
        },
    }
}

/// Evaluates a condition (see `spec_eval_condition`).
pub fn evaluate_condition(item: &ZoteroItemData, title: &str, condition: &str, ctx: &mut CommonContext) -> (b: bool)
    requires
        ctx_wf(ctx_view(*old(ctx))),
    ensures
        (b, ctx_view(*final(ctx))) == spec_eval_condition(*item, title@, condition@, ctx_view(*old(ctx))),
        ctx_wf(ctx_view(*final(ctx))),
{
    let t = trim_str(condition);
    match split_comparison(t.as_str()) {
        Some((l, op, r)) => {
            let lv = evaluate_operand(item, title, l, ctx);
            let rv = evaluate_operand(item, title, r, ctx);
            compare_values(lv.as_str(), op, rv.as_str())
        },
        None => {
            if starts_with_str(t.as_str(), "{{") && ends_with_str(t.as_str(), "}}") {
                let (op, args) = split_statement(t.as_str());
                let attrs = get_attributes(args.as_str());
                let v = evaluate_identifier(item, title, op.as_str(), &attrs, ctx);
                !v.as_str().is_empty()
            } else {
                let none = Attrs::empty();
                let v = evaluate_identifier(item, title, t.as_str(), &none, ctx);
                !v.as_str().is_empty()
            }
        },
    }
}

// ---------------------------------------------------------------------------
// Templates
// ---------------------------------------------------------------------------

/// The state of a template evaluation: the output so far, the stack of
/// conditional levels (condition, executed, parent condition) and the context.
pub struct GenSpec {
    pub html: Seq<char>,
    pub levels: Seq<(bool, bool, bool)>,
    pub ctx: ContextSpec,
}

/// The state after one piece of a template: a statement (`if`, `elseif`,
/// `else`, `endif` or an identifier) or literal text.
pub open spec fn gen_step(item: ZoteroItemData, title: Seq<char>, st: GenSpec, part: Seq<char>) -> GenSpec {
    let cur = st.levels.last();
    let last = st.levels.len() - 1;
    if starts_with(part, "{{"@) {
        let (op, args) = spec_split_statement(part);
        if op == "if"@ {
            if cur.0 {
                let (b, c) = spec_eval_condition(item, title, args, st.ctx);
                GenSpec { html: st.html, levels: st.levels.push((b, b, true)), ctx: c }
            } else {
                GenSpec { html: st.html, levels: st.levels.push((false, false, false)), ctx: st.ctx }
            }
        } else if op == "elseif"@ {
            if !cur.1 && cur.2 {
                let (b, c) = spec_eval_condition(item, title, args, st.ctx);
                GenSpec { html: st.html, levels: st.levels.update(last, (b, b, cur.2)), ctx: c }
            } else if !cur.1 {
                GenSpec { html: st.html, levels: st.levels.update(last, (false, false, cur.2)), ctx: st.ctx }
            } else {
                GenSpec { html: st.html, levels: st.levels.update(last, (false, cur.1, cur.2)), ctx: st.ctx }
            }
        } else if op == "else"@ {
            let c = cur.2 && !cur.1;
            GenSpec { html: st.html, levels: st.levels.update(last, (c, c, cur.2)), ctx: st.ctx }
        } else if op == "endif"@ {
            if st.levels.len() > 1 {
                GenSpec { html: st.html, levels: st.levels.drop_last(), ctx: st.ctx }
            } else {
                st
            }
        } else if cur.0 {
            let (v, c) = spec_eval_identifier(item, title, op, spec_attributes(part), st.ctx);
            GenSpec { html: st.html + v, levels: st.levels, ctx: c }
        } else {
            st
        }
    } else if cur.0 {
        GenSpec { html: st.html + part, levels: st.levels, ctx: st.ctx }
    } else {
        st
    }
}

/// The state after the pieces `parts`, one after another.
pub open spec fn gen_parts(item: ZoteroItemData, title: Seq<char>, parts: Seq<Seq<char>>, init: GenSpec) -> GenSpec
    decreases parts.len(),
{
    if parts.len() == 0 {
        init
    } else {
        gen_step(item, title, gen_parts(item, title, parts.drop_last(), init), parts.last())
    }
}

/// The evaluation of a whole template from context `ctx`.
pub open spec fn spec_generate(item: ZoteroItemData, title: Seq<char>, template: Seq<char>, ctx: ContextSpec) -> GenSpec {
    gen_parts(
        item,
        title,
        outer_pieces(template, "{{"@, "}}"@, 0, 0, 0),
        GenSpec { html: Seq::<char>::empty(), levels: seq![(true, true, true)], ctx },
    )
}

#[derive(Clone, Copy)]
struct ConditionalLevel {
    condition: bool,
    executed: bool,
    parent_condition: bool,
}

spec fn levels_view(levels: Seq<ConditionalLevel>) -> Seq<(bool, bool, bool)> {
    levels.map_values(|l: ConditionalLevel| (l.condition, l.executed, l.parent_condition))
}

/// Evaluates a template (see `spec_generate`).
pub fn generate_from_template(item: &ZoteroItemData, title: &str, template: &str, ctx: &mut CommonContext) -> (r: String)
    requires
        is_ascii(template@),
        ctx_wf(ctx_view(*old(ctx))),
    ensures
        r@ == spec_generate(*item, title@, template@, ctx_view(*old(ctx))).html,
        ctx_view(*final(ctx)) == spec_generate(*item, title@, template@, ctx_view(*old(ctx))).ctx,
        ctx_wf(ctx_view(*final(ctx))),
{
    proof {
        reveal_strlit("{{");
        reveal_strlit("}}");
        reveal_strlit("");
    }
    let parts = split_by_outer_brackets(template, "{{", "}}");
    let ghost pv = views(parts@);
    let ghost init = GenSpec {
        html: Seq::<char>::empty(),
        levels: seq![(true, true, true)],
        ctx: ctx_view(*ctx),
    };
    let mut html = String::new();
    let mut levels: Vec<ConditionalLevel> = Vec::new();
    levels.push(ConditionalLevel { condition: true, executed: true, parent_condition: true });
    assert(levels_view(levels@) =~= seq![(true, true, true)]);
    assert(pv.take(0) =~= Seq::<Seq<char>>::empty());
    let mut i: usize = 0;
    while i < parts.len()
        invariant
            i <= parts.len(),
            pv == views(parts@),
            levels.len() >= 1,
            ctx_wf(ctx_view(*ctx)),
            gen_parts(*item, title@, pv.take(i as int), init) == (GenSpec {
                html: html@,
                levels: levels_view(levels@),
                ctx: ctx_view(*ctx),
            }),
        decreases parts.len() - i,
    {
        proof {
            reveal_strlit("{{");
        }
        assert(pv.take(i + 1).drop_last() =~= pv.take(i as int));
        assert(pv.take(i + 1).last() == parts@[i as int]@);
        let ghost st = GenSpec { html: html@, levels: levels_view(levels@), ctx: ctx_view(*ctx) };
        let part = &parts[i];
        let n = levels.len();
        let cur = levels[n - 1];
        assert(st.levels.last() == (cur.condition, cur.executed, cur.parent_condition));
        if starts_with_str(part.as_str(), "{{") {
            let (op, args) = split_statement(part.as_str());
            let o = op.as_str();
            if str_eq(o, "if") {
                if cur.condition {
                    let b = evaluate_condition(item, title, args.as_str(), ctx);
                    levels.push(ConditionalLevel { condition: b, executed: b, parent_condition: true });
                } else {
                    levels.push(ConditionalLevel { condition: false, executed: false, parent_condition: false });
                }
                assert(levels_view(levels@) =~= st.levels.push(
                    (levels@[n as int].condition, levels@[n as int].executed, levels@[n as int].parent_condition),
                ));
            } else if str_eq(o, "elseif") {
                let next = if !cur.executed && cur.parent_condition {
                    let b = evaluate_condition(item, title, args.as_str(), ctx);
                    ConditionalLevel { condition: b, executed: b, parent_condition: cur.parent_condition }
                } else if !cur.executed {
                    ConditionalLevel { condition: false, executed: false, parent_condition: cur.parent_condition }
                } else {
                    ConditionalLevel { condition: false, executed: cur.executed, parent_condition: cur.parent_condition }
                };
                levels.set(n - 1, next);
                assert(levels_view(levels@) =~= st.levels.update(
                    n - 1,
                    (next.condition, next.executed, next.parent_condition),
                ));
            } else if str_eq(o, "else") {
                let c = cur.parent_condition && !cur.executed;
                let next = ConditionalLevel { condition: c, executed: c, parent_condition: cur.parent_condition };
                levels.set(n - 1, next);
                assert(levels_view(levels@) =~= st.levels.update(
                    n - 1,
                    (next.condition, next.executed, next.parent_condition),
                ));
            } else if str_eq(o, "endif") {
                if n > 1 {
                    levels.pop();
                    assert(levels_view(levels@) =~= st.levels.drop_last());
                }
            } else if cur.condition {
                let attrs = get_attributes(part.as_str());
                let v = evaluate_identifier(item, title, o, &attrs, ctx);
                push_str(&mut html, v.as_str());
            }
        } else if cur.condition {
            push_str(&mut html, part.as_str());
        }
        i = i + 1;
    }
    assert(pv.take(parts.len() as int) =~= pv);
    html
}

// ---------------------------------------------------------------------------
// File names
// ---------------------------------------------------------------------------

/// The template used when none is given: first creator, year and title (cut
/// to 100 characters), separated by ` - `.
pub const DEFAULT_RENAME_TEMPLATE: &'static str = "{{ firstCreator suffix=\" - \" }}{{ year suffix=\" - \" }}{{ title truncate=\"100\" }}";

/// `s` without carriage returns and line feeds.
pub open spec fn remove_crlf(s: Seq<char>) -> Seq<char>
    decreases s.len(),
{
    if s.len() == 0 {
        s
    } else if s.last() == '\r' || s.last() == '\n' {
        remove_crlf(s.drop_last())
    } else {
        remove_crlf(s.drop_last()).push(s.last())
    }
}

/// The template actually evaluated: the given one or the default, without
/// line breaks, trimmed.
pub open spec fn format_string_of(template: Option<Seq<char>>) -> Seq<char> {
    trim(
        remove_crlf(
            match template {
                Some(t) => t,
                None => DEFAULT_RENAME_TEMPLATE@,
            },
        ),
    )
}

/// The position of the last pair with key `k`.
pub open spec fn key_index(pairs: Seq<(Seq<char>, Seq<char>)>, k: Seq<char>) -> Option<int>
    decreases pairs.len(),
{
    if pairs.len() == 0 {
        None
    } else if pairs.last().0 == k {
        Some(pairs.len() - 1)
    } else {
        key_index(pairs.drop_last(), k)
    }
}

/// `pairs` with key `k` set to `v` (updated in place, or added at the end).
pub open spec fn pair_insert(pairs: Seq<(Seq<char>, Seq<char>)>, k: Seq<char>, v: Seq<char>) -> Seq<(Seq<char>, Seq<char>)> {
    match key_index(pairs, k) {
        Some(j) => pairs.update(j, (k, v)),
        None => pairs.push((k, v)),
    }
}

/// The keys of `pairs`.
pub open spec fn pair_keys(pairs: Seq<(Seq<char>, Seq<char>)>) -> Seq<Seq<char>> {
    pairs.map_values(|p: (Seq<char>, Seq<char>)| p.0)
}

/// The doubled affixes a chunk left in `formatted`, each mapped to the text
/// with a single affix.
pub open spec fn collect_step(pairs: Seq<(Seq<char>, Seq<char>)>, c: ChunkSpec, formatted: Seq<char>) -> Seq<(Seq<char>, Seq<char>)> {
    let s_dup = c.raw_value + c.suffix + c.suffix;
    let p1 = if c.suffix.len() > 0 && contains(formatted, s_dup) {
        pair_insert(pairs, s_dup, c.raw_value + c.suffix)
    } else {
        pairs
    };
    let p_dup = c.prefix + c.prefix + c.raw_value;
    if c.prefix.len() > 0 && contains(formatted, p_dup) {
        pair_insert(p1, p_dup, c.prefix + c.raw_value)
    } else {
        p1
    }
}

/// The doubled affixes of all chunks.
pub open spec fn collect_pairs(chunks: Seq<ChunkSpec>, formatted: Seq<char>) -> Seq<(Seq<char>, Seq<char>)>
    decreases chunks.len(),
{
    if chunks.len() == 0 {
        Seq::<(Seq<char>, Seq<char>)>::empty()
    } else {
        collect_step(collect_pairs(chunks.drop_last(), formatted), chunks.last(), formatted)
    }
}

/// The placeholder that stands for the `idx`-th protected literal.
pub open spec fn marker(idx: nat) -> Seq<char> {
    "__PROTECTED_LITERAL_"@ + decimal(idx) + "__"@
}

/// `f` with each protected form `\key//` of the first `n` pairs replaced by
/// its placeholder.
pub open spec fn mark_upto(f: Seq<char>, pairs: Seq<(Seq<char>, Seq<char>)>, n: nat) -> Seq<char>
    decreases n,
{
    if n == 0 || n > pairs.len() {
        f
    } else {
        seq_replace_all(mark_upto(f, pairs, (n - 1) as nat), "\\"@ + pairs[n - 1].0 + "//"@, marker((n - 1) as nat))
    }
}

/// `f` with each key of the first `n` pairs replaced by its value.
pub open spec fn replace_upto(f: Seq<char>, pairs: Seq<(Seq<char>, Seq<char>)>, n: nat) -> Seq<char>
    decreases n,
{
    if n == 0 || n > pairs.len() {
        f
    } else {
        seq_replace_all(replace_upto(f, pairs, (n - 1) as nat), pairs[n - 1].0, pairs[n - 1].1)
    }
}

/// `f` with the placeholders of the first `n` pairs replaced by their keys.
pub open spec fn restore_upto(f: Seq<char>, pairs: Seq<(Seq<char>, Seq<char>)>, n: nat) -> Seq<char>
    decreases n,
{
    if n == 0 || n > pairs.len() {
        f
    } else {
        seq_replace_all(restore_upto(f, pairs, (n - 1) as nat), marker((n - 1) as nat), pairs[n - 1].0)
    }
}

/// A file-name-safe form of an evaluated template: tags stripped, invalid
/// characters removed.
pub open spec fn finish_name(f: Seq<char>) -> Seq<char> {
    spec_valid_file_name(replace_all_or_same(html_tag_pattern(), f, ""@))
}

/// The base file name an item gets from a template. The template is
/// evaluated; where a value's affix ended up doubled next to the same affix
/// in the output, the template is evaluated again with those doubled forms
/// protected, and each doubled form is reduced to a single affix.
pub open spec fn spec_file_base_name(item: ZoteroItemData, template: Option<Seq<char>>) -> Seq<char> {
    let fs = format_string_of(template);
    let empty_ctx = ContextSpec { chunks: Seq::<ChunkSpec>::empty(), literals: Seq::<Seq<char>>::empty() };
    let first = spec_generate(item, ""@, fs, empty_ctx);
    let pairs = collect_pairs(first.ctx.chunks, first.html);
    if pairs.len() == 0 {
        finish_name(first.html)
    } else {
        let lits = pair_keys(pairs);
        let second = spec_generate(item, ""@, protect(fs, lits), ContextSpec { chunks: Seq::<ChunkSpec>::empty(), literals: lits });
        let n = pairs.len();
        finish_name(restore_upto(replace_upto(mark_upto(second.html, pairs, n), pairs, n), pairs, n))
    }
}

proof fn lemma_remove_crlf_ascii(s: Seq<char>)
    requires
        is_ascii(s),
    ensures
        is_ascii(remove_crlf(s)),
    decreases s.len(),
{
    if s.len() > 0 {
        assert(is_ascii(s.drop_last())) by {
            assert forall|i: int| 0 <= i < s.drop_last().len() implies (#[trigger] s.drop_last()[i] as u32) < 0x80 by {
                assert(s.drop_last()[i] == s[i]);
            }
        }
        lemma_remove_crlf_ascii(s.drop_last());
    }
}

proof fn lemma_replace_ascii(s: Seq<char>, from: Seq<char>)
    requires
        is_ascii(s),
        from.len() > 0,
    ensures
        is_ascii(seq_replace_all(s, from, "\\"@ + from + "//"@)),
    decreases s.len(),
{
    reveal_strlit("\\");
    reveal_strlit("//");
    if s.len() > 0 {
        if starts_with(s, from) {
            let rest = s.skip(from.len() as int);
            assert(is_ascii(rest)) by {
                assert forall|i: int| 0 <= i < rest.len() implies (#[trigger] rest[i] as u32) < 0x80 by {
                    assert(rest[i] == s[i + from.len()]);
                }
            }
            lemma_replace_ascii(rest, from);
            let to = "\\"@ + from + "//"@;
            assert(is_ascii(to)) by {
                assert forall|i: int| 0 <= i < to.len() implies (#[trigger] to[i] as u32) < 0x80 by {
                    if 1 <= i < 1 + from.len() {
                        assert(to[i] == from[i - 1]);
                        assert(from[i - 1] == s.take(from.len() as int)[i - 1]);
                    }
                }
            }
            let r = seq_replace_all(rest, from, to);
            assert forall|i: int| 0 <= i < (to + r).len() implies (#[trigger] (to + r)[i] as u32) < 0x80 by {
                if i < to.len() {
                    assert((to + r)[i] == to[i]);
                } else {
                    assert((to + r)[i] == r[i - to.len()]);
                }
            }
        } else {
            let rest = s.drop_first();
            assert(is_ascii(rest)) by {
                assert forall|i: int| 0 <= i < rest.len() implies (#[trigger] rest[i] as u32) < 0x80 by {
                    assert(rest[i] == s[i + 1]);
                }
            }
            lemma_replace_ascii(rest, from);
            let r = seq_replace_all(rest, from, "\\"@ + from + "//"@);
            assert forall|i: int| 0 <= i < (seq![s[0]] + r).len() implies (#[trigger] (seq![s[0]] + r)[i] as u32) < 0x80 by {
                if i > 0 {
                    assert((seq![s[0]] + r)[i] == r[i - 1]);
                }
            }
        }
    }
}

proof fn lemma_protect_ascii(s: Seq<char>, lits: Seq<Seq<char>>)
    requires
        is_ascii(s),
        forall|i: int| 0 <= i < lits.len() ==> (#[trigger] lits[i]).len() > 0,
    ensures
        is_ascii(protect(s, lits)),
    decreases lits.len(),
{
    if lits.len() > 0 {
        lemma_protect_ascii(s, lits.drop_last());
        lemma_replace_ascii(protect(s, lits.drop_last()), lits.last());
    }
}

fn remove_crlf_exec(s: &str) -> (r: String)
    ensures
        r@ == remove_crlf(s@),
{
    let v = chars_of(s);
    let mut out = String::new();
    let mut i: usize = 0;
    proof {
        reveal_strlit("");
    }
    assert(v@.take(0) =~= Seq::<char>::empty());
    while i < v.len()
        invariant
            i <= v.len(),
            v@ == s@,
            out@ == remove_crlf(v@.take(i as int)),
        decreases v.len() - i,
    {
        assert(v@.take(i + 1).drop_last() =~= v@.take(i as int));
        assert(v@.take(i + 1).last() == v@[i as int]);
        if v[i] != '\r' && v[i] != '\n' {
            crate::text::push_char(&mut out, v[i]);
        }
        i = i + 1;
    }
    assert(v@.take(v.len() as int) =~= v@);
    out
}

fn key_index_exec(pairs: &Vec<(String, String)>, k: &str) -> (r: Option<usize>)
    ensures
        match r {
            Some(j) => key_index(pair_views(pairs@), k@) == Some(j as int) && j < pairs.len(),
            None => key_index(pair_views(pairs@), k@) is None,
        },
{
    let ghost pv = pair_views(pairs@);
    let mut i: usize = pairs.len();
    assert(pv.take(pv.len() as int) =~= pv);
    while i > 0
        invariant
            i <= pairs.len(),
            pv == pair_views(pairs@),
            key_index(pv, k@) == key_index(pv.take(i as int), k@),
        decreases i,
    {
        assert(pv.take(i as int).drop_last() =~= pv.take(i - 1));
        assert(pv.take(i as int).last() == pv[i - 1]);
        if str_eq(pairs[i - 1].0.as_str(), k) {
            return Some(i - 1);
        }
        i = i - 1;
    }
    None
}

/// The contents of a list of string pairs.
pub open spec fn pair_views(pairs: Seq<(String, String)>) -> Seq<(Seq<char>, Seq<char>)> {
    pairs.map_values(|p: (String, String)| (p.0@, p.1@))
}

fn pair_insert_exec(pairs: &mut Vec<(String, String)>, k: String, v: String)
    ensures
        pair_views(final(pairs)@) == pair_insert(pair_views(old(pairs)@), k@, v@),
{
    let ghost before = pair_views(pairs@);
    match key_index_exec(pairs, k.as_str()) {
        Some(j) => {
            let ghost kv = k@;
            let ghost vv = v@;
            pairs.set(j, (k, v));
            assert(pair_views(pairs@) =~= before.update(j as int, (kv, vv)));
        },
        None => {
            let ghost kv = k@;
            let ghost vv = v@;
            pairs.push((k, v));
            assert(pair_views(pairs@) =~= before.push((kv, vv)));
        },
    }
}

proof fn lemma_pair_insert_keys(pairs: Seq<(Seq<char>, Seq<char>)>, k: Seq<char>, v: Seq<char>)
    requires
        forall|j: int| 0 <= j < pairs.len() ==> (#[trigger] pairs[j]).0.len() > 0,
        k.len() > 0,
    ensures
        forall|j: int| 0 <= j < pair_insert(pairs, k, v).len() ==> (#[trigger] pair_insert(pairs, k, v)[j]).0.len() > 0,
{
    match key_index(pairs, k) {
        Some(i) => {
            lemma_key_index_bound(pairs, k);
            assert forall|j: int| 0 <= j < pair_insert(pairs, k, v).len() implies (#[trigger] pair_insert(pairs, k, v)[j]).0.len() > 0 by {
                if j != i {
                    assert(pair_insert(pairs, k, v)[j] == pairs[j]);
                }
            }
        },
        None => {
            assert forall|j: int| 0 <= j < pair_insert(pairs, k, v).len() implies (#[trigger] pair_insert(pairs, k, v)[j]).0.len() > 0 by {
                if j < pairs.len() {
                    assert(pair_insert(pairs, k, v)[j] == pairs[j]);
                }
            }
        },
    }
}

proof fn lemma_key_index_bound(pairs: Seq<(Seq<char>, Seq<char>)>, k: Seq<char>)
    ensures
        key_index(pairs, k) matches Some(i) ==> 0 <= i < pairs.len() && pairs[i].0 == k,
    decreases pairs.len(),
{
    if pairs.len() > 0 && pairs.last().0 != k {
        lemma_key_index_bound(pairs.drop_last(), k);
    }
}

fn concat3(a: &str, b: &str, c: &str) -> (r: String)
    ensures
        r@ == a@ + b@ + c@,
{
    let mut r = owned(a);
    push_str(&mut r, b);
    push_str(&mut r, c);
    r
}

fn collect_pairs_exec(chunks: &Vec<Chunk>, formatted: &str) -> (r: Vec<(String, String)>)
    ensures
        pair_views(r@) == collect_pairs(chunks@.map_values(|c: Chunk| chunk_view(c)), formatted@),
        forall|i: int| 0 <= i < r.len() ==> (#[trigger] pair_views(r@)[i]).0.len() > 0,
{
    let ghost cv = chunks@.map_values(|c: Chunk| chunk_view(c));
    let mut pairs: Vec<(String, String)> = Vec::new();
    let mut i: usize = 0;
    assert(cv.take(0) =~= Seq::<ChunkSpec>::empty());
    assert(pair_views(pairs@) =~= Seq::<(Seq<char>, Seq<char>)>::empty());
    while i < chunks.len()
        invariant
            i <= chunks.len(),
            cv == chunks@.map_values(|c: Chunk| chunk_view(c)),
            pair_views(pairs@) == collect_pairs(cv.take(i as int), formatted@),
            forall|j: int| 0 <= j < pairs.len() ==> (#[trigger] pair_views(pairs@)[j]).0.len() > 0,
        decreases chunks.len() - i,
    {
        assert(cv.take(i + 1).drop_last() =~= cv.take(i as int));
        assert(cv.take(i + 1).last() == chunk_view(chunks@[i as int]));
        let c = &chunks[i];
        if !c.suffix.as_str().is_empty() {
            let dup = concat3(c.raw_value.as_str(), c.suffix.as_str(), c.suffix.as_str());
            if contains_str(formatted, dup.as_str()) {
                let single = concat3(c.raw_value.as_str(), c.suffix.as_str(), "");
                proof {
                    reveal_strlit("");
                    assert(single@ =~= c.raw_value@ + c.suffix@);
                }
                let ghost before = pair_views(pairs@);
                proof {
                    lemma_pair_insert_keys(before, dup@, single@);
                }
                pair_insert_exec(&mut pairs, dup, single);
            }
        }
        if !c.prefix.as_str().is_empty() {
            let dup = concat3(c.prefix.as_str(), c.prefix.as_str(), c.raw_value.as_str());
            if contains_str(formatted, dup.as_str()) {
                let single = concat3(c.prefix.as_str(), c.raw_value.as_str(), "");
                proof {
                    reveal_strlit("");
                    assert(single@ =~= c.prefix@ + c.raw_value@);
                }
                let ghost before = pair_views(pairs@);
                proof {
                    lemma_pair_insert_keys(before, dup@, single@);
                }
                pair_insert_exec(&mut pairs, dup, single);
            }
        }
        i = i + 1;
    }
    assert(cv.take(chunks.len() as int) =~= cv);
    pairs
}

fn marker_exec(idx: usize) -> (r: String)
    ensures
        r@ == marker(idx as nat),
        r@.len() > 0,
{
    proof {
        reveal_strlit("__PROTECTED_LITERAL_");
    }
    let d = decimal_string(idx as u64);
    concat3("__PROTECTED_LITERAL_", d.as_str(), "__")
}

/// Computes the base file name of an item from a template, or from the
/// default template (see `spec_file_base_name`). Templates are scanned byte
/// by byte, so the evaluated template must be ASCII.
#[verifier::spinoff_prover]
#[verifier::rlimit(40)]
pub fn get_file_base_name_from_item(item: &ZoteroItemData, template: Option<&str>) -> (r: String)
    requires
        is_ascii(
            format_string_of(
                match template {
                    Some(t) => Some(t@),
                    None => None,
                },
            ),
        ),
    ensures
        r@ == spec_file_base_name(
            *item,
            match template {
                Some(t) => Some(t@),
                None => None,
            },
        ),
{
    proof {
        reveal_strlit("");
        reveal_strlit("\\");
        reveal_strlit("//");
    }
    let raw = match template {
        Some(t) => t,
        None => DEFAULT_RENAME_TEMPLATE,
    };
    let fs0 = remove_crlf_exec(raw);
    let fs = trim_str(fs0.as_str());
    let mut ctx = CommonContext { chunks: Vec::new(), protected_literals: Vec::new() };
    assert(ctx_view(ctx).chunks =~= Seq::<ChunkSpec>::empty());
    assert(ctx_view(ctx).literals =~= Seq::<Seq<char>>::empty());
    let first = generate_from_template(item, "", fs.as_str(), &mut ctx);
    let pairs = collect_pairs_exec(&ctx.chunks, first.as_str());
    let ghost pv = pair_views(pairs@);
    if pairs.len() == 0 {
        let stripped = strip_html_tags(first.as_str());
        return get_valid_file_name(stripped.as_str());
    }
    let mut lits: Vec<String> = Vec::new();
    let mut i: usize = 0;
    while i < pairs.len()
        invariant
            i <= pairs.len(),
            pv == pair_views(pairs@),
            forall|j: int| 0 <= j < pairs.len() ==> (#[trigger] pv[j]).0.len() > 0,
            views(lits@) == pair_keys(pv).take(i as int),
        decreases pairs.len() - i,
    {
        let k = owned(pairs[i].0.as_str());
        assert(k@ == pv[i as int].0);
        let ghost before = views(lits@);
        lits.push(k);
        assert(views(lits@) =~= before.push(pv[i as int].0));
        i = i + 1;
        assert(views(lits@) =~= pair_keys(pv).take(i as int));
    }
    assert(pair_keys(pv).take(pairs.len() as int) =~= pair_keys(pv));
    assert forall|j: int| 0 <= j < lits.len() implies (#[trigger] lits@[j])@.len() > 0 by {
        assert(views(lits@)[j] == lits@[j]@);
        assert(pair_keys(pv)[j] == pv[j].0);
    }
    let fs2 = protect_literals(fs.as_str(), &lits);
    proof {
        lemma_protect_ascii(fs@, views(lits@));
    }
    let mut ctx2 = CommonContext { chunks: Vec::new(), protected_literals: lits };
    assert(ctx_view(ctx2).chunks =~= Seq::<ChunkSpec>::empty());
    let second = generate_from_template(item, "", fs2.as_str(), &mut ctx2);
    let n = pairs.len();
    let mut f = second;
    let ghost g0 = f@;
    let mut j: usize = 0;
    while j < n
        invariant
            j <= n == pairs.len(),
            pv == pair_views(pairs@),
            forall|t: int| 0 <= t < pairs.len() ==> (#[trigger] pv[t]).0.len() > 0,
            f@ == mark_upto(g0, pv, j as nat),
        decreases n - j,
    {
        proof {
            reveal_strlit("\\");
            reveal_strlit("//");
        }
        let protected = concat3("\\", pairs[j].0.as_str(), "//");
        let m = marker_exec(j);
        f = replace_str(f.as_str(), protected.as_str(), m.as_str());
        j = j + 1;
    }
    let ghost g1 = f@;
    j = 0;
    while j < n
        invariant
            j <= n == pairs.len(),
            pv == pair_views(pairs@),
            forall|t: int| 0 <= t < pairs.len() ==> (#[trigger] pv[t]).0.len() > 0,
            f@ == replace_upto(g1, pv, j as nat),
        decreases n - j,
    {
        assert(pv[j as int].0.len() > 0);
        f = replace_str(f.as_str(), pairs[j].0.as_str(), pairs[j].1.as_str());
        j = j + 1;
    }
    let ghost g2 = f@;
    j = 0;
    while j < n
        invariant
            j <= n == pairs.len(),
            pv == pair_views(pairs@),
            f@ == restore_upto(g2, pv, j as nat),
        decreases n - j,
    {
        let m = marker_exec(j);
        f = replace_str(f.as_str(), m.as_str(), pairs[j].0.as_str());
        j = j + 1;
    }
    let stripped = strip_html_tags(f.as_str());
    get_valid_file_name(stripped.as_str())
}

/// The file name an attachment gets from the default template, with the
/// extension `ext` when it is not empty.
pub fn build_renamed_filename(item: &ZoteroItemData, ext: &str) -> (r: String)
    ensures
        r@ == (if ext@.len() == 0 {
            spec_file_base_name(*item, None)
        } else {
            spec_file_base_name(*item, None) + "."@ + ext@
        }),
{
    proof {
        reveal_strlit("{{ firstCreator suffix=\" - \" }}{{ year suffix=\" - \" }}{{ title truncate=\"100\" }}");
        assert(is_ascii(DEFAULT_RENAME_TEMPLATE@));
        lemma_remove_crlf_ascii(DEFAULT_RENAME_TEMPLATE@);
        lemma_trim_ascii(remove_crlf(DEFAULT_RENAME_TEMPLATE@));
    }
    let base = get_file_base_name_from_item(item, None);
    if ext.is_empty() {
        base
    } else {
        concat3(base.as_str(), ".", ext)
    }
}

proof fn lemma_trim_start_ascii(s: Seq<char>)
    requires
        is_ascii(s),
    ensures
        is_ascii(crate::text::trim_start(s)),
    decreases s.len(),
{
    if s.len() > 0 && spec_is_whitespace(s[0]) {
        assert(is_ascii(s.drop_first())) by {
            assert forall|i: int| 0 <= i < s.drop_first().len() implies (#[trigger] s.drop_first()[i] as u32) < 0x80 by {
                assert(s.drop_first()[i] == s[i + 1]);
            }
        }
        lemma_trim_start_ascii(s.drop_first());
    }
}

proof fn lemma_trim_end_ascii(s: Seq<char>)
    requires
        is_ascii(s),
    ensures
        is_ascii(crate::text::trim_end(s)),
    decreases s.len(),
{
    if s.len() > 0 && spec_is_whitespace(s.last()) {
        assert(is_ascii(s.drop_last())) by {
            assert forall|i: int| 0 <= i < s.drop_last().len() implies (#[trigger] s.drop_last()[i] as u32) < 0x80 by {
                assert(s.drop_last()[i] == s[i]);
            }
        }
        lemma_trim_end_ascii(s.drop_last());
    }
}

proof fn lemma_trim_ascii(s: Seq<char>)
    requires
        is_ascii(s),
    ensures
        is_ascii(trim(s)),
{
    lemma_trim_start_ascii(s);
    lemma_trim_end_ascii(crate::text::trim_start(s));
}

} // verus!
