//! Markdown and BibTeX renderings of library items.

use vstd::prelude::*;

use crate::patterns::{find_str, find_or_none, replace_all_or_same, replace_all_str};
use crate::text::{
    chars_of, contains, contains_str, decimal, is_alphanumeric, join, join_strs, owned, push_char,
    push_decimal, push_str, replace_all, replace_str, spec_is_alphanumeric, spec_to_lowercase,
    split_char, split_char_str, split_ws, split_ws_str, string_from_range, to_lowercase, trim,
    trim_str, views,
};
use crate::types::{opt_text, AttachmentDetails, ZoteroCreator, ZoteroItem, ZoteroTag};

verus! {

// ---------------------------------------------------------------------------
// truncate
// ---------------------------------------------------------------------------

/// The number of bytes UTF-8 takes for `c`.
pub open spec fn char_width(c: char) -> nat {
    if (c as u32) < 0x80 {
        1
    } else if (c as u32) < 0x800 {
        2
    } else if (c as u32) < 0x10000 {
        3
    } else {
        4
    }
}

/// The number of bytes UTF-8 takes for `s` (`str::len`).
pub open spec fn utf8_len(s: Seq<char>) -> nat
    decreases s.len(),
{
    if s.len() == 0 {
        0
    } else {
        utf8_len(s.drop_last()) + char_width(s.last())
    }
}

/// The number of leading characters of `s` that fit in `budget` bytes.
pub open spec fn fitting_prefix(s: Seq<char>, budget: int) -> nat
    decreases s.len(),
{
    if s.len() == 0 || char_width(s[0]) > budget {
        0
    } else {
        1 + fitting_prefix(s.drop_first(), budget - char_width(s[0]))
    }
}

/// `text` when it has at most `max_len` characters; otherwise its first
/// `max_len` characters, trimmed, followed by "...".
pub open spec fn spec_truncate(text: Seq<char>, max_len: nat) -> Seq<char> {
    if text.len() <= max_len {
        text
    } else {
        trim(text.take(max_len as int)) + "..."@
    }
}

/// The byte width of `c`.
pub(crate) fn char_width_exec(c: char) -> (w: usize)
    ensures
        w == char_width(c),
{
    let u = c as u32;
    if u < 0x80 {
        1
    } else if u < 0x800 {
        2
    } else if u < 0x10000 {
        3
    } else {
        4
    }
}

pub(crate) proof fn lemma_utf8_len_prepend(c: char, s: Seq<char>)
    ensures
        utf8_len(seq![c] + s) == char_width(c) + utf8_len(s),
    decreases s.len(),
{
    if s.len() > 0 {
        assert((seq![c] + s).drop_last() =~= seq![c] + s.drop_last());
        assert((seq![c] + s).last() == s.last());
        lemma_utf8_len_prepend(c, s.drop_last());
        assert(utf8_len(seq![c] + s) == utf8_len((seq![c] + s).drop_last()) + char_width((seq![c] + s).last()));
        assert(utf8_len(s) == utf8_len(s.drop_last()) + char_width(s.last()));
    } else {
        assert(seq![c] + s =~= seq![c]);
        assert(seq![c].drop_last() =~= Seq::<char>::empty());
        assert(seq![c].last() == c);
        assert(utf8_len(seq![c]) == utf8_len(seq![c].drop_last()) + char_width(seq![c].last()));
    }
}

/// The number of bytes UTF-8 takes for `s`.
pub fn utf8_len_exec(s: &str) -> (n: u128)
    ensures
        n == utf8_len(s@),
{
    let v = chars_of(s);
    let mut t: u128 = 0;
    let mut i: usize = 0;
    assert(v@.take(0) =~= Seq::<char>::empty());
    while i < v.len()
        invariant
            i <= v.len(),
            v@ == s@,
            t == utf8_len(v@.take(i as int)),
            t <= 4 * i,
        decreases v.len() - i,
    {
        assert(v@.take(i + 1).drop_last() =~= v@.take(i as int));
        assert(v@.take(i + 1).last() == v@[i as int]);
        t = t + char_width_exec(v[i]) as u128;
        i = i + 1;
    }
    assert(v@.take(v.len() as int) =~= v@);
    t
}

/// The longest prefix of `s` that fits in `max` bytes.
pub fn truncate_bytes(s: &str, max: usize) -> (r: String)
    ensures
        fitting_prefix(s@, max as int) <= s@.len(),
        r@ == s@.take(fitting_prefix(s@, max as int) as int),
{
    let v = chars_of(s);
    let mut k: usize = 0;
    let mut budget: usize = max;
    assert(v@.skip(0) =~= v@);
    while k < v.len() && char_width_exec(v[k]) <= budget
        invariant
            k <= v.len(),
            v@ == s@,
            budget <= max,
            fitting_prefix(v@, max as int) == k + fitting_prefix(v@.skip(k as int), budget as int),
        decreases v.len() - k,
    {
        assert(v@.skip(k as int).drop_first() =~= v@.skip(k + 1));
        budget = budget - char_width_exec(v[k]);
        k = k + 1;
    }
    assert(k < v.len() ==> v@.skip(k as int)[0] == v@[k as int]);
    let head = string_from_range(&v, 0, k);
    assert(head@ =~= s@.take(k as int));
    head
}

/// Truncates `text` to at most `max_len` characters, trimming the kept part
/// and appending "..." when it cut (see `spec_truncate`).
pub fn truncate(text: &str, max_len: usize) -> (r: String)
    ensures
        r@ == spec_truncate(text@, max_len as nat),
{
    let v = chars_of(text);
    if v.len() <= max_len {
        return owned(text);
    }
    let head = string_from_range(&v, 0, max_len);
    assert(head@ =~= text@.take(max_len as int));
    let mut out = trim_str(head.as_str());
    push_str(&mut out, "...");
    out
}

// ---------------------------------------------------------------------------
// escape_html
// ---------------------------------------------------------------------------

/// `text` with `&`, `<`, `>`, `"` and `'` replaced by their HTML entities, in that order.
pub open spec fn spec_escape_html(text: Seq<char>) -> Seq<char> {
    replace_all(
        replace_all(
            replace_all(replace_all(replace_all(text, "&"@, "&amp;"@), "<"@, "&lt;"@), ">"@, "&gt;"@),
            "\""@,
            "&quot;"@,
        ),
        "'"@,
        "&#39;"@,
    )
}

/// Escapes the HTML special characters `& < > " '`.
pub fn escape_html(text: &str) -> (r: String)
    ensures
        r@ == spec_escape_html(text@),
{
    proof {
        reveal_strlit("&");
        reveal_strlit("<");
        reveal_strlit(">");
        reveal_strlit("\"");
        reveal_strlit("'");
    }
    let a = replace_str(text, "&", "&amp;");
    let b = replace_str(a.as_str(), "<", "&lt;");
    let c = replace_str(b.as_str(), ">", "&gt;");
    let d = replace_str(c.as_str(), "\"", "&quot;");
    replace_str(d.as_str(), "'", "&#39;")
}

// ---------------------------------------------------------------------------
// format_creators
// ---------------------------------------------------------------------------

/// How one creator is shown: the trimmed single name when it is not blank,
/// else "Last, First", or whichever of the two is not blank.
pub open spec fn creator_display(c: ZoteroCreator) -> Option<Seq<char>> {
    let name = trim(opt_text(c.name));
    let last = trim(opt_text(c.last_name));
    let first = trim(opt_text(c.first_name));
    if c.name is Some && name.len() > 0 {
        Some(name)
    } else if last.len() > 0 && first.len() > 0 {
        Some(last + ", "@ + first)
    } else if last.len() > 0 {
        Some(last)
    } else if first.len() > 0 {
        Some(first)
    } else {
        None
    }
}

/// The shown creators, in order, leaving out those with nothing to show.
pub open spec fn creator_displays(cs: Seq<ZoteroCreator>) -> Seq<Seq<char>>
    decreases cs.len(),
{
    if cs.len() == 0 {
        Seq::<Seq<char>>::empty()
    } else {
        let r = creator_displays(cs.drop_last());
        match creator_display(cs.last()) {
            Some(d) => r.push(d),
            None => r,
        }
    }
}

/// The text of an optional string, or the empty text.
pub fn opt_str(o: &Option<String>) -> (r: &str)
    ensures
        r@ == opt_text(*o),
{
    proof {
        reveal_strlit("");
    }
    match o {
        Some(s) => s.as_str(),
        None => "",
    }
}

fn creator_display_exec(c: &ZoteroCreator) -> (r: Option<String>)
    ensures
        r matches Some(s) ==> creator_display(*c) == Some(s@),
        r is None ==> creator_display(*c) is None,
{
    let name = trim_str(opt_str(&c.name));
    if c.name.is_some() && !name.as_str().is_empty() {
        return Some(name);
    }
    let last = trim_str(opt_str(&c.last_name));
    let first = trim_str(opt_str(&c.first_name));
    if !last.as_str().is_empty() && !first.as_str().is_empty() {
        let mut s = last;
        push_str(&mut s, ", ");
        push_str(&mut s, first.as_str());
        Some(s)
    } else if !last.as_str().is_empty() {
        Some(last)
    } else if !first.as_str().is_empty() {
        Some(first)
    } else {
        None
    }
}

/// The shown creators, in order.
pub fn creator_display_list(creators: &[ZoteroCreator]) -> (r: Vec<String>)
    ensures
        views(r@) == creator_displays(creators@),
{
    let mut out: Vec<String> = Vec::new();
    let mut i: usize = 0;
    while i < creators.len()
        invariant
            i <= creators.len(),
            views(out@) == creator_displays(creators@.take(i as int)),
        decreases creators.len() - i,
    {
        assert(creators@.take(i + 1).drop_last() =~= creators@.take(i as int));
        match creator_display_exec(&creators[i]) {
            Some(d) => {
                let ghost before = views(out@);
                out.push(d);
                assert(views(out@) =~= before.push(d@));
            },
            None => {},
        }
        i = i + 1;
    }
    assert(creators@.take(creators.len() as int) =~= creators@);
    out
}

/// Formats creators as "Last, First; Last, First" (see `creator_display`).
pub fn format_creators(creators: &[ZoteroCreator]) -> (r: String)
    ensures
        r@ == join(creator_displays(creators@), "; "@),
{
    let list = creator_display_list(creators);
    join_strs(&list, "; ")
}

// ---------------------------------------------------------------------------
// clean_html
// ---------------------------------------------------------------------------

/// `s` with the entities `&nbsp; &amp; &lt; &gt; &quot; &#39;` decoded, in that order.
pub open spec fn decode_entities(s: Seq<char>) -> Seq<char> {
    replace_all(
        replace_all(
            replace_all(
                replace_all(replace_all(replace_all(s, "&nbsp;"@, " "@), "&amp;"@, "&"@), "&lt;"@, "<"@),
                "&gt;"@,
                ">"@,
            ),
            "&quot;"@,
            "\""@,
        ),
        "&#39;"@,
        "'"@,
    )
}

/// Each line with its whitespace runs collapsed to single spaces, blank lines dropped.
pub open spec fn collapse_lines(lines: Seq<Seq<char>>) -> Seq<Seq<char>>
    decreases lines.len(),
{
    if lines.len() == 0 {
        Seq::<Seq<char>>::empty()
    } else {
        let r = collapse_lines(lines.drop_last());
        let l = join(split_ws(lines.last()), " "@);
        if l.len() > 0 {
            r.push(l)
        } else {
            r
        }
    }
}

/// Decodes entities, then either trims, or collapses whitespace within each
/// line, drops blank lines and trims.
pub open spec fn spec_finish_clean_html(stripped: Seq<char>, collapse: bool) -> Seq<char> {
    let d = decode_entities(stripped);
    if !collapse {
        trim(d)
    } else {
        trim(join(collapse_lines(split_char(d, '\n')), "\n"@))
    }
}

/// The pattern of a line break tag.
pub open spec fn br_pattern() -> Seq<char> {
    "(?i)<br\\s*/?\\s*>"@
}

/// The pattern of a paragraph end tag.
pub open spec fn close_p_pattern() -> Seq<char> {
    "(?i)</p>"@
}

/// The pattern of any tag.
pub open spec fn tag_pattern() -> Seq<char> {
    "<[^>]+>"@
}

/// `raw` with line breaks and paragraph ends turned into newlines and all
/// other tags removed, by the regular expressions above.
pub open spec fn strip_tags_to_lines(raw: Seq<char>) -> Seq<char> {
    replace_all_or_same(
        tag_pattern(),
        replace_all_or_same(close_p_pattern(), replace_all_or_same(br_pattern(), raw, "\n"@), "\n"@),
        ""@,
    )
}

/// The cleaned text of an HTML fragment.
pub open spec fn spec_clean_html(raw: Seq<char>, collapse: bool) -> Seq<char> {
    spec_finish_clean_html(strip_tags_to_lines(raw), collapse)
}

/// Decodes the entities of tag-free text and tidies its whitespace: trims it,
/// or (with `collapse_whitespace`) collapses each line's whitespace to single
/// spaces, drops blank lines and trims.
pub fn finish_clean_html(stripped: &str, collapse_whitespace: bool) -> (r: String)
    ensures
        r@ == spec_finish_clean_html(stripped@, collapse_whitespace),
{
    proof {
        reveal_strlit("&nbsp;");
        reveal_strlit("&amp;");
        reveal_strlit("&lt;");
        reveal_strlit("&gt;");
        reveal_strlit("&quot;");
        reveal_strlit("&#39;");
    }
    let a = replace_str(stripped, "&nbsp;", " ");
    let b = replace_str(a.as_str(), "&amp;", "&");
    let c = replace_str(b.as_str(), "&lt;", "<");
    let d = replace_str(c.as_str(), "&gt;", ">");
    let e = replace_str(d.as_str(), "&quot;", "\"");
    let f = replace_str(e.as_str(), "&#39;", "'");
    if !collapse_whitespace {
        return trim_str(f.as_str());
    }
    let lines = split_char_str(f.as_str(), '\n');
    let mut kept: Vec<String> = Vec::new();
    let mut i: usize = 0;
    while i < lines.len()
        invariant
            i <= lines.len(),
            views(kept@) == collapse_lines(views(lines@).take(i as int)),
        decreases lines.len() - i,
    {
        assert(views(lines@).take(i + 1).drop_last() =~= views(lines@).take(i as int));
        assert(views(lines@).take(i + 1).last() == lines@[i as int]@);
        let words = split_ws_str(lines[i].as_str());
        let l = join_strs(&words, " ");
        if !l.as_str().is_empty() {
            let ghost before = views(kept@);
            kept.push(l);
            assert(views(kept@) =~= before.push(l@));
        }
        i = i + 1;
    }
    assert(views(lines@).take(lines.len() as int) =~= views(lines@));
    let joined = join_strs(&kept, "\n");
    trim_str(joined.as_str())
}

/// Cleans HTML: `<br>` and `</p>` become newlines, other tags are removed,
/// entities are decoded, and whitespace is tidied (see `finish_clean_html`).
pub fn clean_html(raw: &str, collapse_whitespace: bool) -> (r: String)
    ensures
        r@ == spec_clean_html(raw@, collapse_whitespace),
{
    let a = replace_all_str("(?i)<br\\s*/?\\s*>", raw, "\n");
    let b = replace_all_str("(?i)</p>", a.as_str(), "\n");
    let c = replace_all_str("<[^>]+>", b.as_str(), "");
    finish_clean_html(c.as_str(), collapse_whitespace)
}

// ---------------------------------------------------------------------------
// Item summaries
// ---------------------------------------------------------------------------

/// The creators of an item (none when absent).
pub open spec fn item_creators(o: Option<Vec<ZoteroCreator>>) -> Seq<ZoteroCreator> {
    match o {
        Some(v) => v@,
        None => Seq::<ZoteroCreator>::empty(),
    }
}

/// The tags of an item (none when absent).
pub open spec fn item_tags(o: Option<Vec<ZoteroTag>>) -> Seq<ZoteroTag> {
    match o {
        Some(v) => v@,
        None => Seq::<ZoteroTag>::empty(),
    }
}

/// The names of tags, in order.
pub open spec fn tag_names(tags: Seq<ZoteroTag>) -> Seq<Seq<char>> {
    tags.map_values(|t: ZoteroTag| t.tag@)
}

/// Whether an optional string is present and not empty.
pub open spec fn present(o: Option<String>) -> bool {
    o is Some && o.unwrap()@.len() > 0
}

/// `seq![line]` when `cond` holds, else nothing.
pub open spec fn line_if(cond: bool, line: Seq<char>) -> Seq<Seq<char>> {
    if cond {
        seq![line]
    } else {
        Seq::<Seq<char>>::empty()
    }
}

/// The text of an optional string, or `default` when absent.
pub open spec fn text_or(o: Option<String>, default: Seq<char>) -> Seq<char> {
    match o {
        Some(s) => s@,
        None => default,
    }
}

/// The abstract line of a summary, when the cleaned and shortened abstract is not empty.
pub open spec fn abstract_line(item: ZoteroItem) -> Seq<Seq<char>> {
    if present(item.data.abstract_note) {
        let short = spec_truncate(spec_clean_html(item.data.abstract_note.unwrap()@, true), 180);
        line_if(short.len() > 0, "  - Abstract: "@ + short)
    } else {
        Seq::<Seq<char>>::empty()
    }
}

/// The lines of an item's one-entry Markdown summary.
pub open spec fn item_result_lines(item: ZoteroItem, index: Option<usize>, show_tags: bool) -> Seq<Seq<char>> {
    let d = item.data;
    let prefix = match index {
        Some(i) => decimal(i as nat) + ". "@,
        None => "- "@,
    };
    let creators = join(creator_displays(item_creators(d.creators)), "; "@);
    let tags = tag_names(item_tags(d.tags));
    seq![
        prefix + "**"@ + text_or(d.title, "(untitled)"@) + "**"@,
        "  - Key: "@ + item.key@,
        "  - Type: "@ + d.item_type@,
    ] + line_if(creators.len() > 0, "  - Creators: "@ + creators) + line_if(
        present(d.date),
        "  - Date: "@ + opt_text(d.date),
    ) + line_if(present(d.publication_title), "  - Publication: "@ + opt_text(d.publication_title))
        + line_if(present(d.doi), "  - DOI: "@ + opt_text(d.doi)) + line_if(
        show_tags && tags.len() > 0,
        "  - Tags: "@ + join(tags, ", "@),
    ) + abstract_line(item)
}

/// The names of tags, in order.
pub fn tag_name_list(tags: &[ZoteroTag]) -> (r: Vec<String>)
    ensures
        views(r@) == tag_names(tags@),
{
    let mut out: Vec<String> = Vec::new();
    let mut i: usize = 0;
    while i < tags.len()
        invariant
            i <= tags.len(),
            views(out@) == tag_names(tags@.take(i as int)),
        decreases tags.len() - i,
    {
        let ghost before = views(out@);
        let t = tags[i].tag.clone();
        out.push(t);
        assert(views(out@) =~= before.push(tags@[i as int].tag@));
        assert(tags@.take(i + 1) =~= tags@.take(i as int).push(tags@[i as int]));
        assert(tag_names(tags@.take(i + 1)) =~= tag_names(tags@.take(i as int)).push(tags@[i as int].tag@));
        i = i + 1;
    }
    assert(tags@.take(tags.len() as int) =~= tags@);
    out
}

/// The creators of an item, as a slice.
pub fn creators_slice(o: &Option<Vec<ZoteroCreator>>) -> (r: &[ZoteroCreator])
    ensures
        r@ == item_creators(*o),
{
    match o {
        Some(v) => v.as_slice(),
        None => &[],
    }
}

/// The tags of an item, as a slice.
pub fn tags_slice(o: &Option<Vec<ZoteroTag>>) -> (r: &[ZoteroTag])
    ensures
        r@ == item_tags(*o),
{
    match o {
        Some(v) => v.as_slice(),
        None => &[],
    }
}

/// Whether an optional string is present and not empty.
pub fn is_present(o: &Option<String>) -> (b: bool)
    ensures
        b == present(*o),
{
    match o {
        Some(s) => !s.as_str().is_empty(),
        None => false,
    }
}

/// `a + b` as a new string.
pub fn concat2(a: &str, b: &str) -> (r: String)
    ensures
        r@ == a@ + b@,
{
    let mut r = owned(a);
    push_str(&mut r, b);
    r
}

/// `a + b + c` as a new string.
pub fn concat3(a: &str, b: &str, c: &str) -> (r: String)
    ensures
        r@ == a@ + b@ + c@,
{
    let mut r = owned(a);
    push_str(&mut r, b);
    push_str(&mut r, c);
    r
}

/// Pushes `line` onto `lines` when `cond` holds.
pub fn push_line_if(lines: &mut Vec<String>, cond: bool, line: String)
    ensures
        views(final(lines)@) == views(old(lines)@) + line_if(cond, line@),
{
    let ghost before = views(lines@);
    if cond {
        lines.push(line);
        assert(views(lines@) =~= before + seq![line@]);
    } else {
        assert(views(lines@) =~= before + Seq::<Seq<char>>::empty());
    }
}

/// The text of an optional string, or `default`.
pub fn str_or<'a>(o: &'a Option<String>, default: &'a str) -> (r: &'a str)
    ensures
        r@ == text_or(*o, default@),
{
    match o {
        Some(s) => s.as_str(),
        None => default,
    }
}

/// Formats an item as a Markdown summary: a numbered (or bulleted) bold
/// title, then key, type, and the creators, date, publication, DOI, tags
/// (when asked) and a shortened abstract when present.
#[verifier::spinoff_prover]
#[verifier::rlimit(60)]
pub fn format_item_result(item: &ZoteroItem, index: Option<usize>, show_tags: bool) -> (r: String)
    ensures
        r@ == join(item_result_lines(*item, index, show_tags), "\n"@),
{
    let d = &item.data;
    let mut lines: Vec<String> = Vec::new();
    let mut first = match index {
        Some(i) => {
            let mut p = String::new();
            push_decimal(&mut p, i as u128);
            push_str(&mut p, ". ");
            p
        },
        None => owned("- "),
    };
    push_str(&mut first, "**");
    push_str(&mut first, str_or(&d.title, "(untitled)"));
    push_str(&mut first, "**");
    lines.push(first);
    lines.push(concat2("  - Key: ", item.key.as_str()));
    lines.push(concat2("  - Type: ", d.item_type.as_str()));
    let creators = format_creators(creators_slice(&d.creators));
    push_line_if(&mut lines, !creators.as_str().is_empty(), concat2("  - Creators: ", creators.as_str()));
    push_line_if(&mut lines, is_present(&d.date), concat2("  - Date: ", opt_str(&d.date)));
    push_line_if(&mut lines, is_present(&d.publication_title), concat2("  - Publication: ", opt_str(&d.publication_title)));
    push_line_if(&mut lines, is_present(&d.doi), concat2("  - DOI: ", opt_str(&d.doi)));
    let names = tag_name_list(tags_slice(&d.tags));
    let tag_str = join_strs(&names, ", ");
    push_line_if(&mut lines, show_tags && names.len() > 0, concat2("  - Tags: ", tag_str.as_str()));
    let ghost before_abstract = views(lines@);
    if is_present(&d.abstract_note) {
        let cleaned = clean_html(opt_str(&d.abstract_note), true);
        let shortened = truncate(cleaned.as_str(), 180);
        push_line_if(&mut lines, !shortened.as_str().is_empty(), concat2("  - Abstract: ", shortened.as_str()));
    } else {
        assert(views(lines@) =~= before_abstract + abstract_line(*item));
    }
    proof {
        reveal_strlit("");
    }
    assert(views(lines@) =~= item_result_lines(*item, index, show_tags));
    join_strs(&lines, "\n")
}

/// The field lines of an item's full Markdown metadata (each present field).
pub open spec fn metadata_field_lines(d: crate::types::ZoteroItemData) -> Seq<Seq<char>> {
    let creators = join(creator_displays(item_creators(d.creators)), "; "@);
    let tags = tag_names(item_tags(d.tags));
    let cols = match d.collections {
        Some(v) => views(v@),
        None => Seq::<Seq<char>>::empty(),
    };
    line_if(creators.len() > 0, "- **Creators:** "@ + creators)
        + line_if(present(d.date), "- **Date:** "@ + opt_text(d.date))
        + line_if(present(d.publication_title), "- **Publication:** "@ + opt_text(d.publication_title))
        + line_if(present(d.volume), "- **Volume:** "@ + opt_text(d.volume))
        + line_if(present(d.issue), "- **Issue:** "@ + opt_text(d.issue))
        + line_if(present(d.pages), "- **Pages:** "@ + opt_text(d.pages))
        + line_if(present(d.publisher), "- **Publisher:** "@ + opt_text(d.publisher))
        + line_if(present(d.doi), "- **DOI:** "@ + opt_text(d.doi))
        + line_if(present(d.url), "- **URL:** "@ + opt_text(d.url))
        + line_if(tags.len() > 0, "- **Tags:** "@ + join(tags, ", "@))
        + line_if(cols.len() > 0, "- **Collections:** "@ + join(cols, ", "@))
        + line_if(present(d.extra), "- **Extra:** "@ + opt_text(d.extra))
}

/// The abstract section of an item's metadata, when asked for and present.
pub open spec fn metadata_abstract_lines(item: ZoteroItem, include_abstract: bool) -> Seq<Seq<char>> {
    if include_abstract && present(item.data.abstract_note) {
        seq![Seq::<char>::empty(), "## Abstract"@, Seq::<char>::empty(), spec_clean_html(item.data.abstract_note.unwrap()@, false)]
    } else {
        Seq::<Seq<char>>::empty()
    }
}

/// The lines of an item's full Markdown metadata.
pub open spec fn item_metadata_lines(item: ZoteroItem, include_abstract: bool) -> Seq<Seq<char>> {
    seq!["# "@ + text_or(item.data.title, "(untitled)"@), Seq::<char>::empty(), "- **Key:** "@ + item.key@, "- **Type:** "@ + item.data.item_type@]
        + metadata_field_lines(item.data) + metadata_abstract_lines(item, include_abstract)
}

#[verifier::spinoff_prover]
#[verifier::rlimit(60)]
fn metadata_fields(d: &crate::types::ZoteroItemData) -> (lines: Vec<String>)
    ensures
        views(lines@) == metadata_field_lines(*d),
{
    let mut lines: Vec<String> = Vec::new();
    let creators = format_creators(creators_slice(&d.creators));
    push_line_if(&mut lines, !creators.as_str().is_empty(), concat2("- **Creators:** ", creators.as_str()));
    push_line_if(&mut lines, is_present(&d.date), concat2("- **Date:** ", opt_str(&d.date)));
    push_line_if(&mut lines, is_present(&d.publication_title), concat2("- **Publication:** ", opt_str(&d.publication_title)));
    push_line_if(&mut lines, is_present(&d.volume), concat2("- **Volume:** ", opt_str(&d.volume)));
    push_line_if(&mut lines, is_present(&d.issue), concat2("- **Issue:** ", opt_str(&d.issue)));
    push_line_if(&mut lines, is_present(&d.pages), concat2("- **Pages:** ", opt_str(&d.pages)));
    push_line_if(&mut lines, is_present(&d.publisher), concat2("- **Publisher:** ", opt_str(&d.publisher)));
    push_line_if(&mut lines, is_present(&d.doi), concat2("- **DOI:** ", opt_str(&d.doi)));
    push_line_if(&mut lines, is_present(&d.url), concat2("- **URL:** ", opt_str(&d.url)));
    let names = tag_name_list(tags_slice(&d.tags));
    let tag_str = join_strs(&names, ", ");
    push_line_if(&mut lines, names.len() > 0, concat2("- **Tags:** ", tag_str.as_str()));
    let (has_cols, col_str) = match &d.collections {
        Some(v) => (v.len() > 0, join_strs(v, ", ")),
        None => (false, String::new()),
    };
    push_line_if(&mut lines, has_cols, concat2("- **Collections:** ", col_str.as_str()));
    push_line_if(&mut lines, is_present(&d.extra), concat2("- **Extra:** ", opt_str(&d.extra)));
    assert(views(lines@) =~= metadata_field_lines(*d));
    lines
}

/// Appends all of `more` to `lines`.
pub fn append_lines(lines: &mut Vec<String>, more: Vec<String>)
    ensures
        views(final(lines)@) == views(old(lines)@) + views(more@),
{
    let mut more = more;
    let ghost a = views(lines@);
    let ghost b = views(more@);
    lines.append(&mut more);
    assert(views(lines@) =~= a + b);
}

/// Formats an item as full Markdown metadata: a title heading, then key,
/// type and each present field, and the cleaned abstract when asked.
pub fn format_item_metadata(item: &ZoteroItem, include_abstract: bool) -> (r: String)
    ensures
        r@ == join(item_metadata_lines(*item, include_abstract), "\n"@),
{
    let d = &item.data;
    let mut lines: Vec<String> = Vec::new();
    let l0 = concat2("# ", str_or(&d.title, "(untitled)"));
    let l1 = String::new();
    let l2 = concat2("- **Key:** ", item.key.as_str());
    let l3 = concat2("- **Type:** ", d.item_type.as_str());
    lines.push(l0);
    lines.push(l1);
    lines.push(l2);
    lines.push(l3);
    assert(views(lines@) =~= seq![l0@, l1@, l2@, l3@]);
    append_lines(&mut lines, metadata_fields(d));
    let ghost before_abstract = views(lines@);
    if include_abstract && is_present(&d.abstract_note) {
        let e1 = String::new();
        let h = owned("## Abstract");
        let e2 = String::new();
        let body = clean_html(opt_str(&d.abstract_note), false);
        lines.push(e1);
        lines.push(h);
        lines.push(e2);
        lines.push(body);
        assert(views(lines@) =~= before_abstract + seq![e1@, h@, e2@, body@]);
    } else {
        assert(views(lines@) =~= before_abstract + Seq::<Seq<char>>::empty());
    }
    assert(views(lines@) == item_metadata_lines(*item, include_abstract));
    join_strs(&lines, "\n")
}

// ---------------------------------------------------------------------------
// BibTeX
// ---------------------------------------------------------------------------

/// The BibTeX entry type for a Zotero item type.
pub open spec fn spec_bibtex_type(item_type: Seq<char>) -> Seq<char> {
    if item_type == "journalArticle"@ {
        "article"@
    } else if item_type == "conferencePaper"@ {
        "inproceedings"@
    } else if item_type == "book"@ {
        "book"@
    } else if item_type == "bookSection"@ {
        "incollection"@
    } else if item_type == "thesis"@ {
        "phdthesis"@
    } else if item_type == "report"@ {
        "techreport"@
    } else if item_type == "webpage"@ {
        "misc"@
    } else if item_type == "preprint"@ {
        "article"@
    } else {
        "misc"@
    }
}

/// The BibTeX entry type for a Zotero item type.
pub fn map_item_type_to_bibtex(item_type: &str) -> (r: &'static str)
    ensures
        r@ == spec_bibtex_type(item_type@),
{
    if crate::text::str_eq(item_type, "journalArticle") {
        "article"
    } else if crate::text::str_eq(item_type, "conferencePaper") {
        "inproceedings"
    } else if crate::text::str_eq(item_type, "book") {
        "book"
    } else if crate::text::str_eq(item_type, "bookSection") {
        "incollection"
    } else if crate::text::str_eq(item_type, "thesis") {
        "phdthesis"
    } else if crate::text::str_eq(item_type, "report") {
        "techreport"
    } else if crate::text::str_eq(item_type, "webpage") {
        "misc"
    } else if crate::text::str_eq(item_type, "preprint") {
        "article"
    } else {
        "misc"
    }
}

/// How one creator is named in BibTeX: the trimmed single name when it is not
/// blank, else the non-blank of trimmed first and last name joined by a space.
pub open spec fn bibtex_name(c: ZoteroCreator) -> Option<Seq<char>> {
    let name = trim(opt_text(c.name));
    let first = trim(opt_text(c.first_name));
    let last = trim(opt_text(c.last_name));
    if c.name is Some && name.len() > 0 {
        Some(name)
    } else if first.len() > 0 && last.len() > 0 {
        Some(first + " "@ + last)
    } else if first.len() > 0 {
        Some(first)
    } else if last.len() > 0 {
        Some(last)
    } else {
        None
    }
}

/// The BibTeX names of creators, in order, leaving out those without one.
pub open spec fn bibtex_names(cs: Seq<ZoteroCreator>) -> Seq<Seq<char>>
    decreases cs.len(),
{
    if cs.len() == 0 {
        Seq::<Seq<char>>::empty()
    } else {
        let r = bibtex_names(cs.drop_last());
        match bibtex_name(cs.last()) {
            Some(d) => r.push(d),
            None => r,
        }
    }
}

/// The BibTeX author field: names joined by " and ", none when there are no names.
pub open spec fn spec_bibtex_authors(cs: Seq<ZoteroCreator>) -> Option<Seq<char>> {
    if bibtex_names(cs).len() == 0 {
        None
    } else {
        Some(join(bibtex_names(cs), " and "@))
    }
}

fn bibtex_name_exec(c: &ZoteroCreator) -> (r: Option<String>)
    ensures
        r matches Some(s) ==> bibtex_name(*c) == Some(s@),
        r is None ==> bibtex_name(*c) is None,
{
    let name = trim_str(opt_str(&c.name));
    if c.name.is_some() && !name.as_str().is_empty() {
        return Some(name);
    }
    let first = trim_str(opt_str(&c.first_name));
    let last = trim_str(opt_str(&c.last_name));
    if !first.as_str().is_empty() && !last.as_str().is_empty() {
        Some(concat3(first.as_str(), " ", last.as_str()))
    } else if !first.as_str().is_empty() {
        Some(first)
    } else if !last.as_str().is_empty() {
        Some(last)
    } else {
        None
    }
}

/// The BibTeX author field of creators.
pub fn format_creators_for_bibtex(creators: &[ZoteroCreator]) -> (r: Option<String>)
    ensures
        r matches Some(s) ==> spec_bibtex_authors(creators@) == Some(s@),
        r is None ==> spec_bibtex_authors(creators@) is None,
{
    let mut out: Vec<String> = Vec::new();
    let mut i: usize = 0;
    while i < creators.len()
        invariant
            i <= creators.len(),
            views(out@) == bibtex_names(creators@.take(i as int)),
        decreases creators.len() - i,
    {
        assert(creators@.take(i + 1).drop_last() =~= creators@.take(i as int));
        match bibtex_name_exec(&creators[i]) {
            Some(d) => {
                let ghost before = views(out@);
                out.push(d);
                assert(views(out@) =~= before.push(d@));
            },
            None => {},
        }
        i = i + 1;
    }
    assert(creators@.take(creators.len() as int) =~= creators@);
    if out.len() == 0 {
        None
    } else {
        Some(join_strs(&out, " and "))
    }
}

/// The pattern of a year of the 1900s or 2000s.
pub open spec fn bibtex_year_pattern() -> Seq<char> {
    "(19|20)\\d{2}"@
}

/// The first year-like run of a date, by the pattern above.
pub open spec fn spec_bibtex_year(date: Option<String>) -> Option<Seq<char>> {
    match date {
        Some(d) => find_or_none(bibtex_year_pattern(), d@),
        None => None,
    }
}

/// The first year of the 1900s or 2000s found in a date.
pub fn extract_year(date: Option<&str>) -> (r: Option<String>)
    ensures
        r matches Some(y) ==> date is Some && find_or_none(bibtex_year_pattern(), date.unwrap()@) == Some(y@),
        r is None ==> date is None || find_or_none(bibtex_year_pattern(), date.unwrap()@) is None,
{
    match date {
        Some(d) => find_str("(19|20)\\d{2}", d),
        None => None,
    }
}

/// The alphanumeric characters of `s`, in order.
pub open spec fn alnum_only(s: Seq<char>) -> Seq<char> {
    s.filter(|c: char| spec_is_alphanumeric(c))
}

/// The last whitespace-separated word of `s`, or "item".
pub open spec fn last_word_or_item(s: Seq<char>) -> Seq<char> {
    if split_ws(s).len() == 0 {
        "item"@
    } else {
        split_ws(s).last()
    }
}

/// The fallback citation key: the alphanumeric characters of the first
/// creator's last name (or the last word of its single name, or "item"),
/// followed by the year or "n.d.".
pub open spec fn spec_cite_key(item: ZoteroItem) -> Seq<char> {
    let year = match spec_bibtex_year(item.data.date) {
        Some(y) => y,
        None => "n.d."@,
    };
    let cs = item_creators(item.data.creators);
    let last = if cs.len() == 0 {
        "item"@
    } else if cs[0].last_name is Some {
        cs[0].last_name.unwrap()@
    } else if cs[0].name is Some {
        last_word_or_item(cs[0].name.unwrap()@)
    } else {
        "item"@
    };
    alnum_only(last) + year
}

/// The alphanumeric characters of `s`.
pub fn keep_alphanumeric(s: &str) -> (r: String)
    ensures
        r@ == alnum_only(s@),
{
    let v = chars_of(s);
    let mut out = String::new();
    let mut i: usize = 0;
    while i < v.len()
        invariant
            i <= v.len(),
            out@ == alnum_only(v@.take(i as int)),
        decreases v.len() - i,
    {
        proof {
            assert(v@.take(i + 1) =~= v@.take(i as int).push(v@[i as int]));
            reveal(Seq::filter);
            assert(v@.take(i + 1).drop_last() =~= v@.take(i as int));
        }
        if is_alphanumeric(v[i]) {
            push_char(&mut out, v[i]);
        }
        i = i + 1;
    }
    assert(v@.take(v.len() as int) =~= v@);
    out
}

/// Builds the fallback citation key of an item (see `spec_cite_key`).
pub fn build_fallback_cite_key(item: &ZoteroItem) -> (r: String)
    ensures
        r@ == spec_cite_key(*item),
{
    proof {
        reveal_strlit("item");
    }
    let year = match extract_year(match &item.data.date {
        Some(d) => Some(d.as_str()),
        None => None,
    }) {
        Some(y) => y,
        None => owned("n.d."),
    };
    let cs = creators_slice(&item.data.creators);
    let last: String = if cs.len() == 0 {
        owned("item")
    } else {
        match &cs[0].last_name {
            Some(l) => l.clone(),
            None => match &cs[0].name {
                Some(n) => {
                    let words = split_ws_str(n.as_str());
                    if words.len() == 0 {
                        owned("item")
                    } else {
                        words[words.len() - 1].clone()
                    }
                },
                None => owned("item"),
            },
        }
    };
    let mut key = keep_alphanumeric(last.as_str());
    push_str(&mut key, year.as_str());
    key
}

/// `value` without braces.
pub open spec fn spec_escape_bibtex(value: Seq<char>) -> Seq<char> {
    value.filter(|c: char| c != '{' && c != '}')
}

/// Removes `{` and `}` from a BibTeX field value.
pub fn escape_bibtex(value: &str) -> (r: String)
    ensures
        r@ == spec_escape_bibtex(value@),
{
    let v = chars_of(value);
    let mut out = String::new();
    let mut i: usize = 0;
    while i < v.len()
        invariant
            i <= v.len(),
            out@ == spec_escape_bibtex(v@.take(i as int)),
        decreases v.len() - i,
    {
        proof {
            assert(v@.take(i + 1) =~= v@.take(i as int).push(v@[i as int]));
            reveal(Seq::filter);
            assert(v@.take(i + 1).drop_last() =~= v@.take(i as int));
        }
        if v[i] != '{' && v[i] != '}' {
            push_char(&mut out, v[i]);
        }
        i = i + 1;
    }
    assert(v@.take(v.len() as int) =~= v@);
    out
}

/// The value of a BibTeX field, when present and not empty.
pub open spec fn bib_value(o: Option<Seq<char>>) -> Option<Seq<char>> {
    match o {
        Some(v) => if v.len() > 0 { Some(v) } else { None },
        None => None,
    }
}

/// The line of a BibTeX field, when it has a value.
pub open spec fn bib_line(field: Seq<char>, o: Option<Seq<char>>) -> Seq<Seq<char>> {
    match bib_value(o) {
        Some(v) => seq!["  "@ + field + " = {"@ + spec_escape_bibtex(v) + "},"@],
        None => Seq::<Seq<char>>::empty(),
    }
}

/// The lines of an item's BibTeX entry.
pub open spec fn bibtex_lines(item: ZoteroItem) -> Seq<Seq<char>> {
    let d = item.data;
    seq!["@"@ + spec_bibtex_type(d.item_type@) + "{"@ + spec_cite_key(item) + ","@]
        + bib_line("title"@, crate::types::opt_view(d.title))
        + bib_line("author"@, spec_bibtex_authors(item_creators(d.creators)))
        + bib_line("year"@, spec_bibtex_year(d.date))
        + bib_line("journal"@, crate::types::opt_view(d.publication_title))
        + bib_line("volume"@, crate::types::opt_view(d.volume))
        + bib_line("number"@, crate::types::opt_view(d.issue))
        + bib_line("pages"@, crate::types::opt_view(d.pages))
        + bib_line("publisher"@, crate::types::opt_view(d.publisher))
        + bib_line("doi"@, crate::types::opt_view(d.doi))
        + bib_line("url"@, crate::types::opt_view(d.url))
        + seq!["}"@]
}

/// Pushes the line of a BibTeX field when it has a value.
fn push_bib_line(lines: &mut Vec<String>, field: &str, value: Option<&str>)
    ensures
        views(final(lines)@) == views(old(lines)@) + bib_line(field@, match value { Some(v) => Some(v@), None => None }),
{
    let ghost before = views(lines@);
    match value {
        Some(v) => {
            if !v.is_empty() {
                let mut line = owned("  ");
                push_str(&mut line, field);
                push_str(&mut line, " = {");
                let e = escape_bibtex(v);
                push_str(&mut line, e.as_str());
                push_str(&mut line, "},");
                lines.push(line);
                assert(views(lines@) =~= before + seq![line@]);
            } else {
                assert(views(lines@) =~= before + Seq::<Seq<char>>::empty());
            }
        },
        None => {
            assert(views(lines@) =~= before + Seq::<Seq<char>>::empty());
        },
    }
}

/// An optional string as an optional text.
pub fn opt_as_str(o: &Option<String>) -> (r: Option<&str>)
    ensures
        match r { Some(v) => Some(v@), None => None } == crate::types::opt_view(*o),
{
    match o {
        Some(s) => Some(s.as_str()),
        None => None,
    }
}

/// Generates a BibTeX entry for an item: the entry type from the item type,
/// the fallback citation key, and each non-empty field with braces removed.
#[verifier::spinoff_prover]
#[verifier::rlimit(60)]
pub fn generate_bibtex(item: &ZoteroItem) -> (r: String)
    ensures
        r@ == join(bibtex_lines(*item), "\n"@),
{
    let d = &item.data;
    let entry_type = map_item_type_to_bibtex(d.item_type.as_str());
    let cite_key = build_fallback_cite_key(item);
    let mut head = owned("@");
    push_str(&mut head, entry_type);
    push_str(&mut head, "{");
    push_str(&mut head, cite_key.as_str());
    push_str(&mut head, ",");
    let mut lines: Vec<String> = Vec::new();
    lines.push(head);
    assert(views(lines@) =~= seq![head@]);
    push_bib_line(&mut lines, "title", opt_as_str(&d.title));
    let authors = format_creators_for_bibtex(creators_slice(&d.creators));
    push_bib_line(&mut lines, "author", opt_as_str(&authors));
    let year = extract_year(opt_as_str(&d.date));
    push_bib_line(&mut lines, "year", opt_as_str(&year));
    push_bib_line(&mut lines, "journal", opt_as_str(&d.publication_title));
    push_bib_line(&mut lines, "volume", opt_as_str(&d.volume));
    push_bib_line(&mut lines, "number", opt_as_str(&d.issue));
    push_bib_line(&mut lines, "pages", opt_as_str(&d.pages));
    push_bib_line(&mut lines, "publisher", opt_as_str(&d.publisher));
    push_bib_line(&mut lines, "doi", opt_as_str(&d.doi));
    push_bib_line(&mut lines, "url", opt_as_str(&d.url));
    let ghost before_end = views(lines@);
    let end = owned("}");
    lines.push(end);
    assert(views(lines@) =~= before_end + seq![end@]);
    assert(views(lines@) == bibtex_lines(*item));
    join_strs(&lines, "\n")
}

// ---------------------------------------------------------------------------
// Best attachment
// ---------------------------------------------------------------------------

/// How well an attachment stands for its item: 3 for PDF, 2 for HTML, else 1,
/// by its lower-cased content type.
pub open spec fn attachment_score(item: ZoteroItem) -> int {
    let ct = spec_to_lowercase(opt_text(item.data.content_type));
    if contains(ct, "pdf"@) {
        3
    } else if contains(ct, "html"@) {
        2
    } else {
        1
    }
}

/// Whether a child item is an attachment.
pub open spec fn is_attachment(item: ZoteroItem) -> bool {
    item.data.item_type@ == "attachment"@
}

/// The index of the best attachment: the last one with the highest score.
pub open spec fn best_attachment_index(children: Seq<ZoteroItem>) -> Option<int>
    decreases children.len(),
{
    if children.len() == 0 {
        None
    } else {
        let b = best_attachment_index(children.drop_last());
        let last = children.len() - 1;
        if is_attachment(children[last]) && (b is None || attachment_score(children[last]) >= attachment_score(children[b.unwrap()])) {
            Some(last)
        } else {
            b
        }
    }
}

/// The details reported for an attachment.
pub open spec fn attachment_details(item: ZoteroItem) -> (Seq<char>, Seq<char>, Seq<char>, Seq<char>) {
    let d = item.data;
    (
        item.key@,
        text_or(d.title, "Attachment"@),
        match d.filename {
            Some(f) => f@,
            None => text_or(d.title, ""@),
        },
        text_or(d.content_type, "application/octet-stream"@),
    )
}

proof fn lemma_best_index_bounds(children: Seq<ZoteroItem>)
    ensures
        best_attachment_index(children) matches Some(b) ==> 0 <= b < children.len() && is_attachment(children[b]),
    decreases children.len(),
{
    if children.len() > 0 {
        lemma_best_index_bounds(children.drop_last());
    }
}

fn score_exec(item: &ZoteroItem) -> (s: u8)
    ensures
        s as int == attachment_score(*item),
{
    proof {
        reveal_strlit("");
    }
    let ct = to_lowercase(opt_str(&item.data.content_type));
    if contains_str(ct.as_str(), "pdf") {
        3
    } else if contains_str(ct.as_str(), "html") {
        2
    } else {
        1
    }
}

/// Picks the attachment that best stands for an item (PDF before HTML before
/// anything else; the last of equally good ones), with its title, file name
/// and content type filled in by defaults where absent.
pub fn find_best_attachment(children: &[ZoteroItem]) -> (r: Option<AttachmentDetails>)
    ensures
        r is None <==> best_attachment_index(children@) is None,
        r matches Some(a) ==> (a.key@, a.title@, a.filename@, a.content_type@) == attachment_details(
            children@[best_attachment_index(children@).unwrap()],
        ),
{
    let mut best: Option<usize> = None;
    let mut best_score: u8 = 0;
    let mut i: usize = 0;
    while i < children.len()
        invariant
            i <= children.len(),
            best_attachment_index(children@.take(i as int)) == match best { Some(b) => Some(b as int), None => None },
            best matches Some(b) ==> b < i && best_score as int == attachment_score(children@[b as int]),
        decreases children.len() - i,
    {
        assert(children@.take(i + 1).drop_last() =~= children@.take(i as int));
        proof {
            reveal_strlit("attachment");
        }
        if crate::text::str_eq(children[i].data.item_type.as_str(), "attachment") {
            let sc = score_exec(&children[i]);
            match best {
                Some(_) => {
                    if sc >= best_score {
                        best = Some(i);
                        best_score = sc;
                    }
                },
                None => {
                    best = Some(i);
                    best_score = sc;
                },
            }
        }
        i = i + 1;
    }
    assert(children@.take(children.len() as int) =~= children@);
    proof {
        lemma_best_index_bounds(children@);
        reveal_strlit("");
    }
    match best {
        None => None,
        Some(b) => {
            let it = &children[b];
            let d = &it.data;
            let filename = match &d.filename {
                Some(f) => f.clone(),
                None => owned(str_or(&d.title, "")),
            };
            Some(AttachmentDetails {
                key: it.key.clone(),
                title: owned(str_or(&d.title, "Attachment")),
                filename,
                content_type: owned(str_or(&d.content_type, "application/octet-stream")),
            })
        },
    }
}

} // verus!
