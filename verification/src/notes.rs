//! Notes and annotations: how they are shown, searched and created.

use vstd::prelude::*;

use crate::formatters::{
    clean_html, concat2, concat3, escape_html, item_tags, spec_clean_html, spec_escape_html,
    spec_truncate, str_or, tags_slice, text_or, truncate,
};
use crate::text::{
    contains, contains_str, decimal, decimal_string, join, join_strs, owned, push_str,
    replace_all, replace_str, spec_to_lowercase, starts_with, to_lowercase, trim, trim_str, views,
};
use crate::types::{blank_apart_from_type, opt_view, ZoteroItem, ZoteroItemData, ZoteroTag};

verus! {

broadcast use vstd::std_specs::vec::group_vec_axioms;

// ---------------------------------------------------------------------------
// Annotation blocks
// ---------------------------------------------------------------------------

/// What is shown of an annotation.
#[derive(Debug)]
pub struct AnnotationInfo {
    pub key: String,
    pub annotation_type: String,
    pub color: String,
    pub page_label: String,
    pub position: String,
    pub text: String,
    pub comment: String,
    pub tags: Vec<String>,
    pub parent_title: Option<String>,
}

/// `s`, or `default` when `s` is empty.
pub open spec fn or_default(s: Seq<char>, default: Seq<char>) -> Seq<char> {
    if s.len() == 0 {
        default
    } else {
        s
    }
}

/// The names of the tags that are not empty, in order.
pub open spec fn nonempty_tag_names(tags: Seq<ZoteroTag>) -> Seq<Seq<char>>
    decreases tags.len(),
{
    if tags.len() == 0 {
        Seq::<Seq<char>>::empty()
    } else {
        let prev = nonempty_tag_names(tags.drop_last());
        if tags.last().tag@.len() == 0 {
            prev
        } else {
            prev.push(tags.last().tag@)
        }
    }
}

/// The text of an optional field, empty when absent.
pub open spec fn field_text(o: Option<String>) -> Seq<char> {
    text_or(o, Seq::<char>::empty())
}

/// The lines of an annotation block numbered `index`, from its fields.
pub open spec fn annotation_lines(
    key: Seq<char>,
    kind: Seq<char>,
    color: Seq<char>,
    page: Seq<char>,
    position: Seq<char>,
    text: Seq<char>,
    comment: Seq<char>,
    tags: Seq<Seq<char>>,
    parent: Option<Seq<char>>,
    index: nat,
) -> Seq<Seq<char>> {
    let parent_lines = match parent {
        Some(t) => seq!["   - Parent: "@ + t],
        None => Seq::<Seq<char>>::empty(),
    };
    let tag_text = if tags.len() == 0 {
        "(none)"@
    } else {
        join(tags, ", "@)
    };
    seq![
        decimal(index) + ". Type: "@ + or_default(kind, "annotation"@),
        "   - Key: "@ + or_default(key, "(none)"@),
    ] + parent_lines + seq![
        "   - Color: "@ + or_default(color, "(none)"@),
        "   - Page: "@ + or_default(page, "(none)"@),
        "   - Position: "@ + or_default(position, "(none)"@),
        "   - Text: "@ + or_default(text, "(none)"@),
        "   - Comment: "@ + or_default(comment, "(none)"@),
        "   - Tags: "@ + tag_text,
    ]
}

/// The lines of an annotation block numbered `index`.
pub open spec fn annotation_block_lines(a: AnnotationInfo, index: nat) -> Seq<Seq<char>> {
    annotation_lines(
        a.key@,
        a.annotation_type@,
        a.color@,
        a.page_label@,
        a.position@,
        a.text@,
        a.comment@,
        views(a.tags@),
        opt_view(a.parent_title),
        index,
    )
}

/// The block of an annotation item with the title of its paper, numbered `index`.
pub open spec fn item_annotation_block(item: ZoteroItem, parent: Option<String>, index: nat) -> Seq<char> {
    join(
        annotation_lines(
            item.key@,
            field_text(item.data.annotation_type),
            field_text(item.data.annotation_color),
            field_text(item.data.annotation_page_label),
            field_text(item.data.annotation_position),
            field_text(item.data.annotation_text),
            field_text(item.data.annotation_comment),
            nonempty_tag_names(item_tags(item.data.tags)),
            opt_view(parent),
            index,
        ),
        "\n"@,
    )
}

pub(crate) fn or_default_str(s: &str, default: &str) -> (r: String)
    ensures
        r@ == or_default(s@, default@),
{
    if s.is_empty() {
        owned(default)
    } else {
        owned(s)
    }
}

fn push_line(lines: &mut Vec<String>, line: String)
    ensures
        views(final(lines)@) == views(old(lines)@).push(line@),
{
    let ghost before = views(lines@);
    lines.push(line);
    assert(views(lines@) =~= before.push(line@));
}

/// Formats an annotation as a numbered block of lines: type, key, parent,
/// color, page, position, text, comment and tags, with placeholders for what
/// is empty.
pub fn format_annotation_block(ann: &AnnotationInfo, index: usize) -> (r: String)
    ensures
        r@ == join(annotation_block_lines(*ann, index as nat), "\n"@),
{
    proof {
        reveal_strlit("annotation");
        reveal_strlit("(none)");
    }
    let mut lines: Vec<String> = Vec::new();
    let idx = decimal_string(index as u64);
    let t = or_default_str(ann.annotation_type.as_str(), "annotation");
    push_line(&mut lines, concat3(idx.as_str(), ". Type: ", t.as_str()));
    let k = or_default_str(ann.key.as_str(), "(none)");
    push_line(&mut lines, concat2("   - Key: ", k.as_str()));
    match &ann.parent_title {
        Some(p) => push_line(&mut lines, concat2("   - Parent: ", p.as_str())),
        None => {},
    }
    let c = or_default_str(ann.color.as_str(), "(none)");
    push_line(&mut lines, concat2("   - Color: ", c.as_str()));
    let p = or_default_str(ann.page_label.as_str(), "(none)");
    push_line(&mut lines, concat2("   - Page: ", p.as_str()));
    let pos = or_default_str(ann.position.as_str(), "(none)");
    push_line(&mut lines, concat2("   - Position: ", pos.as_str()));
    let tx = or_default_str(ann.text.as_str(), "(none)");
    push_line(&mut lines, concat2("   - Text: ", tx.as_str()));
    let cm = or_default_str(ann.comment.as_str(), "(none)");
    push_line(&mut lines, concat2("   - Comment: ", cm.as_str()));
    let tags = if ann.tags.len() == 0 {
        owned("(none)")
    } else {
        join_strs(&ann.tags, ", ")
    };
    push_line(&mut lines, concat2("   - Tags: ", tags.as_str()));
    assert(views(lines@) =~= annotation_block_lines(*ann, index as nat));
    join_strs(&lines, "\n")
}

/// The names of the non-empty tags of `tags`.
pub fn nonempty_tag_list(tags: &[ZoteroTag]) -> (r: Vec<String>)
    ensures
        views(r@) == nonempty_tag_names(tags@),
{
    let mut out: Vec<String> = Vec::new();
    let mut i: usize = 0;
    while i < tags.len()
        invariant
            i <= tags.len(),
            views(out@) == nonempty_tag_names(tags@.take(i as int)),
        decreases tags.len() - i,
    {
        assert(tags@.take(i + 1).drop_last() =~= tags@.take(i as int));
        if !tags[i].tag.as_str().is_empty() {
            let t = tags[i].tag.clone();
            push_line(&mut out, t);
        }
        i = i + 1;
    }
    assert(tags@.take(tags.len() as int) =~= tags@);
    out
}

pub(crate) fn field_string(o: &Option<String>) -> (r: String)
    ensures
        r@ == field_text(*o),
{
    proof {
        reveal_strlit("");
    }
    owned(str_or(o, ""))
}

/// What is shown of an annotation item, with the title of its paper.
pub open spec fn annotation_info_of(item: ZoteroItem, parent_title: Option<String>, info: AnnotationInfo) -> bool {
    &&& info.key@ == item.key@
    &&& info.annotation_type@ == field_text(item.data.annotation_type)
    &&& info.color@ == field_text(item.data.annotation_color)
    &&& info.page_label@ == field_text(item.data.annotation_page_label)
    &&& info.position@ == field_text(item.data.annotation_position)
    &&& info.text@ == field_text(item.data.annotation_text)
    &&& info.comment@ == field_text(item.data.annotation_comment)
    &&& views(info.tags@) == nonempty_tag_names(item_tags(item.data.tags))
    &&& info.parent_title == parent_title
}

/// Reads what is shown of an annotation item: its key, annotation fields
/// (empty when absent), non-empty tag names, and the given parent title.
pub fn annotation_info_from_item(item: &ZoteroItem, parent_title: Option<String>) -> (r: AnnotationInfo)
    ensures
        annotation_info_of(*item, parent_title, r),
{
    AnnotationInfo {
        key: item.key.clone(),
        annotation_type: field_string(&item.data.annotation_type),
        color: field_string(&item.data.annotation_color),
        page_label: field_string(&item.data.annotation_page_label),
        position: field_string(&item.data.annotation_position),
        text: field_string(&item.data.annotation_text),
        comment: field_string(&item.data.annotation_comment),
        tags: nonempty_tag_list(tags_slice(&item.data.tags)),
        parent_title,
    }
}

// ---------------------------------------------------------------------------
// Note bodies
// ---------------------------------------------------------------------------

/// The pieces of `s` between non-overlapping occurrences of `sep`, scanning
/// left to right (`str::split` with a string pattern).
pub open spec fn split_str(s: Seq<char>, sep: Seq<char>) -> Seq<Seq<char>>
    decreases s.len(),
{
    if s.len() == 0 || sep.len() == 0 {
        seq![s]
    } else if starts_with(s, sep) {
        seq![Seq::<char>::empty()] + split_str(s.skip(sep.len() as int), sep)
    } else {
        let r = split_str(s.drop_first(), sep);
        r.update(0, seq![s[0]] + r[0])
    }
}

/// `r` with `cur` put in front of its first piece.
pub open spec fn prefix_first(cur: Seq<char>, r: Seq<Seq<char>>) -> Seq<Seq<char>> {
    r.update(0, cur + r[0])
}

proof fn lemma_split_str_nonempty(s: Seq<char>, sep: Seq<char>)
    ensures
        split_str(s, sep).len() >= 1,
    decreases s.len(),
{
    if s.len() == 0 || sep.len() == 0 {
    } else if starts_with(s, sep) {
        lemma_split_str_nonempty(s.skip(sep.len() as int), sep);
    } else {
        lemma_split_str_nonempty(s.drop_first(), sep);
    }
}

/// The pieces of `s` between occurrences of a non-empty `sep`.
pub fn split_str_exec(s: &str, sep: &str) -> (r: Vec<String>)
    requires
        sep@.len() > 0,
    ensures
        views(r@) == split_str(s@, sep@),
{
    let v = crate::text::chars_of(s);
    let p = crate::text::chars_of(sep);
    let mut done: Vec<String> = Vec::new();
    let mut cur = String::new();
    let mut i: usize = 0;
    assert(v@.skip(0) =~= v@);
    proof {
        lemma_split_str_nonempty(s@, sep@);
        assert(prefix_first(cur@, split_str(s@, sep@)) =~= split_str(s@, sep@));
    }
    while i < v.len()
        invariant
            i <= v.len(),
            v@ == s@,
            p@ == sep@,
            p@.len() > 0,
            split_str(s@, sep@) == views(done@) + prefix_first(cur@, split_str(v@.skip(i as int), sep@)),
        decreases v.len() - i,
    {
        let ghost rest = v@.skip(i as int);
        proof {
            lemma_split_str_nonempty(rest, sep@);
        }
        if crate::text::occurs_at_exec(&v, &p, i) {
            assert(rest.take(p@.len() as int) =~= v@.subrange(i as int, i + p@.len()));
            assert(rest.skip(p@.len() as int) =~= v@.skip(i + p@.len()));
            let ghost tail = split_str(v@.skip(i + p@.len()), sep@);
            proof {
                lemma_split_str_nonempty(v@.skip(i + p@.len()), sep@);
            }
            let ghost old_done = views(done@);
            let finished = cur;
            done.push(finished);
            cur = String::new();
            assert(views(done@) =~= old_done.push(finished@));
            assert(prefix_first(cur@, tail) =~= tail);
            assert(prefix_first(finished@, split_str(rest, sep@)) =~= seq![finished@] + tail);
            assert(split_str(s@, sep@) =~= views(done@) + prefix_first(cur@, tail));
            i = i + p.len();
        } else {
            assert(!starts_with(rest, sep@)) by {
                if starts_with(rest, sep@) {
                    assert(v@.subrange(i as int, i + p@.len()) =~= rest.take(p@.len() as int));
                }
            }
            assert(rest.drop_first() =~= v@.skip(i + 1));
            let ghost tail = split_str(v@.skip(i + 1), sep@);
            proof {
                lemma_split_str_nonempty(v@.skip(i + 1), sep@);
            }
            let ghost old_cur = cur@;
            crate::text::push_char(&mut cur, v[i]);
            assert(rest[0] == v@[i as int]);
            assert(split_str(rest, sep@) == tail.update(0, seq![rest[0]] + tail[0]));
            assert(old_cur + (seq![rest[0]] + tail[0]) =~= cur@ + tail[0]);
            assert(prefix_first(old_cur, split_str(rest, sep@)) =~= prefix_first(cur@, tail));
            i = i + 1;
        }
    }
    assert(v@.skip(i as int) =~= Seq::<char>::empty());
    let ghost old_done = views(done@);
    let finished = cur;
    done.push(finished);
    assert(views(done@) =~= old_done.push(finished@));
    assert(split_str(s@, sep@) =~= views(done@));
    done
}

/// The HTML paragraphs of the non-blank pieces of a note text.
pub open spec fn note_paragraphs(pieces: Seq<Seq<char>>) -> Seq<Seq<char>>
    decreases pieces.len(),
{
    if pieces.len() == 0 {
        Seq::<Seq<char>>::empty()
    } else {
        let prev = note_paragraphs(pieces.drop_last());
        let seg = trim(pieces.last());
        if seg.len() == 0 {
            prev
        } else {
            prev.push("<p>"@ + replace_all(spec_escape_html(seg), "\n"@, "<br />"@) + "</p>"@)
        }
    }
}

/// The HTML body of a note: the escaped title as a heading, then each
/// blank-line separated paragraph of the text, escaped, with line breaks.
pub open spec fn spec_note_html(title: Seq<char>, text: Seq<char>) -> Seq<char> {
    "<h1>"@ + spec_escape_html(trim(title)) + "</h1>\n"@ + join(
        note_paragraphs(split_str(trim(text), "\n\n"@)),
        "\n"@,
    )
}

/// Builds the HTML body of a note (see `spec_note_html`).
pub fn build_note_html(title: &str, text: &str) -> (r: String)
    ensures
        r@ == spec_note_html(title@, text@),
{
    proof {
        reveal_strlit("\n\n");
        reveal_strlit("\n");
    }
    let clean_title = escape_html(trim_str(title).as_str());
    let body = trim_str(text);
    let pieces = split_str_exec(body.as_str(), "\n\n");
    let mut blocks: Vec<String> = Vec::new();
    let mut i: usize = 0;
    while i < pieces.len()
        invariant
            i <= pieces.len(),
            views(blocks@) == note_paragraphs(views(pieces@).take(i as int)),
        decreases pieces.len() - i,
    {
        proof {
            reveal_strlit("\n");
        }
        assert(views(pieces@).take(i + 1).drop_last() =~= views(pieces@).take(i as int));
        let seg = trim_str(pieces[i].as_str());
        if !seg.as_str().is_empty() {
            let esc = escape_html(seg.as_str());
            let br = replace_str(esc.as_str(), "\n", "<br />");
            push_line(&mut blocks, concat3("<p>", br.as_str(), "</p>"));
        }
        i = i + 1;
    }
    assert(views(pieces@).take(pieces.len() as int) =~= views(pieces@));
    let joined = join_strs(&blocks, "\n");
    concat3("<h1>", clean_title.as_str(), concat2("</h1>\n", joined.as_str()).as_str())
}

// ---------------------------------------------------------------------------
// Selecting, searching and listing
// ---------------------------------------------------------------------------

/// The items of `items` whose type is `item_type`, in order, at most `max`.
pub open spec fn items_of_type(items: Seq<ZoteroItem>, item_type: Seq<char>, max: nat) -> Seq<ZoteroItem>
    decreases items.len(),
{
    if items.len() == 0 {
        Seq::<ZoteroItem>::empty()
    } else {
        let prev = items_of_type(items.drop_last(), item_type, max);
        if items.last().data.item_type@ == item_type && prev.len() < max {
            prev.push(items.last())
        } else {
            prev
        }
    }
}

/// The items of `items` whose type is `item_type`, in order, at most `max`.
pub fn select_of_type(items: Vec<ZoteroItem>, item_type: &str, max: usize) -> (r: Vec<ZoteroItem>)
    ensures
        r@ == items_of_type(items@, item_type@, max as nat),
{
    let mut out: Vec<ZoteroItem> = Vec::new();
    let mut rest = items;
    let ghost all = rest@;
    let n = rest.len();
    let mut i: usize = 0;
    assert(all.skip(0) =~= all);
    assert(all.len() == n);
    while rest.len() > 0
        invariant
            i + rest@.len() == all.len(),
            all.len() <= usize::MAX,
            rest@ =~= all.skip(i as int),
            out@ == items_of_type(all.take(i as int), item_type@, max as nat),
        decreases rest.len(),
    {
        let it = rest.remove(0);
        assert(it == all[i as int]);
        assert(all.take(i + 1).drop_last() =~= all.take(i as int));
        if str_eq_string(&it, item_type) && out.len() < max {
            out.push(it);
        }
        i = i + 1;
        assert(rest@ =~= all.skip(i as int));
    }
    assert(all.take(i as int) =~= all);
    out
}

fn str_eq_string(it: &ZoteroItem, t: &str) -> (b: bool)
    ensures
        b == (it.data.item_type@ == t@),
{
    crate::text::str_eq(it.data.item_type.as_str(), t)
}

/// Whether an item is an attachment whose content type mentions "pdf".
pub open spec fn is_pdf_attachment(item: ZoteroItem) -> bool {
    item.data.item_type@ == "attachment"@ && contains(field_text(item.data.content_type), "pdf"@)
}

/// Whether an item is an attachment whose content type mentions "pdf".
pub fn pdf_attachment(item: &ZoteroItem) -> (b: bool)
    ensures
        b == is_pdf_attachment(*item),
{
    let ct = field_string(&item.data.content_type);
    crate::text::str_eq(item.data.item_type.as_str(), "attachment") && contains_str(ct.as_str(), "pdf")
}

/// The PDF attachments among `items`, in order.
pub open spec fn pdf_attachments_of(items: Seq<ZoteroItem>) -> Seq<ZoteroItem>
    decreases items.len(),
{
    if items.len() == 0 {
        Seq::<ZoteroItem>::empty()
    } else {
        let prev = pdf_attachments_of(items.drop_last());
        if is_pdf_attachment(items.last()) {
            prev.push(items.last())
        } else {
            prev
        }
    }
}

/// The attachments whose annotations stand for an item's: none when the item
/// has annotations of its own (`direct` of them), else its PDF attachments.
pub fn annotation_sources(children: Vec<ZoteroItem>, direct: usize) -> (r: Vec<ZoteroItem>)
    ensures
        r@ == (if direct == 0 {
            pdf_attachments_of(children@)
        } else {
            Seq::<ZoteroItem>::empty()
        }),
{
    let mut out: Vec<ZoteroItem> = Vec::new();
    if direct > 0 {
        return out;
    }
    let mut rest = children;
    let ghost all = rest@;
    let n = rest.len();
    assert(all.len() == n);
    let mut i: usize = 0;
    assert(all.skip(0) =~= all);
    while rest.len() > 0
        invariant
            i + rest@.len() == all.len(),
            all.len() <= usize::MAX,
            rest@ =~= all.skip(i as int),
            out@ == pdf_attachments_of(all.take(i as int)),
        decreases rest.len(),
    {
        let it = rest.remove(0);
        assert(it == all[i as int]);
        assert(all.take(i + 1).drop_last() =~= all.take(i as int));
        if pdf_attachment(&it) {
            out.push(it);
        }
        i = i + 1;
        assert(rest@ =~= all.skip(i as int));
    }
    assert(all.take(i as int) =~= all);
    out
}

/// Whether the cleaned text of a note contains `query_lower` once lower-cased.
pub open spec fn note_matches(item: ZoteroItem, query_lower: Seq<char>) -> bool {
    contains(spec_to_lowercase(spec_clean_html(field_text(item.data.note), true)), query_lower)
}

/// Whether a note matches a lower-cased query (see `note_matches`).
pub fn note_matches_query(item: &ZoteroItem, query_lower: &str) -> (b: bool)
    ensures
        b == note_matches(*item, query_lower@),
{
    let body = field_string(&item.data.note);
    let cleaned = clean_html(body.as_str(), true);
    let lower = to_lowercase(cleaned.as_str());
    contains_str(lower.as_str(), query_lower)
}

/// Whether the text or the comment of an annotation, lower-cased, contains
/// `query_lower`.
pub open spec fn annotation_matches(item: ZoteroItem, query_lower: Seq<char>) -> bool {
    contains(spec_to_lowercase(field_text(item.data.annotation_text)), query_lower)
        || contains(spec_to_lowercase(field_text(item.data.annotation_comment)), query_lower)
}

/// Whether an annotation matches a lower-cased query (see `annotation_matches`).
pub fn annotation_matches_query(item: &ZoteroItem, query_lower: &str) -> (b: bool)
    ensures
        b == annotation_matches(*item, query_lower@),
{
    let t = field_string(&item.data.annotation_text);
    let c = field_string(&item.data.annotation_comment);
    let tl = to_lowercase(t.as_str());
    let cl = to_lowercase(c.as_str());
    contains_str(tl.as_str(), query_lower) || contains_str(cl.as_str(), query_lower)
}

/// The parent line of a block, when there is a parent title.
pub open spec fn parent_line(parent: Option<String>) -> Seq<Seq<char>> {
    match parent {
        Some(t) => seq!["   - Parent: "@ + t@],
        None => Seq::<Seq<char>>::empty(),
    }
}

/// The cleaned body of a note.
pub open spec fn note_text(item: ZoteroItem) -> Seq<char> {
    spec_clean_html(field_text(item.data.note), true)
}

/// The block of a note found by a search, numbered `index`.
pub open spec fn note_search_block(index: nat, item: ZoteroItem, parent: Option<String>) -> Seq<char> {
    join(
        seq![decimal(index) + ". [Note] "@ + item.key@] + parent_line(parent) + seq![
            "   - Content: "@ + or_default(spec_truncate(note_text(item), 500), "(empty)"@),
        ],
        "\n"@,
    )
}

/// The block of a listed note, numbered `index`.
pub open spec fn note_list_block(index: nat, item: ZoteroItem, parent: Option<String>, shorten: bool) -> Seq<char> {
    let text = if shorten {
        spec_truncate(note_text(item), 500)
    } else {
        note_text(item)
    };
    let tags = nonempty_tag_names(item_tags(item.data.tags));
    join(
        seq![decimal(index) + ". Key: "@ + item.key@] + parent_line(parent) + seq![
            "   - Tags: "@ + (if tags.len() == 0 {
                "(none)"@
            } else {
                join(tags, ", "@)
            }),
            "   - Content: "@ + or_default(text, "(empty)"@),
        ],
        "\n"@,
    )
}

fn push_parent(lines: &mut Vec<String>, parent: &Option<String>)
    ensures
        views(final(lines)@) == views(old(lines)@) + parent_line(*parent),
{
    match parent {
        Some(t) => {
            let ghost before = views(lines@);
            push_line(lines, concat2("   - Parent: ", t.as_str()));
            assert(views(lines@) =~= before + parent_line(*parent));
        },
        None => {
            assert(views(lines@) =~= views(lines@) + parent_line(*parent));
        },
    }
}

/// Formats a note found by a search (see `note_search_block`).
pub fn format_note_search_block(index: usize, item: &ZoteroItem, parent: &Option<String>) -> (r: String)
    ensures
        r@ == note_search_block(index as nat, *item, *parent),
{
    proof {
        reveal_strlit("(empty)");
    }
    let mut lines: Vec<String> = Vec::new();
    let idx = decimal_string(index as u64);
    push_line(&mut lines, concat3(idx.as_str(), ". [Note] ", item.key.as_str()));
    push_parent(&mut lines, parent);
    let body = field_string(&item.data.note);
    let cleaned = clean_html(body.as_str(), true);
    let short = truncate(cleaned.as_str(), 500);
    let shown = or_default_str(short.as_str(), "(empty)");
    push_line(&mut lines, concat2("   - Content: ", shown.as_str()));
    let ghost expected = seq![decimal(index as nat) + ". [Note] "@ + item.key@] + parent_line(*parent)
        + seq!["   - Content: "@ + or_default(spec_truncate(note_text(*item), 500), "(empty)"@)];
    assert(views(lines@) =~= expected);
    join_strs(&lines, "\n")
}

/// Formats a listed note (see `note_list_block`).
pub fn format_note_list_block(index: usize, item: &ZoteroItem, parent: &Option<String>, shorten: bool) -> (r: String)
    ensures
        r@ == note_list_block(index as nat, *item, *parent, shorten),
{
    proof {
        reveal_strlit("(empty)");
        reveal_strlit("(none)");
    }
    let mut lines: Vec<String> = Vec::new();
    let idx = decimal_string(index as u64);
    push_line(&mut lines, concat3(idx.as_str(), ". Key: ", item.key.as_str()));
    push_parent(&mut lines, parent);
    let tags = nonempty_tag_list(tags_slice(&item.data.tags));
    let tag_text = if tags.len() == 0 {
        owned("(none)")
    } else {
        join_strs(&tags, ", ")
    };
    push_line(&mut lines, concat2("   - Tags: ", tag_text.as_str()));
    let body = field_string(&item.data.note);
    let cleaned = clean_html(body.as_str(), true);
    let text = if shorten {
        truncate(cleaned.as_str(), 500)
    } else {
        cleaned
    };
    let shown = or_default_str(text.as_str(), "(empty)");
    push_line(&mut lines, concat2("   - Content: ", shown.as_str()));
    let ghost t = nonempty_tag_names(item_tags(item.data.tags));
    let ghost expected = seq![decimal(index as nat) + ". Key: "@ + item.key@] + parent_line(*parent)
        + seq![
        "   - Tags: "@ + (if t.len() == 0 {
            "(none)"@
        } else {
            join(t, ", "@)
        }),
        "   - Content: "@ + or_default(
            if shorten {
                spec_truncate(note_text(*item), 500)
            } else {
                note_text(*item)
            },
            "(empty)"@,
        ),
    ];
    assert(views(lines@) =~= expected);
    join_strs(&lines, "\n")
}

// ---------------------------------------------------------------------------
// Reports
// ---------------------------------------------------------------------------

/// Formats an annotation item with the title of its paper (see
/// `item_annotation_block`).
pub fn format_item_annotation(item: &ZoteroItem, parent: Option<String>, index: usize) -> (r: String)
    ensures
        r@ == item_annotation_block(*item, parent, index as nat),
{
    let info = annotation_info_from_item(item, parent);
    format_annotation_block(&info, index)
}

/// The blocks of annotation items `anns[i]` with parents `parents[i]`,
/// numbered from `start + 1`.
pub open spec fn annotation_blocks(anns: Seq<ZoteroItem>, parents: Seq<Option<String>>, start: nat, n: nat) -> Seq<Seq<char>> {
    Seq::new(n, |i: int| item_annotation_block(anns[i], parents[i], (start + i + 1) as nat))
}

/// The blocks of searched notes, numbered from 1.
pub open spec fn search_note_blocks(notes: Seq<ZoteroItem>, parents: Seq<Option<String>>, n: nat) -> Seq<Seq<char>> {
    Seq::new(n, |i: int| note_search_block((i + 1) as nat, notes[i], parents[i]))
}

/// The blocks of listed notes, numbered from 1.
pub open spec fn list_note_blocks(notes: Seq<ZoteroItem>, parents: Seq<Option<String>>, shorten: bool) -> Seq<Seq<char>> {
    Seq::new(notes.len(), |i: int| note_list_block((i + 1) as nat, notes[i], parents[i], shorten))
}

fn annotation_blocks_exec(anns: &[ZoteroItem], parents: &[Option<String>], start: usize, n: usize) -> (r: Vec<String>)
    requires
        n <= anns@.len(),
        anns@.len() == parents@.len(),
        start + n <= usize::MAX,
    ensures
        views(r@) == annotation_blocks(anns@, parents@, start as nat, n as nat),
{
    let mut out: Vec<String> = Vec::new();
    let mut i: usize = 0;
    while i < n
        invariant
            i <= n,
            n <= anns@.len(),
            anns@.len() == parents@.len(),
            start + n <= usize::MAX,
            views(out@) == annotation_blocks(anns@, parents@, start as nat, i as nat),
        decreases n - i,
    {
        let p = clone_parent(&parents[i]);
        let b = format_item_annotation(&anns[i], p, start + i + 1);
        push_line(&mut out, b);
        i = i + 1;
        assert(views(out@) =~= annotation_blocks(anns@, parents@, start as nat, i as nat));
    }
    out
}

fn clone_parent(o: &Option<String>) -> (r: Option<String>)
    ensures
        r == *o,
{
    match o {
        Some(s) => {
            let c = s.clone();
            proof {
                assert(c@ == s@);
            }
            Some(c)
        },
        None => None,
    }
}

/// The report of the annotations `anns`, each with the title of its paper,
/// or `empty_message` when there are none.
pub open spec fn spec_annotations_report(anns: Seq<ZoteroItem>, parents: Seq<Option<String>>, empty_message: Seq<char>) -> Seq<char> {
    if anns.len() == 0 {
        empty_message
    } else {
        join(annotation_blocks(anns, parents, 0, anns.len()), "\n\n"@)
    }
}

/// Reports annotations (see `spec_annotations_report`); `parents[i]` is the
/// title of the paper of `anns[i]`, when known.
pub fn annotations_report(anns: &[ZoteroItem], parents: &[Option<String>], empty_message: &str) -> (r: String)
    requires
        anns@.len() == parents@.len(),
    ensures
        r@ == spec_annotations_report(anns@, parents@, empty_message@),
{
    if anns.len() == 0 {
        return owned(empty_message);
    }
    let blocks = annotation_blocks_exec(anns, parents, 0, anns.len());
    join_strs(&blocks, "\n\n")
}

/// The report of a note and annotation search: "No matching notes or
/// annotations found." when nothing matched; else the first `limit` notes
/// under "## Notes", then as many annotations as the limit leaves under
/// "## Annotations", numbered on from the notes.
pub open spec fn spec_search_report(
    notes: Seq<ZoteroItem>,
    note_parents: Seq<Option<String>>,
    anns: Seq<ZoteroItem>,
    ann_parents: Seq<Option<String>>,
    limit: nat,
) -> Seq<char> {
    if notes.len() + anns.len() == 0 {
        "No matching notes or annotations found."@
    } else {
        let nn: nat = if limit < notes.len() {
            limit
        } else {
            notes.len()
        };
        let left: nat = (limit - nn) as nat;
        let na: nat = if left < anns.len() {
            left
        } else {
            anns.len()
        };
        let note_part = if nn > 0 {
            seq!["## Notes"@, join(search_note_blocks(notes, note_parents, nn), "\n\n"@)]
        } else {
            Seq::<Seq<char>>::empty()
        };
        let ann_part = if na > 0 {
            seq!["## Annotations"@, join(annotation_blocks(anns, ann_parents, nn, na), "\n\n"@)]
        } else {
            Seq::<Seq<char>>::empty()
        };
        trim(join(note_part + ann_part, "\n\n"@))
    }
}

/// Reports the notes and annotations that matched a search (see
/// `spec_search_report`).
pub fn search_report(
    notes: &[ZoteroItem],
    note_parents: &[Option<String>],
    anns: &[ZoteroItem],
    ann_parents: &[Option<String>],
    limit: usize,
) -> (r: String)
    requires
        notes@.len() == note_parents@.len(),
        anns@.len() == ann_parents@.len(),
    ensures
        r@ == spec_search_report(notes@, note_parents@, anns@, ann_parents@, limit as nat),
{
    if notes.len() == 0 && anns.len() == 0 {
        return owned("No matching notes or annotations found.");
    }
    let nn: usize = if limit < notes.len() {
        limit
    } else {
        notes.len()
    };
    let left: usize = limit - nn;
    let na: usize = if left < anns.len() {
        left
    } else {
        anns.len()
    };
    let mut note_blocks: Vec<String> = Vec::new();
    let mut i: usize = 0;
    while i < nn
        invariant
            i <= nn,
            nn <= notes@.len(),
            notes@.len() == note_parents@.len(),
            views(note_blocks@) == search_note_blocks(notes@, note_parents@, i as nat),
        decreases nn - i,
    {
        let b = format_note_search_block(i + 1, &notes[i], &note_parents[i]);
        push_line(&mut note_blocks, b);
        i = i + 1;
        assert(views(note_blocks@) =~= search_note_blocks(notes@, note_parents@, i as nat));
    }
    let ann_blocks = annotation_blocks_exec(anns, ann_parents, nn, na);
    let mut parts: Vec<String> = Vec::new();
    if nn > 0 {
        push_line(&mut parts, owned("## Notes"));
        push_line(&mut parts, join_strs(&note_blocks, "\n\n"));
    }
    let ghost mid = views(parts@);
    if na > 0 {
        push_line(&mut parts, owned("## Annotations"));
        push_line(&mut parts, join_strs(&ann_blocks, "\n\n"));
    }
    let ghost note_part = if nn > 0 {
        seq!["## Notes"@, join(search_note_blocks(notes@, note_parents@, nn as nat), "\n\n"@)]
    } else {
        Seq::<Seq<char>>::empty()
    };
    let ghost ann_part = if na > 0 {
        seq!["## Annotations"@, join(annotation_blocks(anns@, ann_parents@, nn as nat, na as nat), "\n\n"@)]
    } else {
        Seq::<Seq<char>>::empty()
    };
    assert(mid =~= note_part);
    assert(views(parts@) =~= note_part + ann_part);
    let joined = join_strs(&parts, "\n\n");
    trim_str(joined.as_str())
}

/// The report of listed notes: "No notes found." when there are none, else
/// their blocks.
pub open spec fn spec_notes_report(notes: Seq<ZoteroItem>, parents: Seq<Option<String>>, shorten: bool) -> Seq<char> {
    if notes.len() == 0 {
        "No notes found."@
    } else {
        join(list_note_blocks(notes, parents, shorten), "\n\n"@)
    }
}

/// Reports listed notes (see `spec_notes_report`); `parents[i]` is the
/// title of the parent of `notes[i]`, when known.
pub fn notes_report(notes: &[ZoteroItem], parents: &[Option<String>], shorten: bool) -> (r: String)
    requires
        notes@.len() == parents@.len(),
    ensures
        r@ == spec_notes_report(notes@, parents@, shorten),
{
    if notes.len() == 0 {
        return owned("No notes found.");
    }
    let mut blocks: Vec<String> = Vec::new();
    let mut i: usize = 0;
    while i < notes.len()
        invariant
            i <= notes@.len(),
            notes@.len() == parents@.len(),
            views(blocks@) == Seq::new(i as nat, |j: int| note_list_block((j + 1) as nat, notes@[j], parents@[j], shorten)),
        decreases notes.len() - i,
    {
        let b = format_note_list_block(i + 1, &notes[i], &parents[i], shorten);
        push_line(&mut blocks, b);
        i = i + 1;
        assert(views(blocks@) =~= Seq::new(i as nat, |j: int| note_list_block((j + 1) as nat, notes@[j], parents@[j], shorten)));
    }
    assert(views(blocks@) =~= list_note_blocks(notes@, parents@, shorten));
    join_strs(&blocks, "\n\n")
}

// ---------------------------------------------------------------------------
// Creating notes and annotations
// ---------------------------------------------------------------------------

/// Why a request to add a note or an annotation is incomplete: a note needs
/// a parent item, a title and a text; any other kind is an annotation, which
/// needs an attachment, a page and a text.
pub open spec fn spec_add_note_missing(
    note_type: Seq<char>,
    has_item_key: bool,
    has_title: bool,
    has_note_text: bool,
    has_attachment: bool,
    has_page: bool,
    has_text: bool,
) -> Option<Seq<char>> {
    if note_type == "note"@ {
        if !has_item_key {
            Some("item_key is required for type=note"@)
        } else if !has_title {
            Some("note_title is required for type=note"@)
        } else if !has_note_text {
            Some("note_text is required for type=note"@)
        } else {
            None
        }
    } else if !has_attachment {
        Some("attachment_key is required for type=annotation"@)
    } else if !has_page {
        Some("page is required for type=annotation"@)
    } else if !has_text {
        Some("text is required for type=annotation"@)
    } else {
        None
    }
}

/// The first missing argument of a request to add a note or an annotation
/// (see `spec_add_note_missing`).
pub fn add_note_missing(
    note_type: &str,
    has_item_key: bool,
    has_title: bool,
    has_note_text: bool,
    has_attachment: bool,
    has_page: bool,
    has_text: bool,
) -> (r: Option<&'static str>)
    ensures
        crate::library::opt_slice_view(r) == spec_add_note_missing(
            note_type@,
            has_item_key,
            has_title,
            has_note_text,
            has_attachment,
            has_page,
            has_text,
        ),
{
    if crate::text::str_eq(note_type, "note") {
        if !has_item_key {
            Some("item_key is required for type=note")
        } else if !has_title {
            Some("note_title is required for type=note")
        } else if !has_note_text {
            Some("note_text is required for type=note")
        } else {
            None
        }
    } else if !has_attachment {
        Some("attachment_key is required for type=annotation")
    } else if !has_page {
        Some("page is required for type=annotation")
    } else if !has_text {
        Some("text is required for type=annotation")
    } else {
        None
    }
}

/// Tags with the given names and no type.
pub open spec fn plain_tags(tags: Seq<ZoteroTag>, names: Seq<Seq<char>>) -> bool {
    &&& tags.len() == names.len()
    &&& forall|i: int| 0 <= i < tags.len() ==> #[trigger] tags[i].tag@ == names[i] && tags[i].tag_type is None
}

/// Tags with the given names and no type.
pub fn tags_named(names: Vec<String>) -> (r: Vec<ZoteroTag>)
    ensures
        plain_tags(r@, views(names@)),
{
    let mut out: Vec<ZoteroTag> = Vec::new();
    let mut rest = names;
    let ghost all = views(rest@);
    let n = rest.len();
    let mut i: usize = 0;
    assert(views(rest@).skip(0) =~= all);
    while rest.len() > 0
        invariant
            i + rest@.len() == all.len(),
            all.len() == n,
            views(rest@) =~= all.skip(i as int),
            plain_tags(out@, all.take(i as int)),
        decreases rest.len(),
    {
        let ghost before = rest@;
        let t = rest.remove(0);
        assert(t@ == all[i as int]) by {
            assert(views(before)[0] == before[0]@);
        }
        assert(views(rest@) =~= views(before).skip(1));
        let ghost old_out = out@;
        let ghost tv = t@;
        out.push(ZoteroTag { tag: t, tag_type: None });
        i = i + 1;
        assert(all.take(i as int).drop_last() =~= all.take(i - 1));
        assert forall|k: int| 0 <= k < out@.len() implies #[trigger] out@[k].tag@ == all.take(i as int)[k]
            && out@[k].tag_type is None by {
            if k < old_out.len() {
                assert(out@[k] == old_out[k]);
                assert(old_out[k].tag@ == all.take(i - 1)[k]);
            } else {
                assert(out@[k].tag@ == tv);
            }
        }
        assert(out@.len() == all.take(i as int).len());
        assert(plain_tags(out@, all.take(i as int)));
    }
    assert(all.take(i as int) =~= all);
    out
}

/// Whether `d` is a child note of `parent` with body `html` and tags named
/// `tags`.
pub open spec fn is_note_data(d: ZoteroItemData, parent: Seq<char>, html: Seq<char>, tags: Seq<Seq<char>>) -> bool {
    &&& d.item_type@ == "note"@
    &&& opt_view(d.parent_item) == Some(parent)
    &&& opt_view(d.note) == Some(html)
    &&& d.tags matches Some(t) && plain_tags(t@, tags)
    &&& blank_apart_from_type(ZoteroItemData { parent_item: None, note: None, tags: None, ..d })
}

/// The data of a new child note of `parent` with body `html`.
pub fn note_item_data(parent: String, html: String, tags: Vec<String>) -> (r: ZoteroItemData)
    ensures
        is_note_data(r, parent@, html@, views(tags@)),
{
    proof {
        reveal_strlit("note");
    }
    let t = tags_named(tags);
    let mut d = ZoteroItemData::default();
    d.item_type = owned("note");
    d.parent_item = Some(parent);
    d.note = Some(html);
    d.tags = Some(t);
    d
}

/// The position of a highlight on page `page` (from 1), as the JSON text
/// Zotero stores: its page index (never below 0) and one rectangle.
pub open spec fn spec_annotation_position(page: int) -> Seq<char> {
    let index = if page - 1 > 0 {
        page - 1
    } else {
        0
    };
    "{\"pageIndex\":"@ + decimal(index as nat) + ",\"rects\":[[0,0,100,100]]}"@
}

/// The position text of a highlight on a page (see `spec_annotation_position`).
pub fn annotation_position(page: i64) -> (r: String)
    requires
        page > i64::MIN,
    ensures
        r@ == spec_annotation_position(page as int),
{
    let index: i64 = if page - 1 > 0 {
        page - 1
    } else {
        0
    };
    let d = decimal_string(index as u64);
    concat3("{\"pageIndex\":", d.as_str(), ",\"rects\":[[0,0,100,100]]}")
}

/// Whether `d` is a highlight on `page` of `attachment` with the given text,
/// comment, color and tags.
pub open spec fn is_annotation_data(
    d: ZoteroItemData,
    attachment: Seq<char>,
    page: int,
    text: Seq<char>,
    comment: Seq<char>,
    color: Seq<char>,
    tags: Option<Seq<Seq<char>>>,
) -> bool {
    &&& d.item_type@ == "annotation"@
    &&& opt_view(d.parent_item) == Some(attachment)
    &&& opt_view(d.annotation_type) == Some("highlight"@)
    &&& opt_view(d.annotation_text) == Some(text)
    &&& opt_view(d.annotation_comment) == Some(comment)
    &&& opt_view(d.annotation_color) == Some(color)
    &&& opt_view(d.annotation_page_label) == Some(crate::text::signed_decimal(page))
    &&& opt_view(d.annotation_position) == Some(spec_annotation_position(page))
    &&& match tags {
        Some(names) => d.tags matches Some(t) && plain_tags(t@, names),
        None => d.tags is None,
    }
    &&& blank_apart_from_type(
        ZoteroItemData {
            parent_item: None,
            annotation_type: None,
            annotation_text: None,
            annotation_comment: None,
            annotation_color: None,
            annotation_page_label: None,
            annotation_position: None,
            tags: None,
            ..d
        },
    )
}

/// The data of a new highlight annotation; the tags given are trimmed and
/// the blank ones dropped, and a missing comment is empty.
pub fn annotation_item_data(
    attachment: String,
    page: i64,
    text: String,
    comment: Option<String>,
    color: String,
    tags: Option<Vec<String>>,
) -> (r: ZoteroItemData)
    requires
        page > i64::MIN,
    ensures
        is_annotation_data(
            r,
            attachment@,
            page as int,
            text@,
            field_text(comment),
            color@,
            match tags {
                Some(v) => Some(crate::validators::trimmed_nonblank(views(v@))),
                None => None,
            },
        ),
{
    proof {
        reveal_strlit("annotation");
        reveal_strlit("highlight");
    }
    let tag_list = match tags {
        Some(v) => {
            let names = crate::validators::trim_nonblank(&v);
            Some(tags_named(names))
        },
        None => None,
    };
    let mut d = ZoteroItemData::default();
    d.item_type = owned("annotation");
    d.parent_item = Some(attachment);
    d.annotation_type = Some(owned("highlight"));
    d.annotation_text = Some(text);
    d.annotation_comment = Some(field_string(&comment));
    d.annotation_color = Some(color);
    d.annotation_page_label = Some(crate::text::signed_decimal_string(page));
    d.annotation_position = Some(annotation_position(page));
    d.tags = tag_list;
    d
}

} // verus!
