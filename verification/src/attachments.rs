//! Attachments: the data of new attachments, their file names, and renaming
//! them after their parent item.

use vstd::prelude::*;

use crate::formatters::{concat2, concat3, item_creators};
use crate::json::{json_get, json_object, json_str, jview, JsonSpec, JsonValue};
use crate::notes::{field_string, field_text};
use crate::template_eval::{build_renamed_filename, spec_file_base_name};
use crate::text::{contains, contains_str, decimal, decimal_string, join, join_strs, owned, push_str, views};
use crate::types::{opt_view, ZoteroItem, ZoteroItemData};

verus! {

broadcast use vstd::std_specs::vec::group_vec_axioms;

// ---------------------------------------------------------------------------
// Keys of created attachments
// ---------------------------------------------------------------------------

/// The key of an attachment a write created (see `spec_created_key` of the write replies), or
/// "No attachment key found in write response".
pub fn extract_attachment_key(data: &JsonValue) -> (r: Result<String, String>)
    ensures
        match r {
            Ok(k) => crate::validators::spec_created_key(jview(*data)) == Some(k@),
            Err(e) => crate::validators::spec_created_key(jview(*data)) is None && e@ == "No attachment key found in write response"@,
        },
{
    match crate::validators::extract_created_key(data) {
        Some(k) => Ok(k),
        None => Err(owned("No attachment key found in write response")),
    }
}

// ---------------------------------------------------------------------------
// New attachments
// ---------------------------------------------------------------------------

/// Whether `d` is `template` made into a stored file attached to `parent`.
pub open spec fn is_file_attachment(template: ZoteroItemData, d: ZoteroItemData, parent: Seq<char>, filename: Seq<char>, content_type: Seq<char>) -> bool {
    &&& d == (ZoteroItemData {
        item_type: d.item_type,
        parent_item: d.parent_item,
        link_mode: d.link_mode,
        title: d.title,
        filename: d.filename,
        content_type: d.content_type,
        ..template
    })
    &&& d.item_type@ == "attachment"@
    &&& opt_view(d.parent_item) == Some(parent)
    &&& opt_view(d.link_mode) == Some("imported_file"@)
    &&& opt_view(d.title) == Some(filename)
    &&& opt_view(d.filename) == Some(filename)
    &&& opt_view(d.content_type) == Some(content_type)
}

/// The data of a stored file attached to `parent`, from the API's template.
pub fn file_attachment_data(template: ZoteroItemData, parent: &str, filename: &str, content_type: &str) -> (r: ZoteroItemData)
    ensures
        is_file_attachment(template, r, parent@, filename@, content_type@),
{
    proof {
        reveal_strlit("attachment");
        reveal_strlit("imported_file");
    }
    let mut d = template;
    d.item_type = owned("attachment");
    d.parent_item = Some(owned(parent));
    d.link_mode = Some(owned("imported_file"));
    d.title = Some(owned(filename));
    d.filename = Some(owned(filename));
    d.content_type = Some(owned(content_type));
    d
}

/// Whether `d` is `template` made into a link to `url` attached to `parent`.
pub open spec fn is_link_attachment(template: ZoteroItemData, d: ZoteroItemData, parent: Seq<char>, url: Seq<char>, title: Seq<char>) -> bool {
    &&& d == (ZoteroItemData {
        item_type: d.item_type,
        parent_item: d.parent_item,
        link_mode: d.link_mode,
        title: d.title,
        url: d.url,
        ..template
    })
    &&& d.item_type@ == "attachment"@
    &&& opt_view(d.parent_item) == Some(parent)
    &&& opt_view(d.link_mode) == Some("linked_url"@)
    &&& opt_view(d.title) == Some(title)
    &&& opt_view(d.url) == Some(url)
}

/// The data of a link attached to `parent`, from the API's template.
pub fn link_attachment_data(template: ZoteroItemData, parent: &str, url: &str, title: &str) -> (r: ZoteroItemData)
    ensures
        is_link_attachment(template, r, parent@, url@, title@),
{
    proof {
        reveal_strlit("attachment");
        reveal_strlit("linked_url");
    }
    let mut d = template;
    d.item_type = owned("attachment");
    d.parent_item = Some(owned(parent));
    d.link_mode = Some(owned("linked_url"));
    d.title = Some(owned(title));
    d.url = Some(owned(url));
    d
}

/// Attachment data with the hash and time of the uploaded file.
pub fn with_upload(data: ZoteroItemData, md5: String, mtime: u64) -> (r: ZoteroItemData)
    requires
        mtime <= i64::MAX,
    ensures
        r == (ZoteroItemData { md5: r.md5, mtime: r.mtime, ..data }),
        r.md5 == Some(md5),
        r.mtime == Some(mtime as i64),
{
    let mut d = data;
    d.md5 = Some(md5);
    d.mtime = Some(mtime as i64);
    d
}

/// Whether `c` is an ASCII letter or digit.
pub open spec fn ascii_alnum(c: char) -> bool {
    ('a' <= c <= 'z') || ('A' <= c <= 'Z') || ('0' <= c <= '9')
}

/// `s` with every character that is not an ASCII letter or digit made '_'.
pub open spec fn underscored(s: Seq<char>) -> Seq<char> {
    s.map_values(|c: char| if ascii_alnum(c) { c } else { '_' })
}

/// `s` without '_' at either end.
pub open spec fn trim_underscores(s: Seq<char>) -> Seq<char>
    decreases s.len(),
{
    if s.len() > 0 && s[0] == '_' {
        trim_underscores(s.drop_first())
    } else if s.len() > 0 && s.last() == '_' {
        trim_underscores(s.drop_last())
    } else {
        s
    }
}

/// The file name of a downloaded PDF: the one given, or else the identifier
/// made safe ("paper" when nothing is left of it) with ".pdf".
pub open spec fn spec_pdf_file_name(filename: Seq<char>, identifier: Seq<char>) -> Seq<char> {
    if filename.len() > 0 {
        filename
    } else {
        let safe = trim_underscores(underscored(identifier));
        (if safe.len() == 0 {
            "paper"@
        } else {
            safe
        }) + ".pdf"@
    }
}

/// The file name of a downloaded PDF (see `spec_pdf_file_name`).
pub fn pdf_file_name(filename: &str, identifier: &str) -> (r: String)
    ensures
        r@ == spec_pdf_file_name(filename@, identifier@),
{
    if !filename.is_empty() {
        return owned(filename);
    }
    let v = crate::text::chars_of(identifier);
    let mut u: Vec<char> = Vec::new();
    let mut i: usize = 0;
    while i < v.len()
        invariant
            i <= v@.len(),
            v@ == identifier@,
            u@ == underscored(v@.take(i as int)),
        decreases v.len() - i,
    {
        let c = v[i];
        let d = if ('a' <= c && c <= 'z') || ('A' <= c && c <= 'Z') || ('0' <= c && c <= '9') {
            c
        } else {
            '_'
        };
        u.push(d);
        i = i + 1;
        assert(u@ =~= underscored(v@.take(i as int)));
    }
    assert(v@.take(v@.len() as int) =~= v@);
    let mut lo: usize = 0;
    let mut hi: usize = u.len();
    assert(u@.subrange(0, u@.len() as int) =~= u@);
    while lo < hi && (u[lo] == '_' || u[hi - 1] == '_')
        invariant
            lo <= hi <= u@.len(),
            trim_underscores(u@) == trim_underscores(u@.subrange(lo as int, hi as int)),
        decreases hi - lo,
    {
        let ghost s = u@.subrange(lo as int, hi as int);
        if u[lo] == '_' {
            assert(s.drop_first() =~= u@.subrange(lo + 1, hi as int));
            lo = lo + 1;
        } else {
            assert(s.drop_last() =~= u@.subrange(lo as int, hi - 1));
            hi = hi - 1;
        }
    }
    assert(trim_underscores(u@.subrange(lo as int, hi as int)) == u@.subrange(lo as int, hi as int));
    let safe = crate::text::string_from_range(&u, lo, hi);
    proof {
        reveal_strlit("paper");
        reveal_strlit("paper.pdf");
        reveal_strlit(".pdf");
        assert("paper.pdf"@ =~= "paper"@ + ".pdf"@);
    }
    if safe.as_str().is_empty() {
        owned("paper.pdf")
    } else {
        concat2(safe.as_str(), ".pdf")
    }
}

// ---------------------------------------------------------------------------
// Renaming after the parent
// ---------------------------------------------------------------------------

/// Whether an attachment of an added paper is renamed: a stored or
/// downloaded PDF.
pub open spec fn is_renamable_pdf(item: ZoteroItem) -> bool {
    &&& item.data.item_type@ == "attachment"@
    &&& contains(field_text(item.data.content_type), "pdf"@) && item.data.content_type is Some
    &&& item.data.link_mode matches Some(m) && (m@ == "imported_file"@ || m@ == "imported_url"@)
}

/// Whether an attachment of an added paper is renamed (see `is_renamable_pdf`).
pub fn renamable_pdf(item: &ZoteroItem) -> (r: bool)
    ensures
        r == is_renamable_pdf(*item),
{
    let is_attachment = crate::text::str_eq(item.data.item_type.as_str(), "attachment");
    let is_pdf = match &item.data.content_type {
        Some(ct) => contains_str(ct.as_str(), "pdf"),
        None => false,
    };
    let is_imported = match &item.data.link_mode {
        Some(m) => crate::text::str_eq(m.as_str(), "imported_file") || crate::text::str_eq(m.as_str(), "imported_url"),
        None => false,
    };
    is_attachment && is_pdf && is_imported
}

/// The new name of a renamable PDF: the parent's file name with ".pdf",
/// unless that is empty or is already its name.
pub open spec fn spec_pdf_rename(parent: ZoteroItemData, child: ZoteroItem) -> Option<Seq<char>> {
    let name = spec_file_base_name(parent, None) + ".pdf"@;
    if name == field_text(child.data.filename) {
        None
    } else {
        Some(name)
    }
}

/// The new name of a renamable PDF (see `spec_pdf_rename`).
pub fn pdf_rename(parent: &ZoteroItemData, child: &ZoteroItem) -> (r: Option<String>)
    ensures
        opt_view(r) == spec_pdf_rename(*parent, *child),
{
    proof {
        reveal_strlit("pdf");
        reveal_strlit("");
        reveal_strlit(".pdf");
        reveal_strlit(".");
    }
    let name = build_renamed_filename(parent, "pdf");
    assert(name@ =~= spec_file_base_name(*parent, None) + ".pdf"@);
    let current = field_string(&child.data.filename);
    if name == current {
        None
    } else {
        Some(name)
    }
}

/// Attachment data renamed: its file name and title set to `name`.
pub fn renamed_data(data: ZoteroItemData, name: String) -> (r: ZoteroItemData)
    ensures
        r == (ZoteroItemData { filename: r.filename, title: r.title, ..data }),
        opt_view(r.filename) == Some(name@),
        opt_view(r.title) == Some(name@),
{
    let mut d = data;
    d.filename = Some(name.clone());
    d.title = Some(name);
    d
}

/// Whether a parent has something to name its files after: a title, or
/// some creators.
pub open spec fn has_naming_metadata(parent: ZoteroItemData) -> bool {
    parent.title is Some || item_creators(parent.creators).len() > 0
}

/// Whether a parent has something to name its files after (see `has_naming_metadata`).
pub fn naming_metadata(parent: &ZoteroItemData) -> (r: bool)
    ensures
        r == has_naming_metadata(*parent),
{
    parent.title.is_some() || crate::formatters::creators_slice(&parent.creators).len() > 0
}

/// Whether a child is a file attachment the rename tool handles: an
/// attachment with a file name that is not an HTML snapshot.
pub open spec fn is_file_child(item: ZoteroItem) -> bool {
    item.data.item_type@ == "attachment"@ && item.data.filename is Some && opt_view(item.data.content_type) != Some("text/html"@)
}

/// Whether a child is a file attachment the rename tool handles.
pub fn file_child(item: &ZoteroItem) -> (r: bool)
    ensures
        r == is_file_child(*item),
{
    let html = match &item.data.content_type {
        Some(ct) => crate::text::str_eq(ct.as_str(), "text/html"),
        None => false,
    };
    crate::text::str_eq(item.data.item_type.as_str(), "attachment") && item.data.filename.is_some() && !html
}

/// The extension of a file name: what follows its last '.', or the whole
/// name when it has none.
pub open spec fn spec_extension(name: Seq<char>) -> Seq<char>
    decreases name.len(),
{
    if name.len() == 0 {
        name
    } else if name.last() == '.' {
        Seq::<char>::empty()
    } else {
        spec_extension(name.drop_last()).push(name.last())
    }
}

/// The extension of a file name (see `spec_extension`).
pub fn extension(name: &str) -> (r: String)
    ensures
        r@ == spec_extension(name@),
{
    let v = crate::text::chars_of(name);
    let mut k: usize = v.len();
    assert(v@.take(k as int) =~= v@);
    assert(v@.subrange(k as int, v@.len() as int) =~= Seq::<char>::empty());
    while k > 0 && v[k - 1] != '.'
        invariant
            k <= v@.len(),
            v@ == name@,
            spec_extension(v@) == spec_extension(v@.take(k as int)) + v@.subrange(k as int, v@.len() as int),
        decreases k,
    {
        assert(v@.take(k as int).drop_last() =~= v@.take(k - 1));
        assert(v@.subrange(k - 1, v@.len() as int) =~= seq![v@[k - 1]] + v@.subrange(k as int, v@.len() as int));
        k = k - 1;
    }
    assert(spec_extension(v@.take(k as int)) =~= Seq::<char>::empty()) by {
        if k > 0 {
            assert(v@.take(k as int).last() == '.');
        }
    }
    crate::text::string_from_range(&v, k, v.len())
}

/// The line reporting one attachment: unchanged, or its old and new names.
pub open spec fn spec_rename_line(old: Seq<char>, new: Seq<char>) -> Seq<char> {
    if old == new {
        "- "@ + old + " (unchanged)"@
    } else {
        "- "@ + old + " → "@ + new
    }
}

/// The line reporting one attachment (see `spec_rename_line`).
pub fn rename_line(old: &str, new: &str) -> (r: String)
    ensures
        r@ == spec_rename_line(old@, new@),
{
    if crate::text::str_eq(old, new) {
        concat3("- ", old, " (unchanged)")
    } else {
        let mut out = concat3("- ", old, " → ");
        push_str(&mut out, new);
        out
    }
}

/// The report of a renaming: how many attachments, then one line each.
pub open spec fn spec_rename_report(count: nat, lines: Seq<Seq<char>>) -> Seq<char> {
    "Renamed "@ + decimal(count) + " attachment(s):\n"@ + join(lines, "\n"@)
}

/// The report of a renaming (see `spec_rename_report`).
pub fn rename_report(count: usize, lines: &Vec<String>) -> (r: String)
    ensures
        r@ == spec_rename_report(count as nat, views(lines@)),
{
    let mut out = owned("Renamed ");
    push_str(&mut out, decimal_string(count as u64).as_str());
    push_str(&mut out, " attachment(s):\n");
    push_str(&mut out, join_strs(lines, "\n").as_str());
    out
}

} // verus!
