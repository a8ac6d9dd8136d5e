//! The records of a Zotero library, as plain values.

use vstd::prelude::*;

use crate::json::JsonValue;
use crate::text::str_eq;

verus! {

/// A creator (author, editor, ...) of an item.
#[derive(Debug)]
pub struct ZoteroCreator {
    pub creator_type: String,
    pub first_name: Option<String>,
    pub last_name: Option<String>,
    pub name: Option<String>,
}

/// A tag attached to an item.
#[derive(Debug)]
pub struct ZoteroTag {
    pub tag: String,
    pub tag_type: Option<i64>,
}

/// The editable data of an item. `extra_fields` holds the fields that have no
/// member of their own, in document order, each name at most once.
#[derive(Debug)]
pub struct ZoteroItemData {
    pub key: Option<String>,
    pub version: Option<i64>,
    pub item_type: String,
    pub title: Option<String>,
    pub creators: Option<Vec<ZoteroCreator>>,
    pub date: Option<String>,
    pub date_added: Option<String>,
    pub date_modified: Option<String>,
    pub abstract_note: Option<String>,
    pub publication_title: Option<String>,
    pub volume: Option<String>,
    pub issue: Option<String>,
    pub pages: Option<String>,
    pub doi: Option<String>,
    pub url: Option<String>,
    pub publisher: Option<String>,
    pub place: Option<String>,
    pub issn: Option<String>,
    pub extra: Option<String>,
    pub tags: Option<Vec<ZoteroTag>>,
    pub collections: Option<Vec<String>>,
    pub parent_item: Option<String>,
    pub note: Option<String>,
    pub content_type: Option<String>,
    pub filename: Option<String>,
    pub md5: Option<String>,
    pub mtime: Option<i64>,
    pub annotation_type: Option<String>,
    pub annotation_text: Option<String>,
    pub annotation_comment: Option<String>,
    pub annotation_color: Option<String>,
    pub annotation_page_label: Option<String>,
    pub annotation_position: Option<String>,
    pub link_mode: Option<String>,
    pub extra_fields: Vec<(String, JsonValue)>,
}

/// The library an item or collection belongs to.
#[derive(Debug)]
pub struct ZoteroLibrary {
    pub library_type: String,
    pub id: i64,
    pub name: Option<String>,
}

/// Item metadata outside its data.
#[derive(Debug)]
pub struct ZoteroItemMeta {
    pub num_children: Option<i64>,
    pub extra: Vec<(String, JsonValue)>,
}

/// An item of the library.
#[derive(Debug)]
pub struct ZoteroItem {
    pub key: String,
    pub version: Option<i64>,
    pub library: Option<ZoteroLibrary>,
    pub data: ZoteroItemData,
    pub meta: Option<ZoteroItemMeta>,
    pub extra_fields: Vec<(String, JsonValue)>,
}

/// The editable data of a collection.
#[derive(Debug)]
pub struct ZoteroCollectionData {
    pub key: Option<String>,
    pub version: Option<i64>,
    pub name: String,
    pub parent_collection: Option<JsonValue>,
}

/// A collection of the library.
#[derive(Debug)]
pub struct ZoteroCollection {
    pub key: String,
    pub version: Option<i64>,
    pub data: ZoteroCollectionData,
    pub meta: Option<Vec<(String, JsonValue)>>,
}

/// The attachment chosen to stand for an item.
#[derive(Debug)]
pub struct AttachmentDetails {
    pub key: String,
    pub title: String,
    pub filename: String,
    pub content_type: String,
}

/// The reply to a write request.
#[derive(Debug)]
pub struct WriteResponse {
    pub success: Option<Vec<(String, String)>>,
    pub successful: Option<Vec<(String, ZoteroItem)>>,
    pub unchanged: Option<Vec<(String, JsonValue)>>,
    pub failed: Option<Vec<(String, WriteError)>>,
}

/// One failed write.
#[derive(Debug)]
pub struct WriteError {
    pub code: i64,
    pub message: String,
}

/// One condition of an advanced search.
#[derive(Debug)]
pub struct SearchCondition {
    pub field: String,
    pub operation: String,
    pub value: String,
}

/// The indexed full text of an attachment.
#[derive(Debug)]
pub struct FulltextData {
    pub content: Option<String>,
    pub indexed_pages: Option<i64>,
    pub total_pages: Option<i64>,
}

/// Information about a library.
#[derive(Debug)]
pub struct LibraryInfo {
    pub library_type: String,
    pub library_id: Option<i64>,
    pub group_id: Option<i64>,
    pub group_name: Option<String>,
    pub group_description: Option<String>,
    pub feed_name: Option<String>,
    pub feed_url: Option<String>,
    pub item_count: Option<i64>,
    pub last_check: Option<String>,
    pub last_check_error: Option<String>,
    pub url: Option<String>,
}

/// An item of a feed.
#[derive(Debug)]
pub struct FeedItem {
    pub title: Option<String>,
    pub url: Option<String>,
    pub creators: Option<String>,
    pub date_added: Option<String>,
    pub abstract_note: Option<String>,
    pub read_time: Option<String>,
}

/// The text of an optional string, or the empty text (`as_deref().unwrap_or("")`).
pub open spec fn opt_text(o: Option<String>) -> Seq<char> {
    match o {
        Some(s) => s@,
        None => Seq::<char>::empty(),
    }
}

/// The text of an optional string (`as_deref()` viewed).
pub open spec fn opt_view(o: Option<String>) -> Option<Seq<char>> {
    match o {
        Some(s) => Some(s@),
        None => None,
    }
}

/// The parent key named by a collection: a non-empty string, if any.
pub open spec fn spec_parent_collection_key(d: ZoteroCollectionData) -> Option<Seq<char>> {
    match d.parent_collection {
        Some(JsonValue::Str(s)) => if s@.len() > 0 {
            Some(s@)
        } else {
            None
        },
        _ => None,
    }
}

impl ZoteroCollectionData {
    /// The key of the parent collection, when it is given as a non-empty string.
    pub fn parent_collection_key(&self) -> (r: Option<&str>)
        ensures
            r matches Some(s) ==> spec_parent_collection_key(*self) == Some(s@),
            r is None ==> spec_parent_collection_key(*self) is None,
    {
        match &self.parent_collection {
            Some(JsonValue::Str(s)) => {
                if s.as_str().is_empty() {
                    None
                } else {
                    Some(s.as_str())
                }
            },
            _ => None,
        }
    }
}

/// The table from CrossRef work types to Zotero item types.
pub open spec fn crossref_table() -> Seq<(Seq<char>, Seq<char>)> {
    seq![
        ("journal-article"@, "journalArticle"@),
        ("book"@, "book"@),
        ("book-chapter"@, "bookSection"@),
        ("proceedings-article"@, "conferencePaper"@),
        ("report"@, "report"@),
        ("dissertation"@, "thesis"@),
        ("posted-content"@, "preprint"@),
        ("monograph"@, "book"@),
        ("reference-entry"@, "encyclopediaArticle"@),
        ("dataset"@, "document"@),
        ("peer-review"@, "document"@),
        ("edited-book"@, "book"@),
        ("standard"@, "document"@),
        ("other"@, "document"@),
    ]
}

/// The value paired with the first occurrence of `key` in `table`.
pub open spec fn table_lookup(table: Seq<(Seq<char>, Seq<char>)>, key: Seq<char>) -> Option<Seq<char>>
    decreases table.len(),
{
    if table.len() == 0 {
        None
    } else if table[0].0 == key {
        Some(table[0].1)
    } else {
        table_lookup(table.drop_first(), key)
    }
}

/// The views of a table of string pairs.
pub open spec fn pair_views(m: Seq<(&str, &str)>) -> Seq<(Seq<char>, Seq<char>)> {
    m.map_values(|p: (&str, &str)| (p.0@, p.1@))
}

/// The table from CrossRef work types to Zotero item types, as pairs.
pub fn crossref_type_map() -> (m: Vec<(&'static str, &'static str)>)
    ensures
        pair_views(m@) == crossref_table(),
{
    let m = vec![
        ("journal-article", "journalArticle"),
        ("book", "book"),
        ("book-chapter", "bookSection"),
        ("proceedings-article", "conferencePaper"),
        ("report", "report"),
        ("dissertation", "thesis"),
        ("posted-content", "preprint"),
        ("monograph", "book"),
        ("reference-entry", "encyclopediaArticle"),
        ("dataset", "document"),
        ("peer-review", "document"),
        ("edited-book", "book"),
        ("standard", "document"),
        ("other", "document"),
    ];
    assert(pair_views(m@) =~= crossref_table());
    m
}

/// Looks `key` up in a table of string pairs.
pub fn lookup_pairs(m: &Vec<(&'static str, &'static str)>, key: &str) -> (r: Option<&'static str>)
    ensures
        r matches Some(s) ==> table_lookup(pair_views(m@), key@) == Some(s@),
        r is None ==> table_lookup(pair_views(m@), key@) is None,
{
    let mut i: usize = 0;
    assert(pair_views(m@).skip(0) =~= pair_views(m@));
    while i < m.len()
        invariant
            i <= m.len(),
            table_lookup(pair_views(m@), key@) == table_lookup(pair_views(m@).skip(i as int), key@),
        decreases m.len() - i,
    {
        assert(pair_views(m@).skip(i as int).drop_first() =~= pair_views(m@).skip(i + 1));
        if str_eq(m[i].0, key) {
            return Some(m[i].1);
        }
        i = i + 1;
    }
    None
}

/// The Zotero item type for a CrossRef work type, if the table has it.
pub fn crossref_type(work_type: &str) -> (r: Option<&'static str>)
    ensures
        r matches Some(s) ==> table_lookup(crossref_table(), work_type@) == Some(s@),
        r is None ==> table_lookup(crossref_table(), work_type@) is None,
{
    let m = crossref_type_map();
    lookup_pairs(&m, work_type)
}

/// Whether item data holds nothing: no field set, an empty type.
pub open spec fn is_blank_item_data(d: ZoteroItemData) -> bool {
    d.item_type@.len() == 0 && blank_apart_from_type(d)
}

/// Whether item data has no optional field set (its type aside).
pub open spec fn blank_apart_from_type(d: ZoteroItemData) -> bool {
    &&& d.key is None
    &&& d.version is None
    &&& d.title is None
    &&& d.creators is None
    &&& d.date is None
    &&& d.date_added is None
    &&& d.date_modified is None
    &&& d.abstract_note is None
    &&& d.publication_title is None
    &&& d.volume is None
    &&& d.issue is None
    &&& d.pages is None
    &&& d.doi is None
    &&& d.url is None
    &&& d.publisher is None
    &&& d.place is None
    &&& d.issn is None
    &&& d.extra is None
    &&& d.tags is None
    &&& d.collections is None
    &&& d.parent_item is None
    &&& d.note is None
    &&& d.content_type is None
    &&& d.filename is None
    &&& d.md5 is None
    &&& d.mtime is None
    &&& d.annotation_type is None
    &&& d.annotation_text is None
    &&& d.annotation_comment is None
    &&& d.annotation_color is None
    &&& d.annotation_page_label is None
    &&& d.annotation_position is None
    &&& d.link_mode is None
    &&& d.extra_fields@.len() == 0
}

impl Default for ZoteroItemData {
    fn default() -> (d: Self)
        ensures
            is_blank_item_data(d),
    {
        proof {
            reveal_strlit("");
        }
        ZoteroItemData {
            key: None,
            version: None,
            item_type: String::new(),
            title: None,
            creators: None,
            date: None,
            date_added: None,
            date_modified: None,
            abstract_note: None,
            publication_title: None,
            volume: None,
            issue: None,
            pages: None,
            doi: None,
            url: None,
            publisher: None,
            place: None,
            issn: None,
            extra: None,
            tags: None,
            collections: None,
            parent_item: None,
            note: None,
            content_type: None,
            filename: None,
            md5: None,
            mtime: None,
            annotation_type: None,
            annotation_text: None,
            annotation_comment: None,
            annotation_color: None,
            annotation_page_label: None,
            annotation_position: None,
            link_mode: None,
            extra_fields: Vec::new(),
        }
    }
}

impl Default for ZoteroItem {
    fn default() -> (i: Self)
        ensures
            i.key@.len() == 0,
            i.version is None,
            i.library is None,
            i.meta is None,
            i.extra_fields@.len() == 0,
            is_blank_item_data(i.data),
    {
        ZoteroItem {
            key: String::new(),
            version: None,
            library: None,
            data: ZoteroItemData::default(),
            meta: None,
            extra_fields: Vec::new(),
        }
    }
}

} // verus!
