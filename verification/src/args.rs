//! The arguments of the tools, with their defaults.

use vstd::prelude::*;

use crate::text::owned;
use crate::types::SearchCondition;
use crate::validators::StringOrList;

verus! {

/// How many notes a listing shows by default.
pub fn default_note_limit() -> (r: i64)
    ensures
        r == 20,
{
    20
}

/// Whether note contents are shortened by default.
pub fn default_truncate() -> (r: bool)
    ensures
        r,
{
    true
}

/// The color of a new highlight by default.
pub fn default_color() -> (r: String)
    ensures
        r@ == "#ffd400"@,
{
    owned("#ffd400")
}

/// How many collections a listing shows by default.
pub fn default_list_limit() -> (r: i64)
    ensures
        r == 100,
{
    100
}

/// The sections of an item shown by default: its metadata.
pub fn default_sections() -> (r: Vec<String>)
    ensures
        r@.len() == 1,
        r@[0]@ == "metadata"@,
{
    let mut v: Vec<String> = Vec::new();
    v.push(owned("metadata"));
    v
}

/// How many items a batch update handles by default.
pub fn default_update_limit() -> (r: i64)
    ensures
        r == 50,
{
    50
}

/// How many recent items are shown by default.
pub fn default_recent_limit() -> (r: i64)
    ensures
        r == 10,
{
    10
}

/// How many tags are listed by default.
pub fn default_tags_limit() -> (r: i64)
    ensures
        r == 500,
{
    500
}

/// How duplicates are found by default: by title and by DOI.
pub fn default_dedup_method() -> (r: String)
    ensures
        r@ == "both"@,
{
    owned("both")
}

/// How many groups of duplicates are reported by default.
pub fn default_dedup_limit() -> (r: i64)
    ensures
        r == 50,
{
    50
}

/// How search conditions combine by default: all must hold.
pub fn default_join_mode() -> (r: String)
    ensures
        r@ == "all"@,
{
    owned("all")
}

/// The sort direction by default.
pub fn default_sort_dir() -> (r: String)
    ensures
        r@ == "asc"@,
{
    owned("asc")
}

/// How many search results are shown by default.
pub fn default_limit() -> (r: i64)
    ensures
        r == 10,
{
    10
}

/// Arguments of the tool that lists annotations.
#[derive(Debug)]
pub struct GetAnnotationsArgs {
    pub item_key: Option<String>,
    pub limit: Option<i64>,
}

/// Arguments of the tool that lists and searches notes.
#[derive(Debug)]
pub struct GetNotesArgs {
    pub item_key: Option<String>,
    pub query: Option<String>,
    pub limit: i64,
    pub truncate: bool,
}

/// Arguments of the tool that adds a note or a highlight.
#[derive(Debug)]
pub struct AddNoteArgs {
    pub note_type: String,
    pub item_key: Option<String>,
    pub note_title: Option<String>,
    pub note_text: Option<String>,
    pub tags: Option<Vec<String>>,
    pub attachment_key: Option<String>,
    pub page: Option<i64>,
    pub text: Option<String>,
    pub comment: Option<String>,
    pub color: String,
}

/// Arguments of the tool that lists collections.
#[derive(Debug)]
pub struct ListCollectionsArgs {
    pub query: Option<String>,
    pub collection_key: Option<String>,
    pub include_items: bool,
    pub limit: i64,
}

/// Arguments of the tool that manages collections.
#[derive(Debug)]
pub struct ManageCollectionsArgs {
    pub action: String,
    pub name: Option<String>,
    pub parent_collection: Option<String>,
    pub collection_key: Option<String>,
    pub item_keys: Option<StringOrList>,
}

/// Arguments of the tool that shows an item (`sections` lists the parts asked for).
#[derive(Debug)]
pub struct ItemGetArgs {
    pub item_key: String,
    pub sections: Vec<String>,
}

/// Arguments of the tool that edits items.
#[derive(Debug)]
pub struct ItemUpdateArgs {
    pub item_key: Option<String>,
    pub item_keys: Option<Vec<String>>,
    pub query: String,
    pub tag: Option<StringOrList>,
    pub limit: i64,
    pub title: Option<String>,
    pub creators: Option<StringOrList>,
    pub date: Option<String>,
    pub publication_title: Option<String>,
    pub abstract_note: Option<String>,
    pub tags: Option<StringOrList>,
    pub add_tags: Option<StringOrList>,
    pub remove_tags: Option<StringOrList>,
    pub collections: Option<StringOrList>,
    pub collection_names: Option<StringOrList>,
    pub doi: Option<String>,
    pub url: Option<String>,
    pub extra: Option<String>,
}

/// Arguments of the tool that deletes items.
#[derive(Debug)]
pub struct ItemDeleteArgs {
    pub item_keys: StringOrList,
}

/// Arguments of the tool that lists recent items.
#[derive(Debug)]
pub struct GetRecentArgs {
    pub limit: i64,
}

/// Arguments of the tool that lists tags.
#[derive(Debug)]
pub struct ListTagsArgs {
    pub limit: i64,
}

/// Arguments of the tool that finds and merges duplicates.
#[derive(Debug)]
pub struct DeduplicateArgs {
    pub action: String,
    pub method: String,
    pub collection_key: Option<String>,
    pub limit: i64,
    pub keeper_key: Option<String>,
    pub duplicate_keys: Option<StringOrList>,
    pub confirm: bool,
}

/// Arguments of the tool that fetches an item's text.
#[derive(Debug)]
pub struct FetchArgs {
    pub id: String,
}

/// Arguments of the tool that renames attachments.
#[derive(Debug)]
pub struct RenameArgs {
    pub item_key: String,
}

/// Arguments of the tool that searches the library.
#[derive(Debug)]
pub struct SearchArgs {
    pub query: Option<String>,
    pub tags: Option<StringOrList>,
    pub citation_key: Option<String>,
    pub conditions: Option<Vec<SearchCondition>>,
    pub join_mode: String,
    pub sort_by: Option<String>,
    pub sort_direction: String,
    pub limit: i64,
}

/// Arguments of the tool that adds a paper.
#[derive(Debug)]
pub struct AddPaperArgs {
    pub input: String,
    pub collections: Option<StringOrList>,
    pub tags: Option<StringOrList>,
}

} // verus!
