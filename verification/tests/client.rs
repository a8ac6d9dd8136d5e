use zotero_mcp::client::{
    build_url, deletion_succeeded, library_path, page_step, start_offset, trim_trailing_slashes,
    version_header, with_collection, without_collection, PageStep, PAGE_SIZE, ZOTERO_API_BASE,
};
use zotero_mcp::types::ZoteroItemData;

fn data_in(collections: Option<Vec<&str>>) -> ZoteroItemData {
    ZoteroItemData {
        item_type: "book".to_string(),
        title: Some("T".to_string()),
        collections: collections.map(|v| v.into_iter().map(|s| s.to_string()).collect()),
        ..Default::default()
    }
}

#[test]
fn library_paths() {
    assert_eq!(library_path("user", "123"), "/users/123");
    assert_eq!(library_path("group", "42"), "/groups/42");
    assert_eq!(library_path("GROUP", "42"), "/groups/42");
    assert_eq!(library_path("other", "7"), "/users/7");
}

#[test]
fn urls_join_with_one_slash() {
    assert_eq!(build_url(ZOTERO_API_BASE, "/users/1/items"), "https://api.zotero.org/users/1/items");
    assert_eq!(build_url("http://x", "items"), "http://x/items");
    assert_eq!(trim_trailing_slashes("http://x//"), "http://x");
    assert_eq!(trim_trailing_slashes("///"), "");
}

#[test]
fn version_header_and_deletion() {
    let (name, value) = version_header(42);
    assert_eq!(name, "If-Unmodified-Since-Version");
    assert_eq!(value, "42");
    assert!(deletion_succeeded(204));
    assert!(!deletion_succeeded(200));
}

#[test]
fn paging_steps() {
    assert_eq!(page_step(0, 0, None, PAGE_SIZE), PageStep::Stop);
    assert_eq!(page_step(100, 100, None, PAGE_SIZE), PageStep::Next);
    assert_eq!(page_step(100, 200, None, PAGE_SIZE), PageStep::Next);
    assert_eq!(page_step(50, 250, None, PAGE_SIZE), PageStep::Stop);
    assert_eq!(page_step(100, 100, Some(60), PAGE_SIZE), PageStep::StopAt(60));
    assert_eq!(page_step(100, 100, Some(500), PAGE_SIZE), PageStep::Next);
}

#[test]
fn start_offsets() {
    assert_eq!(start_offset(None), 0);
    assert_eq!(start_offset(Some("25")), 25);
    assert_eq!(start_offset(Some("abc")), 0);
}

#[test]
fn adding_to_a_collection_appends_once() {
    let d = with_collection(data_in(Some(vec!["A"])), "B");
    assert_eq!(d.collections, Some(vec!["A".to_string(), "B".to_string()]));
    let d = with_collection(d, "A");
    assert_eq!(d.collections, Some(vec!["A".to_string(), "B".to_string()]));
    assert_eq!(d.title.as_deref(), Some("T"));
    let d = with_collection(data_in(None), "C");
    assert_eq!(d.collections, Some(vec!["C".to_string()]));
}

#[test]
fn removing_from_a_collection_drops_every_occurrence() {
    let d = without_collection(data_in(Some(vec!["A", "B", "A"])), "A");
    assert_eq!(d.collections, Some(vec!["B".to_string()]));
    let d = without_collection(data_in(None), "A");
    assert_eq!(d.collections, Some(Vec::<String>::new()));
}

#[test]
fn add_then_remove_restores_collections() {
    let before = data_in(Some(vec!["X", "Y"]));
    let after = without_collection(with_collection(before, "Z"), "Z");
    assert_eq!(after.collections, Some(vec!["X".to_string(), "Y".to_string()]));
}
