use zotero_mcp::json::JsonValue;
use zotero_mcp::types::{crossref_type, crossref_type_map, lookup_pairs, ZoteroCollectionData};

#[test]
fn test_crossref_type_map() {
    let map = crossref_type_map();
    assert_eq!(lookup_pairs(&map, "journal-article"), Some("journalArticle"));
    assert_eq!(lookup_pairs(&map, "book"), Some("book"));
    assert_eq!(lookup_pairs(&map, "posted-content"), Some("preprint"));
    assert_eq!(crossref_type("unknown-kind"), None);
}

fn data(parent: Option<JsonValue>) -> ZoteroCollectionData {
    ZoteroCollectionData { key: None, version: None, name: "C".to_string(), parent_collection: parent }
}

#[test]
fn test_collection_no_parent() {
    assert_eq!(data(Some(JsonValue::Bool(false))).parent_collection_key(), None);
    assert_eq!(data(None).parent_collection_key(), None);
}

#[test]
fn collection_parent_key_is_read() {
    let d = data(Some(JsonValue::Str("PRNT0001".to_string())));
    assert_eq!(d.parent_collection_key(), Some("PRNT0001"));
}
