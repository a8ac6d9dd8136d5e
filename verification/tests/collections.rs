use zotero_mcp::collections::{
    classify_ref, collection_items_report, created_message, deleted_message, links_report,
    manage_action, name_query, new_collection_data, query_report, required_arg, resolve_name,
    sort_collections, tree_report, ManageAction,
};
use zotero_mcp::json::JsonValue;
use zotero_mcp::types::{ZoteroCollection, ZoteroCollectionData};

fn coll(key: &str, name: &str, parent: Option<&str>) -> ZoteroCollection {
    ZoteroCollection {
        key: key.to_string(),
        version: None,
        data: ZoteroCollectionData {
            key: Some(key.to_string()),
            version: None,
            name: name.to_string(),
            parent_collection: Some(match parent {
                Some(p) => JsonValue::Str(p.to_string()),
                None => JsonValue::Bool(false),
            }),
        },
        meta: None,
    }
}

fn sample() -> Vec<ZoteroCollection> {
    vec![
        coll("CCCC0003", "zeta", None),
        coll("AAAA0001", "Alpha", None),
        coll("BBBB0002", "beta", Some("AAAA0001")),
        coll("DDDD0004", "Delta", Some("BBBB0002")),
        coll("EEEE0005", "apple", Some("AAAA0001")),
    ]
}

#[test]
fn collections_sort_by_lowercase_name() {
    let sorted = sort_collections(sample());
    let names: Vec<&str> = sorted.iter().map(|c| c.data.name.as_str()).collect();
    assert_eq!(names, vec!["Alpha", "apple", "beta", "Delta", "zeta"]);
}

#[test]
fn tree_of_collections() {
    assert_eq!(
        tree_report(&sample()),
        "- Alpha (AAAA0001)\n  - apple (EEEE0005)\n  - beta (BBBB0002)\n    - Delta (DDDD0004)\n- zeta (CCCC0003)"
    );
    assert_eq!(tree_report(&vec![]), "No collections found.");
}

#[test]
fn collection_whose_parent_is_missing_is_a_root() {
    let cs = vec![coll("AAAA0001", "Orphan", Some("ZZZZ9999"))];
    assert_eq!(tree_report(&cs), "- Orphan (AAAA0001)");
}

#[test]
fn name_queries() {
    assert_eq!(name_query(&Some("  AlPh ".to_string())), Some("alph".to_string()));
    assert_eq!(name_query(&Some("   ".to_string())), None);
    assert_eq!(name_query(&None), None);
    assert_eq!(query_report(sample(), "al"), "1. Alpha (AAAA0001)");
    assert_eq!(query_report(sample(), "ta"), "1. beta (BBBB0002)\n2. Delta (DDDD0004)\n3. zeta (CCCC0003)");
    assert_eq!(query_report(sample(), "nothing"), "No collections matched.");
}

#[test]
fn empty_collection_items() {
    assert_eq!(collection_items_report("Reading", &[]), "Collection 'Reading' has no items.");
}

#[test]
fn references_are_keys_or_names() {
    assert_eq!(classify_ref(" AAAA0001 "), Ok(Some("AAAA0001".to_string())));
    assert_eq!(classify_ref("Reading list"), Ok(None));
    assert_eq!(classify_ref("  "), Err("collection reference cannot be empty".to_string()));
}

#[test]
fn names_resolve_to_keys() {
    assert_eq!(resolve_name(&sample(), "beta"), Ok("BBBB0002".to_string()));
    assert_eq!(resolve_name(&sample(), "DELTA"), Ok("DDDD0004".to_string()));
    assert_eq!(resolve_name(&sample(), " missing "), Err("Collection not found: missing".to_string()));
}

#[test]
fn manage_actions() {
    assert_eq!(manage_action("create"), Ok(ManageAction::Create));
    assert_eq!(manage_action("delete"), Ok(ManageAction::Delete));
    assert_eq!(manage_action("add_items"), Ok(ManageAction::AddItems));
    assert_eq!(manage_action("remove_items"), Ok(ManageAction::RemoveItems));
    assert_eq!(
        manage_action("rename"),
        Err("Invalid action: rename. Must be one of: create, delete, add_items, remove_items".to_string())
    );
}

#[test]
fn required_arguments() {
    assert_eq!(required_arg(&Some(" x ".to_string()), "need x"), Ok("x".to_string()));
    assert_eq!(required_arg(&Some("  ".to_string()), "need x"), Err("need x".to_string()));
    assert_eq!(required_arg(&None, "need x"), Err("need x".to_string()));
}

#[test]
fn new_collections_and_messages() {
    let d = new_collection_data("Reading".to_string(), None);
    assert_eq!(d.name, "Reading");
    assert!(matches!(d.parent_collection, Some(JsonValue::Bool(false))));
    let d = new_collection_data("Sub".to_string(), Some("AAAA0001".to_string()));
    assert_eq!(d.parent_collection_key(), Some("AAAA0001"));
    let reply = JsonValue::Object(vec![(
        "success".to_string(),
        JsonValue::Object(vec![("0".to_string(), JsonValue::Str("NEWK0001".to_string()))]),
    )]);
    assert_eq!(created_message("Reading", &Some(reply)), "Collection created: Reading (NEWK0001)");
    assert_eq!(created_message("Reading", &None), "Collection created: Reading");
    assert_eq!(deleted_message("Reading", "NEWK0001"), "Collection deleted: Reading (NEWK0001)");
    assert_eq!(
        links_report("add_items", "AAAA0001", 3, 2),
        "Action: add_items\nCollection: AAAA0001\nItems requested: 3\nCollection links changed: 2"
    );
}
