use zotero_mcp::items::{
    apply_item_edits, apply_tag_ops, batch_report, batch_search_limit, carries_tags,
    children_section, delete_report, fulltext_section, partition_children, select_batch,
    split_collection_refs, tag_name_strings, tags_unchanged, plan_batch, update_mode, usable_text,
    wants_section, ItemEdits, UpdateMode,
};
use zotero_mcp::types::{ZoteroItem, ZoteroItemData, ZoteroTag};
use zotero_mcp::validators::StringOrList;

fn tags(names: &[&str]) -> Vec<ZoteroTag> {
    names.iter().map(|t| ZoteroTag { tag: t.to_string(), tag_type: Some(1) }).collect()
}

fn strings(v: &[&str]) -> Vec<String> {
    v.iter().map(|s| s.to_string()).collect()
}

fn child(key: &str, item_type: &str) -> ZoteroItem {
    ZoteroItem {
        key: key.to_string(),
        data: ZoteroItemData { item_type: item_type.to_string(), ..Default::default() },
        ..Default::default()
    }
}

fn tagged(key: &str, names: &[&str]) -> ZoteroItem {
    let mut it = child(key, "book");
    it.data.tags = Some(tags(names));
    it
}

#[test]
fn tag_operations() {
    let current = tags(&["ML", "draft", " "]);
    let r = apply_tag_ops(&current, &strings(&["ml", "new"]), &strings(&["DRAFT"]));
    assert_eq!(tag_name_strings(&r), strings(&["ml", "new"]));
    assert!(r.iter().all(|t| t.tag_type.is_none()));
}

#[test]
fn removed_tags_win_over_added() {
    let r = apply_tag_ops(&tags(&["a"]), &strings(&["b"]), &strings(&["B"]));
    assert_eq!(tag_name_strings(&r), strings(&["a"]));
}

#[test]
fn unchanged_tags_detected() {
    assert!(tags_unchanged(&tags(&["a", "b"]), &tags(&["b", "a", "a"])));
    assert!(!tags_unchanged(&tags(&["a"]), &tags(&["a", "c"])));
}

#[test]
fn children_by_kind() {
    let (a, n, o) = partition_children(vec![
        child("A1", "attachment"),
        child("N1", "note"),
        child("O1", "annotation"),
        child("A2", "attachment"),
    ]);
    assert_eq!(a.iter().map(|c| c.key.as_str()).collect::<Vec<_>>(), vec!["A1", "A2"]);
    assert_eq!(n.len(), 1);
    assert_eq!(o.len(), 1);
    assert_eq!(children_section(vec![]), "## Children\n\nThis item has no children.");
    let mut att = child("ATT00001", "attachment");
    att.data.title = Some("PDF".to_string());
    att.data.content_type = Some("application/pdf".to_string());
    let mut note = child("NOTE0001", "note");
    note.data.note = Some("<p>Hello</p>".to_string());
    let s = children_section(vec![att, note]);
    assert!(s.starts_with("## Children\n\n### Attachments\n- PDF (ATT00001) [application/pdf]\n\n### Notes\n- Hello (NOTE0001)"));
}

#[test]
fn sections_asked_for() {
    assert!(wants_section(&vec![], "metadata"));
    assert!(!wants_section(&vec![], "children"));
    assert!(wants_section(&strings(&["children", "bibtex"]), "bibtex"));
    assert!(!wants_section(&strings(&["children"]), "metadata"));
}

#[test]
fn full_text_sections() {
    assert_eq!(usable_text(&Some("  text  ".to_string())), Some("text".to_string()));
    assert_eq!(usable_text(&Some("   ".to_string())), None);
    assert_eq!(usable_text(&None), None);
    assert_eq!(fulltext_section("", None, None), "## Full Text\n\nNo indexed full text content available.");
    assert_eq!(fulltext_section("abc", Some(2), None), "## Full Text\n\nIndexed pages: 2/?\n\nabc");
    assert_eq!(fulltext_section("abc", None, None), "## Full Text\n\nabc");
}

#[test]
fn update_modes_and_batches() {
    assert_eq!(update_mode(true, false), UpdateMode::Batch);
    assert_eq!(update_mode(true, true), UpdateMode::Single);
    assert_eq!(update_mode(false, false), UpdateMode::MissingKey);
    assert_eq!(batch_search_limit(10), 30);
    assert_eq!(batch_search_limit(1000), 500);
    assert!(carries_tags(&tagged("A", &["ML", "x"]), &strings(&["ml"])));
    assert!(!carries_tags(&tagged("A", &["x"]), &strings(&["ml"])));
    let picked = select_batch(
        vec![tagged("A", &["ml"]), tagged("B", &[]), tagged("C", &["ML"]), tagged("D", &["ml"])],
        &strings(&["ml"]),
        2,
    );
    assert_eq!(picked.iter().map(|c| c.key.as_str()).collect::<Vec<_>>(), vec!["A", "C"]);
    assert_eq!(batch_report(3, 2, 1), "Processed: 3\nUpdated: 2\nSkipped (no changes): 1");
}

fn no_edits() -> ItemEdits {
    ItemEdits {
        title: None,
        date: None,
        publication_title: None,
        abstract_note: None,
        url: None,
        extra: None,
        doi: None,
        creators: None,
        tags: None,
        add_tags: vec![],
        remove_tags: vec![],
        add_collections: vec![],
    }
}

#[test]
fn item_edits() {
    let mut data = tagged("A", &["old"]).data;
    data.collections = Some(strings(&["C1"]));
    let mut e = no_edits();
    e.title = Some("New title".to_string());
    e.doi = Some("https://doi.org/10.1038/abc".to_string());
    e.add_tags = strings(&["new"]);
    e.add_collections = strings(&["C1", "C2"]);
    let d = apply_item_edits(data, e).unwrap();
    assert_eq!(d.title.as_deref(), Some("New title"));
    assert_eq!(d.doi.as_deref(), Some("10.1038/abc"));
    assert_eq!(tag_name_strings(d.tags.as_ref().unwrap()), strings(&["old", "new"]));
    assert_eq!(d.collections, Some(strings(&["C1", "C2"])));
}

#[test]
fn item_edit_with_bad_doi_fails() {
    let mut e = no_edits();
    e.doi = Some("not a doi".to_string());
    assert_eq!(apply_item_edits(child("A", "book").data, e).unwrap_err(), "Invalid DOI");
    let mut e = no_edits();
    e.doi = Some("  ".to_string());
    assert_eq!(apply_item_edits(child("A", "book").data, e).unwrap().doi.as_deref(), Some(""));
}

#[test]
fn tags_replaced_by_list() {
    let mut e = no_edits();
    e.tags = Some(StringOrList::List(strings(&["x", "X", "y"])));
    let d = apply_item_edits(tagged("A", &["old"]).data, e).unwrap();
    assert_eq!(tag_name_strings(d.tags.as_ref().unwrap()), strings(&["x", "y"]));
}

#[test]
fn collection_references_split() {
    let (keys, names) = split_collection_refs(&strings(&[" AAAA0001 ", "Reading", "  "]));
    assert_eq!(keys, strings(&["AAAA0001"]));
    assert_eq!(names, strings(&["Reading"]));
}

#[test]
fn deletion_reports() {
    assert_eq!(delete_report(3, 2, 1, 0), "Requested: 3\nDeleted: 2\nFailed: 1");
    assert_eq!(delete_report(1, 1, 0, 1), "Requested: 1\nDeleted: 1\nFailed: 0\nWebDAV files deleted: 1");
}

#[test]
fn batch_without_tag_operations() {
    assert_eq!(zotero_mcp::items::no_tag_ops(&vec![], &vec![]), Some("No tag operations requested."));
    assert_eq!(zotero_mcp::items::no_tag_ops(&strings(&["x"]), &vec![]), None);
}

#[test]
fn batch_plan_counts_updated_and_skipped() {
    let items = vec![tagged("A", &["ml"]), tagged("B", &["x"]), tagged("C", &["ml", "y"])];
    let plan = plan_batch(&items, &strings(&["ml"]), &strings(&[]));
    assert_eq!(plan.processed, 3);
    assert_eq!(plan.skipped, 2);
    assert_eq!(plan.changes.len(), 1);
    assert_eq!(plan.changes[0].index, 1);
    assert_eq!(tag_name_strings(&plan.changes[0].tags), strings(&["x", "ml"]));
    assert_eq!(plan.changes.len() + plan.skipped, plan.processed);
}
