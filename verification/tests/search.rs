use zotero_mcp::search::{
    join_outcomes, keep_first, no_citation_match, results_report, search_path, select_by_clauses,
    tag_clauses, with_citation_key, SearchPath,
};
use zotero_mcp::types::{ZoteroItem, ZoteroItemData, ZoteroTag};

fn item(key: &str, tags: &[&str], extra: Option<&str>) -> ZoteroItem {
    ZoteroItem {
        key: key.to_string(),
        data: ZoteroItemData {
            item_type: "journalArticle".to_string(),
            title: Some(format!("Paper {}", key)),
            tags: Some(tags.iter().map(|t| ZoteroTag { tag: t.to_string(), tag_type: None }).collect()),
            extra: extra.map(|e| e.to_string()),
            ..Default::default()
        },
        ..Default::default()
    }
}

fn keys(items: &[ZoteroItem]) -> Vec<&str> {
    items.iter().map(|i| i.key.as_str()).collect()
}

#[test]
fn which_search_runs() {
    assert_eq!(search_path(true, true, true, true), SearchPath::CitationKey);
    assert_eq!(search_path(false, true, true, false), SearchPath::Conditions);
    assert_eq!(search_path(false, false, true, true), SearchPath::TagsOnly);
    assert_eq!(search_path(false, false, true, false), SearchPath::Text);
    assert_eq!(search_path(false, false, false, true), SearchPath::Text);
}

#[test]
fn outcomes_join_by_mode() {
    assert!(join_outcomes(&vec![true, true], "all"));
    assert!(!join_outcomes(&vec![true, false], "all"));
    assert!(join_outcomes(&vec![], "all"));
    assert!(join_outcomes(&vec![false, true], "any"));
    assert!(!join_outcomes(&vec![false, false], "any"));
    assert!(!join_outcomes(&vec![], "any"));
}

#[test]
fn clauses_select_items() {
    let clauses = tag_clauses(&vec!["ml|ai".to_string(), "-draft".to_string(), "  ".to_string()]);
    assert_eq!(clauses.len(), 2);
    let items = vec![
        item("A", &["ML"], None),
        item("B", &["ai", "draft"], None),
        item("C", &["other"], None),
        item("D", &["AI"], None),
    ];
    let picked = select_by_clauses(items, &clauses, 10);
    assert_eq!(keys(&picked), vec!["A", "D"]);
}

#[test]
fn clause_selection_stops_at_limit() {
    let clauses = tag_clauses(&vec!["x".to_string()]);
    let items = vec![item("A", &["x"], None), item("B", &["x"], None), item("C", &["x"], None)];
    assert_eq!(keys(&select_by_clauses(items, &clauses, 2)), vec!["A", "B"]);
}

#[test]
fn citation_keys_match_ignoring_case() {
    let items = vec![
        item("A", &[], Some("Citation Key: Smith2020\nother")),
        item("B", &[], Some("Citation Key: Jones2021")),
        item("C", &[], None),
    ];
    assert_eq!(keys(&with_citation_key(items, "smith2020")), vec!["A"]);
    assert_eq!(no_citation_match("x1"), "No items found for citation key 'x1'.");
}

#[test]
fn first_items_kept() {
    let items = vec![item("A", &[], None), item("B", &[], None), item("C", &[], None)];
    assert_eq!(keys(&keep_first(items, 2)), vec!["A", "B"]);
    let items = vec![item("A", &[], None)];
    assert_eq!(keys(&keep_first(items, 5)), vec!["A"]);
}

#[test]
fn empty_results_give_the_message() {
    assert_eq!(results_report(&[], "Nothing."), "Nothing.");
    let r = results_report(&[item("A", &[], None), item("B", &[], None)], "Nothing.");
    assert!(r.starts_with("1. "));
    assert!(r.contains("\n\n2. "));
}

#[test]
fn citation_key_argument() {
    assert_eq!(zotero_mcp::search::citation_key_query("  Smith2020 "), Ok("Smith2020".to_string()));
    assert_eq!(zotero_mcp::search::citation_key_query("   "), Err("citation_key cannot be empty"));
}
