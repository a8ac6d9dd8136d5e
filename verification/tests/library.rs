use zotero_mcp::json::JsonValue;
use zotero_mcp::library::{fetch_id, fetch_payload};
use zotero_mcp::library::{
    dedup_action_error, fetch_text, find_by_arxiv, find_by_doi, find_duplicates, merge_keys,
    merge_preview, merge_report, merged_collections, merged_tags, normalize_title,
    not_found_message, recent_report, reparented, safe_normalize_doi, sort_by_lowercase,
    tags_report, with_merged,
};
use zotero_mcp::types::{ZoteroItem, ZoteroItemData, ZoteroTag};
use zotero_mcp::validators::StringOrList;

fn item(key: &str, title: Option<&str>, doi: Option<&str>) -> ZoteroItem {
    ZoteroItem {
        key: key.to_string(),
        data: ZoteroItemData {
            item_type: "journalArticle".to_string(),
            title: title.map(|t| t.to_string()),
            doi: doi.map(|d| d.to_string()),
            ..Default::default()
        },
        ..Default::default()
    }
}

fn tagged(key: &str, tags: &[&str], collections: &[&str]) -> ZoteroItem {
    let mut it = item(key, Some("T"), None);
    it.data.tags = Some(tags.iter().map(|t| ZoteroTag { tag: t.to_string(), tag_type: None }).collect());
    it.data.collections = Some(collections.iter().map(|c| c.to_string()).collect());
    it
}

fn strings(v: &[&str]) -> Vec<String> {
    v.iter().map(|s| s.to_string()).collect()
}

#[test]
fn titles_reduce_for_comparison() {
    assert_eq!(normalize_title("  Deep <i>Learning</i>:  A Survey! "), "deep learning a survey");
    assert_eq!(normalize_title("Hello, World"), "hello world");
    assert_eq!(normalize_title("..."), "");
}

#[test]
fn dois_normalize_safely() {
    assert_eq!(safe_normalize_doi(None), "");
    assert_eq!(safe_normalize_doi(Some("   ")), "");
    assert_eq!(safe_normalize_doi(Some("https://doi.org/10.1038/NATURE123")), "10.1038/nature123");
    assert_eq!(safe_normalize_doi(Some("not a doi")), "");
}

#[test]
fn duplicates_by_title_and_doi() {
    let items = vec![
        item("AAAA0001", Some("Deep Learning"), Some("10.1234/X")),
        item("BBBB0002", Some("deep learning!"), None),
        item("CCCC0003", Some("Other"), Some("10.1234/x")),
        item("DDDD0004", Some("Unique"), None),
    ];
    assert_eq!(
        find_duplicates(&items, "both", 10),
        "## Title duplicates\n1. Deep Learning [10.1234/x]\n  - AAAA0001\n  - BBBB0002\n\n## DOI duplicates\n1. Deep Learning [10.1234/x]\n  - AAAA0001\n  - CCCC0003"
    );
    assert_eq!(
        find_duplicates(&items, "title", 10),
        "## Title duplicates\n1. Deep Learning [10.1234/x]\n  - AAAA0001\n  - BBBB0002"
    );
    assert_eq!(find_duplicates(&items[2..], "both", 10), "No duplicates found.");
}

#[test]
fn duplicate_groups_respect_limit() {
    let items = vec![
        item("A1", Some("One"), None),
        item("A2", Some("one"), None),
        item("B1", Some("Two"), None),
        item("B2", Some("two"), None),
    ];
    assert_eq!(find_duplicates(&items, "title", 1), "## Title duplicates\n1. One\n  - A1\n  - A2");
}

#[test]
fn dedup_actions() {
    assert_eq!(dedup_action_error("find"), None);
    assert_eq!(dedup_action_error("merge"), None);
    assert_eq!(
        dedup_action_error("purge"),
        Some("Invalid action: 'purge'. Must be one of: find, merge".to_string())
    );
}

#[test]
fn merge_keys_leave_out_keeper() {
    let keys = merge_keys(Some(StringOrList::Single("K1, k2, K2, KEEP".to_string())), "KEEP");
    assert_eq!(keys, strings(&["K1", "k2"]));
    assert_eq!(merge_keys(None, "KEEP"), Vec::<String>::new());
}

#[test]
fn merged_tags_and_collections_keep_first_appearance() {
    let keeper = tagged("K", &["a", "b"], &["C1"]);
    let dups = vec![tagged("D1", &["b", "c"], &["C2", "C1"]), tagged("D2", &["a", "d"], &[])];
    assert_eq!(merged_tags(&keeper, &dups), strings(&["a", "b", "c", "d"]));
    assert_eq!(merged_collections(&keeper, &dups), strings(&["C1", "C2"]));
    let d = with_merged(keeper.data, strings(&["x"]), strings(&["C9"]));
    assert_eq!(d.tags.unwrap()[0].tag, "x");
    assert_eq!(d.collections, Some(strings(&["C9"])));
    let d = reparented(item("N", None, None).data, "K");
    assert_eq!(d.parent_item.as_deref(), Some("K"));
}

#[test]
fn merge_messages() {
    assert_eq!(
        merge_preview("K", &strings(&["D1", "D2"]), 4, 2, 1),
        "Dry run preview:\nKeeper: K\nDuplicates: D1, D2\nMerged tags: 4\nMerged collections: 2\nChildren to re-parent: 1\nSet confirm=true to execute merge."
    );
    assert_eq!(merge_report("K", 2, 3), "Merged into keeper: K\nDuplicates trashed: 2\nChildren re-parented: 3");
}

#[test]
fn lookup_by_doi_and_arxiv() {
    let mut a = item("A", Some("x"), Some("10.1/ABC"));
    a.data.url = Some("https://arxiv.org/abs/2301.00001".to_string());
    let items = vec![item("Z", Some("y"), None), a];
    assert_eq!(find_by_doi(&items, "10.1/abc"), Some(1));
    assert_eq!(find_by_doi(&items, "10.1/zzz"), None);
    assert_eq!(find_by_arxiv(&items, "2301.00001"), Some(1));
    assert_eq!(find_by_arxiv(&items, "2301.99999"), None);
    assert_eq!(
        not_found_message("DOI", "10.1/x"),
        "No item found with DOI: 10.1/x. Use zotero_add_paper to add this paper."
    );
}

#[test]
fn text_of_item_and_children() {
    let mut it = item("A", Some("Title"), None);
    it.data.abstract_note = Some("<p>Abstract</p>".to_string());
    let mut note = item("N", None, None);
    note.data.item_type = "note".to_string();
    note.data.note = Some("<p>My note</p>".to_string());
    let mut ann = item("H", None, None);
    ann.data.item_type = "annotation".to_string();
    ann.data.annotation_text = Some("quoted".to_string());
    ann.data.annotation_comment = Some("why".to_string());
    assert_eq!(fetch_text(&it, &[ann, note]), "Title\n\nAbstract\n\nMy note\n\nquoted\nwhy");
}

#[test]
fn recent_items() {
    assert_eq!(recent_report(&[]), "No recent items found.");
    assert!(recent_report(&[item("A", Some("T"), None)]).starts_with("1. **T**"));
}

#[test]
fn strings_sort_by_lowercase_stably() {
    assert_eq!(
        sort_by_lowercase(strings(&["beta", "Alpha", "alpha", "Gamma"])),
        strings(&["Alpha", "alpha", "beta", "Gamma"])
    );
}

#[test]
fn tags_listed_by_initial() {
    assert_eq!(tags_report(&vec![]), "No tags found.");
    assert_eq!(
        tags_report(&strings(&["beta", "alpha", "2020", " ", "Bayes"])),
        "## #\n- 2020\n\n## A\n- alpha\n\n## B\n- Bayes\n- beta"
    );
}

#[test]
fn fetch_arguments_and_payload() {
    assert_eq!(fetch_id(" ABCD1234 "), Ok("ABCD1234".to_string()));
    assert_eq!(fetch_id("  "), Err("Input cannot be empty. Provide a Zotero item key, DOI, or arXiv ID."));
    let it = tagged("K", &["t1"], &[]);
    let JsonValue::Object(top) = fetch_payload(&it, &[]) else { panic!("not an object") };
    let names: Vec<&str> = top.iter().map(|(k, _)| k.as_str()).collect();
    assert_eq!(names, vec!["id", "title", "text", "url", "metadata"]);
    assert!(matches!(&top[0].1, JsonValue::Str(s) if s == "K"));
    assert!(matches!(&top[1].1, JsonValue::Str(s) if s == "T"));
    assert!(matches!(&top[3].1, JsonValue::Null));
    let JsonValue::Object(meta) = &top[4].1 else { panic!("no metadata") };
    assert!(matches!(&meta[3].1, JsonValue::Array(v) if v.len() == 1));
    let untitled = item("U", None, None);
    let JsonValue::Object(top) = fetch_payload(&untitled, &[]) else { panic!("not an object") };
    assert!(matches!(&top[1].1, JsonValue::Str(s) if s == "(untitled)"));
}
