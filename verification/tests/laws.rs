use zotero_mcp::arxiv::{parse_arxiv_atom, xml_unescape};
use zotero_mcp::formatters::escape_html;
use zotero_mcp::library::find_duplicates;
use zotero_mcp::template_engine::{apply_text_case, get_attributes, get_valid_file_name, hyphen_to_camel, split_by_outer_brackets};
use zotero_mcp::template_eval::{apply_common, CommonContext};
use zotero_mcp::types::{ZoteroItem, ZoteroItemData};
use zotero_mcp::validators::{dedupe_strings, parse_creator_names};

fn strings(v: &[&str]) -> Vec<String> {
    v.iter().map(|s| s.to_string()).collect()
}

#[test]
fn escaped_html_decodes_back() {
    for s in ["<b>test & \"quotes\"</b>", "it's", "&lt;", "&amp;amp;", "plain", ""] {
        let e = escape_html(s);
        assert!(!e.contains('<') && !e.contains('>') && !e.contains('"') && !e.contains('\''));
        assert_eq!(xml_unescape(&e), s);
    }
}

#[test]
fn valid_file_names_are_stable() {
    for s in ["", "..", "/:", "a/b:c?.pdf", "..hidden", "line\nbreak\ttab", "ok name"] {
        let r = get_valid_file_name(s);
        assert!(!r.is_empty());
        assert!(!r.starts_with('.'));
        assert!(!r.contains(|c| "/\\?*:|\"<>\r\n\t".contains(c)));
        assert_eq!(get_valid_file_name(&r), r);
    }
    assert_eq!(get_valid_file_name("/:"), "_");
}

#[test]
fn camel_case_leaves_plain_names() {
    assert_eq!(hyphen_to_camel("plain"), "plain");
    assert_eq!(hyphen_to_camel("name-part-separator"), "namePartSeparator");
}

#[test]
fn hyphen_case_shape() {
    let h = apply_text_case("  Deep -- Learning  for  All - ", "hyphen");
    assert!(!h.contains(char::is_whitespace));
    assert!(!h.contains("--"));
    assert!(!h.starts_with('-') && !h.ends_with('-'));
    assert_eq!(apply_text_case("Keep Me", "unknown"), "Keep Me");
}

#[test]
fn suffix_is_not_doubled() {
    let attrs = get_attributes("suffix=\".\"");
    let mut ctx = CommonContext { chunks: Vec::new(), protected_literals: Vec::new() };
    assert_eq!(apply_common(Some(" Smith "), &attrs, &mut ctx), "Smith.");
    let mut ctx = CommonContext { chunks: Vec::new(), protected_literals: Vec::new() };
    assert_eq!(apply_common(Some("Smith. "), &attrs, &mut ctx), "Smith.");
}

#[test]
fn dedupe_is_idempotent() {
    let r = dedupe_strings(strings(&[" A ", "a", "b", "", "B", "c"]));
    assert_eq!(r, strings(&["A", "b", "c"]));
    assert_eq!(dedupe_strings(r.clone()), r);
}

#[test]
fn one_author_per_name() {
    let cs = parse_creator_names(strings(&["Doe, John", "  ", "Jane Q Smith", "Plato"]));
    assert_eq!(cs.len(), 3);
    assert!(cs.iter().all(|c| c.creator_type == "author"));
    assert_eq!(cs[0].last_name.as_deref(), Some("Doe"));
    assert_eq!(cs[1].last_name.as_deref(), Some("Smith"));
    assert_eq!(cs[2].name.as_deref(), Some("Plato"));
}

fn item(key: &str, title: &str) -> ZoteroItem {
    ZoteroItem {
        key: key.to_string(),
        data: ZoteroItemData { item_type: "book".to_string(), title: Some(title.to_string()), ..Default::default() },
        ..Default::default()
    }
}

#[test]
fn no_duplicates_exactly_when_nothing_is_shared() {
    assert_eq!(find_duplicates(&[item("A", "One"), item("B", "Two"), item("C", "")], "both", 5), "No duplicates found.");
    assert_ne!(find_duplicates(&[item("A", "One"), item("B", "one!")], "both", 5), "No duplicates found.");
    // a limit of zero still reports that duplicates exist
    assert_ne!(find_duplicates(&[item("A", "One"), item("B", "one")], "both", 0), "No duplicates found.");
}

#[test]
fn creator_field_in_any_spelling() {
    use_creators();
}

fn use_creators() {
    let mut it = item("A", "T");
    it.data.creators = Some(vec![
        zotero_mcp::types::ZoteroCreator {
            creator_type: "author".to_string(),
            first_name: Some("John".to_string()),
            last_name: Some("Doe".to_string()),
            name: None,
        },
        zotero_mcp::types::ZoteroCreator {
            creator_type: "author".to_string(),
            first_name: None,
            last_name: None,
            name: Some("Jane Smith".to_string()),
        },
    ]);
    for f in ["creators", "Creator", " creator "] {
        assert_eq!(zotero_mcp::search_engine::extract_values(&it, f), strings(&["John Doe", "Jane Smith"]));
    }
}

#[test]
fn outer_pieces_join_back() {
    for s in ["a{{b}}c", "{{a}}", "x {{a {{b}} c}} y }} z", "", "no brackets"] {
        assert_eq!(split_by_outer_brackets(s, "{{", "}}").concat(), s);
    }
}

#[test]
fn file_name_fallback_is_underscore() {
    for s in ["", "..", "/:", "./.*", "\u{200b}."] {
        assert_eq!(get_valid_file_name(s), "_");
    }
}

#[test]
fn camel_case_has_no_hyphen() {
    for s in ["a-b-c", "-x", "x-", "a--b", "initialize-with"] {
        assert!(!hyphen_to_camel(s).contains('-'));
    }
}

#[test]
fn hyphen_case_is_idempotent() {
    let h = apply_text_case("  Deep -- Learning  for  All - ", "hyphen");
    assert_eq!(h, "deep-learning-for-all");
    assert_eq!(apply_text_case(&h, "hyphen"), h);
}

#[test]
fn absent_or_empty_value_gives_nothing() {
    let attrs = get_attributes("suffix=\".\"");
    let mut ctx = CommonContext { chunks: Vec::new(), protected_literals: Vec::new() };
    assert_eq!(apply_common(None, &attrs, &mut ctx), "");
    let mut ctx = CommonContext { chunks: Vec::new(), protected_literals: Vec::new() };
    assert_eq!(apply_common(Some(""), &attrs, &mut ctx), "");
}

#[test]
fn creator_name_forms() {
    let cs = parse_creator_names(strings(&["Jean Paul Sartre", " Doe ,  John  Q ", "Plato"]));
    assert_eq!(cs[0].first_name.as_deref(), Some("Jean Paul"));
    assert_eq!(cs[0].last_name.as_deref(), Some("Sartre"));
    assert_eq!(cs[1].first_name.as_deref(), Some("John  Q"));
    assert_eq!(cs[1].last_name.as_deref(), Some("Doe"));
    assert_eq!(cs[2].name.as_deref(), Some("Plato"));
    assert!(cs[2].first_name.is_none() && cs[2].last_name.is_none());
}

#[test]
fn duplicate_groups_list_shared_items() {
    let r = find_duplicates(&[item("A", "One"), item("B", "Two"), item("C", "one!")], "both", 5);
    assert!(r.contains("## Title duplicates"));
    assert!(r.contains("  - A") && r.contains("  - C"));
    assert!(!r.contains("  - B"));
}

#[test]
fn primary_category_falls_back_to_first() {
    let xml = "<feed><entry><title>T</title><category term=\"cs.LG\"/><category term=\"stat.ML\"/></entry></feed>";
    let p = parse_arxiv_atom(xml).unwrap();
    assert_eq!(p.primary_category, "cs.LG");
    assert_eq!(p.doi, "");
}
