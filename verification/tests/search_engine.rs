use zotero_mcp::json::JsonValue;
use zotero_mcp::search_engine::{
    evaluate_condition, extract_values, matches_tag_clauses, parse_date_ms, parse_tag_clause,
    read_citation_key_from_extra, sort_key, key_order, ConditionOutcome, KeyOrder, SortKey,
};
use zotero_mcp::types::{SearchCondition, ZoteroCreator, ZoteroItem, ZoteroItemData, ZoteroTag};

fn make_item(title: &str, date: &str) -> ZoteroItem {
    ZoteroItem {
        key: "TEST0001".to_string(),
        data: ZoteroItemData {
            title: Some(title.to_string()),
            date: if date.is_empty() { None } else { Some(date.to_string()) },
            item_type: "journalArticle".to_string(),
            ..Default::default()
        },
        ..Default::default()
    }
}

fn cond(field: &str, op: &str, value: &str) -> SearchCondition {
    SearchCondition { field: field.to_string(), operation: op.to_string(), value: value.to_string() }
}

/// Settles an outcome the way the server does: numbers are compared as `f64`.
fn holds(outcome: ConditionOutcome) -> bool {
    match outcome {
        ConditionOutcome::Decided(b) => b,
        ConditionOutcome::CompareNumbers { numbers, target, greater } => {
            let t: f64 = target.parse().unwrap();
            numbers.iter().any(|n| {
                let x: f64 = n.parse().unwrap();
                if greater { x > t } else { x < t }
            })
        }
    }
}

fn evaluate(item: &ZoteroItem, c: &SearchCondition) -> bool {
    holds(evaluate_condition(item, c))
}

#[test]
fn test_parse_tag_clause_simple() {
    let c = parse_tag_clause("machine learning");
    assert_eq!(c.wanted, vec!["machine learning"]);
    assert!(c.unwanted.is_empty());
}

#[test]
fn test_parse_tag_clause_or() {
    let c = parse_tag_clause("ai|ml|deep learning");
    assert_eq!(c.wanted, vec!["ai", "ml", "deep learning"]);
    assert!(c.unwanted.is_empty());
}

#[test]
fn test_parse_tag_clause_exclude() {
    let c = parse_tag_clause("-draft|published");
    assert_eq!(c.wanted, vec!["published"]);
    assert_eq!(c.unwanted, vec!["draft"]);
}

#[test]
fn parse_tag_clause_lowercases_and_drops_blanks() {
    let c = parse_tag_clause(" AI | | -Draft ");
    assert_eq!(c.wanted, vec!["ai"]);
    assert_eq!(c.unwanted, vec!["draft"]);
}

#[test]
fn test_matches_tag_clauses() {
    let mut item = make_item("Test", "2024");
    item.data.tags = Some(vec![
        ZoteroTag { tag: "AI".to_string(), tag_type: None },
        ZoteroTag { tag: "draft".to_string(), tag_type: None },
    ]);
    let c1 = parse_tag_clause("ai");
    assert!(matches_tag_clauses(&item, &[c1]));
    let c2 = parse_tag_clause("-draft");
    assert!(!matches_tag_clauses(&item, &[c2]));
    let c3 = parse_tag_clause("ml|ai");
    assert!(matches_tag_clauses(&item, &[c3]));
    let c4 = parse_tag_clause("nonexistent");
    assert!(!matches_tag_clauses(&item, &[c4]));
}

#[test]
fn no_tag_clauses_match_every_item() {
    let item = make_item("Test", "2024");
    assert!(matches_tag_clauses(&item, &[]));
}

#[test]
fn test_citation_key_from_extra() {
    assert_eq!(read_citation_key_from_extra("citation key: doe2024"), Some("doe2024".to_string()));
    assert_eq!(
        read_citation_key_from_extra("Some line\nCitation Key: smith2023\nAnother line"),
        Some("smith2023".to_string())
    );
    assert_eq!(read_citation_key_from_extra("no key here"), None);
    assert_eq!(read_citation_key_from_extra(""), None);
}

#[test]
fn test_evaluate_is() {
    let item = make_item("Deep Learning", "2024");
    assert!(evaluate(&item, &cond("title", "is", "Deep Learning")));
    assert!(evaluate(&item, &cond("title", "is", "deep learning")));
    assert!(!evaluate(&item, &cond("title", "is", "Machine Learning")));
}

#[test]
fn test_evaluate_is_not() {
    let item = make_item("Deep Learning", "2024");
    assert!(!evaluate(&item, &cond("title", "isNot", "Deep Learning")));
    assert!(evaluate(&item, &cond("title", "isNot", "Machine Learning")));
}

#[test]
fn test_evaluate_contains() {
    let item = make_item("Deep Learning for NLP", "2024");
    assert!(evaluate(&item, &cond("title", "contains", "Learning")));
    assert!(evaluate(&item, &cond("title", "contains", "deep")));
    assert!(!evaluate(&item, &cond("title", "contains", "Vision")));
}

#[test]
fn test_evaluate_does_not_contain() {
    let item = make_item("Deep Learning", "2024");
    assert!(evaluate(&item, &cond("title", "doesNotContain", "Vision")));
    assert!(!evaluate(&item, &cond("title", "doesNotContain", "deep")));
}

#[test]
fn test_evaluate_begins_with() {
    let item = make_item("Deep Learning", "2024");
    assert!(evaluate(&item, &cond("title", "beginsWith", "Deep")));
    assert!(evaluate(&item, &cond("title", "beginsWith", "deep")));
    assert!(!evaluate(&item, &cond("title", "beginsWith", "Learning")));
}

#[test]
fn test_evaluate_ends_with() {
    let item = make_item("Deep Learning", "2024");
    assert!(evaluate(&item, &cond("title", "endsWith", "Learning")));
    assert!(!evaluate(&item, &cond("title", "endsWith", "Deep")));
}

#[test]
fn test_evaluate_is_greater_than_year() {
    let item = make_item("Test", "2024");
    assert!(evaluate(&item, &cond("date", "isGreaterThan", "2020")));
    assert!(!evaluate(&item, &cond("date", "isGreaterThan", "2025")));
}

#[test]
fn numeric_comparison_is_left_to_the_caller() {
    let item = make_item("Test", "2024");
    match evaluate_condition(&item, &cond("date", "isGreaterThan", "2020")) {
        ConditionOutcome::CompareNumbers { numbers, target, greater } => {
            assert_eq!(numbers, vec!["2024"]);
            assert_eq!(target, "2020");
            assert!(greater);
        }
        ConditionOutcome::Decided(_) => panic!("expected a numeric comparison"),
    }
    match evaluate_condition(&item, &cond("date", "isGreaterThan", "soon")) {
        ConditionOutcome::Decided(b) => assert!(!b),
        ConditionOutcome::CompareNumbers { .. } => panic!("a non-number target decides"),
    }
}

#[test]
fn test_evaluate_is_less_than() {
    let item = make_item("Test", "2024");
    assert!(evaluate(&item, &cond("date", "isLessThan", "2025")));
    assert!(!evaluate(&item, &cond("date", "isLessThan", "2020")));
}

#[test]
fn test_evaluate_is_before_date() {
    let item = make_item("Test", "2024-06-15");
    assert!(evaluate(&item, &cond("date", "isBefore", "2025-01-01")));
    assert!(!evaluate(&item, &cond("date", "isBefore", "2024-01-01")));
}

#[test]
fn test_evaluate_is_after_date() {
    let item = make_item("Test", "2024-06-15");
    assert!(evaluate(&item, &cond("date", "isAfter", "2024-01-01")));
    assert!(!evaluate(&item, &cond("date", "isAfter", "2025-01-01")));
}

#[test]
fn test_evaluate_empty_field_is_not() {
    let item = make_item("Test", "");
    assert!(evaluate(&item, &cond("date", "isNot", "2024")));
    assert!(evaluate(&item, &cond("date", "doesNotContain", "anything")));
    assert!(!evaluate(&item, &cond("date", "is", "2024")));
}

#[test]
fn test_evaluate_creators() {
    let mut item = make_item("Test", "2024");
    item.data.creators = Some(vec![
        ZoteroCreator {
            creator_type: "author".to_string(),
            first_name: Some("John".to_string()),
            last_name: Some("Doe".to_string()),
            name: None,
        },
        ZoteroCreator {
            creator_type: "author".to_string(),
            first_name: None,
            last_name: None,
            name: Some("Jane Smith".to_string()),
        },
    ]);
    assert!(evaluate(&item, &cond("creators", "contains", "doe")));
    assert!(evaluate(&item, &cond("creators", "is", "Jane Smith")));
    assert!(!evaluate(&item, &cond("creators", "is", "Unknown")));
}

#[test]
fn test_first_comparable_value() {
    let item = make_item("Test", "2024-06-15");
    match sort_key(&item, "title") {
        SortKey::Text(s) => assert_eq!(s, "test"),
        _ => panic!("Expected Text"),
    }
    match sort_key(&item, "date") {
        SortKey::Date(_) => {}
        _ => panic!("Expected Date"),
    }
}

#[test]
fn test_first_comparable_numeric() {
    let mut item = make_item("Test", "");
    item.data.volume = Some("42".to_string());
    match sort_key(&item, "volume") {
        SortKey::Number(n) => {
            let x: f64 = n.parse().unwrap();
            assert!((x - 42.0).abs() < f64::EPSILON)
        }
        _ => panic!("Expected Number"),
    }
}

#[test]
fn test_extract_values_extra_fields() {
    let mut item = make_item("Test", "");
    item.data
        .extra_fields
        .push(("customField".to_string(), JsonValue::Str("custom_value".to_string())));
    let vals = extract_values(&item, "customField");
    assert_eq!(vals, vec!["custom_value"]);
}

#[test]
fn test_year_field_alias() {
    let item = make_item("Test", "March 2023");
    assert!(evaluate(&item, &cond("year", "isGreaterThan", "2020")));
}

#[test]
fn parse_date_ms_reads_iso_dates() {
    assert_eq!(parse_date_ms("1970-01-01"), Some(0));
    assert_eq!(parse_date_ms("1970-01-02"), Some(86_400_000));
    assert_eq!(parse_date_ms("not a date"), None);
}

#[test]
fn sort_keys_order_numbers_dates_text() {
    let n = SortKey::Number("2".to_string());
    let d = SortKey::Date(20200101);
    let t = SortKey::Text("abc".to_string());
    assert!(matches!(key_order(&n, &d), KeyOrder::Before));
    assert!(matches!(key_order(&d, &t), KeyOrder::Before));
    assert!(matches!(key_order(&t, &n), KeyOrder::After));
    assert!(matches!(key_order(&n, &SortKey::Number("1".to_string())), KeyOrder::ByNumber));
    assert!(matches!(key_order(&SortKey::Date(1), &SortKey::Date(2)), KeyOrder::Before));
    assert!(matches!(key_order(&SortKey::Text("ab".to_string()), &SortKey::Text("b".to_string())), KeyOrder::Before));
    assert!(matches!(key_order(&SortKey::Text("é".to_string()), &SortKey::Text("z".to_string())), KeyOrder::After));
    assert!(matches!(key_order(&t, &SortKey::Text("abc".to_string())), KeyOrder::Same));
}
