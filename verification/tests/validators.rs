use zotero_mcp::json::JsonValue;
use zotero_mcp::validators::{
    dedupe_strings, extract_created_key, handle_write_response, is_collection_key,
    normalize_limit, parse_creator_names, parse_str_list, StringOrList,
};

fn s(v: &str) -> String {
    v.to_string()
}

fn obj(entries: Vec<(&str, JsonValue)>) -> JsonValue {
    JsonValue::Object(entries.into_iter().map(|(k, v)| (k.to_string(), v)).collect())
}

#[test]
fn test_parse_str_list_none() {
    assert_eq!(parse_str_list(None), Vec::<String>::new());
}

#[test]
fn test_parse_str_list_single_string() {
    let input = Some(StringOrList::Single(s("tag1")));
    assert_eq!(parse_str_list(input), vec!["tag1"]);
}

#[test]
fn test_parse_str_list_comma_separated() {
    let input = Some(StringOrList::Single(s("tag1, tag2, tag3")));
    assert_eq!(parse_str_list(input), vec!["tag1", "tag2", "tag3"]);
}

#[test]
fn test_parse_str_list_array() {
    let input = Some(StringOrList::List(vec![s("a"), s("b"), s("  c  ")]));
    assert_eq!(parse_str_list(input), vec!["a", "b", "c"]);
}

#[test]
fn test_parse_str_list_empty_string() {
    let input = Some(StringOrList::Single(s("")));
    assert_eq!(parse_str_list(input), Vec::<String>::new());
}

#[test]
fn parse_str_list_reads_json_array_text() {
    let input = Some(StringOrList::Single(s("[\"x\", \" y \", \"\"]")));
    assert_eq!(parse_str_list(input), vec!["x", "y"]);
}

#[test]
fn test_normalize_limit_defaults() {
    assert_eq!(normalize_limit(None, 10, 200), 10);
    assert_eq!(normalize_limit(Some(0), 10, 200), 10);
    assert_eq!(normalize_limit(Some(-5), 10, 200), 10);
}

#[test]
fn test_normalize_limit_clamp() {
    assert_eq!(normalize_limit(Some(300), 10, 200), 200);
    assert_eq!(normalize_limit(Some(50), 10, 200), 50);
}

#[test]
fn normalize_limit_keeps_the_bound_itself() {
    assert_eq!(normalize_limit(Some(200), 10, 200), 200);
    assert_eq!(normalize_limit(Some(1), 10, 200), 1);
}

#[test]
fn test_is_collection_key_valid() {
    assert!(is_collection_key("ABCD1234"));
    assert!(is_collection_key("12345678"));
    assert!(is_collection_key("ZZZZZZZZ"));
}

#[test]
fn test_is_collection_key_invalid() {
    assert!(!is_collection_key("abcd1234"));
    assert!(!is_collection_key("ABCD123"));
    assert!(!is_collection_key("ABCD12345"));
    assert!(!is_collection_key("ABCD123!"));
}

#[test]
fn test_dedupe_strings() {
    let input = vec![s("hello"), s("HELLO"), s("world"), s("hello")];
    let result = dedupe_strings(input);
    assert_eq!(result, vec!["hello", "world"]);
}

#[test]
fn test_dedupe_empty_removed() {
    let input = vec![s("a"), s(""), s("  "), s("b")];
    let result = dedupe_strings(input);
    assert_eq!(result, vec!["a", "b"]);
}

#[test]
fn dedupe_is_idempotent_on_an_example() {
    let once = dedupe_strings(vec![s(" Tag "), s("tag"), s("Other"), s("other ")]);
    assert_eq!(once, vec!["Tag", "Other"]);
    let twice = dedupe_strings(once.clone());
    assert_eq!(twice, once);
}

#[test]
fn test_parse_creator_last_first() {
    let creators = parse_creator_names(vec![s("Smith, John")]);
    assert_eq!(creators.len(), 1);
    assert_eq!(creators[0].last_name.as_deref(), Some("Smith"));
    assert_eq!(creators[0].first_name.as_deref(), Some("John"));
}

#[test]
fn test_parse_creator_first_last() {
    let creators = parse_creator_names(vec![s("John Smith")]);
    assert_eq!(creators.len(), 1);
    assert_eq!(creators[0].last_name.as_deref(), Some("Smith"));
    assert_eq!(creators[0].first_name.as_deref(), Some("John"));
}

#[test]
fn test_parse_creator_single_name() {
    let creators = parse_creator_names(vec![s("Plato")]);
    assert_eq!(creators[0].name.as_deref(), Some("Plato"));
    assert_eq!(creators[0].first_name, None);
    assert_eq!(creators[0].last_name, None);
}

#[test]
fn parse_creator_names_are_authors_and_skip_blanks() {
    let creators = parse_creator_names(vec![s("  "), s("Ada Byron Lovelace")]);
    assert_eq!(creators.len(), 1);
    assert_eq!(creators[0].creator_type, "author");
    assert_eq!(creators[0].first_name.as_deref(), Some("Ada Byron"));
    assert_eq!(creators[0].last_name.as_deref(), Some("Lovelace"));
}

#[test]
fn test_handle_write_response_success() {
    let resp = obj(vec![
        ("success", obj(vec![("0", JsonValue::Str(s("NEWKEY1")))])),
        ("failed", obj(vec![])),
    ]);
    let status = handle_write_response(&resp);
    assert!(status.ok);
    assert!(status.message.contains("1 item"));
}

#[test]
fn test_handle_write_response_failed() {
    let resp = obj(vec![(
        "failed",
        obj(vec![(
            "0",
            obj(vec![
                ("code", JsonValue::Number(s("400"))),
                ("message", JsonValue::Str(s("Bad request"))),
            ]),
        )]),
    )]);
    let status = handle_write_response(&resp);
    assert!(!status.ok);
    assert!(status.message.contains("Bad request"));
}

#[test]
fn test_extract_created_key() {
    let data = obj(vec![("success", obj(vec![("0", JsonValue::Str(s("ABCD1234")))]))]);
    assert_eq!(extract_created_key(&data), Some(s("ABCD1234")));
}

#[test]
fn extract_created_key_missing() {
    let data = obj(vec![("failed", obj(vec![]))]);
    assert_eq!(extract_created_key(&data), None);
}
