use zotero_mcp::attachments::{
    extension, extract_attachment_key, file_attachment_data, file_child, link_attachment_data,
    pdf_file_name, pdf_rename, renamable_pdf, rename_line, rename_report, renamed_data, with_upload,
};
use zotero_mcp::json::JsonValue;
use zotero_mcp::types::{ZoteroCreator, ZoteroItem, ZoteroItemData};

fn obj(entries: Vec<(&str, JsonValue)>) -> JsonValue {
    JsonValue::Object(entries.into_iter().map(|(k, v)| (k.to_string(), v)).collect())
}

fn s(v: &str) -> JsonValue {
    JsonValue::Str(v.to_string())
}

#[test]
fn test_extract_attachment_key_from_success() {
    let data = obj(vec![("success", obj(vec![("0", s("ABCD1234"))])), ("failed", obj(vec![]))]);
    let key = extract_attachment_key(&data).unwrap();
    assert_eq!(key, "ABCD1234");
}

#[test]
fn test_extract_attachment_key_from_successful() {
    let data = obj(vec![
        ("successful", obj(vec![("0", obj(vec![("key", s("EFGH5678")), ("data", obj(vec![]))]))])),
        ("failed", obj(vec![])),
    ]);
    let key = extract_attachment_key(&data).unwrap();
    assert_eq!(key, "EFGH5678");
}

#[test]
fn test_extract_attachment_key_missing() {
    let data = obj(vec![(
        "failed",
        obj(vec![("0", obj(vec![("code", JsonValue::Number("400".to_string())), ("message", s("Bad request"))]))]),
    )]);
    let result = extract_attachment_key(&data);
    assert!(result.is_err());
    assert!(result.unwrap_err().contains("No attachment key"));
}

#[test]
fn downloaded_pdf_names() {
    assert_eq!(pdf_file_name("given.pdf", "10.1/x"), "given.pdf");
    assert_eq!(pdf_file_name("", "10.1038/nature.123"), "10_1038_nature_123.pdf");
    assert_eq!(pdf_file_name("", "//--"), "paper.pdf");
    assert_eq!(pdf_file_name("", "_ab_"), "ab.pdf");
}

fn template() -> ZoteroItemData {
    ZoteroItemData { item_type: "attachment".to_string(), ..Default::default() }
}

#[test]
fn new_file_attachment() {
    let d = file_attachment_data(template(), "PARENT01", "paper.pdf", "application/pdf");
    assert_eq!(d.parent_item.as_deref(), Some("PARENT01"));
    assert_eq!(d.link_mode.as_deref(), Some("imported_file"));
    assert_eq!(d.title.as_deref(), Some("paper.pdf"));
    assert_eq!(d.filename.as_deref(), Some("paper.pdf"));
    assert_eq!(d.content_type.as_deref(), Some("application/pdf"));
    let d = with_upload(d, "abc".to_string(), 1234);
    assert_eq!(d.md5.as_deref(), Some("abc"));
    assert_eq!(d.mtime, Some(1234));
}

#[test]
fn new_link_attachment() {
    let d = link_attachment_data(template(), "PARENT01", "https://x.org/a.pdf", "Full Text");
    assert_eq!(d.parent_item.as_deref(), Some("PARENT01"));
    assert_eq!(d.link_mode.as_deref(), Some("linked_url"));
    assert_eq!(d.url.as_deref(), Some("https://x.org/a.pdf"));
    assert_eq!(d.title.as_deref(), Some("Full Text"));
}

fn pdf_child(filename: &str, link_mode: &str) -> ZoteroItem {
    ZoteroItem {
        key: "ATT00001".to_string(),
        data: ZoteroItemData {
            item_type: "attachment".to_string(),
            content_type: Some("application/pdf".to_string()),
            link_mode: Some(link_mode.to_string()),
            filename: Some(filename.to_string()),
            ..Default::default()
        },
        ..Default::default()
    }
}

#[test]
fn which_attachments_are_renamed() {
    assert!(renamable_pdf(&pdf_child("a.pdf", "imported_file")));
    assert!(renamable_pdf(&pdf_child("a.pdf", "imported_url")));
    assert!(!renamable_pdf(&pdf_child("a.pdf", "linked_url")));
    assert!(file_child(&pdf_child("a.pdf", "linked_url")));
}

#[test]
fn renaming_after_the_parent() {
    let parent = ZoteroItemData {
        item_type: "journalArticle".to_string(),
        title: Some("Deep Learning".to_string()),
        date: Some("2015-05-28".to_string()),
        creators: Some(vec![ZoteroCreator {
            creator_type: "author".to_string(),
            first_name: Some("Yann".to_string()),
            last_name: Some("LeCun".to_string()),
            name: None,
        }]),
        ..Default::default()
    };
    let new_name = pdf_rename(&parent, &pdf_child("download.pdf", "imported_file")).unwrap();
    assert!(new_name.ends_with(".pdf"));
    assert!(new_name.contains("LeCun"));
    assert_eq!(pdf_rename(&parent, &pdf_child(&new_name, "imported_file")), None);
    let d = renamed_data(pdf_child("download.pdf", "imported_file").data, new_name.clone());
    assert_eq!(d.filename.as_deref(), Some(new_name.as_str()));
    assert_eq!(d.title.as_deref(), Some(new_name.as_str()));
}

#[test]
fn extensions_and_report_lines() {
    assert_eq!(extension("paper.final.pdf"), "pdf");
    assert_eq!(extension("README"), "README");
    assert_eq!(extension("trailing."), "");
    assert_eq!(rename_line("a.pdf", "a.pdf"), "- a.pdf (unchanged)");
    assert_eq!(rename_line("a.pdf", "b.pdf"), "- a.pdf → b.pdf");
    assert_eq!(
        rename_report(2, &vec!["- a".to_string(), "- b".to_string()]),
        "Renamed 2 attachment(s):\n- a\n- b"
    );
}
