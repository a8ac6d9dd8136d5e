use zotero_mcp::formatters::{
    clean_html, escape_html, find_best_attachment, format_creators, format_item_metadata,
    format_item_result, generate_bibtex, truncate,
};
use zotero_mcp::types::{ZoteroCreator, ZoteroItem, ZoteroItemData, ZoteroTag};

fn make_item(f: impl FnOnce(&mut ZoteroItem)) -> ZoteroItem {
    let mut item = ZoteroItem {
        key: "ABCD1234".to_string(),
        data: ZoteroItemData {
            item_type: "journalArticle".to_string(),
            title: Some("Test Paper".to_string()),
            creators: Some(vec![ZoteroCreator {
                creator_type: "author".to_string(),
                first_name: Some("John".to_string()),
                last_name: Some("Smith".to_string()),
                name: None,
            }]),
            date: Some("2024".to_string()),
            publication_title: Some("Nature".to_string()),
            doi: Some("10.1038/xxx".to_string()),
            ..Default::default()
        },
        ..Default::default()
    };
    f(&mut item);
    item
}

#[test]
fn test_truncate() {
    assert_eq!(truncate("hello", 10), "hello");
    assert_eq!(truncate("hello world", 5), "hello...");
    assert_eq!(truncate("", 5), "");
    assert_eq!(truncate("abc", 3), "abc");
    assert_eq!(truncate("abcd", 3), "abc...");
}

#[test]
fn truncate_counts_characters() {
    // "é" takes two bytes but counts as one character.
    assert_eq!(truncate("ééé", 3), "ééé");
    assert_eq!(truncate("aéé", 2), "aé...");
    assert_eq!(truncate("a éé", 2), "a...");
}

#[test]
fn test_escape_html() {
    assert_eq!(
        escape_html(r#"<b>test & "quotes"</b>"#),
        "&lt;b&gt;test &amp; &quot;quotes&quot;&lt;/b&gt;"
    );
    assert_eq!(escape_html("it's"), "it&#39;s");
}

#[test]
fn test_clean_html_strips_tags() {
    assert_eq!(clean_html("<p>Hello <b>World</b></p>", true), "Hello World");
}

#[test]
fn test_clean_html_decodes_entities() {
    assert_eq!(clean_html("&amp; &lt; &gt; &quot; &#39;", true), "& < > \" '");
}

#[test]
fn test_clean_html_converts_br_to_newline() {
    assert_eq!(clean_html("line1<br>line2<br/>line3", true), "line1\nline2\nline3");
    assert_eq!(clean_html("a<BR />b", true), "a\nb");
}

#[test]
fn clean_html_keeps_spacing_without_collapse() {
    assert_eq!(clean_html("<p>a  b</p><p>c</p>", false), "a  b\nc");
}

#[test]
fn test_format_creators_full_name() {
    let creators = vec![
        ZoteroCreator {
            creator_type: "author".to_string(),
            first_name: Some("John".to_string()),
            last_name: Some("Smith".to_string()),
            name: None,
        },
        ZoteroCreator {
            creator_type: "author".to_string(),
            first_name: Some("Jane".to_string()),
            last_name: Some("Jones".to_string()),
            name: None,
        },
    ];
    assert_eq!(format_creators(&creators), "Smith, John; Jones, Jane");
}

#[test]
fn test_format_creators_single_name() {
    let creators = vec![ZoteroCreator {
        creator_type: "author".to_string(),
        first_name: None,
        last_name: None,
        name: Some("ACME Corp".to_string()),
    }];
    assert_eq!(format_creators(&creators), "ACME Corp");
}

#[test]
fn test_format_item_result_basic() {
    let item = make_item(|item| {
        item.data.tags = Some(vec![
            ZoteroTag { tag: "machine learning".to_string(), tag_type: None },
            ZoteroTag { tag: "AI".to_string(), tag_type: None },
        ]);
    });
    let result = format_item_result(&item, Some(1), true);
    assert!(result.contains("1. **Test Paper**"));
    assert!(result.contains("  - Key: ABCD1234"));
    assert!(result.contains("  - Type: journalArticle"));
    assert!(result.contains("  - Creators: Smith, John"));
    assert!(result.contains("  - Date: 2024"));
    assert!(result.contains("  - Publication: Nature"));
    assert!(result.contains("  - DOI: 10.1038/xxx"));
    assert!(result.contains("  - Tags: machine learning, AI"));
}

#[test]
fn format_item_metadata_lists_title_and_key() {
    let item = make_item(|_| {});
    let text = format_item_metadata(&item, false);
    assert!(text.contains("Test Paper"));
    assert!(text.contains("ABCD1234"));
}

#[test]
fn test_generate_bibtex_journal_article() {
    let item = make_item(|_| {});
    let bib = generate_bibtex(&item);
    assert!(bib.starts_with("@article{Smith2024,"), "got: {}", bib);
    assert!(bib.contains("title = {Test Paper},"));
    assert!(bib.contains("author = {John Smith},"));
    assert!(bib.contains("year = {2024},"));
    assert!(bib.contains("journal = {Nature},"));
    assert!(bib.contains("doi = {10.1038/xxx},"));
}

#[test]
fn test_generate_bibtex_book() {
    let item = make_item(|item| {
        item.data.item_type = "book".to_string();
        item.data.publisher = Some("Publisher Inc".to_string());
    });
    let bib = generate_bibtex(&item);
    assert!(bib.starts_with("@book{Smith2024,"), "got: {}", bib);
    assert!(bib.contains("publisher = {Publisher Inc},"));
}

#[test]
fn find_best_attachment_prefers_pdf() {
    let mut html = ZoteroItem::default();
    html.key = "HTML0001".to_string();
    html.data.item_type = "attachment".to_string();
    html.data.content_type = Some("text/html".to_string());
    let mut pdf = ZoteroItem::default();
    pdf.key = "PDF00001".to_string();
    pdf.data.item_type = "attachment".to_string();
    pdf.data.content_type = Some("application/pdf".to_string());
    let best = find_best_attachment(&[html, pdf]).expect("an attachment");
    assert_eq!(best.key, "PDF00001");
    assert!(find_best_attachment(&[]).is_none());
}
