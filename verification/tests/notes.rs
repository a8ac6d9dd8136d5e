use zotero_mcp::notes::{
    add_note_missing, annotation_item_data, annotation_matches_query, annotation_position,
    annotations_report, build_note_html, note_item_data, note_matches_query, notes_report,
    pdf_attachment, select_of_type, split_str_exec, tags_named,
};
use zotero_mcp::types::{ZoteroItem, ZoteroItemData};

fn strings(v: &[&str]) -> Vec<String> {
    v.iter().map(|s| s.to_string()).collect()
}

fn child(key: &str, item_type: &str) -> ZoteroItem {
    ZoteroItem {
        key: key.to_string(),
        data: ZoteroItemData { item_type: item_type.to_string(), ..Default::default() },
        ..Default::default()
    }
}

#[test]
fn splitting_on_a_separator() {
    assert_eq!(split_str_exec("a\n\nb\n\n\nc", "\n\n"), strings(&["a", "b", "\nc"]));
    assert_eq!(split_str_exec("", "\n\n"), strings(&[""]));
    assert_eq!(split_str_exec("abc", ","), strings(&["abc"]));
}

#[test]
fn note_html_from_title_and_text() {
    assert_eq!(
        build_note_html(" My <Title> ", "First line\nsecond & more\n\n\n\nNext para\n\n  "),
        "<h1>My &lt;Title&gt;</h1>\n<p>First line<br />second &amp; more</p>\n<p>Next para</p>"
    );
}

#[test]
fn highlight_positions() {
    assert_eq!(annotation_position(3), "{\"pageIndex\":2,\"rects\":[[0,0,100,100]]}");
    assert_eq!(annotation_position(1), "{\"pageIndex\":0,\"rects\":[[0,0,100,100]]}");
    assert_eq!(annotation_position(-5), "{\"pageIndex\":0,\"rects\":[[0,0,100,100]]}");
}

#[test]
fn new_highlight_data() {
    let d = annotation_item_data(
        "ATT00001".to_string(),
        4,
        "quoted".to_string(),
        None,
        "#ffd400".to_string(),
        Some(strings(&[" a ", " ", "b"])),
    );
    assert_eq!(d.item_type, "annotation");
    assert_eq!(d.parent_item.as_deref(), Some("ATT00001"));
    assert_eq!(d.annotation_type.as_deref(), Some("highlight"));
    assert_eq!(d.annotation_comment.as_deref(), Some(""));
    assert_eq!(d.annotation_page_label.as_deref(), Some("4"));
    assert_eq!(d.annotation_position.as_deref(), Some("{\"pageIndex\":3,\"rects\":[[0,0,100,100]]}"));
    let names: Vec<String> = d.tags.unwrap().into_iter().map(|t| t.tag).collect();
    assert_eq!(names, strings(&["a", "b"]));
}

#[test]
fn new_note_data() {
    let d = note_item_data("PARENT01".to_string(), "<p>x</p>".to_string(), strings(&["t"]));
    assert_eq!(d.item_type, "note");
    assert_eq!(d.parent_item.as_deref(), Some("PARENT01"));
    assert_eq!(d.note.as_deref(), Some("<p>x</p>"));
    assert_eq!(d.tags.unwrap()[0].tag, "t");
    let t = tags_named(strings(&["x", "y"]));
    assert_eq!(t.len(), 2);
    assert!(t[1].tag_type.is_none());
}

#[test]
fn missing_arguments_of_add_note() {
    assert_eq!(add_note_missing("note", false, true, true, false, false, false), Some("item_key is required for type=note"));
    assert_eq!(add_note_missing("note", true, false, true, false, false, false), Some("note_title is required for type=note"));
    assert_eq!(add_note_missing("note", true, true, true, false, false, false), None);
    assert_eq!(add_note_missing("annotation", false, false, false, false, true, true), Some("attachment_key is required for type=annotation"));
    assert_eq!(add_note_missing("annotation", false, false, false, true, false, true), Some("page is required for type=annotation"));
    assert_eq!(add_note_missing("annotation", false, false, false, true, true, false), Some("text is required for type=annotation"));
}

#[test]
fn selecting_and_matching_children() {
    let picked = select_of_type(vec![child("N1", "note"), child("A1", "attachment"), child("N2", "note"), child("N3", "note")], "note", 2);
    assert_eq!(picked.iter().map(|c| c.key.as_str()).collect::<Vec<_>>(), vec!["N1", "N2"]);
    let mut pdf = child("A1", "attachment");
    pdf.data.content_type = Some("application/pdf".to_string());
    assert!(pdf_attachment(&pdf));
    assert!(!pdf_attachment(&child("A2", "attachment")));
    let mut note = child("N1", "note");
    note.data.note = Some("<p>Neural <b>Networks</b></p>".to_string());
    assert!(note_matches_query(&note, "neural networks"));
    assert!(!note_matches_query(&note, "graph"));
    let mut ann = child("H1", "annotation");
    ann.data.annotation_comment = Some("Important RESULT".to_string());
    assert!(annotation_matches_query(&ann, "result"));
}

#[test]
fn empty_reports() {
    assert_eq!(annotations_report(&[], &[], "No annotations found."), "No annotations found.");
    assert_eq!(notes_report(&[], &[], true), "No notes found.");
}

#[test]
fn annotations_fall_back_to_pdf_attachments() {
    let mut pdf = child("A1", "attachment");
    pdf.data.content_type = Some("application/pdf".to_string());
    let children = vec![child("N1", "note"), pdf, child("A2", "attachment")];
    let picked = zotero_mcp::notes::annotation_sources(children, 0);
    assert_eq!(picked.iter().map(|c| c.key.as_str()).collect::<Vec<_>>(), vec!["A1"]);
    assert!(zotero_mcp::notes::annotation_sources(vec![child("A1", "attachment")], 2).is_empty());
}
