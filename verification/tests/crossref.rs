use zotero_mcp::crossref::{
    build_crossref_item, crossref_report, crossref_work_url, encode_uri_component,
    map_crossref_creators, mapped_item_type, oa_pdf_filename, parse_crossref_date,
    pick_unpaywall_pdf, pmc_pdf_url, try_arxiv_from_crossref, CrossrefDate, CrossrefPerson,
    CrossrefWork,
};
use zotero_mcp::json::JsonValue;
use zotero_mcp::types::{ZoteroItemData, ZoteroTag};

fn obj(entries: Vec<(&str, JsonValue)>) -> JsonValue {
    JsonValue::Object(entries.into_iter().map(|(k, v)| (k.to_string(), v)).collect())
}

fn st(v: &str) -> JsonValue {
    JsonValue::Str(v.to_string())
}

fn preprint_of(ids: &[&str]) -> JsonValue {
    let entries = ids
        .iter()
        .map(|id| obj(vec![("id", st(id)), ("id-type", st("uri"))]))
        .collect();
    obj(vec![("relation", obj(vec![("is-preprint-of", JsonValue::Array(entries))]))])
}

#[test]
fn test_parse_crossref_date_full() {
    let work = CrossrefWork {
        published_print: Some(CrossrefDate { date_parts: Some(vec![vec![Some(2024), Some(1), Some(15)]]) }),
        ..Default::default()
    };
    assert_eq!(parse_crossref_date(&work), Some("2024-01-15".to_string()));
}

#[test]
fn test_parse_crossref_date_year_month() {
    let work = CrossrefWork {
        published_print: Some(CrossrefDate { date_parts: Some(vec![vec![Some(2024), Some(1)]]) }),
        ..Default::default()
    };
    assert_eq!(parse_crossref_date(&work), Some("2024-01".to_string()));
}

#[test]
fn test_parse_crossref_date_year_only() {
    let work = CrossrefWork {
        published_print: Some(CrossrefDate { date_parts: Some(vec![vec![Some(2024)]]) }),
        ..Default::default()
    };
    assert_eq!(parse_crossref_date(&work), Some("2024".to_string()));
}

#[test]
fn test_parse_crossref_date_empty() {
    let work = CrossrefWork::default();
    assert_eq!(parse_crossref_date(&work), None);
}

#[test]
fn test_parse_crossref_date_fallback_to_issued() {
    let work = CrossrefWork {
        issued: Some(CrossrefDate { date_parts: Some(vec![vec![Some(2023), Some(6), Some(1)]]) }),
        ..Default::default()
    };
    assert_eq!(parse_crossref_date(&work), Some("2023-06-01".to_string()));
}

#[test]
fn test_parse_crossref_date_none_parts() {
    let work = CrossrefWork {
        published_print: Some(CrossrefDate { date_parts: Some(vec![vec![None]]) }),
        issued: Some(CrossrefDate { date_parts: Some(vec![vec![Some(2022)]]) }),
        ..Default::default()
    };
    assert_eq!(parse_crossref_date(&work), Some("2022".to_string()));
}

fn person(given: Option<&str>, family: Option<&str>, name: Option<&str>) -> CrossrefPerson {
    CrossrefPerson {
        given: given.map(str::to_string),
        family: family.map(str::to_string),
        name: name.map(str::to_string),
    }
}

#[test]
fn test_map_crossref_creators_authors() {
    let work = CrossrefWork {
        author: Some(vec![
            person(Some("John"), Some("Smith"), None),
            person(Some("Jane"), Some("Doe"), None),
        ]),
        ..Default::default()
    };
    let creators = map_crossref_creators(&work);
    assert_eq!(creators.len(), 2);
    assert_eq!(creators[0].creator_type, "author");
    assert_eq!(creators[0].first_name.as_deref(), Some("John"));
    assert_eq!(creators[0].last_name.as_deref(), Some("Smith"));
    assert_eq!(creators[1].first_name.as_deref(), Some("Jane"));
    assert_eq!(creators[1].last_name.as_deref(), Some("Doe"));
}

#[test]
fn test_map_crossref_creators_editors() {
    let work = CrossrefWork {
        editor: Some(vec![person(Some("Alice"), Some("Editor"), None)]),
        ..Default::default()
    };
    let creators = map_crossref_creators(&work);
    assert_eq!(creators.len(), 1);
    assert_eq!(creators[0].creator_type, "editor");
    assert_eq!(creators[0].first_name.as_deref(), Some("Alice"));
    assert_eq!(creators[0].last_name.as_deref(), Some("Editor"));
}

#[test]
fn test_map_crossref_creators_name_field() {
    let work = CrossrefWork { author: Some(vec![person(None, None, Some("UNESCO"))]), ..Default::default() };
    let creators = map_crossref_creators(&work);
    assert_eq!(creators.len(), 1);
    assert_eq!(creators[0].creator_type, "author");
    assert_eq!(creators[0].name.as_deref(), Some("UNESCO"));
    assert_eq!(creators[0].first_name, None);
    assert_eq!(creators[0].last_name, None);
}

#[test]
fn test_map_crossref_creators_mixed() {
    let work = CrossrefWork {
        author: Some(vec![person(Some("John"), Some("Smith"), None), person(None, None, Some("WHO"))]),
        editor: Some(vec![person(Some("Ed"), Some("Itor"), None)]),
        ..Default::default()
    };
    let creators = map_crossref_creators(&work);
    assert_eq!(creators.len(), 3);
    assert_eq!(creators[0].creator_type, "author");
    assert_eq!(creators[0].last_name.as_deref(), Some("Smith"));
    assert_eq!(creators[1].creator_type, "author");
    assert_eq!(creators[1].name.as_deref(), Some("WHO"));
    assert_eq!(creators[2].creator_type, "editor");
}

#[test]
fn test_map_crossref_creators_empty() {
    let work = CrossrefWork::default();
    let creators = map_crossref_creators(&work);
    assert!(creators.is_empty());
}

#[test]
fn test_extract_arxiv_id_from_crossref_relation() {
    let meta = preprint_of(&["https://arxiv.org/abs/2301.12345v2"]);
    assert_eq!(try_arxiv_from_crossref(&meta), Some("2301.12345v2".to_string()));
}

#[test]
fn test_extract_arxiv_id_no_relation() {
    let meta = obj(vec![]);
    assert_eq!(try_arxiv_from_crossref(&meta), None);
}

#[test]
fn test_extract_arxiv_id_no_preprint_of() {
    let meta = obj(vec![(
        "relation",
        obj(vec![("cites", JsonValue::Array(vec![obj(vec![("id", st("something"))])]))]),
    )]);
    assert_eq!(try_arxiv_from_crossref(&meta), None);
}

#[test]
fn test_extract_arxiv_id_non_arxiv() {
    let meta = preprint_of(&["https://doi.org/10.1234/example"]);
    assert_eq!(try_arxiv_from_crossref(&meta), None);
}

#[test]
fn test_extract_arxiv_id_multiple_candidates() {
    let meta = preprint_of(&["https://doi.org/10.1234/example", "https://arxiv.org/abs/2405.67890"]);
    assert_eq!(try_arxiv_from_crossref(&meta), Some("2405.67890".to_string()));
}

#[test]
fn test_extract_arxiv_id_without_version() {
    let meta = preprint_of(&["https://arxiv.org/abs/2301.12345"]);
    assert_eq!(try_arxiv_from_crossref(&meta), Some("2301.12345".to_string()));
}

#[test]
fn unpaywall_pick_prefers_best_location() {
    let locs = vec![Some("https://example.com/alt.pdf".to_string()), None];
    assert_eq!(
        pick_unpaywall_pdf(Some("https://example.com/paper.pdf"), &locs),
        Some("https://example.com/paper.pdf".to_string())
    );
    assert_eq!(pick_unpaywall_pdf(None, &locs), Some("https://example.com/alt.pdf".to_string()));
    assert_eq!(pick_unpaywall_pdf(None, &vec![None]), None);
}

#[test]
fn pmc_and_file_names() {
    assert_eq!(
        pmc_pdf_url("PMC1234567"),
        Some("https://pmc.ncbi.nlm.nih.gov/articles/PMC1234567/pdf/".to_string())
    );
    assert_eq!(pmc_pdf_url(""), None);
    assert_eq!(oa_pdf_filename("10.1234/a/b"), "10.1234_a_b.pdf");
}

#[test]
fn crossref_urls_encode_the_doi() {
    assert_eq!(encode_uri_component("10.1/a b"), "10.1%2Fa%20b");
    assert_eq!(crossref_work_url("10.1/x"), "https://api.crossref.org/works/10.1%2Fx");
}

#[test]
fn crossref_item_fills_template() {
    let work = CrossrefWork {
        work_type: Some("journal-article".to_string()),
        title: Some(vec!["Test Paper".to_string()]),
        author: Some(vec![person(Some("John"), Some("Smith"), None)]),
        volume: Some("42".to_string()),
        container_title: Some(vec!["Journal".to_string()]),
        issued: Some(CrossrefDate { date_parts: Some(vec![vec![Some(2020)]]) }),
        ..Default::default()
    };
    assert_eq!(mapped_item_type(&work), "journalArticle");
    let template = ZoteroItemData {
        item_type: "journalArticle".to_string(),
        volume: Some(String::new()),
        ..Default::default()
    };
    let tags = vec![ZoteroTag { tag: "t".to_string(), tag_type: None }];
    let item = build_crossref_item(&work, "10.1234/test", &template, tags, vec!["COLL0001".to_string()]);
    assert_eq!(item.title.as_deref(), Some("Test Paper"));
    assert_eq!(item.doi.as_deref(), Some("10.1234/test"));
    assert_eq!(item.date.as_deref(), Some("2020"));
    assert_eq!(item.volume.as_deref(), Some("42"));
    let bare = ZoteroItemData { item_type: "journalArticle".to_string(), ..Default::default() };
    let item2 = build_crossref_item(&work, "10.1234/test", &bare, vec![], vec![]);
    assert_eq!(item2.volume, None);
    assert_eq!(item.creators.as_ref().map(|c| c.len()), Some(1));
    assert_eq!(item.collections, Some(vec!["COLL0001".to_string()]));
    assert!(crossref_report("Created X", Some("https://p.pdf")).contains("https://p.pdf"));
}
