use zotero_mcp::identifiers::{
    detect_input_type, match_collection_names, normalize_arxiv_id, normalize_doi, percent_decode,
    InputType,
};
use zotero_mcp::types::{ZoteroCollection, ZoteroCollectionData};

#[test]
fn normalize_doi_plain() {
    assert_eq!(normalize_doi("10.1038/s41586-020-2649-2").unwrap(), "10.1038/s41586-020-2649-2");
}

#[test]
fn normalize_doi_url() {
    assert_eq!(
        normalize_doi("https://doi.org/10.1038/s41586-020-2649-2").unwrap(),
        "10.1038/s41586-020-2649-2"
    );
}

#[test]
fn normalize_doi_prefix() {
    assert_eq!(normalize_doi("doi:10.1038/s41586-020-2649-2").unwrap(), "10.1038/s41586-020-2649-2");
}

#[test]
fn normalize_doi_decodes_percent_encoding() {
    assert_eq!(normalize_doi("https://doi.org/10.1000%2F182").unwrap(), "10.1000/182");
}

#[test]
fn normalize_doi_strips_trailing_punctuation() {
    assert_eq!(normalize_doi("10.1234/test.).").unwrap(), "10.1234/test");
}

#[test]
fn normalize_doi_invalid() {
    assert!(normalize_doi("").is_err());
    assert!(normalize_doi("not-a-doi").is_err());
    assert!(normalize_doi("https://example.com/paper").is_err());
    assert_eq!(normalize_doi("nothing").unwrap_err(), "Invalid DOI");
}

#[test]
fn normalize_arxiv_new_style() {
    assert_eq!(normalize_arxiv_id("2301.07041").unwrap(), "2301.07041");
}

#[test]
fn normalize_arxiv_version_suffix() {
    assert_eq!(normalize_arxiv_id("2301.07041v2").unwrap(), "2301.07041");
}

#[test]
fn normalize_arxiv_old_style() {
    assert_eq!(normalize_arxiv_id("hep-ph/0001234").unwrap(), "hep-ph/0001234");
}

#[test]
fn normalize_arxiv_url() {
    assert_eq!(normalize_arxiv_id("https://arxiv.org/abs/2301.07041v2").unwrap(), "2301.07041");
}

#[test]
fn normalize_arxiv_prefix() {
    assert_eq!(normalize_arxiv_id("arxiv:hep-ph/0001234v3").unwrap(), "hep-ph/0001234");
}

#[test]
fn normalize_arxiv_lowercases() {
    assert_eq!(normalize_arxiv_id("HEP-PH/0001234").unwrap(), "hep-ph/0001234");
}

#[test]
fn normalize_arxiv_invalid() {
    assert!(normalize_arxiv_id("not-arxiv").is_err());
    assert_eq!(normalize_arxiv_id("nope").unwrap_err(), "Invalid arXiv ID");
}

#[test]
fn percent_decode_keeps_bad_escapes() {
    assert_eq!(percent_decode("a%2Fb"), "a/b");
    assert_eq!(percent_decode("a%zzb"), "a%zzb");
    assert_eq!(percent_decode("end%2"), "end%2");
}

#[test]
fn detect_doi() {
    assert_eq!(detect_input_type("10.1038/nature123"), InputType::Doi);
    assert_eq!(detect_input_type("https://doi.org/10.1234/test"), InputType::Doi);
}

#[test]
fn detect_arxiv() {
    assert_eq!(detect_input_type("2301.07041"), InputType::Arxiv);
    assert_eq!(detect_input_type("https://arxiv.org/abs/2301.07041"), InputType::Arxiv);
}

#[test]
fn detect_isbn13() {
    assert_eq!(detect_input_type("978-0-13-468599-1"), InputType::Isbn);
    assert_eq!(detect_input_type("9790134685997"), InputType::Isbn);
}

#[test]
fn detect_isbn10() {
    assert_eq!(detect_input_type("0-13-468599-0"), InputType::Isbn);
    assert_eq!(detect_input_type("0134685997"), InputType::Isbn);
}

#[test]
fn detect_file() {
    assert_eq!(detect_input_type("/path/to/file.pdf"), InputType::File);
    assert_eq!(detect_input_type("~/Documents/paper.pdf"), InputType::File);
    assert_eq!(detect_input_type("./paper.pdf"), InputType::File);
}

#[test]
fn detect_url() {
    assert_eq!(detect_input_type("https://example.com/paper"), InputType::Url);
    assert_eq!(detect_input_type("http://journal.org/article"), InputType::Url);
    assert_eq!(detect_input_type("plain words"), InputType::Url);
}

fn collection(key: &str, name: &str) -> ZoteroCollection {
    ZoteroCollection {
        key: key.to_string(),
        version: None,
        data: ZoteroCollectionData {
            key: Some(key.to_string()),
            version: None,
            name: name.to_string(),
            parent_collection: None,
        },
        meta: None,
    }
}

#[test]
fn collection_names_resolve_exact_then_case_then_substring() {
    let cols = vec![
        collection("KEY00001", "Reading List"),
        collection("KEY00002", "reading"),
        collection("KEY00003", "Physics Papers"),
    ];
    let names = vec![
        "reading".to_string(),
        "READING LIST".to_string(),
        "physics".to_string(),
        "  ".to_string(),
        "missing".to_string(),
    ];
    assert_eq!(match_collection_names(&cols, &names), vec!["KEY00002", "KEY00001", "KEY00003"]);
}
