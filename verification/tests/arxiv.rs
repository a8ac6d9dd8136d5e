use zotero_mcp::arxiv::{
    arxiv_fetch_step, arxiv_query_url, extract_project_urls, first_xml_tag, map_arxiv_category,
    normalize_doi_like, parse_arxiv_atom, urlencoding, xml_unescape, ArxivLookupError, Delay,
    FetchStep, ARXIV_MAX_RETRIES,
};
use zotero_mcp::arxiv_categories::arxiv_categories;

const SAMPLE_ATOM: &str = r#"<?xml version="1.0" encoding="UTF-8"?>
<feed xmlns="http://www.w3.org/2005/Atom" xmlns:arxiv="http://arxiv.org/schemas/atom">
<entry>
  <title>Attention Is All You Need</title>
  <id>http://arxiv.org/abs/1706.03762v5</id>
  <published>2017-06-12T17:57:34Z</published>
  <updated>2017-12-06T14:29:58Z</updated>
  <summary>The dominant sequence transduction models are based on complex recurrent neural networks.</summary>
  <author><name>Ashish Vaswani</name></author>
  <author><name>Noam Shazeer</name></author>
  <category term="cs.CL" scheme="http://arxiv.org/schemas/atom"/>
  <category term="cs.LG" scheme="http://arxiv.org/schemas/atom"/>
  <arxiv:primary_category term="cs.CL" scheme="http://arxiv.org/schemas/atom"/>
  <arxiv:comment>See the project page at https://github.com/tensorflow/tensor2tensor</arxiv:comment>
</entry>
</feed>"#;

#[test]
fn test_parse_arxiv_atom() {
    let parsed = parse_arxiv_atom(SAMPLE_ATOM).unwrap();
    assert_eq!(parsed.title, "Attention Is All You Need");
    assert_eq!(
        parsed.summary,
        "The dominant sequence transduction models are based on complex recurrent neural networks."
    );
    assert_eq!(parsed.authors, vec!["Ashish Vaswani", "Noam Shazeer"]);
    assert_eq!(parsed.published, "2017-06-12T17:57:34Z");
    assert_eq!(parsed.updated, "2017-12-06T14:29:58Z");
    assert_eq!(parsed.abs_url, "http://arxiv.org/abs/1706.03762v5");
    assert_eq!(parsed.categories, vec!["cs.CL", "cs.LG"]);
    assert_eq!(parsed.primary_category, "cs.CL");
    assert!(parsed.comment.contains("tensor2tensor"));
    assert!(parsed.doi.is_empty());
}

#[test]
fn test_parse_arxiv_atom_no_entry() {
    let xml = r#"<?xml version="1.0"?><feed></feed>"#;
    let err = parse_arxiv_atom(xml).unwrap_err();
    assert!(err.contains("No <entry>"));
}

#[test]
fn test_parse_arxiv_atom_empty_title() {
    let xml = r#"<feed><entry><title>  </title></entry></feed>"#;
    let err = parse_arxiv_atom(xml).unwrap_err();
    assert!(err.contains("Title is empty"));
}

#[test]
fn test_map_arxiv_category_exact() {
    assert_eq!(map_arxiv_category("cs"), Some("Computer Science".to_string()));
    assert_eq!(map_arxiv_category("math"), Some("Mathematics".to_string()));
    assert_eq!(map_arxiv_category("stat"), Some("Statistics".to_string()));
    assert_eq!(
        map_arxiv_category("gr-qc"),
        Some("General Relativity and Quantum Cosmology".to_string())
    );
}

#[test]
fn test_map_arxiv_category_subcategory() {
    assert_eq!(
        map_arxiv_category("cs.AI"),
        Some("Computer Science - Artificial Intelligence".to_string())
    );
    assert_eq!(
        map_arxiv_category("cs.CL"),
        Some("Computer Science - Computation and Language".to_string())
    );
    assert_eq!(map_arxiv_category("math.AG"), Some("Mathematics - Algebraic Geometry".to_string()));
    assert_eq!(map_arxiv_category("stat.ML"), Some("Statistics - Machine Learning".to_string()));
}

#[test]
fn test_map_arxiv_category_unknown() {
    assert_eq!(map_arxiv_category("xyz.ZZ"), None);
    assert_eq!(map_arxiv_category("totally-unknown"), None);
}

#[test]
fn test_map_arxiv_category_unknown_subcategory() {
    assert_eq!(map_arxiv_category("cs.ZZ"), None);
}

#[test]
fn test_extract_project_urls() {
    let text = "See the project page at https://github.com/tensorflow/tensor2tensor for code.";
    let urls = extract_project_urls(text).unwrap();
    assert_eq!(urls.len(), 1);
    assert!(urls[0].contains("github.com/tensorflow/tensor2tensor"));
}

#[test]
fn test_extract_project_urls_filters_arxiv() {
    let text = "See https://arxiv.org/abs/1234 and https://github.com/user/repo";
    let urls = extract_project_urls(text).unwrap();
    assert_eq!(urls.len(), 1);
    assert!(urls[0].contains("github.com"));
}

#[test]
fn test_extract_project_urls_empty() {
    let text = "This paper has no URLs.";
    let urls = extract_project_urls(text).unwrap();
    assert!(urls.is_empty());
}

#[test]
fn test_extract_project_urls_context_keywords() {
    let text = "Our code is available at https://example.com/project";
    let urls = extract_project_urls(text).unwrap();
    assert_eq!(urls.len(), 1);
    assert!(urls[0].contains("example.com/project"));
}

#[test]
fn test_extract_project_urls_huggingface() {
    let text = "Model at https://huggingface.co/org/model";
    let urls = extract_project_urls(text).unwrap();
    assert_eq!(urls.len(), 1);
    assert!(urls[0].contains("huggingface.co"));
}

#[test]
fn extract_project_urls_skips_plain_links_without_context() {
    let text = "Compare with https://example.com/other for details.";
    assert!(extract_project_urls(text).unwrap().is_empty());
}

#[test]
fn test_xml_unescape() {
    assert_eq!(xml_unescape("&lt;b&gt;test&lt;/b&gt;"), "<b>test</b>");
    assert_eq!(xml_unescape("&amp;"), "&");
    assert_eq!(xml_unescape("&quot;hi&quot;"), "\"hi\"");
    assert_eq!(xml_unescape("it&#39;s"), "it's");
    assert_eq!(xml_unescape("no entities"), "no entities");
}

#[test]
fn test_first_xml_tag() {
    let xml = "<root><title>Hello World</title></root>";
    assert_eq!(first_xml_tag(xml, "title"), "Hello World");
}

#[test]
fn test_first_xml_tag_with_attrs() {
    let xml = r#"<root><title lang="en">Hello</title></root>"#;
    assert_eq!(first_xml_tag(xml, "title"), "Hello");
}

#[test]
fn test_first_xml_tag_missing() {
    let xml = "<root><other>data</other></root>";
    assert_eq!(first_xml_tag(xml, "title"), "");
}

#[test]
fn test_first_xml_tag_namespaced() {
    let xml = r#"<root><arxiv:doi>10.1234/test</arxiv:doi></root>"#;
    assert_eq!(first_xml_tag(xml, "arxiv:doi"), "10.1234/test");
}

#[test]
fn test_normalize_doi_like_valid() {
    assert_eq!(normalize_doi_like("10.1234/test").unwrap(), "10.1234/test");
    assert_eq!(normalize_doi_like("https://doi.org/10.1234/test").unwrap(), "10.1234/test");
    assert_eq!(normalize_doi_like("doi: 10.1234/test").unwrap(), "10.1234/test");
}

#[test]
fn test_normalize_doi_like_invalid() {
    assert!(normalize_doi_like("not-a-doi").is_err());
}

#[test]
fn test_normalize_doi_like_empty() {
    assert_eq!(normalize_doi_like("").unwrap(), "");
    assert_eq!(normalize_doi_like("   ").unwrap(), "");
}

#[test]
fn test_category_count() {
    assert!(arxiv_categories().len() >= 180);
}

#[test]
fn test_urlencoding() {
    assert_eq!(urlencoding("1706.03762"), "1706.03762");
    assert_eq!(urlencoding("hep-th/9901001"), "hep-th%2F9901001");
}

#[test]
fn query_url_encodes_the_id() {
    assert_eq!(
        arxiv_query_url("hep-th/9901001"),
        "https://export.arxiv.org/api/query?id_list=hep-th%2F9901001"
    );
}

#[test]
fn test_parse_arxiv_atom_with_doi() {
    let xml = r#"<feed><entry>
  <title>Paper With DOI</title>
  <id>http://arxiv.org/abs/2301.00001v1</id>
  <published>2023-01-01T00:00:00Z</published>
  <updated>2023-01-02T00:00:00Z</updated>
  <summary>A paper.</summary>
  <author><name>Jane Doe</name></author>
  <category term="cs.LG" scheme="http://arxiv.org/schemas/atom"/>
  <arxiv:primary_category term="cs.LG" scheme="http://arxiv.org/schemas/atom"/>
  <arxiv:doi>10.1234/example.2023</arxiv:doi>
</entry></feed>"#;
    let parsed = parse_arxiv_atom(xml).unwrap();
    assert_eq!(parsed.doi, "10.1234/example.2023");
    assert_eq!(parsed.authors, vec!["Jane Doe"]);
    assert_eq!(parsed.primary_category, "cs.LG");
}

#[test]
fn test_parse_arxiv_atom_multiline_title() {
    let xml = r#"<feed><entry>
  <title>
    A Very Long Title That
    Spans Multiple Lines
  </title>
  <id>http://arxiv.org/abs/0001.0001v1</id>
  <published>2020-01-01T00:00:00Z</published>
  <updated>2020-01-01T00:00:00Z</updated>
  <summary>Abstract.</summary>
  <author><name>Test Author</name></author>
  <category term="math.CO" scheme="http://arxiv.org/schemas/atom"/>
  <arxiv:primary_category term="math.CO" scheme="http://arxiv.org/schemas/atom"/>
</entry></feed>"#;
    let parsed = parse_arxiv_atom(xml).unwrap();
    assert_eq!(parsed.title, "A Very Long Title That Spans Multiple Lines");
}

#[test]
fn fetch_steps_follow_the_retry_policy() {
    assert!(matches!(arxiv_fetch_step(true, 200, 0, ARXIV_MAX_RETRIES, None), FetchStep::ReadBody));
    match arxiv_fetch_step(false, 429, 0, ARXIV_MAX_RETRIES, None) {
        FetchStep::Wait(d) => assert_eq!(d, Delay::Millis(250)),
        other => panic!("unexpected {:?}", other),
    }
    match arxiv_fetch_step(false, 503, 1, ARXIV_MAX_RETRIES, Some("7")) {
        FetchStep::Wait(d) => assert_eq!(d, Delay::Seconds(7)),
        other => panic!("unexpected {:?}", other),
    }
    match arxiv_fetch_step(false, 503, 2, ARXIV_MAX_RETRIES, Some("soon")) {
        FetchStep::Wait(d) => assert_eq!(d, Delay::Millis(1000)),
        other => panic!("unexpected {:?}", other),
    }
    match arxiv_fetch_step(false, 429, 3, ARXIV_MAX_RETRIES, None) {
        FetchStep::Fail(e) => {
            assert!(matches!(e, ArxivLookupError::TemporaryUnavailable { status: 429 }));
            assert_eq!(
                e.message(),
                "arXiv is temporarily unavailable (429). Please retry zotero_add_paper shortly."
            );
        }
        other => panic!("unexpected {:?}", other),
    }
    match arxiv_fetch_step(false, 404, 0, ARXIV_MAX_RETRIES, None) {
        FetchStep::Fail(e) => assert_eq!(e.message(), "arXiv lookup failed: HTTP 404"),
        other => panic!("unexpected {:?}", other),
    }
}

#[test]
fn tag_names_are_matched_literally() {
    let xml = "<aXb>wrong</aXb><a.b>right</a.b>";
    assert_eq!(first_xml_tag(xml, "a.b"), "right");
}
