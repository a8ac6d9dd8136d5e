use zotero_mcp::template_engine::{
    apply_text_case, get_attributes, get_valid_file_name, hyphen_to_camel,
    split_by_outer_brackets, strip_html_tags,
};
use zotero_mcp::template_eval::{
    build_renamed_filename, compute_first_creator, extract_year, get_file_base_name_from_item,
};
use zotero_mcp::types::{ZoteroCreator, ZoteroItemData};

fn creator(creator_type: &str, first_name: &str, last_name: &str) -> ZoteroCreator {
    ZoteroCreator {
        creator_type: creator_type.to_string(),
        first_name: Some(first_name.to_string()),
        last_name: Some(last_name.to_string()),
        name: None,
    }
}

fn single_name_creator(creator_type: &str, name: &str) -> ZoteroCreator {
    ZoteroCreator {
        creator_type: creator_type.to_string(),
        first_name: None,
        last_name: None,
        name: Some(name.to_string()),
    }
}

fn item_with(title: Option<&str>, creators: Vec<ZoteroCreator>, date: Option<&str>) -> ZoteroItemData {
    ZoteroItemData {
        item_type: "journalArticle".to_string(),
        title: title.map(str::to_string),
        creators: Some(creators),
        date: date.map(str::to_string),
        ..Default::default()
    }
}

#[test]
fn default_template_with_full_item() {
    let item = item_with(
        Some("Some Paper Title"),
        vec![creator("author", "Jane", "Smith")],
        Some("2024-01-15"),
    );
    assert_eq!(build_renamed_filename(&item, "pdf"), "Smith - 2024 - Some Paper Title.pdf");
}

#[test]
fn build_renamed_filename_without_extension() {
    let item = item_with(Some("Title"), vec![], None);
    assert_eq!(build_renamed_filename(&item, ""), "Title");
}

#[test]
fn default_template_with_missing_creator() {
    let item = item_with(Some("Some Paper Title"), vec![], Some("2024-01-15"));
    assert_eq!(get_file_base_name_from_item(&item, None), "2024 - Some Paper Title");
}

#[test]
fn default_template_with_missing_year() {
    let item = item_with(Some("Some Paper Title"), vec![creator("author", "Jane", "Smith")], None);
    assert_eq!(get_file_base_name_from_item(&item, None), "Smith - Some Paper Title");
}

#[test]
fn default_template_with_missing_creator_and_year() {
    let item = item_with(Some("Some Paper Title"), vec![], None);
    assert_eq!(get_file_base_name_from_item(&item, None), "Some Paper Title");
}

#[test]
fn truncates_default_title_to_100_chars() {
    let long_title = "a".repeat(120);
    let item = item_with(Some(&long_title), vec![], None);
    assert_eq!(get_file_base_name_from_item(&item, None), "a".repeat(100));
}

#[test]
fn applies_upper_case() {
    let item = item_with(Some("Some Paper Title"), vec![], None);
    assert_eq!(
        get_file_base_name_from_item(&item, Some("{{ title case=\"upper\" }}")),
        "SOME PAPER TITLE"
    );
}

#[test]
fn applies_lower_case() {
    let item = item_with(Some("Some Paper Title"), vec![], None);
    assert_eq!(
        get_file_base_name_from_item(&item, Some("{{ title case=\"lower\" }}")),
        "some paper title"
    );
}

#[test]
fn applies_title_case() {
    let item = item_with(Some("some paper title"), vec![], None);
    assert_eq!(
        get_file_base_name_from_item(&item, Some("{{ title case=\"title\" }}")),
        "Some Paper Title"
    );
}

#[test]
fn applies_sentence_case() {
    let item = item_with(Some("some paper title"), vec![], None);
    assert_eq!(
        get_file_base_name_from_item(&item, Some("{{ title case=\"sentence\" }}")),
        "Some paper title"
    );
}

#[test]
fn applies_hyphen_case() {
    let item = item_with(Some("Some   Paper Title"), vec![], None);
    assert_eq!(
        get_file_base_name_from_item(&item, Some("{{ title case=\"hyphen\" }}")),
        "some-paper-title"
    );
}

#[test]
fn applies_snake_case() {
    let item = item_with(Some("Some   Paper Title"), vec![], None);
    assert_eq!(
        get_file_base_name_from_item(&item, Some("{{ title case=\"snake\" }}")),
        "some_paper_title"
    );
}

#[test]
fn applies_camel_case() {
    let item = item_with(Some("Some paper title"), vec![], None);
    assert_eq!(
        get_file_base_name_from_item(&item, Some("{{ title case=\"camel\" }}")),
        "somePaperTitle"
    );
}

#[test]
fn applies_pascal_case() {
    let item = item_with(Some("Some paper title"), vec![], None);
    assert_eq!(
        get_file_base_name_from_item(&item, Some("{{ title case=\"pascal\" }}")),
        "SomePaperTitle"
    );
}

#[test]
fn evaluates_if_elseif_else_blocks() {
    let item = item_with(Some("Paper"), vec![], Some("2023-01-01"));
    let template = "{{ if year >= 2024 }}new{{ elseif year == 2023 }}old{{ else }}none{{ endif }}";
    assert_eq!(get_file_base_name_from_item(&item, Some(template)), "old");
}

#[test]
fn computes_first_creator_for_one_author() {
    assert_eq!(compute_first_creator(&[creator("author", "Jane", "Smith")]), "Smith");
}

#[test]
fn computes_first_creator_for_two_authors() {
    assert_eq!(
        compute_first_creator(&[creator("author", "Jane", "Smith"), creator("author", "John", "Jones")]),
        "Smith and Jones"
    );
}

#[test]
fn computes_first_creator_for_three_authors() {
    assert_eq!(
        compute_first_creator(&[
            creator("author", "Jane", "Smith"),
            creator("author", "John", "Jones"),
            creator("author", "Ada", "Brown"),
        ]),
        "Smith et al."
    );
}

#[test]
fn first_creator_falls_back_to_editors() {
    assert_eq!(compute_first_creator(&[creator("editor", "Ed", "Miles")]), "Miles");
    assert_eq!(compute_first_creator(&[]), "");
}

#[test]
fn strips_invalid_file_name_characters() {
    assert_eq!(get_valid_file_name("./bad:/\\name?*|<>\n"), "badname ");
}

#[test]
fn valid_file_name_of_dots_is_underscore() {
    assert_eq!(get_valid_file_name("..."), "_");
    assert_eq!(get_valid_file_name("..a"), "a");
}

#[test]
fn extracts_year_from_date() {
    assert_eq!(extract_year(Some("Spring 2024")), "2024");
    assert_eq!(extract_year(Some("0000-02-02")), "");
}

#[test]
fn formats_creator_lists_with_options() {
    let item = item_with(
        Some("Paper"),
        vec![
            creator("author", "Jane", "Smith"),
            creator("author", "John", "Jones"),
            creator("editor", "Ed", "Miles"),
        ],
        None,
    );
    let template = "{{ authors max=\"2\" name=\"given-family\" initialize=\"given\" join=\"; \" }}";
    assert_eq!(get_file_base_name_from_item(&item, Some(template)), "J. Smith; J. Jones");
}

#[test]
fn supports_truthy_conditionals() {
    let item = item_with(Some("Paper"), vec![], None);
    let template = "{{ if title }}yes{{ else }}no{{ endif }}";
    assert_eq!(get_file_base_name_from_item(&item, Some(template)), "yes");
}

#[test]
fn supports_regex_match_and_replace() {
    let item = item_with(Some("A Study (Preprint)"), vec![], None);
    assert_eq!(
        get_file_base_name_from_item(&item, Some("{{ title match=\"\\([^)]+\\)\" }}")),
        "(Preprint)"
    );
    assert_eq!(
        get_file_base_name_from_item(
            &item,
            Some("{{ title replaceFrom=\"\\s*\\([^)]+\\)\" replaceTo=\"\" }}")
        ),
        "A Study"
    );
}

#[test]
fn deduplicates_duplicate_suffixes() {
    let item = item_with(Some("Paper"), vec![], Some("2024"));
    let template = "{{ year suffix=\" - \" }}{{ title prefix=\" - \" }}";
    assert_eq!(get_file_base_name_from_item(&item, Some(template)), "2024 - Paper");
}

#[test]
fn supports_named_creator_entries() {
    let item = item_with(Some("Paper"), vec![single_name_creator("author", "WHO")], None);
    assert_eq!(get_file_base_name_from_item(&item, Some("{{ firstCreator }}")), "WHO");
}

#[test]
fn helper_text_transforms() {
    assert_eq!(hyphen_to_camel("first-creator"), "firstCreator");
    assert_eq!(strip_html_tags("<i>x</i> y"), "x y");
    assert_eq!(apply_text_case("a b", "upper"), "A B");
    assert_eq!(
        split_by_outer_brackets("a{{ b }}c", "{{", "}}"),
        vec!["a", "{{ b }}", "c"]
    );
    let attrs = get_attributes("title case=\"upper\" truncate=\"5\"");
    assert_eq!(attrs.get("case"), Some("upper"));
    assert_eq!(attrs.get("truncate"), Some("5"));
    assert_eq!(attrs.get("missing"), None);
}
