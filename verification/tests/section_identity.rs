use site_content::config::Config;
use site_content::errors::SectionError;
use site_content::front_matter::FrontMatter;
use site_content::paths::{find_content_components, join_with, parent_of, split_str};
use site_content::section::Section;

fn test_config() -> Config {
    Config { base_url: "https://example.com".to_string(), title: Some("My site".to_string()) }
}

#[test]
fn split_and_join_round_trip() {
    let parts = split_str("blog/tech", '/');
    assert_eq!(parts, vec!["blog".to_string(), "tech".to_string()]);
    let joined = join_with(&parts, "/");
    assert_eq!(joined, "blog/tech");
    assert_eq!(split_str("", '/'), vec!["".to_string()]);
    assert_eq!(split_str("a//b", '/'), vec!["a".to_string(), "".to_string(), "b".to_string()]);
}

#[test]
fn parent_of_drops_the_file_name() {
    assert_eq!(parent_of("content/blog/_index.md"), "content/blog");
    assert_eq!(parent_of("content/_index.md"), "content");
    assert_eq!(parent_of("_index.md"), "");
}

#[test]
fn components_lie_between_root_and_file() {
    assert_eq!(
        find_content_components("site/content/blog/tech/_index.md"),
        vec!["blog".to_string(), "tech".to_string()]
    );
    assert_eq!(find_content_components("content/_index.md"), Vec::<String>::new());
    assert_eq!(find_content_components("elsewhere/a/_index.md"), Vec::<String>::new());
}

#[test]
fn root_index_document() {
    let config = test_config();
    let section = Section::parse("content/_index.md", "+++\n+++\n", &config).unwrap();
    assert_eq!(section.components, Vec::<String>::new());
    assert_eq!(section.path, "");
    assert_eq!(section.relative_path, "_index.md");
    assert_eq!(section.parent_path, "content");
    assert!(section.is_index());
    assert_eq!(section.get_template_name(), "index.html");
    assert_eq!(section.permalink, "https://example.com/");
}

#[test]
fn nested_section_document() {
    let config = test_config();
    let raw = "+++\ntitle = \"Tech posts\"\n+++\nBody text\n";
    let section = Section::parse("content/blog/tech/_index.md", raw, &config).unwrap();
    assert_eq!(section.components, vec!["blog".to_string(), "tech".to_string()]);
    assert_eq!(section.path, "blog/tech");
    assert_eq!(section.relative_path, "blog/tech/_index.md");
    assert_eq!(section.parent_path, "content/blog/tech");
    assert!(!section.is_index());
    assert_eq!(section.get_template_name(), "section.html");
    assert_eq!(section.permalink, "https://example.com/blog/tech/");
    assert_eq!(section.meta.title, Some("Tech posts".to_string()));
}

#[test]
fn explicit_template_wins_everywhere() {
    let config = test_config();
    let raw = "+++\ntemplate = \"custom.html\"\n+++\n";
    let root = Section::parse("content/_index.md", raw, &config).unwrap();
    assert_eq!(root.get_template_name(), "custom.html");
    let nested = Section::parse("content/blog/_index.md", raw, &config).unwrap();
    assert_eq!(nested.get_template_name(), "custom.html");
}

#[test]
fn malformed_front_matter_is_tagged_with_the_path() {
    let config = test_config();
    let missing_open = Section::parse("content/a/_index.md", "title\n+++\n", &config);
    match missing_open {
        Err(SectionError::FrontMatterParse { path, .. }) => {
            assert_eq!(path, "content/a/_index.md");
        }
        other => panic!("expected a front-matter error, got {:?}", other),
    }
    let missing_close = Section::parse("content/b/_index.md", "+++\ntitle = \"x\"\n", &config);
    match missing_close {
        Err(SectionError::FrontMatterParse { path, .. }) => {
            assert_eq!(path, "content/b/_index.md");
        }
        other => panic!("expected a front-matter error, got {:?}", other),
    }
    let bad_line = Section::parse("content/c/_index.md", "+++\ntitle: x\n+++\n", &config);
    match bad_line {
        Err(SectionError::FrontMatterParse { path, .. }) => {
            assert_eq!(path, "content/c/_index.md");
        }
        other => panic!("expected a front-matter error, got {:?}", other),
    }
    let unknown_key = Section::parse("content/d/_index.md", "+++\nweight = \"3\"\n+++\n", &config);
    assert!(unknown_key.is_err());
}

#[test]
fn front_matter_fields_are_read() {
    let config = test_config();
    let raw = "+++\ntitle = \"First\"\ndescription = \"About things\"\n\ntitle = \"Second\"\n+++\n";
    let section = Section::parse("content/x/_index.md", raw, &config).unwrap();
    assert_eq!(section.meta.title, Some("Second".to_string()));
    assert_eq!(section.meta.description, Some("About things".to_string()));
    assert_eq!(section.meta.template, None);
}

#[test]
fn split_content_returns_metadata_and_body() {
    let raw = "+++\ntitle = \"T\"\n+++\nline one\nline two";
    let (meta, body) = site_content::front_matter::split_content("content/_index.md", raw).unwrap();
    assert_eq!(meta.title, Some("T".to_string()));
    assert_eq!(body, "line one\nline two");
}

#[test]
fn permalinks_follow_the_base_url() {
    let with_slash =
        Config { base_url: "https://example.com/".to_string(), title: None };
    assert_eq!(with_slash.make_permalink("blog"), "https://example.com/blog/");
    let without_slash =
        Config { base_url: "https://example.com".to_string(), title: None };
    assert_eq!(without_slash.make_permalink("blog/tech"), "https://example.com/blog/tech/");
    assert_eq!(without_slash.make_permalink(""), "https://example.com/");
}

#[test]
fn error_descriptions_name_stage_file_and_cause() {
    let read_error = SectionError::FileRead {
        path: "content/_index.md".to_string(),
        cause: "no such file".to_string(),
    };
    assert_eq!(read_error.describe(), "failed to read 'content/_index.md': no such file");
    let fm = FrontMatter { title: None, description: None, template: None };
    assert_eq!(fm.title, None);
    let parse_error = SectionError::FrontMatterParse {
        path: "content/a/_index.md".to_string(),
        cause: "malformed line in the front matter".to_string(),
    };
    assert_eq!(
        parse_error.describe(),
        "failed to parse front matter of 'content/a/_index.md': malformed line in the front matter"
    );
}
