use site_content::config::Config;
use site_content::errors::SectionError;
use site_content::page::Page;
use site_content::render::section_value;
use site_content::section::Section;

fn test_config() -> Config {
    Config { base_url: "https://example.com".to_string(), title: Some("My site".to_string()) }
}

fn page(file_path: &str, title: Option<&str>, permalink: &str) -> Page {
    Page {
        file_path: file_path.to_string(),
        title: title.map(|t| t.to_string()),
        permalink: permalink.to_string(),
    }
}

#[test]
fn all_pages_path_holds_both_lists_in_order() {
    let config = test_config();
    let mut section = Section::parse("content/blog/_index.md", "+++\n+++\n", &config).unwrap();
    section.pages = vec![
        page("content/blog/a.md", Some("A"), "https://example.com/blog/a/"),
        page("content/blog/b.md", None, "https://example.com/blog/b/"),
    ];
    section.ignored_pages = vec![page("content/blog/draft.md", None, "")];
    assert_eq!(
        section.all_pages_path(),
        vec![
            "content/blog/a.md".to_string(),
            "content/blog/b.md".to_string(),
            "content/blog/draft.md".to_string(),
        ]
    );
}

#[test]
fn serialized_view_exposes_only_template_facing_fields() {
    let config = test_config();
    let raw = "+++\ntitle = \"Blog\"\ndescription = \"Posts\"\n+++\n";
    let mut section = Section::parse("content/blog/_index.md", raw, &config).unwrap();
    section.pages = vec![page("content/blog/a.md", Some("A"), "https://example.com/blog/a/")];
    let child = Section::parse("content/blog/tech/_index.md", "+++\n+++\n", &config).unwrap();
    section.subsections = vec![child];

    let view = section.serialized();
    assert_eq!(view.title, Some("Blog".to_string()));
    assert_eq!(view.description, Some("Posts".to_string()));
    assert_eq!(view.path, "/blog");
    assert_eq!(view.permalink, "https://example.com/blog/");
    assert_eq!(view.pages.len(), 1);
    assert_eq!(view.pages[0].title, Some("A".to_string()));
    assert_eq!(view.subsections.len(), 1);
    assert_eq!(view.subsections[0].path, "/blog/tech");

    let json = serde_json::to_string(&section_value(&view)).unwrap();
    assert!(json.contains("\"title\""));
    assert!(json.contains("\"permalink\""));
    assert!(json.contains("\"pages\""));
    assert!(json.contains("\"subsections\""));
    assert!(!json.contains("file_path"));
    assert!(!json.contains("parent_path"));
    assert!(!json.contains("components"));
    assert!(!json.contains("relative_path"));
}

#[test]
fn render_uses_the_section_view_and_current_paths() {
    let config = test_config();
    let raw = "+++\ntitle = \"Tech\"\n+++\n";
    let section = Section::parse("content/blog/tech/_index.md", raw, &config).unwrap();
    let mut engine = tera::Tera::default();
    engine
        .add_raw_template(
            "section.html",
            "{{ section.title }}|{{ section.path }}|{{ current_path }}|{{ current_url }}|{{ config.base_url }}",
        )
        .unwrap();
    let out = section.render_html(&Vec::new(), &engine, &config).unwrap();
    assert_eq!(
        out,
        "Tech|/blog/tech|blog/tech|https://example.com/blog/tech/|https://example.com"
    );
}

#[test]
fn root_render_enumerates_top_level_sections() {
    let config = test_config();
    let root = Section::parse("content/_index.md", "+++\n+++\n", &config).unwrap();
    let blog =
        Section::parse("content/blog/_index.md", "+++\ntitle = \"Blog\"\n+++\n", &config).unwrap();
    let about =
        Section::parse("content/about/_index.md", "+++\ntitle = \"About\"\n+++\n", &config)
            .unwrap();
    let mut engine = tera::Tera::default();
    engine
        .add_raw_template(
            "index.html",
            "{% for s in sections %}{{ s.title }}@{{ s.path }};{% endfor %}",
        )
        .unwrap();
    let siblings = vec![blog, about];
    let out = root.render_html(&siblings, &engine, &config).unwrap();
    assert_eq!(out, "Blog@/blog;About@/about;");
}

#[test]
fn templates_cannot_observe_filesystem_fields() {
    let config = test_config();
    let section = Section::parse("content/blog/_index.md", "+++\n+++\n", &config).unwrap();
    let mut engine = tera::Tera::default();
    engine.add_raw_template("section.html", "{{ section.file_path }}").unwrap();
    match section.render_html(&Vec::new(), &engine, &config) {
        Err(SectionError::TemplateRender { path, .. }) => {
            assert_eq!(path, "content/blog/_index.md");
        }
        other => panic!("expected a template error, got {:?}", other),
    }
}

#[test]
fn render_failure_is_tagged_with_the_file_path() {
    let config = test_config();
    let section = Section::parse("content/blog/_index.md", "+++\n+++\n", &config).unwrap();
    let engine = tera::Tera::default();
    match section.render_html(&Vec::new(), &engine, &config) {
        Err(SectionError::TemplateRender { path, cause }) => {
            assert_eq!(path, "content/blog/_index.md");
            assert!(!cause.is_empty());
        }
        other => panic!("expected a template error, got {:?}", other),
    }
}
