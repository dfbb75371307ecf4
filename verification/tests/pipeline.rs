use sitegen::article::{parse_file, parse_markdown_file, parse_text_file, ParseError};
use sitegen::collection::build_collection;
use sitegen::dates::Date;
use sitegen::paths::extract_metadata_from_path;
use sitegen::search::build_search_index;

fn d(year: u32, month: u32, day: u32) -> Date {
    Date { year, month, day }
}

fn providers() -> Vec<(String, String)> {
    vec![(
        "X".to_string(),
        "https://x.com/intent?text={TEXT}&url={URL}".to_string(),
    )]
}

#[test]
fn filename_metadata_date_and_title() {
    let (title, date) = extract_metadata_from_path("2024-10-26-my-great-post.md");
    assert_eq!(title, "my great post");
    assert_eq!(date, Some(d(2024, 10, 26)));
}

#[test]
fn filename_metadata_mixed_separators() {
    let (title, date) = extract_metadata_from_path("posts/2024_10_26.notes_on-things.txt");
    assert_eq!(title, "notes on things");
    assert_eq!(date, Some(d(2024, 10, 26)));
}

#[test]
fn filename_metadata_invalid_date_keeps_title() {
    let (title, date) = extract_metadata_from_path("2024-13-26-bad-month.md");
    assert_eq!(title, "bad month");
    assert_eq!(date, None);
}

#[test]
fn filename_metadata_no_convention() {
    let (title, date) = extract_metadata_from_path("about_me.txt");
    assert_eq!(title, "about me");
    assert_eq!(date, None);
}

#[test]
fn text_file_basics() {
    let content = "Hello & <world>\nsee https://example.com/a and #rust #rust #Blog".to_string();
    let a = parse_text_file("notes/hello.txt", content, Some(d(2020, 5, 4)), d(2021, 6, 7), &providers());
    assert_eq!(a.title, "hello");
    assert_eq!(a.description, "");
    assert_eq!(a.slug, "hello");
    assert_eq!(a.created, Some(d(2020, 5, 4)));
    assert_eq!(a.modified, Some(d(2021, 6, 7)));
    assert_eq!(a.link_url.as_deref(), Some("https://example.com/a"));
    assert_eq!(a.tags, vec!["Blog".to_string(), "rust".to_string()]);
    assert_eq!(
        a.html_content,
        "<p>Hello &amp; &lt;world&gt;<br>see https://example.com/a and #rust #rust #Blog</p>"
    );
}

#[test]
fn text_file_created_falls_back_to_modified() {
    let a = parse_text_file("a.txt", "x".to_string(), None, d(2021, 1, 2), &providers());
    assert_eq!(a.created, Some(d(2021, 1, 2)));
    assert_eq!(a.modified, Some(d(2021, 1, 2)));
}

#[test]
fn text_file_filename_date_wins() {
    let a = parse_text_file(
        "2019-08-07-log.txt",
        "x".to_string(),
        Some(d(2020, 1, 1)),
        d(2021, 1, 1),
        &providers(),
    );
    assert_eq!(a.created, Some(d(2019, 8, 7)));
}

#[test]
fn markdown_frontmatter_precedence_created() {
    let content = "---\ncreated: 2023-01-01\n---\nbody".to_string();
    let a = parse_markdown_file(
        "2024-10-26-post.md",
        content,
        Some(d(2022, 2, 2)),
        d(2022, 3, 3),
        &providers(),
    )
    .unwrap();
    assert_eq!(a.created, Some(d(2023, 1, 1)));
}

#[test]
fn markdown_invalid_frontmatter_date_falls_through() {
    let content = "---\ncreated: 2023-02-30\n---\nbody".to_string();
    let a = parse_markdown_file(
        "2024-10-26-post.md",
        content,
        Some(d(2022, 2, 2)),
        d(2022, 3, 3),
        &providers(),
    )
    .unwrap();
    assert_eq!(a.created, Some(d(2024, 10, 26)));
}

#[test]
fn markdown_fields_resolve() {
    let content = "---\ntitle: My Title\ndescription: About things\ntags:\n  - beta\n  - alpha\nmodified: 2020-12-31\nlink_url: https://example.org/x\n---\nBody with #gamma and https://other.example/ignored".to_string();
    let a = parse_markdown_file("2024-01-02-post.md", content, None, d(2025, 1, 1), &providers())
        .unwrap();
    assert_eq!(a.title, "My Title");
    assert_eq!(a.description, "About things");
    assert_eq!(a.modified, Some(d(2020, 12, 31)));
    assert_eq!(a.link_url.as_deref(), Some("https://example.org/x"));
    assert_eq!(
        a.tags,
        vec!["alpha".to_string(), "beta".to_string(), "gamma".to_string()]
    );
    assert_eq!(a.created, Some(d(2024, 1, 2)));
    assert_eq!(a.slug, "2024-01-02-post");
}

#[test]
fn markdown_without_frontmatter_is_fine() {
    let content = "# Heading\n\nplain body".to_string();
    let a = parse_markdown_file("post.md", content, None, d(2020, 1, 1), &providers()).unwrap();
    assert_eq!(a.title, "post");
    assert!(a.html_content.contains("<h1>Heading</h1>"));
}

#[test]
fn markdown_strikethrough_enabled() {
    let content = "some ~~gone~~ text".to_string();
    let a = parse_markdown_file("post.md", content, None, d(2020, 1, 1), &providers()).unwrap();
    assert!(a.html_content.contains("<del>gone</del>"));
}

#[test]
fn markdown_malformed_frontmatter_is_error() {
    let content = "---\ntitle: [unclosed\n---\nbody".to_string();
    let r = parse_markdown_file("post.md", content, None, d(2020, 1, 1), &providers());
    assert!(matches!(r, Err(ParseError::FrontmatterDecode { .. })));
}

#[test]
fn markdown_wrong_field_shape_is_error() {
    let content = "---\ntitle:\n  - a list\n---\nbody".to_string();
    let r = parse_markdown_file("post.md", content, None, d(2020, 1, 1), &providers());
    assert!(matches!(r, Err(ParseError::FrontmatterDecode { .. })));
}

#[test]
fn markdown_relative_resource_is_error() {
    let content = "![pic](/local.png)".to_string();
    let r = parse_markdown_file("post.md", content, None, d(2020, 1, 1), &providers());
    match r {
        Err(ParseError::ResourceLink { path, value }) => {
            assert_eq!(path, "post.md");
            assert_eq!(value, "/local.png");
        }
        other => panic!("expected a resource link error, got {:?}", other.is_ok()),
    }
}

#[test]
fn unsupported_extension_is_error() {
    let r = parse_file("notes.rst", "x".to_string(), None, d(2020, 1, 1), &providers());
    assert!(matches!(r, Err(ParseError::UnsupportedFileType { .. })));
}

#[test]
fn parse_file_dispatches_on_extension() {
    let ok = parse_file("a.txt", "x".to_string(), None, d(2020, 1, 1), &providers());
    assert!(ok.is_ok());
    let md = parse_file("a.md", "x".to_string(), None, d(2020, 1, 1), &providers());
    assert!(md.is_ok());
}

fn text_article_with_date(name: &str, date: Date) -> Result<sitegen::article::Article, ParseError> {
    let path = format!(
        "{:04}-{:02}-{:02}-{}.txt",
        date.year, date.month, date.day, name
    );
    parse_file(&path, "body".to_string(), None, d(2030, 1, 1), &providers())
}

#[test]
fn collection_sorted_descending_by_created() {
    let results = vec![
        text_article_with_date("a", d(2024, 1, 1)),
        text_article_with_date("b", d(2024, 3, 1)),
        text_article_with_date("c", d(2024, 2, 1)),
    ];
    let coll = build_collection(results);
    let dates: Vec<Option<Date>> = coll.iter().map(|a| a.created).collect();
    assert_eq!(
        dates,
        vec![
            Some(d(2024, 3, 1)),
            Some(d(2024, 2, 1)),
            Some(d(2024, 1, 1))
        ]
    );
}

#[test]
fn collection_skips_failed_files_but_keeps_rest() {
    let bad = parse_markdown_file(
        "bad.md",
        "---\ntitle: [unclosed\n---\nbody".to_string(),
        None,
        d(2020, 1, 1),
        &providers(),
    );
    assert!(bad.is_err());
    let good = parse_markdown_file(
        "good.md",
        "fine body".to_string(),
        None,
        d(2020, 1, 1),
        &providers(),
    );
    let coll = build_collection(vec![bad, good]);
    assert_eq!(coll.len(), 1);
    assert_eq!(coll[0].slug, "good");
}

#[test]
fn tiny_markdown_file_keeps_whole_body() {
    let a = parse_markdown_file("t.md", "x".to_string(), None, d(2020, 1, 1), &providers())
        .unwrap();
    assert_eq!(a.content, "x");
    assert!(a.html_content.contains("<p>x</p>"));
}

#[test]
fn empty_frontmatter_block_counts_as_absent() {
    let content = "---\n---\nbody".to_string();
    let a = parse_markdown_file("e.md", content, None, d(2020, 1, 1), &providers()).unwrap();
    assert_eq!(a.content, "body");
    assert_eq!(a.title, "e");
}

#[test]
fn markdown_empty_frontmatter_title_falls_back() {
    let content = "---\ntitle: \"\"\ndescription: d\n---\nbody".to_string();
    let a = parse_markdown_file("fallback-post.md", content, None, d(2020, 1, 1), &providers())
        .unwrap();
    assert_eq!(a.title, "fallback post");
    assert_eq!(a.description, "d");
}

#[test]
fn hidden_file_stem_keeps_leading_dot() {
    let r = parse_file(".txt", "x".to_string(), None, d(2020, 1, 1), &providers());
    assert!(matches!(r, Err(ParseError::UnsupportedFileType { .. })));
}

#[test]
fn search_index_projects_in_order() {
    let a1 = parse_text_file("one.txt", "alpha".to_string(), None, d(2020, 1, 1), &providers());
    let a2 = parse_text_file("two.txt", "beta".to_string(), None, d(2020, 1, 2), &providers());
    let coll = vec![a1, a2];
    let idx = build_search_index(&coll);
    assert_eq!(idx.len(), 2);
    assert_eq!(idx[0].slug, "one");
    assert_eq!(idx[1].slug, "two");
    assert_eq!(idx[0].html_content, coll[0].html_content);
}
