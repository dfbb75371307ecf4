use sitegen::dates::{parse_date_str, Date};
use sitegen::resource::validate_resource_urls;
use sitegen::scan::{extract_body_tags, extract_first_url};
use sitegen::share::generate_share_links;
use sitegen::tags::normalize_tags;

fn d(year: u32, month: u32, day: u32) -> Date {
    Date { year, month, day }
}

#[test]
fn first_url_leftmost_and_maximal() {
    assert_eq!(
        extract_first_url("see https://a.com/x?q=1 and http://b.com"),
        Some("https://a.com/x?q=1".to_string())
    );
    assert_eq!(
        extract_first_url("(http://wrapped.example/path) tail"),
        Some("http://wrapped.example/path".to_string())
    );
    assert_eq!(extract_first_url("no links here"), None);
    assert_eq!(extract_first_url("http:// bare scheme"), None);
}

#[test]
fn body_tags_unicode_and_order() {
    assert_eq!(
        extract_body_tags("intro #rust mid #你好 end #re-try #rust"),
        vec![
            "rust".to_string(),
            "你好".to_string(),
            "re-try".to_string(),
            "rust".to_string()
        ]
    );
    assert_eq!(
        extract_body_tags("#9lives #-dash # alone"),
        vec!["9lives".to_string(), "-dash".to_string()]
    );
    assert_eq!(extract_body_tags("#2024 was a year"), vec!["2024".to_string()]);
    assert_eq!(extract_body_tags("# alone ## also"), Vec::<String>::new());
}

#[test]
fn tag_dedup_idempotent_and_sorted() {
    let once = normalize_tags(extract_body_tags("#a #b #a"));
    assert_eq!(once, vec!["a".to_string(), "b".to_string()]);
    let twice = normalize_tags(once.clone());
    assert_eq!(twice, once);
}

#[test]
fn tag_normalization_drops_empty_and_sorts() {
    let tags = vec![
        "zeta".to_string(),
        "".to_string(),
        "alpha".to_string(),
        "zeta".to_string(),
    ];
    assert_eq!(
        normalize_tags(tags),
        vec!["alpha".to_string(), "zeta".to_string()]
    );
}

#[test]
fn resource_validator_accepts_absolute_anchor_and_data() {
    let html = "<img src=\"https://x.com/a.png\"><a href=\"#top\">t</a><img src=\"data:image/png;base64,AAAA\">";
    assert!(validate_resource_urls(html, "f.md").is_ok());
}

#[test]
fn resource_validator_rejects_relative() {
    let r = validate_resource_urls("<img src=\"/local.png\">", "f.md");
    let e = r.err().unwrap();
    assert_eq!(e.file, "f.md");
    assert_eq!(e.value, "/local.png");

    let r2 = validate_resource_urls("<a href=\"relative.html\">x</a>", "g.md");
    assert_eq!(r2.err().unwrap().value, "relative.html");
}

#[test]
fn resource_validator_accepts_empty_value() {
    assert!(validate_resource_urls("<a href=\"\">x</a>", "f.md").is_ok());
}

#[test]
fn resource_validator_rejects_authority_less_urls() {
    let r = validate_resource_urls("<a href=\"mailto:someone@a.example\">m</a>", "f.md");
    assert_eq!(r.err().unwrap().value, "mailto:someone@a.example");
    let r2 = validate_resource_urls("<a href=\"tel:+15550100\">t</a>", "f.md");
    assert_eq!(r2.err().unwrap().value, "tel:+15550100");
}

#[test]
fn share_link_exact_encoding() {
    let providers = vec![(
        "X".to_string(),
        "https://x.com/intent?text={TEXT}&url={URL}".to_string(),
    )];
    let links = generate_share_links(
        &providers,
        &Some("https://a.com".to_string()),
        "title",
        "Hi",
        &[],
    );
    assert_eq!(links.len(), 1);
    assert_eq!(links[0].provider_name, "X");
    assert_eq!(
        links[0].url,
        "https://x.com/intent?text=Hi&url=https%3A%2F%2Fa.com"
    );
}

#[test]
fn share_link_tags_rendering() {
    let providers = vec![("T".to_string(), "https://t.example/?tags={TAGS}".to_string())];
    let tags = vec!["my tag".to_string(), "rust".to_string()];
    let links = generate_share_links(&providers, &None, "t", "x", &tags);
    assert_eq!(links[0].url, "https://t.example/?tags=%23my_tag%20%23rust");
}

#[test]
fn share_link_without_placeholders_passes_through() {
    let providers = vec![("P".to_string(), "https://p.example/fixed".to_string())];
    let links = generate_share_links(&providers, &None, "t", "x", &[]);
    assert_eq!(links[0].url, "https://p.example/fixed");
}

#[test]
fn share_link_absent_url_encodes_empty() {
    let providers = vec![("P".to_string(), "https://p.example/?u={URL}".to_string())];
    let links = generate_share_links(&providers, &None, "t", "x", &[]);
    assert_eq!(links[0].url, "https://p.example/?u=");
}

#[test]
fn share_link_encodes_unicode_title() {
    let providers = vec![("P".to_string(), "https://p.example/?t={TITLE}".to_string())];
    let links = generate_share_links(&providers, &None, "héllo", "x", &[]);
    assert_eq!(links[0].url, "https://p.example/?t=h%C3%A9llo");
}

#[test]
fn date_parsing_strict_and_calendar_aware() {
    assert_eq!(parse_date_str("2024-02-29"), Some(d(2024, 2, 29)));
    assert_eq!(parse_date_str("2023-02-29"), None);
    assert_eq!(parse_date_str("2023-1-01"), None);
    assert_eq!(parse_date_str("2023-01-01 "), None);
    assert_eq!(parse_date_str("2023-13-01"), None);
    assert_eq!(parse_date_str("2023-00-10"), None);
    assert_eq!(parse_date_str("2023-04-31"), None);
    assert_eq!(parse_date_str("1600-02-29"), Some(d(1600, 2, 29)));
}
