use ruxlog_core::SourceFile;
use ruxlog_core::content::{parse_sources, parse_source_file, DemoContent, paginated};
use ruxlog_core::post::build_post;
use ruxlog_core::frontmatter::{
    Frontmatter, FrontmatterAuthor, FrontmatterCategory, FrontmatterImage, ParsedSource,
};

fn sample_source(path: &str, markdown: &str) -> SourceFile {
    SourceFile::new(path.to_string(), markdown.to_string())
}

fn valid_markdown(slug: &str) -> String {
    format!(
        "---\ntitle: \"Post {slug}\"\nslug: \"{slug}\"\nexcerpt: \"Excerpt for {slug}\"\npublished_at: \"2026-02-18T12:00:00Z\"\nauthor:\n  name: \"Demo Author\"\n  email: \"demo@example.com\"\ncategory:\n  name: \"Rust\"\n  slug: \"rust\"\ntags:\n  - name: \"Dioxus\"\n    slug: \"dioxus\"\nfeatured_image:\n  file_url: \"/assets/logo.png\"\n  width: 512\n  height: 512\n---\n# Heading\n\nBody text.\n"
    )
}

#[test]
fn parses_valid_markdown_into_posts() {
    let result = parse_sources(vec![sample_source("posts/one.md", &valid_markdown("one"))])
        .expect("valid markdown should parse");

    assert_eq!(result.posts().len(), 1);
    assert_eq!(result.tags().len(), 1);
    assert_eq!(result.categories().len(), 1);
    assert_eq!(result.posts()[0].slug, "one");
}

#[test]
fn rejects_duplicate_post_slugs() {
    let first = sample_source("posts/one.md", &valid_markdown("dup"));
    let second = sample_source("posts/two.md", &valid_markdown("dup"));

    let err = parse_sources(vec![first, second]).expect_err("duplicate slug must fail");
    assert!(err.message().contains("Duplicate post slug"));
}

#[test]
fn rejects_missing_required_fields() {
    let markdown = "---\nslug: \"missing-title\"\npublished_at: \"2026-02-18T12:00:00Z\"\nauthor:\n  name: \"Demo\"\n  email: \"demo@example.com\"\ncategory:\n  name: \"Rust\"\n  slug: \"rust\"\nfeatured_image:\n  file_url: \"/assets/logo.png\"\n---\nBody";

    let err = parse_sources(vec![sample_source("posts/invalid.md", markdown)])
        .expect_err("missing title must fail");

    let msg = err.message();
    assert!(msg.contains("Invalid frontmatter YAML") || msg.contains("`title` is required"));
}

#[test]
fn builds_indexes_for_categories_and_tags() {
    let first = sample_source("posts/one.md", &valid_markdown("one"));

    let second_md = "---\ntitle: \"Post Two\"\nslug: \"two\"\npublished_at: \"2026-02-19T12:00:00Z\"\nauthor:\n  name: \"Demo Author\"\n  email: \"demo@example.com\"\ncategory:\n  name: \"Rust\"\n  slug: \"rust\"\ntags:\n  - name: \"WASM\"\n    slug: \"wasm\"\nfeatured_image:\n  file_url: \"/assets/logo.png\"\n---\nBody";
    let second = sample_source("posts/two.md", second_md);

    let parsed = parse_sources(vec![first, second]).expect("must parse");
    assert_eq!(parsed.categories().len(), 1);
    assert_eq!(parsed.tags().len(), 2);

    let rust = parsed
        .categories()
        .iter()
        .find(|cat| cat.slug == "rust")
        .expect("category exists");

    let rust_posts = parsed.posts_by_category_id(rust.id);
    assert_eq!(rust_posts.len(), 2);

    let dioxus = parsed
        .tags()
        .iter()
        .find(|tag| tag.slug == "dioxus")
        .expect("tag exists");

    let dioxus_posts = parsed.posts_by_tag_id(dioxus.id);
    assert_eq!(dioxus_posts.len(), 1);
}

#[test]
fn single_post_corpus_yields_unit_ids() {
    let result = parse_sources(vec![sample_source("posts/solo.md", &valid_markdown("solo"))])
        .expect("must parse");

    assert_eq!(result.posts().len(), 1);
    assert_eq!(result.posts()[0].id, 1);
    assert_eq!(result.categories().len(), 1);
    assert_eq!(result.categories()[0].id, 1);
    assert_eq!(result.tags().len(), 1);
    assert_eq!(result.tags()[0].id, 1);
    assert_eq!(result.posts()[0].author.id, 1);
}

fn post_md(slug: &str, published_at: &str) -> String {
    format!(
        "---\ntitle: \"Post {slug}\"\nslug: \"{slug}\"\npublished_at: \"{published_at}\"\nauthor:\n  name: \"Demo Author\"\n  email: \"demo@example.com\"\ncategory:\n  name: \"Rust\"\n  slug: \"rust\"\nfeatured_image:\n  file_url: \"/assets/logo.png\"\n---\nBody for {slug}.\n"
    )
}

#[test]
fn posts_sorted_newest_first() {
    let sources = vec![
        sample_source("posts/a.md", &post_md("alpha", "2026-01-01T00:00:00Z")),
        sample_source("posts/b.md", &post_md("beta", "2026-03-01T00:00:00Z")),
        sample_source("posts/c.md", &post_md("gamma", "2026-02-01T00:00:00Z")),
    ];
    let result = parse_sources(sources).expect("must parse");
    let slugs: Vec<&str> = result.posts().iter().map(|p| p.slug.as_str()).collect();
    assert_eq!(slugs, vec!["beta", "gamma", "alpha"]);
}

#[test]
fn equal_publish_times_fall_back_to_slug_order() {
    let sources = vec![
        sample_source("posts/z.md", &post_md("zebra", "2026-02-18T12:00:00Z")),
        sample_source("posts/a.md", &post_md("aardvark", "2026-02-18T12:00:00Z")),
    ];
    let result = parse_sources(sources).expect("must parse");
    let slugs: Vec<&str> = result.posts().iter().map(|p| p.slug.as_str()).collect();
    assert_eq!(slugs, vec!["aardvark", "zebra"]);
}

#[test]
fn rejects_conflicting_category_names() {
    let one = "---\ntitle: \"One\"\nslug: \"one\"\npublished_at: \"2026-02-18T12:00:00Z\"\nauthor:\n  name: \"A\"\n  email: \"a@example.com\"\ncategory:\n  name: \"Rust\"\n  slug: \"rust\"\nfeatured_image:\n  file_url: \"/a.png\"\n---\nBody";
    let two = "---\ntitle: \"Two\"\nslug: \"two\"\npublished_at: \"2026-02-18T12:00:00Z\"\nauthor:\n  name: \"A\"\n  email: \"a@example.com\"\ncategory:\n  name: \"Rust Lang\"\n  slug: \"rust\"\nfeatured_image:\n  file_url: \"/a.png\"\n---\nBody";
    let err = parse_sources(vec![
        sample_source("posts/one.md", one),
        sample_source("posts/two.md", two),
    ])
    .expect_err("conflicting category must fail");
    assert!(err.message().contains("Category 'rust' has conflicting metadata"));
}

#[test]
fn rejects_conflicting_tag_colors() {
    let one = "---\ntitle: \"One\"\nslug: \"one\"\npublished_at: \"2026-02-18T12:00:00Z\"\nauthor:\n  name: \"A\"\n  email: \"a@example.com\"\ncategory:\n  name: \"Rust\"\n  slug: \"rust\"\ntags:\n  - name: \"T\"\n    slug: \"t\"\n    color: \"#111111\"\nfeatured_image:\n  file_url: \"/a.png\"\n---\nBody";
    let two = "---\ntitle: \"Two\"\nslug: \"two\"\npublished_at: \"2026-02-18T12:00:00Z\"\nauthor:\n  name: \"A\"\n  email: \"a@example.com\"\ncategory:\n  name: \"Rust\"\n  slug: \"rust\"\ntags:\n  - name: \"T\"\n    slug: \"t\"\n    color: \"#222222\"\nfeatured_image:\n  file_url: \"/a.png\"\n---\nBody";
    let err = parse_sources(vec![
        sample_source("posts/one.md", one),
        sample_source("posts/two.md", two),
    ])
    .expect_err("conflicting tag must fail");
    assert!(err.message().contains("Tag 't' has conflicting metadata"));
}

#[test]
fn rejects_conflicting_author_names_case_insensitively() {
    let one = "---\ntitle: \"One\"\nslug: \"one\"\npublished_at: \"2026-02-18T12:00:00Z\"\nauthor:\n  name: \"Alice\"\n  email: \"Demo@Example.com\"\ncategory:\n  name: \"Rust\"\n  slug: \"rust\"\nfeatured_image:\n  file_url: \"/a.png\"\n---\nBody";
    let two = "---\ntitle: \"Two\"\nslug: \"two\"\npublished_at: \"2026-02-18T12:00:00Z\"\nauthor:\n  name: \"Bob\"\n  email: \"demo@example.com\"\ncategory:\n  name: \"Rust\"\n  slug: \"rust\"\nfeatured_image:\n  file_url: \"/a.png\"\n---\nBody";
    let err = parse_sources(vec![
        sample_source("posts/one.md", one),
        sample_source("posts/two.md", two),
    ])
    .expect_err("same folded email with two names must fail");
    assert!(err.message().contains("Author email 'demo@example.com' has multiple names"));
}

#[test]
fn rejects_empty_corpus() {
    let err = parse_sources(vec![]).expect_err("empty corpus must fail");
    assert_eq!(err.message(), "At least one markdown post is required");
}

#[test]
fn rejects_missing_opening_delimiter() {
    let err = parse_sources(vec![sample_source("posts/x.md", "title: no frontmatter\n")])
        .expect_err("must fail");
    assert_eq!(err.message(), "posts/x.md: Missing opening frontmatter delimiter `---`");
}

#[test]
fn rejects_missing_closing_delimiter() {
    let err = parse_sources(vec![sample_source("posts/x.md", "---\ntitle: \"X\"\n")])
        .expect_err("must fail");
    assert_eq!(err.message(), "posts/x.md: Missing closing frontmatter delimiter `---`");
}

#[test]
fn rejects_blank_body() {
    let md = "---\ntitle: \"X\"\nslug: \"x\"\npublished_at: \"2026-02-18T12:00:00Z\"\nauthor:\n  name: \"A\"\n  email: \"a@example.com\"\ncategory:\n  name: \"Rust\"\n  slug: \"rust\"\nfeatured_image:\n  file_url: \"/a.png\"\n---\n   \n";
    let err = parse_sources(vec![sample_source("posts/x.md", md)]).expect_err("must fail");
    assert_eq!(err.message(), "posts/x.md: Markdown body cannot be empty");
}

#[test]
fn rejects_unparseable_yaml() {
    let md = "---\ntitle: [unclosed\n---\nBody";
    let err = parse_sources(vec![sample_source("posts/x.md", md)]).expect_err("must fail");
    assert_eq!(err.message(), "posts/x.md: Invalid frontmatter YAML");
}

#[test]
fn rejects_blank_required_field_with_field_path() {
    let md = "---\ntitle: \"  \"\nslug: \"x\"\npublished_at: \"2026-02-18T12:00:00Z\"\nauthor:\n  name: \"A\"\n  email: \"a@example.com\"\ncategory:\n  name: \"Rust\"\n  slug: \"rust\"\nfeatured_image:\n  file_url: \"/a.png\"\n---\nBody";
    let err = parse_sources(vec![sample_source("posts/x.md", md)]).expect_err("must fail");
    assert_eq!(err.message(), "posts/x.md: `title` is required");
}

#[test]
fn rejects_blank_tag_name_with_index() {
    let md = "---\ntitle: \"X\"\nslug: \"x\"\npublished_at: \"2026-02-18T12:00:00Z\"\nauthor:\n  name: \"A\"\n  email: \"a@example.com\"\ncategory:\n  name: \"Rust\"\n  slug: \"rust\"\ntags:\n  - name: \"ok\"\n    slug: \"ok\"\n  - name: \" \"\n    slug: \"bad\"\nfeatured_image:\n  file_url: \"/a.png\"\n---\nBody";
    let err = parse_sources(vec![sample_source("posts/x.md", md)]).expect_err("must fail");
    assert_eq!(err.message(), "posts/x.md: `tags[1].name` is required");
}

#[test]
fn post_fields_carry_parsed_metadata() {
    let result = parse_sources(vec![sample_source("posts/one.md", &valid_markdown("one"))])
        .expect("must parse");
    let post = &result.posts()[0];
    assert_eq!(post.title, "Post one");
    assert_eq!(post.excerpt.as_deref(), Some("Excerpt for one"));
    assert_eq!(post.published_at_ms, Some(1771416000000));
    assert_eq!(post.created_at_ms, 1771416000000);
    assert_eq!(post.updated_at_ms, 1771416000000);
    assert_eq!(post.author.email, "demo@example.com");
    assert_eq!(post.category.slug, "rust");
    assert_eq!(post.tags.len(), 1);
    assert_eq!(post.tags[0].slug, "dioxus");
    assert_eq!(post.tags[0].color, "#3b82f6");
    assert_eq!(post.likes_count, 0);
    assert_eq!(post.view_count, 0);
    assert_eq!(post.comment_count, 0);
    assert_eq!(post.content.time, 1771416000000u64);
    assert_eq!(post.content.version, "markdown-demo-v1");
    assert_eq!(post.content.blocks.len(), 1);
    assert_eq!(post.content.blocks[0].id.as_deref(), Some("markdown-body"));
}

#[test]
fn category_defaults_are_applied() {
    let result = parse_sources(vec![sample_source("posts/one.md", &valid_markdown("one"))])
        .expect("must parse");
    let cat = &result.categories()[0];
    assert_eq!(cat.name, "Rust");
    assert_eq!(cat.color, "#f97316");
    assert_eq!(cat.text_color, "#ffffff");
    assert!(cat.is_active);
}

#[test]
fn featured_image_mime_and_object_key() {
    let result = parse_sources(vec![sample_source("posts/one.md", &valid_markdown("one"))])
        .expect("must parse");
    let media = result.posts()[0].featured_image.clone().expect("image");
    assert_eq!(media.file_url, "/assets/logo.png");
    assert_eq!(media.object_key, "assets/logo.png");
    assert_eq!(media.mime_type, "image/png");
    assert_eq!(media.extension.as_deref(), Some("png"));
    assert_eq!(media.size, 0);
    assert_eq!(media.width, Some(512));
    assert_eq!(media.height, Some(512));
}

#[test]
fn unknown_extension_defaults_to_jpeg() {
    let md = "---\ntitle: \"X\"\nslug: \"x\"\npublished_at: \"2026-02-18T12:00:00Z\"\nauthor:\n  name: \"A\"\n  email: \"a@example.com\"\ncategory:\n  name: \"Rust\"\n  slug: \"rust\"\nfeatured_image:\n  file_url: \"/img/banner.WEBP\"\n---\nBody";
    let result = parse_sources(vec![sample_source("posts/x.md", md)]).expect("must parse");
    let media = result.posts()[0].featured_image.clone().expect("image");
    assert_eq!(media.mime_type, "image/webp");
    assert_eq!(media.extension.as_deref(), Some("webp"));

    let md2 = "---\ntitle: \"Y\"\nslug: \"y\"\npublished_at: \"2026-02-18T12:00:00Z\"\nauthor:\n  name: \"A\"\n  email: \"a@example.com\"\ncategory:\n  name: \"Rust\"\n  slug: \"rust\"\nfeatured_image:\n  file_url: \"/img/banner\"\n---\nBody";
    let result2 = parse_sources(vec![sample_source("posts/y.md", md2)]).expect("must parse");
    let media2 = result2.posts()[0].featured_image.clone().expect("image");
    assert_eq!(media2.mime_type, "image/jpeg");
    assert_eq!(media2.extension, None);
}

#[test]
fn markdown_body_is_rendered_and_sanitized() {
    let md = "---\ntitle: \"X\"\nslug: \"x\"\npublished_at: \"2026-02-18T12:00:00Z\"\nauthor:\n  name: \"A\"\n  email: \"a@example.com\"\ncategory:\n  name: \"Rust\"\n  slug: \"rust\"\nfeatured_image:\n  file_url: \"/a.png\"\n---\n# Heading\n\n<script>alert('x')</script>\n\nBody text.\n";
    let result = parse_sources(vec![sample_source("posts/x.md", md)]).expect("must parse");
    let html = &result.posts()[0].content.blocks[0].html;
    assert!(html.contains("<h1"));
    assert!(html.contains("Body text."));
    assert!(!html.contains("<script"));
}

#[test]
fn lookup_accessors_find_entities() {
    let result = parse_sources(vec![sample_source("posts/one.md", &valid_markdown("one"))])
        .expect("must parse");
    assert!(result.post_by_slug("one").is_some());
    assert!(result.post_by_slug("missing").is_none());
    assert_eq!(result.tag_by_slug("dioxus").expect("tag").name, "Dioxus");
    assert!(result.tag_by_slug("nope").is_none());
    assert_eq!(result.category_by_slug("rust").expect("cat").name, "Rust");
    assert!(result.category_by_slug("nope").is_none());
    assert!(result.posts_by_tag_id(0).is_empty());
    assert!(result.posts_by_category_id(99).is_empty());
}

#[test]
fn dynamic_routes_are_sorted_and_complete() {
    let first = sample_source("posts/one.md", &valid_markdown("one"));
    let second_md = "---\ntitle: \"Post Two\"\nslug: \"two\"\npublished_at: \"2026-02-19T12:00:00Z\"\nauthor:\n  name: \"Demo Author\"\n  email: \"demo@example.com\"\ncategory:\n  name: \"Rust\"\n  slug: \"rust\"\ntags:\n  - name: \"WASM\"\n    slug: \"wasm\"\nfeatured_image:\n  file_url: \"/assets/logo.png\"\n---\nBody";
    let second = sample_source("posts/two.md", second_md);
    let result = parse_sources(vec![first, second]).expect("must parse");
    let routes = result.dynamic_routes();
    assert_eq!(
        routes,
        vec![
            "/categories/rust".to_string(),
            "/posts/one".to_string(),
            "/posts/two".to_string(),
            "/tags/dioxus".to_string(),
            "/tags/wasm".to_string(),
        ]
    );
}

#[test]
fn repeated_access_is_identical() {
    let result = parse_sources(vec![sample_source("posts/one.md", &valid_markdown("one"))])
        .expect("must parse");
    assert_eq!(result.posts(), result.posts());
    assert_eq!(result.post_by_slug("one"), result.post_by_slug("one"));
    assert_eq!(result.tags(), result.tags());
    assert_eq!(result.categories(), result.categories());
    assert_eq!(result.dynamic_routes(), result.dynamic_routes());

    let again = parse_sources(vec![sample_source("posts/one.md", &valid_markdown("one"))])
        .expect("must parse");
    assert_eq!(result.posts()[0].id, again.posts()[0].id);
    assert_eq!(result.categories()[0].id, again.categories()[0].id);
}

fn parsed_fixture() -> ParsedSource {
    let source = sample_source("posts/one.md", &valid_markdown("one"));
    parse_source_file(&source).expect("must parse")
}

#[test]
fn build_post_reports_missing_author_id() {
    let parsed = parsed_fixture();
    let err = build_post(1, &parsed, &vec![], &vec![], &vec![], 0)
        .expect_err("no author table entry");
    assert_eq!(
        err.message(),
        "Missing generated author id for email 'demo@example.com' in posts/one.md"
    );
}

#[test]
fn build_post_reports_unknown_category_and_tag() {
    let parsed = parsed_fixture();
    let authors = vec![("demo@example.com".to_string(), 1)];
    let err = build_post(1, &parsed, &authors, &vec![], &vec![], 0)
        .expect_err("no categories");
    assert_eq!(err.message(), "Unknown category 'rust' referenced by posts/one.md");

    let full = parse_sources(vec![sample_source("posts/one.md", &valid_markdown("one"))])
        .expect("must parse");
    let cats: Vec<_> = full.categories().clone();
    let err2 = build_post(1, &parsed, &authors, &cats, &vec![], 0).expect_err("no tags");
    assert_eq!(err2.message(), "Unknown tag 'dioxus' referenced by posts/one.md");
}

#[test]
fn paginated_wraps_whole_list() {
    let page = paginated(vec![10u32, 20, 30]);
    assert_eq!(page.data, vec![10, 20, 30]);
    assert_eq!(page.total, 3);
    assert_eq!(page.page, 1);
    assert_eq!(page.per_page, 3);

    let empty: Vec<u32> = vec![];
    let page2 = paginated(empty);
    assert_eq!(page2.total, 0);
    assert_eq!(page2.per_page, 1);
}

#[test]
fn frontmatter_types_round_trip() {
    let fm = Frontmatter {
        title: "T".to_string(),
        slug: "t".to_string(),
        excerpt: None,
        published_at_ms: 0,
        updated_at_ms: None,
        author: FrontmatterAuthor { name: "A".to_string(), email: "a@b.c".to_string() },
        category: FrontmatterCategory { name: "C".to_string(), slug: "c".to_string(), color: None },
        tags: vec![],
        featured_image: FrontmatterImage { file_url: "/x.png".to_string(), width: None, height: None },
    };
    assert_eq!(fm.clone(), fm);
}

#[test]
fn snapshot_type_is_cloneable() {
    let result = parse_sources(vec![sample_source("posts/one.md", &valid_markdown("one"))])
        .expect("must parse");
    let copy: DemoContent = result.clone();
    assert_eq!(copy.posts()[0].slug, result.posts()[0].slug);
}
