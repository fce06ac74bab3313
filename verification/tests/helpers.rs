use ruxlog_core::seo::{
    clean_text, generate_excerpt, format_title, canonical_url, truncate_description,
    ensure_absolute_url, seo_config, RobotsDirective,
};
use ruxlog_core::config::{
    DarkMode, brand, initialize, is_available, track_page_view, get_theme, set_theme,
    build_public_file_url, escape_sql_literal,
};

#[test]
fn test_format_title_empty() {
    let cfg = seo_config();
    let result = format_title("");
    assert!(result.contains(cfg.site_name));
    assert!(result.contains(cfg.site_tagline));
}

#[test]
fn test_format_title_with_page() {
    let result = format_title("About");
    assert_eq!(result, "About | Hmziq.rs Blog");
}

#[test]
fn test_canonical_url() {
    let result = canonical_url("/posts/123");
    assert!(result.ends_with("/posts/123"));
}

#[test]
fn test_canonical_url_without_leading_slash() {
    let result = canonical_url("posts/123");
    assert!(result.ends_with("/posts/123"));
}

#[test]
fn test_truncate_description_short() {
    let text = "Short description";
    let result = truncate_description(text, 160);
    assert_eq!(result, text);
}

#[test]
fn test_truncate_description_long() {
    let text = "This is a very long description that needs to be truncated to fit within the SEO-optimal length of 150-160 characters for meta descriptions to ensure good search engine results";
    let result = truncate_description(text, 160);
    assert!(result.len() <= 163);
    assert!(result.ends_with("..."));
}

#[test]
fn test_clean_text() {
    let input = "Hello   world  &nbsp; &amp; test";
    let result = clean_text(input);
    assert_eq!(result, "Hello world   & test");
}

#[test]
fn clean_text_decodes_remaining_entities() {
    let input = "a &lt;b&gt; &quot;c&quot; &#39;d&#39;";
    assert_eq!(clean_text(input), "a <b> \"c\" 'd'");
}

#[test]
fn test_generate_excerpt_short() {
    let content = "Short content.";
    let result = generate_excerpt(content, 100);
    assert_eq!(result, content);
}

#[test]
fn test_generate_excerpt_long() {
    let content = "This is the first sentence. This is the second sentence. This is a very long third sentence that should be truncated.";
    let result = generate_excerpt(content, 60);
    assert!(result.ends_with('.'));
    assert!(result.len() <= 60);
}

#[test]
fn test_ensure_absolute_url_already_absolute() {
    let url = "https://example.com/image.jpg";
    let result = ensure_absolute_url(url, "https://base.com");
    assert_eq!(result, url);
}

#[test]
fn test_ensure_absolute_url_relative() {
    let url = "/images/test.jpg";
    let result = ensure_absolute_url(url, "https://base.com");
    assert_eq!(result, "https://base.com/images/test.jpg");
}

#[test]
fn test_ensure_absolute_url_no_leading_slash() {
    let url = "images/test.jpg";
    let result = ensure_absolute_url(url, "https://base.com");
    assert_eq!(result, "https://base.com/images/test.jpg");
}

#[test]
fn robots_directives_render() {
    assert_eq!(RobotsDirective::IndexFollow.to_string(), "index, follow");
    assert_eq!(RobotsDirective::NoIndexFollow.to_string(), "noindex, follow");
    assert_eq!(RobotsDirective::IndexNoFollow.to_string(), "index, nofollow");
    assert_eq!(RobotsDirective::NoIndexNoFollow.to_string(), "noindex, nofollow");
}

#[test]
fn dark_mode_toggles() {
    let mut mode = DarkMode(false);
    mode.toggle();
    assert_eq!(mode, DarkMode(true));
    mode.toggle();
    assert_eq!(mode, DarkMode(false));
}

#[test]
fn brand_values_are_fixed() {
    let b = brand();
    assert_eq!(b.app_name, "Hmziq.rs Blog");
    assert_eq!(b.copyright_year, "2026");
}

#[test]
fn server_side_analytics_and_theme_are_inert() {
    assert!(!initialize());
    assert!(!is_available());
    track_page_view("/blog", "Blog");
    assert_eq!(get_theme(), None);
    set_theme("dark");
    assert_eq!(get_theme(), None);
}

#[test]
fn builds_public_file_urls() {
    assert_eq!(
        build_public_file_url("https://cdn.example.com/", Some("media"), "/img/a.png"),
        "https://cdn.example.com/media/img/a.png"
    );
    assert_eq!(
        build_public_file_url("https://cdn.example.com", None, "img/a.png"),
        "https://cdn.example.com/img/a.png"
    );
    assert_eq!(
        build_public_file_url("https://cdn.example.com/", Some("  "), "/img/a.png"),
        "https://cdn.example.com/img/a.png"
    );
    assert_eq!(
        build_public_file_url("https://cdn.example.com", Some("/media/"), "a.png"),
        "https://cdn.example.com/media/a.png"
    );
}

#[test]
fn escapes_sql_literals() {
    assert_eq!(escape_sql_literal("O'Brien"), "O''Brien");
    assert_eq!(escape_sql_literal("plain"), "plain");
    assert_eq!(escape_sql_literal("''"), "''''");
}

#[test]
fn http_config_first_call_wins() {
    let mut cfg = ruxlog_core::config::HttpConfig::new();
    assert_eq!(cfg.get_base_url(), "");
    assert_eq!(cfg.get_csrf_token(), "");
    cfg.configure("https://api.example.com".to_string(), "token-one".to_string());
    cfg.configure("https://other.example.com".to_string(), "token-two".to_string());
    assert_eq!(cfg.get_base_url(), "https://api.example.com");
    assert_eq!(cfg.get_csrf_token(), "token-one");
}
