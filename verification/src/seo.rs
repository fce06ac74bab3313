//! Page-metadata helpers: title formatting, canonical URLs, description
//! truncation, text cleaning, excerpt generation, and robots directives.

use vstd::prelude::*;
use vstd::string::*;
use crate::text::{
    trim, trim_spec, spec_rfind, rfind_char, spec_replace, replace_all, spec_collapse_ws,
    spec_starts_with, starts_with, run_suffix_len, strip_trailing, run_prefix_len,
};
use crate::bridge::collapse_ws;

verus! {

/// Site-wide metadata configuration.
pub struct SeoConfig {
    pub site_name: &'static str,
    pub site_tagline: &'static str,
    pub consumer_url: &'static str,
    pub default_image: &'static str,
    pub default_description: &'static str,
    pub twitter_handle: Option<&'static str>,
    pub locale: &'static str,
}

pub open spec fn site_name_spec() -> Seq<char> {
    "Hmziq.rs Blog"@
}

pub open spec fn site_tagline_spec() -> Seq<char> {
    "Thoughts on software and technology"@
}

pub open spec fn consumer_url_spec() -> Seq<char> {
    "http://localhost:1108"@
}

/// The fixed site configuration.
pub fn seo_config() -> (c: SeoConfig)
    ensures
        c.site_name@ == site_name_spec(),
        c.site_tagline@ == site_tagline_spec(),
        c.consumer_url@ == consumer_url_spec(),
        c.default_image@ == "/assets/og-default.png"@,
        c.default_description@ == "Modern blog covering Rust, Dioxus, web development, and technology"@,
        c.twitter_handle matches Some(h) && h@ == "@hmziqrs"@,
        c.locale@ == "en_US"@,
{
    SeoConfig {
        site_name: "Hmziq.rs Blog",
        site_tagline: "Thoughts on software and technology",
        consumer_url: "http://localhost:1108",
        default_image: "/assets/og-default.png",
        default_description: "Modern blog covering Rust, Dioxus, web development, and technology",
        twitter_handle: Some("@hmziqrs"),
        locale: "en_US",
    }
}

/// The formatted page title: `"{title} | {site}"`, or `"{site} - {tagline}"`
/// for an empty title.
pub open spec fn format_title_spec(page_title: Seq<char>) -> Seq<char> {
    if page_title.len() == 0 {
        site_name_spec() + " - "@ + site_tagline_spec()
    } else {
        page_title + " | "@ + site_name_spec()
    }
}

/// Formats a page title with the site name.
pub fn format_title(page_title: &str) -> (r: String)
    ensures
        r@ == format_title_spec(page_title@),
{
    let cfg = seo_config();
    let mut s = String::new();
    if page_title.unicode_len() == 0 {
        s.append(cfg.site_name);
        s.append(" - ");
        s.append(cfg.site_tagline);
    } else {
        s.append(page_title);
        s.append(" | ");
        s.append(cfg.site_name);
    }
    proof {
        assert(s@ =~= format_title_spec(page_title@));
    }
    s
}

/// The canonical URL of a route path: the consumer site URL followed by the
/// path, with a `/` supplied when the path lacks one.
pub open spec fn canonical_url_spec(path: Seq<char>) -> Seq<char> {
    if path.len() > 0 && path[0] == '/' {
        consumer_url_spec() + path
    } else {
        consumer_url_spec() + "/"@ + path
    }
}

/// Builds the canonical URL for a route path.
pub fn canonical_url(path: &str) -> (r: String)
    ensures
        r@ == canonical_url_spec(path@),
{
    let cfg = seo_config();
    let mut s = String::new();
    s.append(cfg.consumer_url);
    if !(path.unicode_len() > 0 && path.get_char(0) == '/') {
        s.append("/");
    }
    s.append(path);
    proof {
        assert(s@ =~= canonical_url_spec(path@));
    }
    s
}

/// A description truncated to at most `max` characters plus an ellipsis:
/// text short enough passes through; otherwise the cut falls back to the
/// last space before the limit, to avoid splitting a word.
pub open spec fn truncate_description_spec(t: Seq<char>, max: int) -> Seq<char> {
    if t.len() <= max {
        t
    } else {
        let tr = t.take(max);
        match spec_rfind(tr, ' ') {
            Some(p) => t.take(p) + "..."@,
            None => tr + "..."@,
        }
    }
}

/// Truncates a description to an SEO-friendly length.
pub fn truncate_description(text: &str, max_len: usize) -> (r: String)
    ensures
        r@ == truncate_description_spec(text@, max_len as int),
{
    let n = text.unicode_len();
    if n <= max_len {
        return text.to_owned();
    }
    let truncated = text.substring_char(0, max_len);
    proof {
        assert(truncated@ =~= text@.take(max_len as int));
    }
    let cut: &str = match rfind_char(truncated, ' ') {
        Some(p) => text.substring_char(0, p),
        None => truncated,
    };
    let mut s = cut.to_owned();
    s.append("...");
    proof {
        assert(s@ =~= truncate_description_spec(text@, max_len as int));
    }
    s
}

/// Cleaned display text: whitespace runs collapsed to single spaces, the
/// common HTML entities decoded, and the ends trimmed.
pub open spec fn clean_text_spec(t: Seq<char>) -> Seq<char> {
    let c0 = spec_collapse_ws(t);
    let c1 = spec_replace(c0, "&nbsp;"@, " "@);
    let c2 = spec_replace(c1, "&amp;"@, "&"@);
    let c3 = spec_replace(c2, "&lt;"@, "<"@);
    let c4 = spec_replace(c3, "&gt;"@, ">"@);
    let c5 = spec_replace(c4, "&quot;"@, "\""@);
    let c6 = spec_replace(c5, "&#39;"@, "'"@);
    trim_spec(c6)
}

/// Cleans text by collapsing whitespace and decoding common HTML entities.
pub fn clean_text(text: &str) -> (r: String)
    ensures
        r@ == clean_text_spec(text@),
{
    proof {
        reveal_strlit("&nbsp;");
        reveal_strlit("&amp;");
        reveal_strlit("&lt;");
        reveal_strlit("&gt;");
        reveal_strlit("&quot;");
        reveal_strlit("&#39;");
    }
    let c0 = collapse_ws(text);
    let c1 = replace_all(c0.as_str(), "&nbsp;", " ");
    let c2 = replace_all(c1.as_str(), "&amp;", "&");
    let c3 = replace_all(c2.as_str(), "&lt;", "<");
    let c4 = replace_all(c3.as_str(), "&gt;", ">");
    let c5 = replace_all(c4.as_str(), "&quot;", "\"");
    let c6 = replace_all(c5.as_str(), "&#39;", "'");
    trim(c6.as_str()).to_owned()
}

/// Is `c` a sentence-ending character?
pub open spec fn is_sentence_end(c: char) -> bool {
    c == '.' || c == '!' || c == '?'
}

/// The position of the last sentence-ending character in `s`.
pub open spec fn spec_rfind_sentence(s: Seq<char>) -> Option<int>
    decreases s.len(),
{
    if s.len() == 0 {
        None
    } else if is_sentence_end(s.last()) {
        Some(s.len() - 1)
    } else {
        spec_rfind_sentence(s.drop_last())
    }
}

proof fn lemma_rfind_sentence_unique(s: Seq<char>, i: int)
    requires
        0 <= i < s.len(),
        is_sentence_end(s[i]),
        forall|j: int| i < j < s.len() ==> !is_sentence_end(s[j]),
    ensures
        spec_rfind_sentence(s) == Some(i),
    decreases s.len(),
{
    if !is_sentence_end(s.last()) {
        assert forall|j: int| i < j < s.drop_last().len() implies !is_sentence_end(
            s.drop_last()[j],
        ) by {
            assert(s.drop_last()[j] == s[j]);
        }
        lemma_rfind_sentence_unique(s.drop_last(), i);
    }
}

proof fn lemma_rfind_sentence_none(s: Seq<char>)
    requires
        forall|j: int| 0 <= j < s.len() ==> !is_sentence_end(s[j]),
    ensures
        spec_rfind_sentence(s) is None,
    decreases s.len(),
{
    if s.len() > 0 {
        assert forall|j: int| 0 <= j < s.drop_last().len() implies !is_sentence_end(
            s.drop_last()[j],
        ) by {
            assert(s.drop_last()[j] == s[j]);
        }
        lemma_rfind_sentence_none(s.drop_last());
    }
}

fn rfind_sentence(s: &str) -> (r: Option<usize>)
    ensures
        match r {
            Some(i) => i < s@.len() && spec_rfind_sentence(s@) == Some(i as int),
            None => spec_rfind_sentence(s@) is None,
        },
{
    let n: usize = s.unicode_len();
    let mut k: usize = n;
    while k > 0
        invariant
            0 <= k <= n,
            n == s@.len(),
            forall|j: int| k <= j < n ==> !is_sentence_end(s@[j]),
        decreases k,
    {
        k = k - 1;
        let c = s.get_char(k);
        if c == '.' || c == '!' || c == '?' {
            proof {
                lemma_rfind_sentence_unique(s@, k as int);
            }
            return Some(k);
        }
    }
    proof {
        lemma_rfind_sentence_none(s@);
    }
    None
}

/// An excerpt of cleaned text at most `max` characters long: whole text when
/// it fits, otherwise cut at the last sentence end before the limit, or at
/// the last space with an ellipsis, or hard with an ellipsis.
pub open spec fn generate_excerpt_spec(content: Seq<char>, max: int) -> Seq<char> {
    let cleaned = clean_text_spec(content);
    if cleaned.len() <= max {
        cleaned
    } else {
        let tr = cleaned.take(max);
        match spec_rfind_sentence(tr) {
            Some(p) => cleaned.take(p + 1),
            None => match spec_rfind(tr, ' ') {
                Some(p) => cleaned.take(p) + "..."@,
                None => tr + "..."@,
            },
        }
    }
}

/// Generates an excerpt from content with a character limit.
pub fn generate_excerpt(content: &str, max_chars: usize) -> (r: String)
    ensures
        r@ == generate_excerpt_spec(content@, max_chars as int),
{
    let cleaned = clean_text(content);
    let n = cleaned.as_str().unicode_len();
    if n <= max_chars {
        return cleaned;
    }
    let truncated = cleaned.as_str().substring_char(0, max_chars);
    proof {
        assert(truncated@ =~= cleaned@.take(max_chars as int));
    }
    match rfind_sentence(truncated) {
        Some(p) => {
            let r = cleaned.as_str().substring_char(0, p + 1).to_owned();
            proof {
                assert(r@ =~= generate_excerpt_spec(content@, max_chars as int));
            }
            r
        },
        None => {
            let cut: &str = match rfind_char(truncated, ' ') {
                Some(p) => cleaned.as_str().substring_char(0, p),
                None => truncated,
            };
            let mut s = cut.to_owned();
            s.append("...");
            proof {
                assert(s@ =~= generate_excerpt_spec(content@, max_chars as int));
            }
            s
        },
    }
}

/// An absolute form of an image URL: absolute URLs pass through; relative
/// ones are joined to the base URL with exactly one `/` between.
pub open spec fn ensure_absolute_url_spec(url: Seq<char>, base: Seq<char>) -> Seq<char> {
    if spec_starts_with(url, "http://"@) || spec_starts_with(url, "https://"@) {
        url
    } else {
        let b = base.take(base.len() - run_suffix_len(base, '/'));
        if url.len() > 0 && url[0] == '/' {
            b + url
        } else {
            b + "/"@ + url
        }
    }
}

/// Makes an image URL absolute against a base URL.
pub fn ensure_absolute_url(url: &str, base_url: &str) -> (r: String)
    ensures
        r@ == ensure_absolute_url_spec(url@, base_url@),
{
    if starts_with(url, "http://") || starts_with(url, "https://") {
        return url.to_owned();
    }
    let base = strip_trailing(base_url, '/');
    let mut s = base.to_owned();
    if !(url.unicode_len() > 0 && url.get_char(0) == '/') {
        s.append("/");
    }
    s.append(url);
    proof {
        assert(s@ =~= ensure_absolute_url_spec(url@, base_url@));
    }
    s
}

/// An image reference for page metadata.
#[derive(Clone, Debug, PartialEq, Eq)]
pub struct SeoImage {
    pub url: String,
    pub alt: String,
    pub width: Option<u32>,
    pub height: Option<u32>,
}

/// A robots meta directive.
#[derive(Clone, Copy, Debug, PartialEq, Eq)]
pub enum RobotsDirective {
    IndexFollow,
    NoIndexFollow,
    IndexNoFollow,
    NoIndexNoFollow,
}

impl RobotsDirective {
    /// The directive's meta-tag content.
    pub fn to_string(&self) -> (r: &'static str)
        ensures
            r@ == (match self {
                RobotsDirective::IndexFollow => "index, follow"@,
                RobotsDirective::NoIndexFollow => "noindex, follow"@,
                RobotsDirective::IndexNoFollow => "index, nofollow"@,
                RobotsDirective::NoIndexNoFollow => "noindex, nofollow"@,
            }),
    {
        match self {
            RobotsDirective::IndexFollow => "index, follow",
            RobotsDirective::NoIndexFollow => "noindex, follow",
            RobotsDirective::IndexNoFollow => "index, nofollow",
            RobotsDirective::NoIndexNoFollow => "noindex, nofollow",
        }
    }
}

} // verus!
