//! Contracts over the outside-crate calls that the pipeline makes: Unicode
//! lowercasing, whitespace collapsing, Markdown rendering, HTML sanitising,
//! RFC 3339 timestamp parsing, and the current time.
//!
//! Each function's body only makes the call it is named after; Verus reasons
//! from the stated contract.

use vstd::prelude::*;
use crate::text::spec_collapse_ws;

verus! {

/// The character sequence that `str::to_lowercase` returns for `s`: Unicode
/// lowercasing, a function of the characters alone.
pub uninterp spec fn lower_of(s: Seq<char>) -> Seq<char>;

/// Relies on `str::to_lowercase`: the result depends on the characters alone.
#[verifier::external_body]
pub(crate) fn lowercase(s: &str) -> (r: String)
    ensures
        r@ == lower_of(s@),
{
    s.to_lowercase()
}

/// The HTML that pulldown-cmark emits for `md` with the tables,
/// strikethrough, task-list, smart-punctuation and heading-attribute
/// extensions enabled: a function of the Markdown text alone.
pub uninterp spec fn html_of_markdown(md: Seq<char>) -> Seq<char>;

/// Relies on `pulldown_cmark::Parser::new_ext` and
/// `pulldown_cmark::html::push_html`: rendering is a function of the input
/// text and the fixed option set.
#[verifier::external_body]
pub(crate) fn render_markdown(md: &str) -> (r: String)
    ensures
        r@ == html_of_markdown(md@),
{
    let mut options = pulldown_cmark::Options::empty();
    options.insert(pulldown_cmark::Options::ENABLE_TABLES);
    options.insert(pulldown_cmark::Options::ENABLE_STRIKETHROUGH);
    options.insert(pulldown_cmark::Options::ENABLE_TASKLISTS);
    options.insert(pulldown_cmark::Options::ENABLE_SMART_PUNCTUATION);
    options.insert(pulldown_cmark::Options::ENABLE_HEADING_ATTRIBUTES);
    let parser = pulldown_cmark::Parser::new_ext(md, options);
    let mut out = String::new();
    pulldown_cmark::html::push_html(&mut out, parser);
    out
}

/// What ammonia's default allow-list sanitiser leaves of `html`: a function
/// of the input text alone.
pub uninterp spec fn sanitized_of(html: Seq<char>) -> Seq<char>;

/// Relies on `ammonia::Builder::default().clean`: allow-list HTML
/// sanitisation with the default configuration.
#[verifier::external_body]
pub(crate) fn sanitize_html(html: &str) -> (r: String)
    ensures
        r@ == sanitized_of(html@),
{
    ammonia::Builder::default().clean(html).to_string()
}

/// Which strings `chrono::DateTime::parse_from_rfc3339` accepts, and the
/// millisecond timestamp of the parsed instant: a function of the text alone.
pub uninterp spec fn rfc3339_ms_of(s: Seq<char>) -> Option<i64>;

/// Relies on `chrono::DateTime::parse_from_rfc3339` and
/// `chrono::DateTime::timestamp_millis`.
#[verifier::external_body]
pub(crate) fn parse_rfc3339_ms(s: &str) -> (r: Option<i64>)
    ensures
        r == rfc3339_ms_of(s@),
{
    match chrono::DateTime::parse_from_rfc3339(s) {
        Ok(dt) => Some(dt.timestamp_millis()),
        Err(_) => None,
    }
}

/// Relies on `chrono::Utc::now` and `chrono::DateTime::timestamp_millis`:
/// the current wall-clock time, so nothing is promised of the value.
#[verifier::external_body]
pub(crate) fn now_ms() -> i64 {
    chrono::Utc::now().timestamp_millis()
}

/// Relies on `regex::Regex::replace_all` with the pattern `\s+`, whose `\s`
/// matches exactly the Unicode `White_Space` class: each maximal whitespace
/// run becomes a single space. `Regex::new` cannot fail on this fixed
/// pattern.
#[verifier::external_body]
pub(crate) fn collapse_ws(s: &str) -> (r: String)
    ensures
        r@ == spec_collapse_ws(s@),
{
    let re = regex::Regex::new(r"\s+").unwrap();
    re.replace_all(s, " ").into_owned()
}

/// Relies on `String::push`: appends one character.
#[verifier::external_body]
pub(crate) fn push_char(s: &mut String, c: char)
    ensures
        final(s)@ == old(s)@ + seq![c],
{
    s.push(c);
}

} // verus!
