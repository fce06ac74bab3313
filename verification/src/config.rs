//! Application configuration values and small stateless helpers: branding,
//! the dark-mode toggle, server-side analytics and theme stubs, and public
//! file URL construction.

use vstd::prelude::*;
use vstd::string::*;
use crate::text::{
    trim_spec, trim, run_prefix_len, run_suffix_len, strip_leading, strip_trailing, spec_replace,
    replace_all,
};

verus! {

/// The dark-mode flag.
#[derive(Clone, Copy, PartialEq, Eq, Structural, Debug)]
pub struct DarkMode(pub bool);

impl DarkMode {
    /// Flips the flag.
    pub fn toggle(&mut self)
        ensures
            final(self).0 == !old(self).0,
    {
        self.0 = !self.0;
    }
}

/// Centralized branding configuration.
pub struct Brand {
    pub app_name: &'static str,
    pub tagline: &'static str,
    pub copyright_year: &'static str,
    pub author: &'static str,
    pub author_url: &'static str,
    pub repo_url: &'static str,
}

/// The fixed brand values.
pub fn brand() -> (b: Brand)
    ensures
        b.app_name@ == "Hmziq.rs Blog"@,
        b.tagline@ == "Thoughts on software and technology"@,
        b.copyright_year@ == "2026"@,
        b.author@ == "hmziqrs"@,
        b.author_url@ == "https://hmziq.rs"@,
        b.repo_url@ == "https://github.com/hmziqrs/ruxlog"@,
{
    Brand {
        app_name: "Hmziq.rs Blog",
        tagline: "Thoughts on software and technology",
        copyright_year: "2026",
        author: "hmziqrs",
        author_url: "https://hmziq.rs",
        repo_url: "https://github.com/hmziqrs/ruxlog",
    }
}

/// Initializes analytics. Analytics runs only in the browser build; here
/// there is nothing to initialize, so this reports failure.
pub fn initialize() -> (r: bool)
    ensures
        r == false,
{
    false
}

/// Whether analytics is available: never, outside the browser build.
pub fn is_available() -> (r: bool)
    ensures
        r == false,
{
    false
}

/// Records a page view. Analytics is unavailable here, so this does
/// nothing and accepts any input.
pub fn track_page_view(route: &str, title: &str) {
    let _ = (route, title);
}

/// The stored theme preference. Persistent storage exists only in the
/// browser build; here there is none.
pub fn get_theme() -> (r: Option<String>)
    ensures
        r is None,
{
    None
}

/// Stores a theme preference. Persistent storage exists only in the browser
/// build; here this does nothing and accepts any input.
pub fn set_theme(theme: &str) {
    let _ = theme;
}

/// HTTP client settings, set once at startup: later calls to
/// [`HttpConfig::configure`] leave the first values in place.
pub struct HttpConfig {
    pub base_url: Option<String>,
    pub csrf_token: Option<String>,
}

/// The view of an optional setting: its text, empty until one is set.
pub open spec fn setting_view(o: Option<String>) -> Seq<char> {
    match o {
        Some(s) => s@,
        None => Seq::empty(),
    }
}

impl HttpConfig {
    /// An unconfigured holder.
    pub fn new() -> (r: HttpConfig)
        ensures
            r.base_url is None,
            r.csrf_token is None,
    {
        HttpConfig { base_url: None, csrf_token: None }
    }

    /// Sets the base URL and CSRF token; the first call wins.
    pub fn configure(&mut self, base_url: String, csrf_token: String)
        ensures
            setting_view(final(self).base_url) == (if old(self).base_url is Some {
                setting_view(old(self).base_url)
            } else {
                base_url@
            }),
            setting_view(final(self).csrf_token) == (if old(self).csrf_token is Some {
                setting_view(old(self).csrf_token)
            } else {
                csrf_token@
            }),
    {
        if self.base_url.is_none() {
            self.base_url = Some(base_url);
        }
        if self.csrf_token.is_none() {
            self.csrf_token = Some(csrf_token);
        }
    }

    /// The base URL, or an empty string before configuration.
    pub fn get_base_url(&self) -> (r: String)
        ensures
            r@ == setting_view(self.base_url),
    {
        match &self.base_url {
            Some(s) => s.clone(),
            None => String::new(),
        }
    }

    /// The CSRF token, or an empty string before configuration.
    pub fn get_csrf_token(&self) -> (r: String)
        ensures
            r@ == setting_view(self.csrf_token),
    {
        match &self.csrf_token {
            Some(s) => s.clone(),
            None => String::new(),
        }
    }
}

/// The public URL of a stored object: base URL without trailing slashes,
/// then the bucket trimmed of surrounding slashes when one is present and
/// non-blank, then the object key without leading slashes.
pub open spec fn public_file_url_spec(
    public_url: Seq<char>,
    bucket: Option<Seq<char>>,
    object_key: Seq<char>,
) -> Seq<char> {
    let base = public_url.take(public_url.len() - run_suffix_len(public_url, '/'));
    let key = object_key.skip(run_prefix_len(object_key, '/'));
    match bucket {
        Some(b) => {
            let tb = trim_spec(b);
            if tb.len() == 0 {
                base + "/"@ + key
            } else {
                let inner = tb.skip(run_prefix_len(tb, '/'));
                let both = inner.take(inner.len() - run_suffix_len(inner, '/'));
                base + "/"@ + both + "/"@ + key
            }
        },
        None => base + "/"@ + key,
    }
}

/// Builds the public URL of a stored object.
pub fn build_public_file_url(public_url: &str, bucket: Option<&str>, object_key: &str) -> (r:
    String)
    ensures
        r@ == public_file_url_spec(public_url@, match bucket {
            Some(b) => Some(b@),
            None => None,
        }, object_key@),
{
    let base = strip_trailing(public_url, '/');
    let key = strip_leading(object_key, '/');
    let mut s = base.to_owned();
    s.append("/");
    match bucket {
        Some(b) => {
            let tb = trim(b);
            if tb.unicode_len() > 0 {
                let both = strip_trailing(strip_leading(tb, '/'), '/');
                s.append(both);
                s.append("/");
            }
        },
        None => {},
    }
    s.append(key);
    proof {
        assert(s@ =~= public_file_url_spec(public_url@, match bucket {
            Some(b) => Some(b@),
            None => None,
        }, object_key@));
    }
    s
}

/// A string with every single quote doubled, as SQL literal escaping wants.
pub open spec fn escape_sql_literal_spec(v: Seq<char>) -> Seq<char> {
    spec_replace(v, "'"@, "''"@)
}

/// Escapes single quotes for use inside a SQL string literal.
pub fn escape_sql_literal(value: &str) -> (r: String)
    ensures
        r@ == escape_sql_literal_spec(value@),
{
    proof {
        reveal_strlit("'");
    }
    replace_all(value, "'", "''")
}

} // verus!
