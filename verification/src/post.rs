//! Post building: joining one parsed source with the resolved entity tables
//! into a self-contained, denormalized post record, with the Markdown body
//! rendered and sanitized into a content block.

use vstd::prelude::*;
use vstd::string::*;
use crate::text::{trim, trim_spec, str_eq, strip_leading, run_prefix_len, spec_rfind, rfind_char,
    ascii_lower, to_ascii_lower};
use crate::bridge::{lower_of, lowercase, html_of_markdown, sanitized_of, render_markdown,
    sanitize_html};
use crate::frontmatter::{ParsedSource, ParsedSourceV, FmTagV};
use crate::entities::{Category, Tag, author_key, cat_key, tag_key};
use crate::error::ContentError;

verus! {

/// Publication state of a post. This pipeline publishes everything it
/// builds; there is no draft stage.
#[derive(Clone, Copy, Debug, PartialEq, Eq)]
pub enum PostStatus {
    Published,
}

/// The author snapshot embedded in a post.
#[derive(Clone, Debug, PartialEq, Eq)]
pub struct PostAuthor {
    pub id: i32,
    pub name: String,
    pub email: String,
    pub avatar: Option<String>,
}

/// The category snapshot embedded in a post.
#[derive(Clone, Debug, PartialEq, Eq)]
pub struct PostCategory {
    pub id: i32,
    pub name: String,
    pub slug: String,
    pub color: String,
}

/// A tag snapshot embedded in a post.
#[derive(Clone, Debug, PartialEq, Eq)]
pub struct PostTag {
    pub id: i32,
    pub name: String,
    pub slug: String,
    pub color: String,
}

/// One block of rendered content.
#[derive(Clone, Debug, PartialEq, Eq)]
pub struct ContentBlock {
    pub id: Option<String>,
    pub html: String,
}

/// The content envelope of a post: sanitized HTML blocks, stamped with the
/// publication time and a fixed schema version.
#[derive(Clone, Debug, PartialEq, Eq)]
pub struct PostContent {
    pub time: u64,
    pub blocks: Vec<ContentBlock>,
    pub version: String,
}

/// The featured-image record of a post.
#[derive(Clone, Debug, PartialEq, Eq)]
pub struct Media {
    pub id: i32,
    pub object_key: String,
    pub file_url: String,
    pub mime_type: String,
    pub size: i64,
    pub width: Option<i32>,
    pub height: Option<i32>,
    pub extension: Option<String>,
    pub created_at_ms: i64,
    pub updated_at_ms: i64,
}

/// A fully built post: denormalized author, category and tag snapshots, the
/// rendered content, and zeroed engagement counters.
#[derive(Clone, Debug, PartialEq, Eq)]
pub struct Post {
    pub id: i32,
    pub title: String,
    pub content: PostContent,
    pub slug: String,
    pub excerpt: Option<String>,
    pub featured_image: Option<Media>,
    pub published_at_ms: Option<i64>,
    pub created_at_ms: i64,
    pub updated_at_ms: i64,
    pub author: PostAuthor,
    pub category: PostCategory,
    pub tags: Vec<PostTag>,
    pub likes_count: i64,
    pub view_count: i64,
    pub comment_count: i64,
    pub status: PostStatus,
}

/// Ghost image of a tag snapshot.
pub struct PostTagV {
    pub id: i32,
    pub name: Seq<char>,
    pub slug: Seq<char>,
    pub color: Seq<char>,
}

/// Ghost image of a content block.
pub struct ContentBlockV {
    pub id: Option<Seq<char>>,
    pub html: Seq<char>,
}

/// Ghost image of a content envelope.
#[verifier::ext_equal]
pub struct PostContentV {
    pub time: u64,
    pub blocks: Seq<ContentBlockV>,
    pub version: Seq<char>,
}

/// Ghost image of a featured-image record.
pub struct MediaV {
    pub id: i32,
    pub object_key: Seq<char>,
    pub file_url: Seq<char>,
    pub mime_type: Seq<char>,
    pub size: i64,
    pub width: Option<i32>,
    pub height: Option<i32>,
    pub extension: Option<Seq<char>>,
    pub created_at_ms: i64,
    pub updated_at_ms: i64,
}

/// Ghost image of a post.
#[verifier::ext_equal]
pub struct PostV {
    pub id: i32,
    pub title: Seq<char>,
    pub content: PostContentV,
    pub slug: Seq<char>,
    pub excerpt: Option<Seq<char>>,
    pub featured_image: Option<MediaV>,
    pub published_at_ms: Option<i64>,
    pub created_at_ms: i64,
    pub updated_at_ms: i64,
    pub author_id: i32,
    pub author_name: Seq<char>,
    pub author_email: Seq<char>,
    pub author_avatar: Option<Seq<char>>,
    pub category_id: i32,
    pub category_name: Seq<char>,
    pub category_slug: Seq<char>,
    pub category_color: Seq<char>,
    pub tags: Seq<PostTagV>,
    pub likes_count: i64,
    pub view_count: i64,
    pub comment_count: i64,
    pub status: PostStatus,
}

/// The view of an optional string.
pub open spec fn opt_str_view(o: Option<String>) -> Option<Seq<char>> {
    match o {
        Some(s) => Some(s@),
        None => None,
    }
}

impl View for PostTag {
    type V = PostTagV;

    open spec fn view(&self) -> PostTagV {
        PostTagV { id: self.id, name: self.name@, slug: self.slug@, color: self.color@ }
    }
}

impl View for ContentBlock {
    type V = ContentBlockV;

    open spec fn view(&self) -> ContentBlockV {
        ContentBlockV { id: opt_str_view(self.id), html: self.html@ }
    }
}

impl View for PostContent {
    type V = PostContentV;

    open spec fn view(&self) -> PostContentV {
        PostContentV {
            time: self.time,
            blocks: self.blocks@.map_values(|b: ContentBlock| b@),
            version: self.version@,
        }
    }
}

impl View for Media {
    type V = MediaV;

    open spec fn view(&self) -> MediaV {
        MediaV {
            id: self.id,
            object_key: self.object_key@,
            file_url: self.file_url@,
            mime_type: self.mime_type@,
            size: self.size,
            width: self.width,
            height: self.height,
            extension: opt_str_view(self.extension),
            created_at_ms: self.created_at_ms,
            updated_at_ms: self.updated_at_ms,
        }
    }
}

impl View for Post {
    type V = PostV;

    open spec fn view(&self) -> PostV {
        PostV {
            id: self.id,
            title: self.title@,
            content: self.content@,
            slug: self.slug@,
            excerpt: opt_str_view(self.excerpt),
            featured_image: match self.featured_image {
                Some(m) => Some(m@),
                None => None,
            },
            published_at_ms: self.published_at_ms,
            created_at_ms: self.created_at_ms,
            updated_at_ms: self.updated_at_ms,
            author_id: self.author.id,
            author_name: self.author.name@,
            author_email: self.author.email@,
            author_avatar: opt_str_view(self.author.avatar),
            category_id: self.category.id,
            category_name: self.category.name@,
            category_slug: self.category.slug@,
            category_color: self.category.color@,
            tags: self.tags@.map_values(|t: PostTag| t@),
            likes_count: self.likes_count,
            view_count: self.view_count,
            comment_count: self.comment_count,
            status: self.status,
        }
    }
}

/// The views of a sequence of posts.
pub open spec fn post_views(s: Seq<Post>) -> Seq<PostV> {
    s.map_values(|p: Post| p@)
}

fn dup_opt_string(o: &Option<String>) -> (r: Option<String>)
    ensures
        r == *o,
{
    match o {
        Some(s) => Some(s.clone()),
        None => None,
    }
}

impl PostTag {
    /// An equal copy.
    pub fn duplicate(&self) -> (r: PostTag)
        ensures
            r == *self,
    {
        PostTag {
            id: self.id,
            name: self.name.clone(),
            slug: self.slug.clone(),
            color: self.color.clone(),
        }
    }
}

impl ContentBlock {
    /// An equal copy.
    pub fn duplicate(&self) -> (r: ContentBlock)
        ensures
            r == *self,
    {
        ContentBlock { id: dup_opt_string(&self.id), html: self.html.clone() }
    }
}

impl PostContent {
    /// A copy with the same view.
    pub fn duplicate(&self) -> (r: PostContent)
        ensures
            r@ == self@,
    {
        let n = self.blocks.len();
        let mut blocks: Vec<ContentBlock> = Vec::new();
        let mut i: usize = 0;
        while i < n
            invariant
                0 <= i <= n,
                n == self.blocks@.len(),
                blocks@ =~= self.blocks@.take(i as int),
            decreases n - i,
        {
            blocks.push(self.blocks[i].duplicate());
            proof {
                assert(blocks@ =~= self.blocks@.take(i + 1));
            }
            i = i + 1;
        }
        proof {
            assert(self.blocks@.take(n as int) =~= self.blocks@);
        }
        let r = PostContent { time: self.time, blocks, version: self.version.clone() };
        proof {
            assert(r@ =~= self@);
        }
        r
    }
}

impl Media {
    /// An equal copy.
    pub fn duplicate(&self) -> (r: Media)
        ensures
            r == *self,
    {
        Media {
            id: self.id,
            object_key: self.object_key.clone(),
            file_url: self.file_url.clone(),
            mime_type: self.mime_type.clone(),
            size: self.size,
            width: self.width,
            height: self.height,
            extension: dup_opt_string(&self.extension),
            created_at_ms: self.created_at_ms,
            updated_at_ms: self.updated_at_ms,
        }
    }
}

impl Post {
    /// A copy with the same view.
    pub fn duplicate(&self) -> (r: Post)
        ensures
            r@ == self@,
    {
        let n = self.tags.len();
        let mut tags: Vec<PostTag> = Vec::new();
        let mut i: usize = 0;
        while i < n
            invariant
                0 <= i <= n,
                n == self.tags@.len(),
                tags@ =~= self.tags@.take(i as int),
            decreases n - i,
        {
            tags.push(self.tags[i].duplicate());
            proof {
                assert(tags@ =~= self.tags@.take(i + 1));
            }
            i = i + 1;
        }
        proof {
            assert(self.tags@.take(n as int) =~= self.tags@);
        }
        let r = Post {
            id: self.id,
            title: self.title.clone(),
            content: self.content.duplicate(),
            slug: self.slug.clone(),
            excerpt: dup_opt_string(&self.excerpt),
            featured_image: match &self.featured_image {
                Some(m) => Some(m.duplicate()),
                None => None,
            },
            published_at_ms: self.published_at_ms,
            created_at_ms: self.created_at_ms,
            updated_at_ms: self.updated_at_ms,
            author: PostAuthor {
                id: self.author.id,
                name: self.author.name.clone(),
                email: self.author.email.clone(),
                avatar: dup_opt_string(&self.author.avatar),
            },
            category: PostCategory {
                id: self.category.id,
                name: self.category.name.clone(),
                slug: self.category.slug.clone(),
                color: self.category.color.clone(),
            },
            tags,
            likes_count: self.likes_count,
            view_count: self.view_count,
            comment_count: self.comment_count,
            status: self.status,
        };
        proof {
            assert(r@ =~= self@);
        }
        r
    }
}

/// The schema tag every content envelope carries.
pub open spec fn content_version() -> Seq<char> {
    "markdown-demo-v1"@
}

/// The block identifier of the rendered Markdown body.
pub open spec fn body_block_id() -> Seq<char> {
    "markdown-body"@
}

/// The extension of a URL: what follows its last dot, ASCII-lowercased;
/// none when the URL has no dot.
pub open spec fn ext_of_url(u: Seq<char>) -> Option<Seq<char>> {
    match spec_rfind(u, '.') {
        Some(i) => Some(ascii_lower(u.skip(i + 1))),
        None => None,
    }
}

/// The MIME type derived from an extension, with `image/jpeg` as the
/// fallback.
pub open spec fn mime_for_ext(ext: Option<Seq<char>>) -> Seq<char> {
    match ext {
        Some(e) => if e == "png"@ {
            "image/png"@
        } else if e == "webp"@ {
            "image/webp"@
        } else if e == "gif"@ {
            "image/gif"@
        } else if e == "avif"@ {
            "image/avif"@
        } else if e == "svg"@ {
            "image/svg+xml"@
        } else {
            "image/jpeg"@
        },
        None => "image/jpeg"@,
    }
}

/// The object key of a stored file: its URL with every leading `/` removed.
pub open spec fn object_key_of(u: Seq<char>) -> Seq<char> {
    u.skip(run_prefix_len(u, '/'))
}

/// Derives the MIME type of a URL from its extension.
fn mime_for(ext: &Option<String>) -> (r: String)
    ensures
        r@ == mime_for_ext(match ext {
            Some(e) => Some(e@),
            None => None,
        }),
{
    match ext {
        Some(e) => {
            if str_eq(e.as_str(), "png") {
                "image/png".to_owned()
            } else if str_eq(e.as_str(), "webp") {
                "image/webp".to_owned()
            } else if str_eq(e.as_str(), "gif") {
                "image/gif".to_owned()
            } else if str_eq(e.as_str(), "avif") {
                "image/avif".to_owned()
            } else if str_eq(e.as_str(), "svg") {
                "image/svg+xml".to_owned()
            } else {
                "image/jpeg".to_owned()
            }
        },
        None => "image/jpeg".to_owned(),
    }
}

/// The fields of a featured-image record built for `url` (already trimmed),
/// `width`, `height` and `post_id` at time `now_ms`.
pub open spec fn media_ok(
    r: Media,
    post_id: i32,
    url: Seq<char>,
    width: Option<i32>,
    height: Option<i32>,
    now_ms: i64,
) -> bool {
    &&& r.id == post_id
    &&& r.file_url@ == url
    &&& r.object_key@ == object_key_of(url)
    &&& r.mime_type@ == mime_for_ext(ext_of_url(url))
    &&& (match (r.extension, ext_of_url(url)) {
        (Some(e), Some(x)) => e@ == x,
        (None, None) => true,
        _ => false,
    })
    &&& r.size == 0
    &&& r.width == width
    &&& r.height == height
    &&& r.created_at_ms == now_ms
    &&& r.updated_at_ms == now_ms
}

/// Builds the featured-image record of a post: the trimmed URL, the object
/// key with leading slashes stripped, and the MIME type looked up from the
/// lowercased extension.
pub fn build_featured_media(
    post_id: i32,
    url: &str,
    width: Option<i32>,
    height: Option<i32>,
    now_ms: i64,
) -> (r: Media)
    ensures
        media_ok(r, post_id, trim_spec(url@), width, height, now_ms),
{
    let file_url = trim(url);
    let extension: Option<String> = match rfind_char(file_url, '.') {
        Some(i) => {
            let n: usize = file_url.unicode_len();
            let raw = file_url.substring_char(i + 1, n);
            proof {
                assert(raw@ =~= trim_spec(url@).skip(i + 1));
            }
            Some(to_ascii_lower(raw))
        },
        None => None,
    };
    let mime_type = mime_for(&extension);
    let object_key = strip_leading(file_url, '/').to_owned();
    Media {
        id: post_id,
        object_key,
        file_url: file_url.to_owned(),
        mime_type,
        size: 0,
        width,
        height,
        extension,
        created_at_ms: now_ms,
        updated_at_ms: now_ms,
    }
}

/// Renders a Markdown body to HTML and sanitizes it: the sanitisation step
/// always runs on the way into the stored content block.
pub fn markdown_to_sanitized_html(markdown: &str) -> (r: String)
    ensures
        r@ == sanitized_of(html_of_markdown(markdown@)),
{
    let html = render_markdown(markdown);
    sanitize_html(html.as_str())
}

/// The publication instant of a content block: the post's publication time
/// in milliseconds, clamped to zero from below.
pub open spec fn content_time(published_ms: i64) -> u64 {
    if published_ms >= 0 {
        published_ms as u64
    } else {
        0
    }
}

/// The author identifier table entry for `k`, scanning in order.
pub open spec fn lookup_author(t: Seq<(String, i32)>, k: Seq<char>) -> Option<i32>
    decreases t.len(),
{
    if t.len() == 0 {
        None
    } else if t[0].0@ == k {
        Some(t[0].1)
    } else {
        lookup_author(t.drop_first(), k)
    }
}

/// The first category carrying slug `k`, scanning in order.
pub open spec fn lookup_category(cs: Seq<Category>, k: Seq<char>) -> Option<Category>
    decreases cs.len(),
{
    if cs.len() == 0 {
        None
    } else if cs[0].slug@ == k {
        Some(cs[0])
    } else {
        lookup_category(cs.drop_first(), k)
    }
}

/// The first tag carrying slug `k`, scanning in order.
pub open spec fn lookup_tag(ts: Seq<Tag>, k: Seq<char>) -> Option<Tag>
    decreases ts.len(),
{
    if ts.len() == 0 {
        None
    } else if ts[0].slug@ == k {
        Some(ts[0])
    } else {
        lookup_tag(ts.drop_first(), k)
    }
}

fn find_author(t: &Vec<(String, i32)>, key: &str) -> (r: Option<i32>)
    ensures
        r == lookup_author(t@, key@),
{
    let n = t.len();
    proof {
        assert(t@.skip(0) =~= t@);
    }
    let mut i: usize = 0;
    while i < n
        invariant
            0 <= i <= n,
            n == t@.len(),
            lookup_author(t@, key@) == lookup_author(t@.skip(i as int), key@),
        decreases n - i,
    {
        proof {
            assert(t@.skip(i as int).drop_first() =~= t@.skip(i + 1));
            assert(t@.skip(i as int)[0] == t@[i as int]);
        }
        if str_eq(t[i].0.as_str(), key) {
            return Some(t[i].1);
        }
        i = i + 1;
    }
    proof {
        assert(t@.skip(n as int).len() == 0);
    }
    None
}

fn find_category<'a>(cs: &'a Vec<Category>, key: &str) -> (r: Option<&'a Category>)
    ensures
        match r {
            Some(c) => lookup_category(cs@, key@) == Some(*c),
            None => lookup_category(cs@, key@) is None,
        },
{
    let n = cs.len();
    proof {
        assert(cs@.skip(0) =~= cs@);
    }
    let mut i: usize = 0;
    while i < n
        invariant
            0 <= i <= n,
            n == cs@.len(),
            lookup_category(cs@, key@) == lookup_category(cs@.skip(i as int), key@),
        decreases n - i,
    {
        proof {
            assert(cs@.skip(i as int).drop_first() =~= cs@.skip(i + 1));
            assert(cs@.skip(i as int)[0] == cs@[i as int]);
        }
        if str_eq(cs[i].slug.as_str(), key) {
            return Some(&cs[i]);
        }
        i = i + 1;
    }
    proof {
        assert(cs@.skip(n as int).len() == 0);
    }
    None
}

fn find_tag<'a>(ts: &'a Vec<Tag>, key: &str) -> (r: Option<&'a Tag>)
    ensures
        match r {
            Some(t) => lookup_tag(ts@, key@) == Some(*t),
            None => lookup_tag(ts@, key@) is None,
        },
{
    let n = ts.len();
    proof {
        assert(ts@.skip(0) =~= ts@);
    }
    let mut i: usize = 0;
    while i < n
        invariant
            0 <= i <= n,
            n == ts@.len(),
            lookup_tag(ts@, key@) == lookup_tag(ts@.skip(i as int), key@),
        decreases n - i,
    {
        proof {
            assert(ts@.skip(i as int).drop_first() =~= ts@.skip(i + 1));
            assert(ts@.skip(i as int)[0] == ts@[i as int]);
        }
        if str_eq(ts[i].slug.as_str(), key) {
            return Some(&ts[i]);
        }
        i = i + 1;
    }
    proof {
        assert(ts@.skip(n as int).len() == 0);
    }
    None
}

/// The index of the first frontmatter tag whose slug the tag table does not
/// carry, if any.
pub open spec fn first_unknown_tag(fmt: Seq<FmTagV>, ts: Seq<Tag>, j: int) -> Option<int>
    decreases fmt.len() - j,
{
    if j < 0 || j >= fmt.len() {
        None
    } else if lookup_tag(ts, tag_key(fmt[j])) is None {
        Some(j)
    } else {
        first_unknown_tag(fmt, ts, j + 1)
    }
}

/// The denormalized tag snapshots a post carries: its frontmatter tags in
/// declaration order, each joined with the resolved tag table.
pub open spec fn post_tag_matches(pt: PostTag, found: Option<Tag>) -> bool {
    &&& found is Some
    &&& pt.id == found->Some_0.id
    &&& pt.name@ == found->Some_0.name@
    &&& pt.slug@ == found->Some_0.slug@
    &&& pt.color@ == found->Some_0.color@
}

pub open spec fn post_tags_ok(out: Seq<PostTag>, fmt: Seq<FmTagV>, ts: Seq<Tag>) -> bool {
    &&& out.len() == fmt.len()
    &&& (forall|j: int|
        0 <= j < fmt.len() ==> post_tag_matches(#[trigger] out[j], lookup_tag(ts, tag_key(fmt[j]))))
}

/// Everything [`build_post`] promises of a successfully built post, stated
/// over the ghost image of the parsed source.
pub open spec fn post_ok(
    r: Post,
    post_id: i32,
    p: ParsedSourceV,
    authors: Seq<(String, i32)>,
    cats: Seq<Category>,
    ts: Seq<Tag>,
    now_ms: i64,
) -> bool {
    let fm = p.frontmatter;
    &&& r.id == post_id
    &&& r.title@ == fm.title
    &&& r.slug@ == fm.slug
    &&& (match (r.excerpt, fm.excerpt) {
        (Some(a), Some(b)) => a@ == b,
        (None, None) => true,
        _ => false,
    })
    &&& r.published_at_ms == Some(fm.published_at_ms)
    &&& r.created_at_ms == fm.published_at_ms
    &&& r.updated_at_ms == (match fm.updated_at_ms {
        Some(u) => u,
        None => fm.published_at_ms,
    })
    &&& lookup_author(authors, author_key(p)) matches Some(aid) && r.author.id == aid
    &&& r.author.name@ == fm.author_name
    &&& r.author.email@ == fm.author_email
    &&& r.author.avatar is None
    &&& lookup_category(cats, cat_key(p)) matches Some(c) && r.category.id == c.id
        && r.category.name@ == c.name@ && r.category.slug@ == c.slug@ && r.category.color@
        == c.color@
    &&& post_tags_ok(r.tags@, fm.tags, ts)
    &&& r.content.time == content_time(fm.published_at_ms)
    &&& r.content.version@ == content_version()
    &&& r.content.blocks@.len() == 1
    &&& (r.content.blocks@[0].id matches Some(bid) && bid@ == body_block_id())
    &&& r.content.blocks@[0].html@ == sanitized_of(html_of_markdown(p.body_markdown))
    &&& (r.featured_image matches Some(img) && media_ok(
        img,
        post_id,
        trim_spec(fm.image_url),
        fm.image_width,
        fm.image_height,
        now_ms,
    ))
    &&& r.likes_count == 0
    &&& r.view_count == 0
    &&& r.comment_count == 0
    &&& r.status == PostStatus::Published
}

/// Joins one parsed source with the resolved entity tables into a post.
/// The author must have been folded from the same corpus; a missing author
/// entry is an internal-consistency fault. A category or tag slug that the
/// tables do not carry is a referential error naming the source's path.
#[verifier::loop_isolation(false)]
pub fn build_post(
    post_id: i32,
    source: &ParsedSource,
    author_ids: &Vec<(String, i32)>,
    categories: &Vec<Category>,
    tags: &Vec<Tag>,
    now_ms: i64,
) -> (r: Result<Post, ContentError>)
    ensures
        match r {
            Ok(p) => {
                &&& lookup_author(author_ids@, author_key(source@)) is Some
                &&& lookup_category(categories@, cat_key(source@)) is Some
                &&& first_unknown_tag(source@.frontmatter.tags, tags@, 0) is None
                &&& post_ok(p, post_id, source@, author_ids@, categories@, tags@, now_ms)
            },
            Err(e) => match e@ {
                crate::error::ErrV::MissingAuthorId { path, email } => {
                    &&& lookup_author(author_ids@, author_key(source@)) is None
                    &&& path == source.path@
                    &&& email == author_key(source@)
                },
                crate::error::ErrV::UnknownCategory { path, slug } => {
                    &&& lookup_author(author_ids@, author_key(source@)) is Some
                    &&& lookup_category(categories@, cat_key(source@)) is None
                    &&& path == source.path@
                    &&& slug == source.frontmatter.category.slug@
                },
                crate::error::ErrV::UnknownTag { path, slug } => {
                    &&& lookup_author(author_ids@, author_key(source@)) is Some
                    &&& lookup_category(categories@, cat_key(source@)) is Some
                    &&& first_unknown_tag(source@.frontmatter.tags, tags@, 0) matches Some(j)
                        && slug == source@.frontmatter.tags[j].slug
                    &&& path == source.path@
                },
                _ => false,
            },
        },
{
    let fm = &source.frontmatter;
    let author_email = lowercase(trim(fm.author.email.as_str()));
    let author_id = match find_author(author_ids, author_email.as_str()) {
        Some(id) => id,
        None => {
            return Err(
                ContentError::MissingAuthorId { path: source.path.clone(), email: author_email },
            );
        },
    };
    let category = match find_category(categories, trim(fm.category.slug.as_str())) {
        Some(c) => c,
        None => {
            return Err(
                ContentError::UnknownCategory {
                    path: source.path.clone(),
                    slug: fm.category.slug.clone(),
                },
            );
        },
    };
    let ghost fmt = source@.frontmatter.tags;
    let tags_n = fm.tags.len();
    let mut post_tags: Vec<PostTag> = Vec::new();
    let mut j: usize = 0;
    while j < tags_n
        invariant
            0 <= j <= tags_n,
            tags_n == fmt.len(),
            post_tags@.len() == j,
            first_unknown_tag(fmt, tags@, 0) == first_unknown_tag(fmt, tags@, j as int),
            forall|jj: int|
                0 <= jj < j ==> post_tag_matches(
                    #[trigger] post_tags@[jj],
                    lookup_tag(tags@, tag_key(fmt[jj])),
                ),
        decreases tags_n - j,
    {
        proof {
            assert(fmt[j as int] == fm.tags@[j as int]@);
        }
        let ft = &fm.tags[j];
        match find_tag(tags, trim(ft.slug.as_str())) {
            Some(t) => {
                let ghost old_tags = post_tags@;
                post_tags.push(
                    PostTag {
                        id: t.id,
                        name: t.name.clone(),
                        slug: t.slug.clone(),
                        color: t.color.clone(),
                    },
                );
                proof {
                    assert(lookup_tag(tags@, tag_key(fmt[j as int])) == Some(*t));
                    assert(first_unknown_tag(fmt, tags@, j as int) == first_unknown_tag(
                        fmt,
                        tags@,
                        j as int + 1,
                    ));
                    assert forall|jj: int| 0 <= jj < j + 1 implies post_tag_matches(
                        #[trigger] post_tags@[jj],
                        lookup_tag(tags@, tag_key(fmt[jj])),
                    ) by {
                        if jj < j {
                            assert(post_tags@[jj] == old_tags[jj]);
                        } else {
                            assert(post_tags@[jj].name@ == t.name@);
                            assert(post_tags@[jj].slug@ == t.slug@);
                            assert(post_tags@[jj].color@ == t.color@);
                        }
                    }
                }
            },
            None => {
                proof {
                    assert(first_unknown_tag(fmt, tags@, j as int) == Some(j as int));
                }
                return Err(
                    ContentError::UnknownTag { path: source.path.clone(), slug: ft.slug.clone() },
                );
            },
        }
        j = j + 1;
    }
    let published_ms = fm.published_at_ms;
    let updated_ms = match fm.updated_at_ms {
        Some(u) => u,
        None => published_ms,
    };
    let time: u64 = if published_ms >= 0 {
        published_ms as u64
    } else {
        0
    };
    let html = markdown_to_sanitized_html(source.body_markdown.as_str());
    let block = ContentBlock { id: Some("markdown-body".to_owned()), html };
    let mut blocks: Vec<ContentBlock> = Vec::new();
    blocks.push(block);
    let content = PostContent { time, blocks, version: "markdown-demo-v1".to_owned() };
    let featured = build_featured_media(
        post_id,
        fm.featured_image.file_url.as_str(),
        fm.featured_image.width,
        fm.featured_image.height,
        now_ms,
    );
    Ok(
        Post {
            id: post_id,
            title: fm.title.clone(),
            content,
            slug: fm.slug.clone(),
            excerpt: match &fm.excerpt {
                Some(e) => Some(e.clone()),
                None => None,
            },
            featured_image: Some(featured),
            published_at_ms: Some(published_ms),
            created_at_ms: published_ms,
            updated_at_ms: updated_ms,
            author: PostAuthor {
                id: author_id,
                name: fm.author.name.clone(),
                email: fm.author.email.clone(),
                avatar: None,
            },
            category: PostCategory {
                id: category.id,
                name: category.name.clone(),
                slug: category.slug.clone(),
                color: category.color.clone(),
            },
            tags: post_tags,
            likes_count: 0,
            view_count: 0,
            comment_count: 0,
            status: PostStatus::Published,
        },
    )
}

} // verus!
