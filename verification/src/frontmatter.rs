//! Frontmatter handling: splitting a source file into its YAML header and
//! Markdown body, parsing the header into a [`Frontmatter`] record, and
//! validating required fields.

use vstd::prelude::*;
use vstd::string::*;
use crate::text::{spec_find, trim_spec, trim, find_sub};
use crate::yaml::{
    YamlData, yaml_doc, yaml_rep, yaml_parse, yaml_get, yaml_str, yaml_i64, yaml_list,
    yaml_is_map, yaml_is_null,
};
use crate::bridge::{rfc3339_ms_of, parse_rfc3339_ms};
use crate::error::FmField;

verus! {

/// An author declaration inside a frontmatter block.
#[derive(Clone, Debug, PartialEq, Eq)]
pub struct FrontmatterAuthor {
    pub name: String,
    pub email: String,
}

/// A category declaration inside a frontmatter block.
#[derive(Clone, Debug, PartialEq, Eq)]
pub struct FrontmatterCategory {
    pub name: String,
    pub slug: String,
    pub color: Option<String>,
}

/// A tag declaration inside a frontmatter block.
#[derive(Clone, Debug, PartialEq, Eq)]
pub struct FrontmatterTag {
    pub name: String,
    pub slug: String,
    pub color: Option<String>,
}

/// The featured image declaration inside a frontmatter block.
#[derive(Clone, Debug, PartialEq, Eq)]
pub struct FrontmatterImage {
    pub file_url: String,
    pub width: Option<i32>,
    pub height: Option<i32>,
}

/// A fully parsed frontmatter block. Timestamps are milliseconds since the
/// Unix epoch.
#[derive(Clone, Debug, PartialEq, Eq)]
pub struct Frontmatter {
    pub title: String,
    pub slug: String,
    pub excerpt: Option<String>,
    pub published_at_ms: i64,
    pub updated_at_ms: Option<i64>,
    pub author: FrontmatterAuthor,
    pub category: FrontmatterCategory,
    pub tags: Vec<FrontmatterTag>,
    pub featured_image: FrontmatterImage,
}

/// Ghost image of a tag declaration.
pub struct FmTagV {
    pub name: Seq<char>,
    pub slug: Seq<char>,
    pub color: Option<Seq<char>>,
}

/// Ghost image of a frontmatter block.
pub struct FrontmatterV {
    pub title: Seq<char>,
    pub slug: Seq<char>,
    pub excerpt: Option<Seq<char>>,
    pub published_at_ms: i64,
    pub updated_at_ms: Option<i64>,
    pub author_name: Seq<char>,
    pub author_email: Seq<char>,
    pub category_name: Seq<char>,
    pub category_slug: Seq<char>,
    pub category_color: Option<Seq<char>>,
    pub tags: Seq<FmTagV>,
    pub image_url: Seq<char>,
    pub image_width: Option<i32>,
    pub image_height: Option<i32>,
}

/// The view of an optional string.
pub open spec fn opt_view(o: Option<String>) -> Option<Seq<char>> {
    match o {
        Some(s) => Some(s@),
        None => None,
    }
}

impl View for FrontmatterTag {
    type V = FmTagV;

    open spec fn view(&self) -> FmTagV {
        FmTagV { name: self.name@, slug: self.slug@, color: opt_view(self.color) }
    }
}

impl View for Frontmatter {
    type V = FrontmatterV;

    open spec fn view(&self) -> FrontmatterV {
        FrontmatterV {
            title: self.title@,
            slug: self.slug@,
            excerpt: opt_view(self.excerpt),
            published_at_ms: self.published_at_ms,
            updated_at_ms: self.updated_at_ms,
            author_name: self.author.name@,
            author_email: self.author.email@,
            category_name: self.category.name@,
            category_slug: self.category.slug@,
            category_color: opt_view(self.category.color),
            tags: self.tags@.map_values(|t: FrontmatterTag| t@),
            image_url: self.featured_image.file_url@,
            image_width: self.featured_image.width,
            image_height: self.featured_image.height,
        }
    }
}

/// A source file after splitting, parsing and validation: its path, its
/// frontmatter record, and its raw Markdown body.
#[derive(Clone, Debug, PartialEq, Eq)]
pub struct ParsedSource {
    pub path: String,
    pub frontmatter: Frontmatter,
    pub body_markdown: String,
}

/// Ghost image of a parsed source.
pub struct ParsedSourceV {
    pub path: Seq<char>,
    pub frontmatter: FrontmatterV,
    pub body_markdown: Seq<char>,
}

impl View for ParsedSource {
    type V = ParsedSourceV;

    open spec fn view(&self) -> ParsedSourceV {
        ParsedSourceV {
            path: self.path@,
            frontmatter: self.frontmatter@,
            body_markdown: self.body_markdown@,
        }
    }
}

/// The views of a sequence of parsed sources.
pub open spec fn views_of(s: Seq<ParsedSource>) -> Seq<ParsedSourceV> {
    s.map_values(|p: ParsedSource| p@)
}

/// How splitting a source file can fail.
#[derive(Clone, Copy, Debug, PartialEq, Eq)]
pub enum SplitError {
    MissingOpeningDelimiter,
    MissingClosingDelimiter,
    EmptyBody,
}

/// The closing frontmatter delimiter: a `---` line of its own.
pub open spec fn fm_delim() -> Seq<char> {
    seq!['\n', '-', '-', '-', '\n']
}

/// What splitting a file into frontmatter and body yields. The text must
/// open with a `---` line; the frontmatter block runs to the first following
/// `---` line; the remainder is the body, which must not be blank.
pub open spec fn spec_split(s: Seq<char>) -> Result<(Seq<char>, Seq<char>), SplitError> {
    if !(s.len() >= 4 && s[0] == '-' && s[1] == '-' && s[2] == '-' && s[3] == '\n') {
        Err(SplitError::MissingOpeningDelimiter)
    } else {
        let rest = s.skip(4);
        match spec_find(rest, fm_delim(), 0) {
            None => Err(SplitError::MissingClosingDelimiter),
            Some(i) => {
                let fm = rest.take(i);
                let body = rest.skip(i + 5);
                if trim_spec(body).len() == 0 {
                    Err(SplitError::EmptyBody)
                } else {
                    Ok((fm, body))
                }
            },
        }
    }
}

/// Splits a source file into its frontmatter block and Markdown body,
/// proved against [`spec_split`].
pub fn split_frontmatter(contents: &str) -> (r: Result<(&str, &str), SplitError>)
    ensures
        match spec_split(contents@) {
            Ok((fm, body)) => r matches Ok((f, b)) && f@ == fm && b@ == body,
            Err(e) => r == Err::<(&str, &str), SplitError>(e),
        },
{
    let n: usize = contents.unicode_len();
    if n < 4 || contents.get_char(0) != '-' || contents.get_char(1) != '-' || contents.get_char(2)
        != '-' || contents.get_char(3) != '\n' {
        return Err(SplitError::MissingOpeningDelimiter);
    }
    let rest = contents.substring_char(4, n);
    proof {
        assert(rest@ =~= contents@.skip(4));
        reveal_strlit("\n---\n");
        assert("\n---\n"@ =~= fm_delim());
    }
    let found = find_sub(rest, "\n---\n");
    match found {
        None => Err(SplitError::MissingClosingDelimiter),
        Some(i) => {
            let rn: usize = rest.unicode_len();
            proof {
                crate::text::lemma_spec_find_props(rest@, fm_delim(), 0);
            }
            let fm = rest.substring_char(0, i);
            let body = rest.substring_char(i + 5, rn);
            proof {
                assert(fm@ =~= rest@.take(i as int));
                assert(body@ =~= rest@.skip(i + 5));
            }
            let trimmed = trim(body);
            if trimmed.unicode_len() == 0 {
                Err(SplitError::EmptyBody)
            } else {
                Ok((fm, body))
            }
        },
    }
}

/// How parsing a frontmatter block can fail: the block is not usable YAML at
/// all, or a specific field is missing or has the wrong shape.
#[derive(Clone, Copy, Debug, PartialEq, Eq)]
pub enum FmError {
    Invalid,
    Field(FmField),
}

/// A required string field of a mapping.
pub open spec fn req_str(m: Map<Seq<char>, YamlData>, k: Seq<char>, f: FmField) -> Result<
    Seq<char>,
    FmField,
> {
    if m.contains_key(k) {
        match m[k] {
            YamlData::Str(s) => Ok(s),
            _ => Err(f),
        }
    } else {
        Err(f)
    }
}

/// An optional string field of a mapping: an absent key or a null both mean
/// "absent".
pub open spec fn opt_str(m: Map<Seq<char>, YamlData>, k: Seq<char>, f: FmField) -> Result<
    Option<Seq<char>>,
    FmField,
> {
    if m.contains_key(k) {
        match m[k] {
            YamlData::Str(s) => Ok(Some(s)),
            YamlData::Null => Ok(None),
            _ => Err(f),
        }
    } else {
        Ok(None)
    }
}

/// An optional integer field of a mapping that must fit `i32`.
pub open spec fn opt_i32(m: Map<Seq<char>, YamlData>, k: Seq<char>, f: FmField) -> Result<
    Option<i32>,
    FmField,
> {
    if m.contains_key(k) {
        match m[k] {
            YamlData::Int(i) => if -0x8000_0000 <= i && i <= 0x7fff_ffff {
                Ok(Some(i as i32))
            } else {
                Err(f)
            },
            YamlData::Null => Ok(None),
            _ => Err(f),
        }
    } else {
        Ok(None)
    }
}

/// A required sub-mapping of a mapping.
pub open spec fn sub_map(m: Map<Seq<char>, YamlData>, k: Seq<char>, f: FmField) -> Result<
    Map<Seq<char>, YamlData>,
    FmField,
> {
    if m.contains_key(k) {
        match m[k] {
            YamlData::Dict(sm) => Ok(sm),
            _ => Err(f),
        }
    } else {
        Err(f)
    }
}

/// A required RFC 3339 timestamp field, in milliseconds since the epoch.
pub open spec fn req_date(m: Map<Seq<char>, YamlData>, k: Seq<char>, f: FmField) -> Result<
    i64,
    FmField,
> {
    match req_str(m, k, f) {
        Ok(s) => match rfc3339_ms_of(s) {
            Some(ms) => Ok(ms),
            None => Err(f),
        },
        Err(e) => Err(e),
    }
}

/// An optional RFC 3339 timestamp field.
pub open spec fn opt_date(m: Map<Seq<char>, YamlData>, k: Seq<char>, f: FmField) -> Result<
    Option<i64>,
    FmField,
> {
    match opt_str(m, k, f) {
        Ok(Some(s)) => match rfc3339_ms_of(s) {
            Some(ms) => Ok(Some(ms)),
            None => Err(f),
        },
        Ok(None) => Ok(None),
        Err(e) => Err(e),
    }
}

/// One entry of the `tags` list.
pub open spec fn spec_tag_item(d: YamlData, i: usize) -> Result<FmTagV, FmField> {
    match d {
        YamlData::Dict(tm) => match req_str(tm, "name"@, FmField::TagName(i)) {
            Ok(name) => match req_str(tm, "slug"@, FmField::TagSlug(i)) {
                Ok(slug) => match opt_str(tm, "color"@, FmField::TagColor(i)) {
                    Ok(color) => Ok(FmTagV { name, slug, color }),
                    Err(e) => Err(e),
                },
                Err(e) => Err(e),
            },
            Err(e) => Err(e),
        },
        _ => Err(FmField::TagEntry(i)),
    }
}

/// The `tags` list entries from `l[i]` on.
pub open spec fn spec_tag_items(l: Seq<YamlData>, i: int) -> Result<Seq<FmTagV>, FmField>
    decreases l.len() - i,
{
    if i < 0 || i >= l.len() {
        Ok(Seq::empty())
    } else {
        match spec_tag_item(l[i], i as usize) {
            Ok(t) => match spec_tag_items(l, i + 1) {
                Ok(rest) => Ok(seq![t] + rest),
                Err(e) => Err(e),
            },
            Err(e) => Err(e),
        }
    }
}

/// The `tags` field: absent means no tags; otherwise it must be a list of
/// tag entries.
pub open spec fn spec_tags(m: Map<Seq<char>, YamlData>) -> Result<Seq<FmTagV>, FmField> {
    if m.contains_key("tags"@) {
        match m["tags"@] {
            YamlData::List(l) => spec_tag_items(l, 0),
            _ => Err(FmField::Tags),
        }
    } else {
        Ok(Seq::empty())
    }
}

/// The frontmatter record that a well-shaped mapping denotes, or the first
/// missing or ill-shaped field in declaration order.
pub open spec fn spec_frontmatter_of_map(m: Map<Seq<char>, YamlData>) -> Result<
    FrontmatterV,
    FmField,
> {
    match req_str(m, "title"@, FmField::Title) {
        Err(e) => Err(e),
        Ok(title) => match req_str(m, "slug"@, FmField::Slug) {
            Err(e) => Err(e),
            Ok(slug) => match opt_str(m, "excerpt"@, FmField::Excerpt) {
                Err(e) => Err(e),
                Ok(excerpt) => match req_date(m, "published_at"@, FmField::PublishedAt) {
                    Err(e) => Err(e),
                    Ok(published_at_ms) => match opt_date(m, "updated_at"@, FmField::UpdatedAt) {
                        Err(e) => Err(e),
                        Ok(updated_at_ms) => match sub_map(m, "author"@, FmField::Author) {
                            Err(e) => Err(e),
                            Ok(am) => match req_str(am, "name"@, FmField::AuthorName) {
                                Err(e) => Err(e),
                                Ok(author_name) => match req_str(
                                    am,
                                    "email"@,
                                    FmField::AuthorEmail,
                                ) {
                                    Err(e) => Err(e),
                                    Ok(author_email) => match sub_map(
                                        m,
                                        "category"@,
                                        FmField::Category,
                                    ) {
                                        Err(e) => Err(e),
                                        Ok(cm) => match req_str(
                                            cm,
                                            "name"@,
                                            FmField::CategoryName,
                                        ) {
                                            Err(e) => Err(e),
                                            Ok(category_name) => match req_str(
                                                cm,
                                                "slug"@,
                                                FmField::CategorySlug,
                                            ) {
                                                Err(e) => Err(e),
                                                Ok(category_slug) => match opt_str(
                                                    cm,
                                                    "color"@,
                                                    FmField::CategoryColor,
                                                ) {
                                                    Err(e) => Err(e),
                                                    Ok(category_color) => match spec_tags(m) {
                                                        Err(e) => Err(e),
                                                        Ok(tags) => match sub_map(
                                                            m,
                                                            "featured_image"@,
                                                            FmField::FeaturedImage,
                                                        ) {
                                                            Err(e) => Err(e),
                                                            Ok(im) => match req_str(
                                                                im,
                                                                "file_url"@,
                                                                FmField::ImageUrl,
                                                            ) {
                                                                Err(e) => Err(e),
                                                                Ok(image_url) => match opt_i32(
                                                                    im,
                                                                    "width"@,
                                                                    FmField::ImageWidth,
                                                                ) {
                                                                    Err(e) => Err(e),
                                                                    Ok(image_width) => match opt_i32(
                                                                        im,
                                                                        "height"@,
                                                                        FmField::ImageHeight,
                                                                    ) {
                                                                        Err(e) => Err(e),
                                                                        Ok(image_height) => Ok(
                                                                            FrontmatterV {
                                                                                title,
                                                                                slug,
                                                                                excerpt,
                                                                                published_at_ms,
                                                                                updated_at_ms,
                                                                                author_name,
                                                                                author_email,
                                                                                category_name,
                                                                                category_slug,
                                                                                category_color,
                                                                                tags,
                                                                                image_url,
                                                                                image_width,
                                                                                image_height,
                                                                            },
                                                                        ),
                                                                    },
                                                                },
                                                            },
                                                        },
                                                    },
                                                },
                                            },
                                        },
                                    },
                                },
                            },
                        },
                    },
                },
            },
        },
    }
}

/// The frontmatter record denoted by a parsed document: the document must be
/// a mapping of the shape of [`spec_frontmatter_of_map`].
pub open spec fn spec_frontmatter(doc: Option<YamlData>) -> Result<FrontmatterV, FmError> {
    match doc {
        None => Err(FmError::Invalid),
        Some(d) => match d {
            YamlData::Dict(m) => match spec_frontmatter_of_map(m) {
                Ok(v) => Ok(v),
                Err(f) => Err(FmError::Field(f)),
            },
            _ => Err(FmError::Invalid),
        },
    }
}

fn get_req_str(v: &serde_yaml::Value, key: &str, f: FmField) -> (r: Result<String, FmField>)
    requires
        yaml_rep(*v) is Dict,
    ensures
        match req_str(yaml_rep(*v)->Dict_0, key@, f) {
            Ok(s) => r matches Ok(t) && t@ == s,
            Err(e) => r == Err::<String, FmField>(e),
        },
{
    match yaml_get(v, key) {
        Some(u) => match yaml_str(u) {
            Some(s) => Ok(s.to_owned()),
            None => Err(f),
        },
        None => Err(f),
    }
}

fn get_opt_str(v: &serde_yaml::Value, key: &str, f: FmField) -> (r: Result<
    Option<String>,
    FmField,
>)
    requires
        yaml_rep(*v) is Dict,
    ensures
        match opt_str(yaml_rep(*v)->Dict_0, key@, f) {
            Ok(s) => r matches Ok(t) && opt_view(t) == s,
            Err(e) => r == Err::<Option<String>, FmField>(e),
        },
{
    match yaml_get(v, key) {
        Some(u) => match yaml_str(u) {
            Some(s) => Ok(Some(s.to_owned())),
            None => if yaml_is_null(u) {
                Ok(None)
            } else {
                Err(f)
            },
        },
        None => Ok(None),
    }
}

fn get_opt_i32(v: &serde_yaml::Value, key: &str, f: FmField) -> (r: Result<Option<i32>, FmField>)
    requires
        yaml_rep(*v) is Dict,
    ensures
        r == opt_i32(yaml_rep(*v)->Dict_0, key@, f),
{
    match yaml_get(v, key) {
        Some(u) => match yaml_i64(u) {
            Some(i) => if -0x8000_0000i64 <= i && i <= 0x7fff_ffffi64 {
                Ok(Some(i as i32))
            } else {
                Err(f)
            },
            None => if yaml_is_null(u) {
                Ok(None)
            } else {
                Err(f)
            },
        },
        None => Ok(None),
    }
}

fn get_sub_map<'a>(v: &'a serde_yaml::Value, key: &str, f: FmField) -> (r: Result<
    &'a serde_yaml::Value,
    FmField,
>)
    requires
        yaml_rep(*v) is Dict,
    ensures
        match sub_map(yaml_rep(*v)->Dict_0, key@, f) {
            Ok(sm) => r matches Ok(u) && yaml_rep(*u) == YamlData::Dict(sm),
            Err(e) => r matches Err(g) && g == e,
        },
{
    match yaml_get(v, key) {
        Some(u) => if yaml_is_map(u) {
            Ok(u)
        } else {
            Err(f)
        },
        None => Err(f),
    }
}

fn get_req_date(v: &serde_yaml::Value, key: &str, f: FmField) -> (r: Result<i64, FmField>)
    requires
        yaml_rep(*v) is Dict,
    ensures
        r == req_date(yaml_rep(*v)->Dict_0, key@, f),
{
    match get_req_str(v, key, f) {
        Ok(s) => match parse_rfc3339_ms(s.as_str()) {
            Some(ms) => Ok(ms),
            None => Err(f),
        },
        Err(e) => Err(e),
    }
}

fn get_opt_date(v: &serde_yaml::Value, key: &str, f: FmField) -> (r: Result<Option<i64>, FmField>)
    requires
        yaml_rep(*v) is Dict,
    ensures
        r == opt_date(yaml_rep(*v)->Dict_0, key@, f),
{
    match get_opt_str(v, key, f) {
        Ok(Some(s)) => match parse_rfc3339_ms(s.as_str()) {
            Some(ms) => Ok(Some(ms)),
            None => Err(f),
        },
        Ok(None) => Ok(None),
        Err(e) => Err(e),
    }
}

fn parse_tag(u: &serde_yaml::Value, i: usize) -> (r: Result<FrontmatterTag, FmField>)
    ensures
        match spec_tag_item(yaml_rep(*u), i) {
            Ok(tv) => r matches Ok(t) && t@ == tv,
            Err(e) => r == Err::<FrontmatterTag, FmField>(e),
        },
{
    if !yaml_is_map(u) {
        return Err(FmField::TagEntry(i));
    }
    let name = match get_req_str(u, "name", FmField::TagName(i)) {
        Ok(s) => s,
        Err(e) => return Err(e),
    };
    let slug = match get_req_str(u, "slug", FmField::TagSlug(i)) {
        Ok(s) => s,
        Err(e) => return Err(e),
    };
    let color = match get_opt_str(u, "color", FmField::TagColor(i)) {
        Ok(c) => c,
        Err(e) => return Err(e),
    };
    Ok(FrontmatterTag { name, slug, color })
}

#[verifier::loop_isolation(false)]
fn parse_tags(v: &serde_yaml::Value) -> (r: Result<Vec<FrontmatterTag>, FmField>)
    requires
        yaml_rep(*v) is Dict,
    ensures
        match spec_tags(yaml_rep(*v)->Dict_0) {
            Ok(ts) => r matches Ok(out) && out@.map_values(|t: FrontmatterTag| t@) == ts,
            Err(e) => r == Err::<Vec<FrontmatterTag>, FmField>(e),
        },
{
    let entry = match yaml_get(v, "tags") {
        None => {
            proof {
                assert(Seq::<FrontmatterTag>::empty().map_values(|t: FrontmatterTag| t@)
                    =~= Seq::<FmTagV>::empty());
            }
            return Ok(Vec::new());
        },
        Some(u) => u,
    };
    let xs = match yaml_list(entry) {
        Some(xs) => xs,
        None => {
            return Err(FmField::Tags);
        },
    };
    let ghost l = yaml_rep(*entry)->List_0;
    let n: usize = xs.len();
    let mut out: Vec<FrontmatterTag> = Vec::new();
    let mut i: usize = 0;
    while i < n
        invariant
            0 <= i <= n,
            n == l.len(),
            n == xs@.len(),
            forall|j: int| 0 <= j < n ==> yaml_rep(xs@[j]) == l[j],
            spec_tag_items(l, 0) == (match spec_tag_items(l, i as int) {
                Ok(rest) => Ok::<Seq<FmTagV>, FmField>(
                    out@.map_values(|t: FrontmatterTag| t@) + rest,
                ),
                Err(e) => Err::<Seq<FmTagV>, FmField>(e),
            }),
        decreases n - i,
    {
        let ghost out_pre = out@;
        match parse_tag(&xs[i], i) {
            Ok(t) => {
                out.push(t);
                proof {
                    let tv = spec_tag_item(l[i as int], i)->Ok_0;
                    assert(out@.map_values(|t: FrontmatterTag| t@) =~= out_pre.map_values(
                        |t: FrontmatterTag| t@,
                    ) + seq![tv]);
                    if spec_tag_items(l, i + 1) is Ok {
                        assert(out_pre.map_values(|t: FrontmatterTag| t@) + (seq![tv]
                            + spec_tag_items(l, i + 1)->Ok_0) =~= out@.map_values(
                            |t: FrontmatterTag| t@,
                        ) + spec_tag_items(l, i + 1)->Ok_0);
                    }
                }
            },
            Err(e) => {
                proof {
                    assert(spec_tag_item(l[i as int], i) == Err::<FmTagV, FmField>(e));
                    assert(spec_tag_items(l, i as int) == Err::<Seq<FmTagV>, FmField>(e));
                }
                return Err(e);
            },
        }
        i = i + 1;
    }
    proof {
        assert(out@.map_values(|t: FrontmatterTag| t@) + Seq::<FmTagV>::empty() =~= out@.map_values(
            |t: FrontmatterTag| t@,
        ));
    }
    Ok(out)
}

/// Parses a frontmatter block, proved against [`spec_frontmatter`] over the
/// document model [`yaml_doc`].
pub fn parse_frontmatter(raw: &str) -> (r: Result<Frontmatter, FmError>)
    ensures
        match spec_frontmatter(yaml_doc(raw@)) {
            Ok(v) => r matches Ok(fm) && fm@ == v,
            Err(e) => r == Err::<Frontmatter, FmError>(e),
        },
{
    let doc = match yaml_parse(raw) {
        Some(v) => v,
        None => {
            return Err(FmError::Invalid);
        },
    };
    if !yaml_is_map(&doc) {
        return Err(FmError::Invalid);
    }
    let title = match get_req_str(&doc, "title", FmField::Title) {
        Ok(s) => s,
        Err(e) => return Err(FmError::Field(e)),
    };
    let slug = match get_req_str(&doc, "slug", FmField::Slug) {
        Ok(s) => s,
        Err(e) => return Err(FmError::Field(e)),
    };
    let excerpt = match get_opt_str(&doc, "excerpt", FmField::Excerpt) {
        Ok(s) => s,
        Err(e) => return Err(FmError::Field(e)),
    };
    let published_at_ms = match get_req_date(&doc, "published_at", FmField::PublishedAt) {
        Ok(ms) => ms,
        Err(e) => return Err(FmError::Field(e)),
    };
    let updated_at_ms = match get_opt_date(&doc, "updated_at", FmField::UpdatedAt) {
        Ok(ms) => ms,
        Err(e) => return Err(FmError::Field(e)),
    };
    let author_map = match get_sub_map(&doc, "author", FmField::Author) {
        Ok(u) => u,
        Err(e) => return Err(FmError::Field(e)),
    };
    let author_name = match get_req_str(author_map, "name", FmField::AuthorName) {
        Ok(s) => s,
        Err(e) => return Err(FmError::Field(e)),
    };
    let author_email = match get_req_str(author_map, "email", FmField::AuthorEmail) {
        Ok(s) => s,
        Err(e) => return Err(FmError::Field(e)),
    };
    let category_map = match get_sub_map(&doc, "category", FmField::Category) {
        Ok(u) => u,
        Err(e) => return Err(FmError::Field(e)),
    };
    let category_name = match get_req_str(category_map, "name", FmField::CategoryName) {
        Ok(s) => s,
        Err(e) => return Err(FmError::Field(e)),
    };
    let category_slug = match get_req_str(category_map, "slug", FmField::CategorySlug) {
        Ok(s) => s,
        Err(e) => return Err(FmError::Field(e)),
    };
    let category_color = match get_opt_str(category_map, "color", FmField::CategoryColor) {
        Ok(s) => s,
        Err(e) => return Err(FmError::Field(e)),
    };
    let tags = match parse_tags(&doc) {
        Ok(ts) => ts,
        Err(e) => return Err(FmError::Field(e)),
    };
    let image_map = match get_sub_map(&doc, "featured_image", FmField::FeaturedImage) {
        Ok(u) => u,
        Err(e) => return Err(FmError::Field(e)),
    };
    let image_url = match get_req_str(image_map, "file_url", FmField::ImageUrl) {
        Ok(s) => s,
        Err(e) => return Err(FmError::Field(e)),
    };
    let image_width = match get_opt_i32(image_map, "width", FmField::ImageWidth) {
        Ok(w) => w,
        Err(e) => return Err(FmError::Field(e)),
    };
    let image_height = match get_opt_i32(image_map, "height", FmField::ImageHeight) {
        Ok(h) => h,
        Err(e) => return Err(FmError::Field(e)),
    };
    Ok(
        Frontmatter {
            title,
            slug,
            excerpt,
            published_at_ms,
            updated_at_ms,
            author: FrontmatterAuthor { name: author_name, email: author_email },
            category: FrontmatterCategory {
                name: category_name,
                slug: category_slug,
                color: category_color,
            },
            tags,
            featured_image: FrontmatterImage {
                file_url: image_url,
                width: image_width,
                height: image_height,
            },
        },
    )
}

/// The first frontmatter field that is empty after trimming, in the fixed
/// validation order, if any.
pub open spec fn first_invalid_tag(ts: Seq<FmTagV>, i: int) -> Option<FmField>
    decreases ts.len() - i,
{
    if i < 0 || i >= ts.len() {
        None
    } else if trim_spec(ts[i].name).len() == 0 {
        Some(FmField::TagName(i as usize))
    } else if trim_spec(ts[i].slug).len() == 0 {
        Some(FmField::TagSlug(i as usize))
    } else {
        first_invalid_tag(ts, i + 1)
    }
}

/// The first validation violation of a parsed frontmatter block, if any:
/// each listed field must be non-empty after trimming.
pub open spec fn first_invalid_field(fm: FrontmatterV) -> Option<FmField> {
    if trim_spec(fm.title).len() == 0 {
        Some(FmField::Title)
    } else if trim_spec(fm.slug).len() == 0 {
        Some(FmField::Slug)
    } else if trim_spec(fm.author_name).len() == 0 {
        Some(FmField::AuthorName)
    } else if trim_spec(fm.author_email).len() == 0 {
        Some(FmField::AuthorEmail)
    } else if trim_spec(fm.category_name).len() == 0 {
        Some(FmField::CategoryName)
    } else if trim_spec(fm.category_slug).len() == 0 {
        Some(FmField::CategorySlug)
    } else if trim_spec(fm.image_url).len() == 0 {
        Some(FmField::ImageUrl)
    } else {
        first_invalid_tag(fm.tags, 0)
    }
}

fn trimmed_empty(s: &str) -> (r: bool)
    ensures
        r == (trim_spec(s@).len() == 0),
{
    let t = trim(s);
    t.unicode_len() == 0
}

/// Validates a parsed frontmatter block, proved against
/// [`first_invalid_field`].
#[verifier::loop_isolation(false)]
pub fn validate_frontmatter(fm: &Frontmatter) -> (r: Result<(), FmField>)
    ensures
        match first_invalid_field(fm@) {
            Some(f) => r == Err::<(), FmField>(f),
            None => r is Ok,
        },
{
    if trimmed_empty(fm.title.as_str()) {
        return Err(FmField::Title);
    }
    if trimmed_empty(fm.slug.as_str()) {
        return Err(FmField::Slug);
    }
    if trimmed_empty(fm.author.name.as_str()) {
        return Err(FmField::AuthorName);
    }
    if trimmed_empty(fm.author.email.as_str()) {
        return Err(FmField::AuthorEmail);
    }
    if trimmed_empty(fm.category.name.as_str()) {
        return Err(FmField::CategoryName);
    }
    if trimmed_empty(fm.category.slug.as_str()) {
        return Err(FmField::CategorySlug);
    }
    if trimmed_empty(fm.featured_image.file_url.as_str()) {
        return Err(FmField::ImageUrl);
    }
    let ghost tvs = fm@.tags;
    let n: usize = fm.tags.len();
    let mut i: usize = 0;
    while i < n
        invariant
            0 <= i <= n,
            n == tvs.len(),
            tvs == fm.tags@.map_values(|t: FrontmatterTag| t@),
            first_invalid_tag(tvs, 0) == first_invalid_tag(tvs, i as int),
        decreases n - i,
    {
        proof {
            assert(tvs[i as int] == fm.tags@[i as int]@);
        }
        if trimmed_empty(fm.tags[i].name.as_str()) {
            proof {
                assert(first_invalid_tag(tvs, i as int) == Some(FmField::TagName(i)));
            }
            return Err(FmField::TagName(i));
        }
        if trimmed_empty(fm.tags[i].slug.as_str()) {
            proof {
                assert(first_invalid_tag(tvs, i as int) == Some(FmField::TagSlug(i)));
            }
            return Err(FmField::TagSlug(i));
        }
        i = i + 1;
    }
    Ok(())
}

} // verus!
