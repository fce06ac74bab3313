//! The pipeline's error type. Every failure carries the offending file path
//! and, where one applies, the specific field, entity key, or slug; and every
//! error renders to the exact message stated by [`message_spec`].

use vstd::prelude::*;
use vstd::string::*;
use crate::text::{spec_dec, push_dec};

verus! {

/// A field path within a frontmatter block.
#[derive(Clone, Copy, Debug, PartialEq, Eq)]
pub enum FmField {
    Title,
    Slug,
    Excerpt,
    PublishedAt,
    UpdatedAt,
    Author,
    AuthorName,
    AuthorEmail,
    Category,
    CategoryName,
    CategorySlug,
    CategoryColor,
    Tags,
    TagEntry(usize),
    TagName(usize),
    TagSlug(usize),
    TagColor(usize),
    FeaturedImage,
    ImageUrl,
    ImageWidth,
    ImageHeight,
}

/// The dotted path of a field, as it appears in error messages.
pub open spec fn field_name_spec(f: FmField) -> Seq<char> {
    match f {
        FmField::Title => "title"@,
        FmField::Slug => "slug"@,
        FmField::Excerpt => "excerpt"@,
        FmField::PublishedAt => "published_at"@,
        FmField::UpdatedAt => "updated_at"@,
        FmField::Author => "author"@,
        FmField::AuthorName => "author.name"@,
        FmField::AuthorEmail => "author.email"@,
        FmField::Category => "category"@,
        FmField::CategoryName => "category.name"@,
        FmField::CategorySlug => "category.slug"@,
        FmField::CategoryColor => "category.color"@,
        FmField::Tags => "tags"@,
        FmField::TagEntry(i) => "tags["@ + spec_dec(i as int) + "]"@,
        FmField::TagName(i) => "tags["@ + spec_dec(i as int) + "].name"@,
        FmField::TagSlug(i) => "tags["@ + spec_dec(i as int) + "].slug"@,
        FmField::TagColor(i) => "tags["@ + spec_dec(i as int) + "].color"@,
        FmField::FeaturedImage => "featured_image"@,
        FmField::ImageUrl => "featured_image.file_url"@,
        FmField::ImageWidth => "featured_image.width"@,
        FmField::ImageHeight => "featured_image.height"@,
    }
}

/// Renders the dotted path of a field.
pub fn field_name(f: FmField) -> (r: String)
    ensures
        r@ == field_name_spec(f),
{
    match f {
        FmField::Title => "title".to_owned(),
        FmField::Slug => "slug".to_owned(),
        FmField::Excerpt => "excerpt".to_owned(),
        FmField::PublishedAt => "published_at".to_owned(),
        FmField::UpdatedAt => "updated_at".to_owned(),
        FmField::Author => "author".to_owned(),
        FmField::AuthorName => "author.name".to_owned(),
        FmField::AuthorEmail => "author.email".to_owned(),
        FmField::Category => "category".to_owned(),
        FmField::CategoryName => "category.name".to_owned(),
        FmField::CategorySlug => "category.slug".to_owned(),
        FmField::CategoryColor => "category.color".to_owned(),
        FmField::Tags => "tags".to_owned(),
        FmField::TagEntry(i) => tag_field(i, "]"),
        FmField::TagName(i) => tag_field(i, "].name"),
        FmField::TagSlug(i) => tag_field(i, "].slug"),
        FmField::TagColor(i) => tag_field(i, "].color"),
        FmField::FeaturedImage => "featured_image".to_owned(),
        FmField::ImageUrl => "featured_image.file_url".to_owned(),
        FmField::ImageWidth => "featured_image.width".to_owned(),
        FmField::ImageHeight => "featured_image.height".to_owned(),
    }
}

fn tag_field(i: usize, suffix: &str) -> (r: String)
    ensures
        r@ == "tags["@ + spec_dec(i as int) + suffix@,
{
    let mut s = String::new();
    s.append("tags[");
    push_dec(&mut s, i);
    s.append(suffix);
    proof {
        assert(s@ =~= "tags["@ + spec_dec(i as int) + suffix@);
    }
    s
}

/// The ghost image of a [`ContentError`]: the same cases over character
/// sequences.
pub enum ErrV {
    EmptyCorpus,
    MissingOpeningDelimiter { path: Seq<char> },
    MissingClosingDelimiter { path: Seq<char> },
    EmptyBody { path: Seq<char> },
    InvalidYaml { path: Seq<char> },
    SchemaField { path: Seq<char>, field: FmField },
    RequiredField { path: Seq<char>, field: FmField },
    DuplicateSlug { path: Seq<char>, slug: Seq<char> },
    ConflictingAuthor { email: Seq<char> },
    ConflictingCategory { slug: Seq<char> },
    ConflictingTag { slug: Seq<char> },
    UnknownCategory { path: Seq<char>, slug: Seq<char> },
    UnknownTag { path: Seq<char>, slug: Seq<char> },
    MissingAuthorId { path: Seq<char>, email: Seq<char> },
}

/// Why a content build failed. The build is all-or-nothing: the first error
/// anywhere in the pipeline aborts it.
#[derive(Clone, Debug, PartialEq, Eq)]
pub enum ContentError {
    /// No source produced a post; at least one post is mandatory.
    EmptyCorpus,
    /// The file does not begin with a `---` delimiter line.
    MissingOpeningDelimiter { path: String },
    /// No closing `---` delimiter line follows the frontmatter block.
    MissingClosingDelimiter { path: String },
    /// The Markdown body is empty after trimming.
    EmptyBody { path: String },
    /// The frontmatter block is not valid YAML, or not a mapping.
    InvalidYaml { path: String },
    /// A required frontmatter field is absent or has the wrong shape.
    SchemaField { path: String, field: FmField },
    /// A frontmatter field is empty after trimming.
    RequiredField { path: String, field: FmField },
    /// Two sources declare the same post slug.
    DuplicateSlug { path: String, slug: String },
    /// One author email carries two different display names.
    ConflictingAuthor { email: String },
    /// One category slug carries two different (name, color) pairs.
    ConflictingCategory { slug: String },
    /// One tag slug carries two different (name, color) pairs.
    ConflictingTag { slug: String },
    /// A post references a category slug that no source declares.
    UnknownCategory { path: String, slug: String },
    /// A post references a tag slug that no source declares.
    UnknownTag { path: String, slug: String },
    /// Internal consistency fault: the author table lacks a folded email.
    MissingAuthorId { path: String, email: String },
}

impl View for ContentError {
    type V = ErrV;

    open spec fn view(&self) -> ErrV {
        match self {
            ContentError::EmptyCorpus => ErrV::EmptyCorpus,
            ContentError::MissingOpeningDelimiter { path } => ErrV::MissingOpeningDelimiter {
                path: path@,
            },
            ContentError::MissingClosingDelimiter { path } => ErrV::MissingClosingDelimiter {
                path: path@,
            },
            ContentError::EmptyBody { path } => ErrV::EmptyBody { path: path@ },
            ContentError::InvalidYaml { path } => ErrV::InvalidYaml { path: path@ },
            ContentError::SchemaField { path, field } => ErrV::SchemaField {
                path: path@,
                field: *field,
            },
            ContentError::RequiredField { path, field } => ErrV::RequiredField {
                path: path@,
                field: *field,
            },
            ContentError::DuplicateSlug { path, slug } => ErrV::DuplicateSlug {
                path: path@,
                slug: slug@,
            },
            ContentError::ConflictingAuthor { email } => ErrV::ConflictingAuthor { email: email@ },
            ContentError::ConflictingCategory { slug } => ErrV::ConflictingCategory {
                slug: slug@,
            },
            ContentError::ConflictingTag { slug } => ErrV::ConflictingTag { slug: slug@ },
            ContentError::UnknownCategory { path, slug } => ErrV::UnknownCategory {
                path: path@,
                slug: slug@,
            },
            ContentError::UnknownTag { path, slug } => ErrV::UnknownTag {
                path: path@,
                slug: slug@,
            },
            ContentError::MissingAuthorId { path, email } => ErrV::MissingAuthorId {
                path: path@,
                email: email@,
            },
        }
    }
}

/// The message that [`ContentError::message`] renders for each error.
pub open spec fn message_spec(e: ErrV) -> Seq<char> {
    match e {
        ErrV::EmptyCorpus => "At least one markdown post is required"@,
        ErrV::MissingOpeningDelimiter { path } => path + ": Missing opening frontmatter delimiter `---`"@,
        ErrV::MissingClosingDelimiter { path } => path + ": Missing closing frontmatter delimiter `---`"@,
        ErrV::EmptyBody { path } => path + ": Markdown body cannot be empty"@,
        ErrV::InvalidYaml { path } => path + ": Invalid frontmatter YAML"@,
        ErrV::SchemaField { path, field } => path + ": Invalid frontmatter YAML: missing or invalid `"@
            + field_name_spec(field) + "`"@,
        ErrV::RequiredField { path, field } => path + ": `"@ + field_name_spec(field)
            + "` is required"@,
        ErrV::DuplicateSlug { path, slug } => "Duplicate post slug '"@ + slug + "' in "@ + path,
        ErrV::ConflictingAuthor { email } => "Author email '"@ + email
            + "' has multiple names across posts"@,
        ErrV::ConflictingCategory { slug } => "Category '"@ + slug
            + "' has conflicting metadata across posts"@,
        ErrV::ConflictingTag { slug } => "Tag '"@ + slug
            + "' has conflicting metadata across posts"@,
        ErrV::UnknownCategory { path, slug } => "Unknown category '"@ + slug + "' referenced by "@
            + path,
        ErrV::UnknownTag { path, slug } => "Unknown tag '"@ + slug + "' referenced by "@ + path,
        ErrV::MissingAuthorId { path, email } => "Missing generated author id for email '"@ + email
            + "' in "@ + path,
    }
}

impl ContentError {
    /// Renders the error as the exact message of [`message_spec`].
    pub fn message(&self) -> (r: String)
        ensures
            r@ == message_spec(self@),
    {
        let mut s = String::new();
        match self {
            ContentError::EmptyCorpus => {
                s.append("At least one markdown post is required");
            },
            ContentError::MissingOpeningDelimiter { path } => {
                s.append(path.as_str());
                s.append(": Missing opening frontmatter delimiter `---`");
            },
            ContentError::MissingClosingDelimiter { path } => {
                s.append(path.as_str());
                s.append(": Missing closing frontmatter delimiter `---`");
            },
            ContentError::EmptyBody { path } => {
                s.append(path.as_str());
                s.append(": Markdown body cannot be empty");
            },
            ContentError::InvalidYaml { path } => {
                s.append(path.as_str());
                s.append(": Invalid frontmatter YAML");
            },
            ContentError::SchemaField { path, field } => {
                s.append(path.as_str());
                s.append(": Invalid frontmatter YAML: missing or invalid `");
                let name = field_name(*field);
                s.append(name.as_str());
                s.append("`");
            },
            ContentError::RequiredField { path, field } => {
                s.append(path.as_str());
                s.append(": `");
                let name = field_name(*field);
                s.append(name.as_str());
                s.append("` is required");
            },
            ContentError::DuplicateSlug { path, slug } => {
                s.append("Duplicate post slug '");
                s.append(slug.as_str());
                s.append("' in ");
                s.append(path.as_str());
            },
            ContentError::ConflictingAuthor { email } => {
                s.append("Author email '");
                s.append(email.as_str());
                s.append("' has multiple names across posts");
            },
            ContentError::ConflictingCategory { slug } => {
                s.append("Category '");
                s.append(slug.as_str());
                s.append("' has conflicting metadata across posts");
            },
            ContentError::ConflictingTag { slug } => {
                s.append("Tag '");
                s.append(slug.as_str());
                s.append("' has conflicting metadata across posts");
            },
            ContentError::UnknownCategory { path, slug } => {
                s.append("Unknown category '");
                s.append(slug.as_str());
                s.append("' referenced by ");
                s.append(path.as_str());
            },
            ContentError::UnknownTag { path, slug } => {
                s.append("Unknown tag '");
                s.append(slug.as_str());
                s.append("' referenced by ");
                s.append(path.as_str());
            },
            ContentError::MissingAuthorId { path, email } => {
                s.append("Missing generated author id for email '");
                s.append(email.as_str());
                s.append("' in ");
                s.append(path.as_str());
            },
        }
        proof {
            assert(s@ =~= message_spec(self@));
        }
        s
    }
}

} // verus!
