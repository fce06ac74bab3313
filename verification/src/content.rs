//! The content pipeline and its published snapshot: sources are sorted by
//! path, parsed and validated, checked for duplicate post slugs, folded into
//! entity tables, joined into posts, and indexed for display.

use vstd::prelude::*;
use vstd::string::*;
use crate::SourceFile;
use crate::text::{lex_le, lex_lt, str_eq, str_le, lemma_lex_le_total, lemma_lex_le_trans};
use crate::bridge::now_ms;
use crate::error::{ContentError, ErrV};
use crate::frontmatter::{
    ParsedSource, ParsedSourceV, SplitError, FmError, views_of, split_frontmatter,
    parse_frontmatter, validate_frontmatter, spec_split, spec_frontmatter, first_invalid_field,
};
use crate::yaml::yaml_doc;
use crate::entities::{
    Category, Tag, fold_authors, fold_categories, fold_tags, build_author_ids, build_categories,
    build_tags, entity_list_ok, cat_slugs, cat_names, cat_colors, tag_slugs, tag_names, tag_colors,
    cat_defaults_ok, tag_defaults_ok, id_for, id_at, author_key, cat_key, tag_key, keys_sorted,
    assoc_has_key, lemma_fold_authors_complete, lemma_fold_categories_complete,
    lemma_fold_tags_complete,
};
use crate::post::{
    Post, PostV, post_views, post_ok, build_post, lookup_author, lookup_category, lookup_tag,
    first_unknown_tag,
};
use crate::sorting::{SortOrder, seq_ordered, sort_vec};

verus! {

impl SortOrder for SourceFile {
    open spec fn le(self, other: Self) -> bool {
        lex_le(self.path@, other.path@)
    }

    fn le_exec(&self, other: &Self) -> (r: bool) {
        str_le(self.path.as_str(), other.path.as_str())
    }

    proof fn le_total(a: Self, b: Self) {
        lemma_lex_le_total(a.path@, b.path@);
    }

    proof fn le_trans(a: Self, b: Self, c: Self) {
        lemma_lex_le_trans(a.path@, b.path@, c.path@);
    }
}

impl SortOrder for ParsedSource {
    open spec fn le(self, other: Self) -> bool {
        lex_le(self.frontmatter.slug@, other.frontmatter.slug@)
    }

    fn le_exec(&self, other: &Self) -> (r: bool) {
        str_le(self.frontmatter.slug.as_str(), other.frontmatter.slug.as_str())
    }

    proof fn le_total(a: Self, b: Self) {
        lemma_lex_le_total(a.frontmatter.slug@, b.frontmatter.slug@);
    }

    proof fn le_trans(a: Self, b: Self, c: Self) {
        lemma_lex_le_trans(a.frontmatter.slug@, b.frontmatter.slug@, c.frontmatter.slug@);
    }
}

/// The timestamp a post is ordered by for display: its publication time,
/// falling back to its creation time.
pub open spec fn display_time(p: Post) -> i64 {
    match p.published_at_ms {
        Some(t) => t,
        None => p.created_at_ms,
    }
}

fn display_time_exec(p: &Post) -> (r: i64)
    ensures
        r == display_time(*p),
{
    match p.published_at_ms {
        Some(t) => t,
        None => p.created_at_ms,
    }
}

impl SortOrder for Post {
    /// Display order: newest first, ties broken by ascending slug.
    open spec fn le(self, other: Self) -> bool {
        display_time(other) < display_time(self) || (display_time(other) == display_time(self)
            && lex_le(self.slug@, other.slug@))
    }

    fn le_exec(&self, other: &Self) -> (r: bool) {
        let ta = display_time_exec(self);
        let tb = display_time_exec(other);
        tb < ta || (tb == ta && str_le(self.slug.as_str(), other.slug.as_str()))
    }

    proof fn le_total(a: Self, b: Self) {
        lemma_lex_le_total(a.slug@, b.slug@);
    }

    proof fn le_trans(a: Self, b: Self, c: Self) {
        if display_time(b) == display_time(a) && display_time(c) == display_time(b) {
            lemma_lex_le_trans(a.slug@, b.slug@, c.slug@);
        }
    }
}

impl SortOrder for String {
    open spec fn le(self, other: Self) -> bool {
        lex_le(self@, other@)
    }

    fn le_exec(&self, other: &Self) -> (r: bool) {
        str_le(self.as_str(), other.as_str())
    }

    proof fn le_total(a: Self, b: Self) {
        lemma_lex_le_total(a@, b@);
    }

    proof fn le_trans(a: Self, b: Self, c: Self) {
        lemma_lex_le_trans(a@, b@, c@);
    }
}

/// The parse of one source file: split into frontmatter and body, the
/// frontmatter parsed from its YAML document, and the record validated.
/// Every failure carries the file's path.
pub open spec fn spec_parse_source(path: Seq<char>, contents: Seq<char>) -> Result<
    ParsedSourceV,
    ErrV,
> {
    match spec_split(contents) {
        Err(SplitError::MissingOpeningDelimiter) => Err(ErrV::MissingOpeningDelimiter { path }),
        Err(SplitError::MissingClosingDelimiter) => Err(ErrV::MissingClosingDelimiter { path }),
        Err(SplitError::EmptyBody) => Err(ErrV::EmptyBody { path }),
        Ok((fm_text, body)) => match spec_frontmatter(yaml_doc(fm_text)) {
            Err(FmError::Invalid) => Err(ErrV::InvalidYaml { path }),
            Err(FmError::Field(f)) => Err(ErrV::SchemaField { path, field: f }),
            Ok(fv) => match first_invalid_field(fv) {
                Some(f) => Err(ErrV::RequiredField { path, field: f }),
                None => Ok(ParsedSourceV { path, frontmatter: fv, body_markdown: body }),
            },
        },
    }
}

/// The parse of the first `i` sources, in order; the first failure wins.
pub open spec fn spec_parse_all(ss: Seq<SourceFile>, i: int) -> Result<Seq<ParsedSourceV>, ErrV>
    decreases i,
{
    if i <= 0 {
        Ok(Seq::empty())
    } else {
        match spec_parse_all(ss, i - 1) {
            Err(e) => Err(e),
            Ok(ps) => match spec_parse_source(ss[i - 1].path@, ss[i - 1].contents@) {
                Err(e) => Err(e),
                Ok(p) => Ok(ps.push(p)),
            },
        }
    }
}

/// A failed parse stays failed over any longer prefix.
pub proof fn lemma_parse_all_err(ss: Seq<SourceFile>, i: int, j: int)
    requires
        0 <= i <= j,
        spec_parse_all(ss, i) is Err,
    ensures
        spec_parse_all(ss, j) == spec_parse_all(ss, i),
    decreases j - i,
{
    if j > i {
        lemma_parse_all_err(ss, i, j - 1);
    }
}

/// Parses and validates one source file, proved against
/// [`spec_parse_source`].
pub fn parse_source_file(source: &SourceFile) -> (r: Result<ParsedSource, ContentError>)
    ensures
        match spec_parse_source(source.path@, source.contents@) {
            Ok(pv) => r matches Ok(p) && p@ == pv,
            Err(ev) => r matches Err(e) && e@ == ev,
        },
{
    let (fm_text, body) = match split_frontmatter(source.contents.as_str()) {
        Ok(pair) => pair,
        Err(SplitError::MissingOpeningDelimiter) => {
            return Err(ContentError::MissingOpeningDelimiter { path: source.path.clone() });
        },
        Err(SplitError::MissingClosingDelimiter) => {
            return Err(ContentError::MissingClosingDelimiter { path: source.path.clone() });
        },
        Err(SplitError::EmptyBody) => {
            return Err(ContentError::EmptyBody { path: source.path.clone() });
        },
    };
    let frontmatter = match parse_frontmatter(fm_text) {
        Ok(fm) => fm,
        Err(FmError::Invalid) => {
            return Err(ContentError::InvalidYaml { path: source.path.clone() });
        },
        Err(FmError::Field(f)) => {
            return Err(ContentError::SchemaField { path: source.path.clone(), field: f });
        },
    };
    match validate_frontmatter(&frontmatter) {
        Ok(_) => {},
        Err(f) => {
            return Err(ContentError::RequiredField { path: source.path.clone(), field: f });
        },
    }
    Ok(
        ParsedSource {
            path: source.path.clone(),
            frontmatter,
            body_markdown: body.to_owned(),
        },
    )
}

/// All post slugs of `sp` are pairwise distinct.
pub open spec fn slugs_distinct(sp: Seq<ParsedSource>) -> bool {
    forall|i: int, j: int|
        0 <= i < j < sp.len() ==> (#[trigger] sp[i]).frontmatter.slug@ != (
        #[trigger] sp[j]).frontmatter.slug@
}

/// In a slug-ordered list, distinct neighbours mean distinct slugs
/// everywhere.
proof fn lemma_adjacent_distinct_slugs(sp: Seq<ParsedSource>)
    requires
        seq_ordered::<ParsedSource>(sp),
        forall|i: int|
            0 <= i < sp.len() - 1 ==> (#[trigger] sp[i]).frontmatter.slug@ != sp[i
                + 1].frontmatter.slug@,
    ensures
        slugs_distinct(sp),
{
    assert forall|i: int, j: int|
        0 <= i < j < sp.len() implies (#[trigger] sp[i]).frontmatter.slug@ != (
    #[trigger] sp[j]).frontmatter.slug@ by {
        if sp[i].frontmatter.slug@ == sp[j].frontmatter.slug@ {
            assert(sp[i].le(sp[i + 1]));
            assert(sp[i + 1].le(sp[j]));
            lemma_lex_le_total(sp[i + 1].frontmatter.slug@, sp[i].frontmatter.slug@);
        }
    }
}

/// Rejects a slug-sorted corpus that declares the same post slug twice,
/// naming the slug and a path that declares it.
#[verifier::loop_isolation(false)]
pub fn ensure_unique_post_slugs(sorted: &Vec<ParsedSource>) -> (r: Result<(), ContentError>)
    requires
        seq_ordered::<ParsedSource>(sorted@),
    ensures
        match r {
            Ok(_) => slugs_distinct(sorted@),
            Err(e) => e@ matches ErrV::DuplicateSlug { path, slug } && exists|i: int|
                0 <= i < sorted@.len() - 1 && (#[trigger] sorted@[i]).frontmatter.slug@ == slug
                    && sorted@[i + 1].frontmatter.slug@ == slug && sorted@[i + 1].path@ == path,
        },
{
    let n = sorted.len();
    if n == 0 {
        return Ok(());
    }
    let mut i: usize = 0;
    while i < n - 1
        invariant
            0 <= i <= n - 1,
            n == sorted@.len(),
            forall|j: int|
                0 <= j < i ==> (#[trigger] sorted@[j]).frontmatter.slug@ != sorted@[j
                    + 1].frontmatter.slug@,
        decreases n - 1 - i,
    {
        if str_eq(sorted[i].frontmatter.slug.as_str(), sorted[i + 1].frontmatter.slug.as_str()) {
            return Err(
                ContentError::DuplicateSlug {
                    path: sorted[i + 1].path.clone(),
                    slug: sorted[i + 1].frontmatter.slug.clone(),
                },
            );
        }
        i = i + 1;
    }
    proof {
        lemma_adjacent_distinct_slugs(sorted@);
    }
    Ok(())
}

/// The published content snapshot: every lookup structure the blog serves
/// from, built once by [`parse_sources`] and read-only afterwards.
#[derive(Clone, Debug, PartialEq)]
pub struct DemoContent {
    /// Posts in display order: newest first, ties broken by ascending slug.
    pub posts_sorted: Vec<Post>,
    /// Tags in ascending slug order; identifiers are 1-based positions.
    pub tags_sorted: Vec<Tag>,
    /// Categories in ascending slug order; identifiers are 1-based positions.
    pub categories_sorted: Vec<Category>,
    /// Bucket `i` holds the posts carrying tag identifier `i + 1`, in
    /// display order.
    pub posts_by_tag: Vec<Vec<Post>>,
    /// Bucket `i` holds the posts of category identifier `i + 1`, in
    /// display order.
    pub posts_by_category: Vec<Vec<Post>>,
}

/// The posts of `s` whose category carries identifier `id`, in order.
pub open spec fn filter_by_cat(s: Seq<Post>, id: i32) -> Seq<Post>
    decreases s.len(),
{
    if s.len() == 0 {
        Seq::empty()
    } else if s.last().category.id == id {
        filter_by_cat(s.drop_last(), id).push(s.last())
    } else {
        filter_by_cat(s.drop_last(), id)
    }
}

/// Does the post carry a tag with identifier `id`?
pub open spec fn post_has_tag(p: Post, id: i32) -> bool {
    exists|k: int| 0 <= k < p.tags@.len() && (#[trigger] p.tags@[k]).id == id
}

/// The posts of `s` carrying tag identifier `id`, in order.
pub open spec fn filter_by_tag(s: Seq<Post>, id: i32) -> Seq<Post>
    decreases s.len(),
{
    if s.len() == 0 {
        Seq::empty()
    } else if post_has_tag(s.last(), id) {
        filter_by_tag(s.drop_last(), id).push(s.last())
    } else {
        filter_by_tag(s.drop_last(), id)
    }
}

impl DemoContent {
    /// The snapshot's internal shape: posts in display order, entity lists
    /// slug-sorted with positional identifiers, and one bucket per entity
    /// holding exactly its posts.
    pub open spec fn wf(self) -> bool {
        &&& seq_ordered::<Post>(self.posts_sorted@)
        &&& (forall|i: int|
            0 <= i < self.categories_sorted@.len() ==> (#[trigger] self.categories_sorted@[i]).id
                == id_for(i))
        &&& (forall|i: int, j: int|
            0 <= i < j < self.categories_sorted@.len() ==> lex_lt(
                (#[trigger] self.categories_sorted@[i]).slug@,
                (#[trigger] self.categories_sorted@[j]).slug@,
            ))
        &&& (forall|i: int|
            0 <= i < self.tags_sorted@.len() ==> (#[trigger] self.tags_sorted@[i]).id == id_for(i))
        &&& (forall|i: int, j: int|
            0 <= i < j < self.tags_sorted@.len() ==> lex_lt(
                (#[trigger] self.tags_sorted@[i]).slug@,
                (#[trigger] self.tags_sorted@[j]).slug@,
            ))
        &&& self.posts_by_category@.len() == self.categories_sorted@.len()
        &&& (forall|i: int|
            0 <= i < self.posts_by_category@.len() ==> post_views(
                (#[trigger] self.posts_by_category@[i])@,
            ) == post_views(filter_by_cat(self.posts_sorted@, id_for(i))))
        &&& self.posts_by_tag@.len() == self.tags_sorted@.len()
        &&& (forall|i: int|
            0 <= i < self.posts_by_tag@.len() ==> post_views((#[trigger] self.posts_by_tag@[i])@)
                == post_views(filter_by_tag(self.posts_sorted@, id_for(i))))
    }
}

/// The author identifier table that represents a folded author map: email
/// keys strictly ascending, each bound in the map, every map key present,
/// identifiers positional.
pub open spec fn author_table_ok(t: Seq<(String, i32)>, m: Map<Seq<char>, Seq<char>>) -> bool {
    &&& keys_sorted(t)
    &&& (forall|i: int| 0 <= i < t.len() ==> m.contains_key(#[trigger] t[i].0@))
    &&& (forall|k: Seq<char>| #[trigger] m.contains_key(k) ==> assoc_has_key(t, k))
    &&& (forall|i: int| 0 <= i < t.len() ==> #[trigger] t[i].1 == id_for(i))
}

/// The snapshot `c` is what building the slug-sorted parsed corpus `sp` at
/// time `now_ms` yields.
pub open spec fn corpus_of(c: DemoContent, sp: Seq<ParsedSource>, now_ms: i64) -> bool {
    let pv = views_of(sp);
    let n = sp.len() as int;
    &&& sp.len() >= 1
    &&& seq_ordered::<ParsedSource>(sp)
    &&& slugs_distinct(sp)
    &&& fold_authors(pv, n) is Ok
    &&& (fold_categories(pv, n) matches Ok(cm) && entity_list_ok(
        cat_slugs(c.categories_sorted@),
        cat_names(c.categories_sorted@),
        cat_colors(c.categories_sorted@),
        cm,
    ))
    &&& (forall|i: int|
        0 <= i < c.categories_sorted@.len() ==> cat_defaults_ok(
            #[trigger] c.categories_sorted@[i],
            now_ms,
        ))
    &&& (fold_tags(pv, n) matches Ok(tm) && entity_list_ok(
        tag_slugs(c.tags_sorted@),
        tag_names(c.tags_sorted@),
        tag_colors(c.tags_sorted@),
        tm,
    ))
    &&& (forall|i: int|
        0 <= i < c.tags_sorted@.len() ==> tag_defaults_ok(#[trigger] c.tags_sorted@[i], now_ms))
    &&& (exists|table: Seq<(String, i32)>, raw: Seq<Post>|
        {
            &&& author_table_ok(table, fold_authors(pv, n)->Ok_0)
            &&& raw.len() == sp.len()
            &&& (forall|i: int|
                0 <= i < raw.len() ==> post_ok(
                    #[trigger] raw[i],
                    id_for(i),
                    pv[i],
                    table,
                    c.categories_sorted@,
                    c.tags_sorted@,
                    now_ms,
                ))
            &&& c.posts_sorted@.to_multiset() == raw.to_multiset()
        })
}

/// The snapshot `c` is built from `inputs` through the given intermediate
/// stages: a path-sorted permutation, its parse, and a slug-sorted
/// permutation of the parse.
pub open spec fn built_via(
    c: DemoContent,
    inputs: Seq<SourceFile>,
    ss: Seq<SourceFile>,
    ps: Seq<ParsedSource>,
    sp: Seq<ParsedSource>,
    now_ms: i64,
) -> bool {
    &&& ss.to_multiset() == inputs.to_multiset()
    &&& seq_ordered::<SourceFile>(ss)
    &&& (spec_parse_all(ss, ss.len() as int) matches Ok(pvs) && views_of(ps) == pvs)
    &&& sp.to_multiset() == ps.to_multiset()
    &&& corpus_of(c, sp, now_ms)
}

/// The snapshot `c` is built from `inputs` at time `now_ms`.
pub open spec fn built_at(c: DemoContent, inputs: Seq<SourceFile>, now_ms: i64) -> bool {
    exists|ss: Seq<SourceFile>, ps: Seq<ParsedSource>, sp: Seq<ParsedSource>|
        built_via(c, inputs, ss, ps, sp, now_ms)
}

/// Why a slug-sorted parsed corpus is rejected: a duplicate slug first,
/// then the first conflicting author, category, or tag.
pub open spec fn rejects_parsed(sp: Seq<ParsedSource>, e: ErrV) -> bool {
    let pv = views_of(sp);
    let n = sp.len() as int;
    if !slugs_distinct(sp) {
        e matches ErrV::DuplicateSlug { path, slug } && (exists|i: int|
            0 <= i < sp.len() - 1 && (#[trigger] sp[i]).frontmatter.slug@ == slug && sp[i
                + 1].frontmatter.slug@ == slug && sp[i + 1].path@ == path)
    } else {
        match fold_authors(pv, n) {
            Err(k) => e matches ErrV::ConflictingAuthor { email } && email == k,
            Ok(_) => match fold_categories(pv, n) {
                Err(k) => e matches ErrV::ConflictingCategory { slug } && slug == k,
                Ok(_) => match fold_tags(pv, n) {
                    Err(k) => e matches ErrV::ConflictingTag { slug } && slug == k,
                    Ok(_) => false,
                },
            },
        }
    }
}

/// The build of `inputs` fails with `e` through the given intermediate
/// stages.
pub open spec fn rejects_via(
    inputs: Seq<SourceFile>,
    ss: Seq<SourceFile>,
    ps: Seq<ParsedSource>,
    sp: Seq<ParsedSource>,
    e: ErrV,
) -> bool {
    &&& ss.to_multiset() == inputs.to_multiset()
    &&& seq_ordered::<SourceFile>(ss)
    &&& match spec_parse_all(ss, ss.len() as int) {
        Err(pe) => e == pe,
        Ok(pvs) => if pvs.len() == 0 {
            e == ErrV::EmptyCorpus
        } else {
            &&& views_of(ps) == pvs
            &&& sp.to_multiset() == ps.to_multiset()
            &&& seq_ordered::<ParsedSource>(sp)
            &&& rejects_parsed(sp, e)
        },
    }
}

/// The build of `inputs` fails with `e`.
pub open spec fn rejects(inputs: Seq<SourceFile>, e: ErrV) -> bool {
    exists|ss: Seq<SourceFile>, ps: Seq<ParsedSource>, sp: Seq<ParsedSource>|
        rejects_via(inputs, ss, ps, sp, e)
}

proof fn lemma_lookup_author_finds(t: Seq<(String, i32)>, k: Seq<char>)
    requires
        exists|i: int| 0 <= i < t.len() && (#[trigger] t[i].0)@ == k,
    ensures
        lookup_author(t, k) is Some,
    decreases t.len(),
{
    let i = choose|i: int| 0 <= i < t.len() && (#[trigger] t[i].0)@ == k;
    if t[0].0@ != k {
        assert(t.drop_first()[i - 1].0@ == k);
        lemma_lookup_author_finds(t.drop_first(), k);
    }
}

proof fn lemma_lookup_category_finds(cs: Seq<Category>, k: Seq<char>)
    requires
        exists|i: int| 0 <= i < cs.len() && (#[trigger] cs[i]).slug@ == k,
    ensures
        lookup_category(cs, k) is Some,
    decreases cs.len(),
{
    let i = choose|i: int| 0 <= i < cs.len() && (#[trigger] cs[i]).slug@ == k;
    if cs[0].slug@ != k {
        assert(cs.drop_first()[i - 1].slug@ == k);
        lemma_lookup_category_finds(cs.drop_first(), k);
    }
}

proof fn lemma_lookup_tag_finds(ts: Seq<Tag>, k: Seq<char>)
    requires
        exists|i: int| 0 <= i < ts.len() && (#[trigger] ts[i]).slug@ == k,
    ensures
        lookup_tag(ts, k) is Some,
    decreases ts.len(),
{
    let i = choose|i: int| 0 <= i < ts.len() && (#[trigger] ts[i]).slug@ == k;
    if ts[0].slug@ != k {
        assert(ts.drop_first()[i - 1].slug@ == k);
        lemma_lookup_tag_finds(ts.drop_first(), k);
    }
}

proof fn lemma_first_unknown_none(fmt: Seq<crate::frontmatter::FmTagV>, ts: Seq<Tag>, j: int)
    requires
        0 <= j,
        forall|jj: int| j <= jj < fmt.len() ==> lookup_tag(ts, tag_key(#[trigger] fmt[jj])) is Some,
    ensures
        first_unknown_tag(fmt, ts, j) is None,
    decreases fmt.len() - j,
{
    if j < fmt.len() {
        lemma_first_unknown_none(fmt, ts, j + 1);
    }
}

fn filter_posts_by_category(posts: &Vec<Post>, id: i32) -> (r: Vec<Post>)
    ensures
        post_views(r@) == post_views(filter_by_cat(posts@, id)),
{
    let n = posts.len();
    let mut out: Vec<Post> = Vec::new();
    let mut i: usize = 0;
    proof {
        assert(posts@.take(0) =~= Seq::<Post>::empty());
        assert(post_views(out@) =~= post_views(filter_by_cat(posts@.take(0), id)));
    }
    while i < n
        invariant
            0 <= i <= n,
            n == posts@.len(),
            post_views(out@) == post_views(filter_by_cat(posts@.take(i as int), id)),
        decreases n - i,
    {
        let ghost pre = out@;
        proof {
            assert(posts@.take(i + 1).drop_last() =~= posts@.take(i as int));
            assert(posts@.take(i + 1).last() == posts@[i as int]);
        }
        if posts[i].category.id == id {
            let copy = posts[i].duplicate();
            out.push(copy);
            proof {
                assert(post_views(out@) =~= post_views(pre).push(posts@[i as int]@));
                assert(post_views(filter_by_cat(posts@.take(i + 1), id)) =~= post_views(
                    filter_by_cat(posts@.take(i as int), id),
                ).push(posts@[i as int]@));
            }
        }
        i = i + 1;
    }
    proof {
        assert(posts@.take(n as int) =~= posts@);
    }
    out
}

fn post_has_tag_exec(p: &Post, id: i32) -> (r: bool)
    ensures
        r == post_has_tag(*p, id),
{
    let n = p.tags.len();
    let mut k: usize = 0;
    while k < n
        invariant
            0 <= k <= n,
            n == p.tags@.len(),
            forall|j: int| 0 <= j < k ==> (#[trigger] p.tags@[j]).id != id,
        decreases n - k,
    {
        if p.tags[k].id == id {
            return true;
        }
        k = k + 1;
    }
    false
}

fn filter_posts_by_tag(posts: &Vec<Post>, id: i32) -> (r: Vec<Post>)
    ensures
        post_views(r@) == post_views(filter_by_tag(posts@, id)),
{
    let n = posts.len();
    let mut out: Vec<Post> = Vec::new();
    let mut i: usize = 0;
    proof {
        assert(posts@.take(0) =~= Seq::<Post>::empty());
        assert(post_views(out@) =~= post_views(filter_by_tag(posts@.take(0), id)));
    }
    while i < n
        invariant
            0 <= i <= n,
            n == posts@.len(),
            post_views(out@) == post_views(filter_by_tag(posts@.take(i as int), id)),
        decreases n - i,
    {
        let ghost pre = out@;
        proof {
            assert(posts@.take(i + 1).drop_last() =~= posts@.take(i as int));
            assert(posts@.take(i + 1).last() == posts@[i as int]);
        }
        if post_has_tag_exec(&posts[i], id) {
            let copy = posts[i].duplicate();
            out.push(copy);
            proof {
                assert(post_views(out@) =~= post_views(pre).push(posts@[i as int]@));
                assert(post_views(filter_by_tag(posts@.take(i + 1), id)) =~= post_views(
                    filter_by_tag(posts@.take(i as int), id),
                ).push(posts@[i as int]@));
            }
        }
        i = i + 1;
    }
    proof {
        assert(posts@.take(n as int) =~= posts@);
    }
    out
}

/// Sorts posts for display: newest publication time first, ties broken by
/// ascending slug.
pub fn sort_posts_for_display(posts: Vec<Post>) -> (r: Vec<Post>)
    ensures
        seq_ordered::<Post>(r@),
        r@.to_multiset() == posts@.to_multiset(),
        r@.len() == posts@.len(),
{
    sort_vec(posts)
}

/// Runs the whole pipeline at a fixed wall-clock instant: sorts the sources
/// by path, parses and validates each, rejects duplicate post slugs,
/// resolves the entity tables, builds every post, and indexes the result.
/// The build is all-or-nothing.
#[verifier::loop_isolation(false)]
pub fn parse_sources_with_time(sources: Vec<SourceFile>, build_ms: i64) -> (r: Result<
    DemoContent,
    ContentError,
>)
    ensures
        match r {
            Ok(c) => c.wf() && built_at(c, sources@, build_ms),
            Err(e) => rejects(sources@, e@),
        },
{
    let ghost inputs = sources@;
    let sorted = sort_vec(sources);
    let n = sorted.len();
    let mut parsed: Vec<ParsedSource> = Vec::new();
    let mut i: usize = 0;
    proof {
        assert(views_of(parsed@) =~= Seq::<ParsedSourceV>::empty());
    }
    while i < n
        invariant
            0 <= i <= n,
            parsed@.len() == i,
            spec_parse_all(sorted@, i as int) is Ok,
            views_of(parsed@) == spec_parse_all(sorted@, i as int)->Ok_0,
        decreases n - i,
    {
        match parse_source_file(&sorted[i]) {
            Ok(p) => {
                let ghost pre = parsed@;
                let ghost pview = p@;
                parsed.push(p);
                proof {
                    assert(views_of(parsed@) =~= views_of(pre).push(pview));
                }
            },
            Err(e) => {
                proof {
                    assert(spec_parse_all(sorted@, i as int + 1) == Err::<
                        Seq<ParsedSourceV>,
                        ErrV,
                    >(e@));
                    lemma_parse_all_err(sorted@, i as int + 1, n as int);
                    assert(rejects_via(inputs, sorted@, parsed@, parsed@, e@));
                }
                return Err(e);
            },
        }
        i = i + 1;
    }
    if parsed.len() == 0 {
        proof {
            assert(spec_parse_all(sorted@, n as int)->Ok_0.len() == 0);
            assert(rejects_via(inputs, sorted@, parsed@, parsed@, ErrV::EmptyCorpus));
        }
        return Err(ContentError::EmptyCorpus);
    }
    let ghost ps_stage = parsed@;
    let parsed2 = sort_vec(parsed);
    let ghost sp_stage = parsed2@;
    match ensure_unique_post_slugs(&parsed2) {
        Ok(_) => {},
        Err(e) => {
            proof {
                assert(!slugs_distinct(sp_stage));
                assert(rejects_parsed(sp_stage, e@));
                assert(rejects_via(inputs, sorted@, ps_stage, sp_stage, e@));
            }
            return Err(e);
        },
    }
    let authors = match build_author_ids(&parsed2) {
        Ok(t) => t,
        Err(e) => {
            proof {
                assert(rejects_parsed(sp_stage, e@));
                assert(rejects_via(inputs, sorted@, ps_stage, sp_stage, e@));
            }
            return Err(e);
        },
    };
    let categories = match build_categories(&parsed2, build_ms) {
        Ok(cs) => cs,
        Err(e) => {
            proof {
                assert(rejects_parsed(sp_stage, e@));
                assert(rejects_via(inputs, sorted@, ps_stage, sp_stage, e@));
            }
            return Err(e);
        },
    };
    let tags = match build_tags(&parsed2, build_ms) {
        Ok(ts) => ts,
        Err(e) => {
            proof {
                assert(rejects_parsed(sp_stage, e@));
                assert(rejects_via(inputs, sorted@, ps_stage, sp_stage, e@));
            }
            return Err(e);
        },
    };
    let pn = parsed2.len();
    let ghost pv = views_of(parsed2@);
    let mut posts: Vec<Post> = Vec::new();
    let mut k: usize = 0;
    while k < pn
        invariant
            0 <= k <= pn,
            posts@.len() == k,
            forall|idx: int|
                0 <= idx < k ==> post_ok(
                    #[trigger] posts@[idx],
                    id_for(idx),
                    pv[idx],
                    authors@,
                    categories@,
                    tags@,
                    build_ms,
                ),
        decreases pn - k,
    {
        let id = id_at(k);
        proof {
            assert(pv[k as int] == parsed2@[k as int]@);
        }
        match build_post(id, &parsed2[k], &authors, &categories, &tags, build_ms) {
            Ok(p) => {
                posts.push(p);
            },
            Err(e) => {
                proof {
                    let key = author_key(pv[k as int]);
                    lemma_fold_authors_complete(pv, pn as int);
                    assert(fold_authors(pv, pn as int)->Ok_0.contains_key(key));
                    lemma_lookup_author_finds(authors@, key);
                    let ckey = cat_key(pv[k as int]);
                    lemma_fold_categories_complete(pv, pn as int);
                    let cm = fold_categories(pv, pn as int)->Ok_0;
                    assert(cm.contains_key(ckey));
                    assert(exists|x: int|
                        0 <= x < categories@.len() && (#[trigger] categories@[x]).slug@ == ckey)
                        by {
                        let x = choose|x: int|
                            0 <= x < cat_slugs(categories@).len() && #[trigger] cat_slugs(
                                categories@,
                            )[x] == ckey;
                        assert(categories@[x].slug@ == ckey);
                    }
                    lemma_lookup_category_finds(categories@, ckey);
                    lemma_fold_tags_complete(pv, pn as int);
                    let tm = fold_tags(pv, pn as int)->Ok_0;
                    let fmt = pv[k as int].frontmatter.tags;
                    assert forall|jj: int|
                        0 <= jj < fmt.len() implies lookup_tag(
                        tags@,
                        tag_key(#[trigger] fmt[jj]),
                    ) is Some by {
                        assert(tm.contains_key(tag_key(fmt[jj])));
                        assert(exists|x: int|
                            0 <= x < tags@.len() && (#[trigger] tags@[x]).slug@ == tag_key(
                                fmt[jj],
                            )) by {
                            let x = choose|x: int|
                                0 <= x < tag_slugs(tags@).len() && #[trigger] tag_slugs(tags@)[x]
                                    == tag_key(fmt[jj]);
                            assert(tags@[x].slug@ == tag_key(fmt[jj]));
                        }
                        lemma_lookup_tag_finds(tags@, tag_key(fmt[jj]));
                    }
                    lemma_first_unknown_none(fmt, tags@, 0);
                    assert(false);
                }
                return Err(e);
            },
        }
        k = k + 1;
    }
    let ghost raw_posts = posts@;
    let posts_sorted = sort_vec(posts);
    let cat_n = categories.len();
    let mut by_cat: Vec<Vec<Post>> = Vec::new();
    let mut ci: usize = 0;
    while ci < cat_n
        invariant
            0 <= ci <= cat_n,
            by_cat@.len() == ci,
            forall|x: int|
                0 <= x < ci ==> post_views((#[trigger] by_cat@[x])@) == post_views(
                    filter_by_cat(posts_sorted@, id_for(x)),
                ),
        decreases cat_n - ci,
    {
        let id = id_at(ci);
        let bucket = filter_posts_by_category(&posts_sorted, id);
        by_cat.push(bucket);
        ci = ci + 1;
    }
    let tag_n = tags.len();
    let mut by_tag: Vec<Vec<Post>> = Vec::new();
    let mut ti: usize = 0;
    while ti < tag_n
        invariant
            0 <= ti <= tag_n,
            by_tag@.len() == ti,
            forall|x: int|
                0 <= x < ti ==> post_views((#[trigger] by_tag@[x])@) == post_views(
                    filter_by_tag(posts_sorted@, id_for(x)),
                ),
        decreases tag_n - ti,
    {
        let id = id_at(ti);
        let bucket = filter_posts_by_tag(&posts_sorted, id);
        by_tag.push(bucket);
        ti = ti + 1;
    }
    let content = DemoContent {
        posts_sorted,
        tags_sorted: tags,
        categories_sorted: categories,
        posts_by_tag: by_tag,
        posts_by_category: by_cat,
    };
    proof {
        assert forall|i2: int, j2: int|
            0 <= i2 < j2 < content.categories_sorted@.len() implies lex_lt(
            (#[trigger] content.categories_sorted@[i2]).slug@,
            (#[trigger] content.categories_sorted@[j2]).slug@,
        ) by {
            assert(cat_slugs(content.categories_sorted@)[i2] == content.categories_sorted@[i2].slug@);
            assert(cat_slugs(content.categories_sorted@)[j2] == content.categories_sorted@[j2].slug@);
        }
        assert forall|i2: int, j2: int|
            0 <= i2 < j2 < content.tags_sorted@.len() implies lex_lt(
            (#[trigger] content.tags_sorted@[i2]).slug@,
            (#[trigger] content.tags_sorted@[j2]).slug@,
        ) by {
            assert(tag_slugs(content.tags_sorted@)[i2] == content.tags_sorted@[i2].slug@);
            assert(tag_slugs(content.tags_sorted@)[j2] == content.tags_sorted@[j2].slug@);
        }
        assert(content.wf());
        assert(corpus_of(content, sp_stage, build_ms)) by {
            assert(author_table_ok(authors@, fold_authors(pv, pn as int)->Ok_0));
            assert(raw_posts.len() == sp_stage.len());
        }
        assert(built_via(content, inputs, sorted@, ps_stage, sp_stage, build_ms));
    }
    Ok(content)
}

/// Builds the published snapshot from a set of source files: the published
/// behaviour of [`parse_sources_with_time`] at the current wall-clock time.
pub fn parse_sources(sources: Vec<SourceFile>) -> (r: Result<DemoContent, ContentError>)
    ensures
        match r {
            Ok(c) => c.wf() && exists|t: i64| built_at(c, sources@, t),
            Err(e) => rejects(sources@, e@),
        },
{
    let build_ms = now_ms();
    parse_sources_with_time(sources, build_ms)
}

/// The first post of `s` carrying `slug`, scanning in order.
pub open spec fn lookup_post(s: Seq<Post>, slug: Seq<char>) -> Option<Post>
    decreases s.len(),
{
    if s.len() == 0 {
        None
    } else if s[0].slug@ == slug {
        Some(s[0])
    } else {
        lookup_post(s.drop_first(), slug)
    }
}

fn dup_posts(v: &Vec<Post>) -> (r: Vec<Post>)
    ensures
        post_views(r@) == post_views(v@),
{
    let n = v.len();
    let mut out: Vec<Post> = Vec::new();
    let mut i: usize = 0;
    while i < n
        invariant
            0 <= i <= n,
            n == v@.len(),
            out@.len() == i,
            forall|j: int| 0 <= j < i ==> (#[trigger] out@[j])@ == v@[j]@,
        decreases n - i,
    {
        let copy = v[i].duplicate();
        out.push(copy);
        i = i + 1;
    }
    proof {
        assert(post_views(out@) =~= post_views(v@));
    }
    out
}

/// A fixed-shape single page holding a whole item list.
#[derive(Clone, Debug, PartialEq)]
pub struct PaginatedList<T> {
    pub data: Vec<T>,
    pub total: u64,
    pub page: u64,
    pub per_page: u64,
}

/// Wraps a whole item list as page one of a single-page listing.
pub fn paginated<T>(items: Vec<T>) -> (r: PaginatedList<T>)
    ensures
        r.data@ == items@,
        r.total == items@.len(),
        r.page == 1,
        r.per_page == (if items@.len() >= 1 {
            items@.len()
        } else {
            1
        }),
{
    let len = items.len();
    let per_page: u64 = if len >= 1 {
        len as u64
    } else {
        1
    };
    PaginatedList { data: items, total: len as u64, page: 1, per_page }
}

/// Is `s` the route string of one of the snapshot's posts, tags, or
/// categories?
pub open spec fn is_route_of(s: Seq<char>, c: DemoContent) -> bool {
    ||| exists|i: int|
        0 <= i < c.posts_sorted@.len() && s == "/posts/"@ + (#[trigger] c.posts_sorted@[i]).slug@
    ||| exists|i: int|
        0 <= i < c.tags_sorted@.len() && s == "/tags/"@ + (#[trigger] c.tags_sorted@[i]).slug@
    ||| exists|i: int|
        0 <= i < c.categories_sorted@.len() && s == "/categories/"@ + (
        #[trigger] c.categories_sorted@[i]).slug@
}

/// `s` occurs among the views of `r`.
pub open spec fn has_str(r: Seq<String>, s: Seq<char>) -> bool {
    exists|x: int| 0 <= x < r.len() && (#[trigger] r[x])@ == s
}

/// The views of `s` are strictly ascending.
pub open spec fn strictly_ascending(s: Seq<String>) -> bool {
    forall|a: int, b: int| 0 <= a < b < s.len() ==> lex_lt((#[trigger] s[a])@, (#[trigger] s[b])@)
}

/// Every element view of `v` occurs in `r`.
pub open spec fn covers_views(r: Seq<String>, v: Seq<String>) -> bool {
    forall|j: int| 0 <= j < v.len() ==> has_str(r, (#[trigger] v[j])@)
}

/// Every element view of `r` comes from `v`.
pub open spec fn within_views(r: Seq<String>, v: Seq<String>) -> bool {
    forall|x: int| 0 <= x < r.len() ==> has_str(v, (#[trigger] r[x])@)
}

/// Collapses equal neighbours of an ordered list: the result is strictly
/// ascending and carries exactly the input's values.
#[verifier::loop_isolation(false)]
#[verifier::rlimit(100)]
#[verifier::spinoff_prover]
fn dedup_sorted(v: &Vec<String>) -> (r: Vec<String>)
    requires
        seq_ordered::<String>(v@),
    ensures
        strictly_ascending(r@),
        covers_views(r@, v@),
        within_views(r@, v@),
{
    let m = v.len();
    let mut out: Vec<String> = Vec::new();
    let ghost mut srcmap: Seq<int> = Seq::empty();
    let ghost mut covmap: Seq<int> = Seq::empty();
    let mut k: usize = 0;
    while k < m
        invariant
            0 <= k <= m,
            m == v@.len(),
            srcmap.len() == out@.len(),
            covmap.len() == k,
            forall|a: int, b: int|
                0 <= a < b < out@.len() ==> lex_lt(#[trigger] out@[a]@, #[trigger] out@[b]@),
            forall|x: int|
                0 <= x < out@.len() ==> 0 <= #[trigger] srcmap[x] < k && out@[x]@
                    == v@[srcmap[x]]@,
            forall|j: int|
                0 <= j < k ==> 0 <= #[trigger] covmap[j] < out@.len() && out@[covmap[j]]@
                    == v@[j]@,
            out@.len() > 0 ==> forall|j: int|
                0 <= j < k ==> lex_le(#[trigger] v@[j]@, out@.last()@),
        decreases m - k,
    {
        let ghost pre = out@;
        let push_new: bool = if out.len() == 0 {
            true
        } else {
            let last_idx = out.len() - 1;
            !str_eq(out[last_idx].as_str(), v[k].as_str())
        };
        if push_new {
            proof {
                if pre.len() > 0 {
                    let jw = srcmap[pre.len() - 1];
                    assert(pre[pre.len() - 1]@ == v@[jw]@);
                    assert(v@[jw].le(v@[k as int]));
                    assert(lex_lt(pre[pre.len() - 1]@, v@[k as int]@));
                }
            }
            let copy = v[k].clone();
            out.push(copy);
            proof {
                srcmap = srcmap.push(k as int);
                covmap = covmap.push(out@.len() - 1);
                lemma_lex_le_total(v@[k as int]@, v@[k as int]@);
                assert(out@[out@.len() - 1]@ == v@[k as int]@);
                assert forall|a: int, b: int|
                    0 <= a < b < out@.len() implies lex_lt(
                    #[trigger] out@[a]@,
                    #[trigger] out@[b]@,
                ) by {
                    if b == out@.len() - 1 && a < out@.len() - 2 {
                        crate::text::lemma_lex_lt_trans(out@[a]@, pre[pre.len() - 1]@, out@[b]@);
                    }
                }
                assert forall|j: int| 0 <= j < k + 1 implies 0 <= #[trigger] covmap[j]
                    < out@.len() && out@[covmap[j]]@ == v@[j]@ by {
                    if j < k {
                        assert(out@[covmap[j]] == pre[covmap[j]]);
                    }
                }
                assert forall|j: int| 0 <= j < k + 1 implies lex_le(
                    #[trigger] v@[j]@,
                    out@.last()@,
                ) by {
                    if j < k {
                        if pre.len() > 0 {
                            lemma_lex_le_trans(v@[j]@, pre[pre.len() - 1]@, out@.last()@);
                        }
                    }
                }
            }
        } else {
            proof {
                assert(out@[out@.len() - 1]@ == v@[k as int]@);
                covmap = covmap.push(out@.len() - 1);
                lemma_lex_le_total(v@[k as int]@, v@[k as int]@);
                assert forall|j: int| 0 <= j < k + 1 implies 0 <= #[trigger] covmap[j]
                    < out@.len() && out@[covmap[j]]@ == v@[j]@ by {}
            }
        }
        k = k + 1;
    }
    proof {
        assert forall|j: int| 0 <= j < v@.len() implies has_str(out@, (#[trigger] v@[j])@) by {
            assert(0 <= covmap[j] < out@.len() && out@[covmap[j]]@ == v@[j]@);
        }
        assert forall|x: int| 0 <= x < out@.len() implies has_str(v@, (#[trigger] out@[x])@) by {
            assert(0 <= srcmap[x] < v@.len() && out@[x]@ == v@[srcmap[x]]@);
        }
        assert(strictly_ascending(out@));
        assert(covers_views(out@, v@));
        assert(within_views(out@, v@));
    }
    out
}

fn route_string(prefix: &str, slug: &str) -> (r: String)
    ensures
        r@ == prefix@ + slug@,
{
    let mut s = String::new();
    s.append(prefix);
    s.append(slug);
    proof {
        assert(s@ =~= prefix@ + slug@);
    }
    s
}

impl DemoContent {
    /// All posts, in display order.
    pub fn posts(&self) -> (r: &Vec<Post>)
        ensures
            r@ == self.posts_sorted@,
    {
        &self.posts_sorted
    }

    /// The post carrying `slug`, if any.
    pub fn post_by_slug(&self, slug: &str) -> (r: Option<Post>)
        ensures
            match lookup_post(self.posts_sorted@, slug@) {
                Some(p) => r matches Some(q) && q@ == p@,
                None => r is None,
            },
    {
        let n = self.posts_sorted.len();
        proof {
            assert(self.posts_sorted@.skip(0) =~= self.posts_sorted@);
        }
        let mut i: usize = 0;
        while i < n
            invariant
                0 <= i <= n,
                n == self.posts_sorted@.len(),
                lookup_post(self.posts_sorted@, slug@) == lookup_post(
                    self.posts_sorted@.skip(i as int),
                    slug@,
                ),
            decreases n - i,
        {
            proof {
                assert(self.posts_sorted@.skip(i as int).drop_first() =~= self.posts_sorted@.skip(
                    i + 1,
                ));
                assert(self.posts_sorted@.skip(i as int)[0] == self.posts_sorted@[i as int]);
            }
            if str_eq(self.posts_sorted[i].slug.as_str(), slug) {
                return Some(self.posts_sorted[i].duplicate());
            }
            i = i + 1;
        }
        proof {
            assert(self.posts_sorted@.skip(n as int).len() == 0);
        }
        None
    }

    /// All tags, in ascending slug order.
    pub fn tags(&self) -> (r: &Vec<Tag>)
        ensures
            r@ == self.tags_sorted@,
    {
        &self.tags_sorted
    }

    /// The tag carrying `slug`, if any.
    pub fn tag_by_slug(&self, slug: &str) -> (r: Option<Tag>)
        ensures
            r == lookup_tag(self.tags_sorted@, slug@),
    {
        let n = self.tags_sorted.len();
        proof {
            assert(self.tags_sorted@.skip(0) =~= self.tags_sorted@);
        }
        let mut i: usize = 0;
        while i < n
            invariant
                0 <= i <= n,
                n == self.tags_sorted@.len(),
                lookup_tag(self.tags_sorted@, slug@) == lookup_tag(
                    self.tags_sorted@.skip(i as int),
                    slug@,
                ),
            decreases n - i,
        {
            proof {
                assert(self.tags_sorted@.skip(i as int).drop_first() =~= self.tags_sorted@.skip(
                    i + 1,
                ));
                assert(self.tags_sorted@.skip(i as int)[0] == self.tags_sorted@[i as int]);
            }
            if str_eq(self.tags_sorted[i].slug.as_str(), slug) {
                return Some(self.tags_sorted[i].duplicate());
            }
            i = i + 1;
        }
        proof {
            assert(self.tags_sorted@.skip(n as int).len() == 0);
        }
        None
    }

    /// All categories, in ascending slug order.
    pub fn categories(&self) -> (r: &Vec<Category>)
        ensures
            r@ == self.categories_sorted@,
    {
        &self.categories_sorted
    }

    /// The category carrying `slug`, if any.
    pub fn category_by_slug(&self, slug: &str) -> (r: Option<Category>)
        ensures
            r == lookup_category(self.categories_sorted@, slug@),
    {
        let n = self.categories_sorted.len();
        proof {
            assert(self.categories_sorted@.skip(0) =~= self.categories_sorted@);
        }
        let mut i: usize = 0;
        while i < n
            invariant
                0 <= i <= n,
                n == self.categories_sorted@.len(),
                lookup_category(self.categories_sorted@, slug@) == lookup_category(
                    self.categories_sorted@.skip(i as int),
                    slug@,
                ),
            decreases n - i,
        {
            proof {
                assert(self.categories_sorted@.skip(i as int).drop_first()
                    =~= self.categories_sorted@.skip(i + 1));
                assert(self.categories_sorted@.skip(i as int)[0]
                    == self.categories_sorted@[i as int]);
            }
            if str_eq(self.categories_sorted[i].slug.as_str(), slug) {
                return Some(self.categories_sorted[i].duplicate());
            }
            i = i + 1;
        }
        proof {
            assert(self.categories_sorted@.skip(n as int).len() == 0);
        }
        None
    }

    /// The posts carrying tag identifier `tag_id`, in display order; empty
    /// when no tag has that identifier.
    pub fn posts_by_tag_id(&self, tag_id: i32) -> (r: Vec<Post>)
        ensures
            post_views(r@) == (if 1 <= tag_id && tag_id - 1 < self.posts_by_tag@.len() {
                post_views(self.posts_by_tag@[tag_id - 1]@)
            } else {
                Seq::<PostV>::empty()
            }),
    {
        if tag_id >= 1 && ((tag_id - 1) as usize) < self.posts_by_tag.len() {
            dup_posts(&self.posts_by_tag[(tag_id - 1) as usize])
        } else {
            let r: Vec<Post> = Vec::new();
            proof {
                assert(post_views(r@) =~= Seq::<PostV>::empty());
            }
            r
        }
    }

    /// The posts of category identifier `category_id`, in display order;
    /// empty when no category has that identifier.
    pub fn posts_by_category_id(&self, category_id: i32) -> (r: Vec<Post>)
        ensures
            post_views(r@) == (if 1 <= category_id && category_id - 1
                < self.posts_by_category@.len() {
                post_views(self.posts_by_category@[category_id - 1]@)
            } else {
                Seq::<PostV>::empty()
            }),
    {
        if category_id >= 1 && ((category_id - 1) as usize) < self.posts_by_category.len() {
            dup_posts(&self.posts_by_category[(category_id - 1) as usize])
        } else {
            let r: Vec<Post> = Vec::new();
            proof {
                assert(post_views(r@) =~= Seq::<PostV>::empty());
            }
            r
        }
    }

    /// Every addressable route of the snapshot: `/posts/{slug}`,
    /// `/tags/{slug}` and `/categories/{slug}` for each entity, sorted
    /// lexicographically and deduplicated.
    #[verifier::loop_isolation(false)]
    pub fn dynamic_routes(&self) -> (r: Vec<String>)
        ensures
            strictly_ascending(r@),
            forall|i: int| 0 <= i < r@.len() ==> is_route_of((#[trigger] r@[i])@, *self),
            forall|i: int|
                0 <= i < self.posts_sorted@.len() ==> has_str(
                    r@,
                    "/posts/"@ + (#[trigger] self.posts_sorted@[i]).slug@,
                ),
            forall|i: int|
                0 <= i < self.tags_sorted@.len() ==> has_str(
                    r@,
                    "/tags/"@ + (#[trigger] self.tags_sorted@[i]).slug@,
                ),
            forall|i: int|
                0 <= i < self.categories_sorted@.len() ==> has_str(
                    r@,
                    "/categories/"@ + (#[trigger] self.categories_sorted@[i]).slug@,
                ),
    {
        broadcast use vstd::seq_lib::group_to_multiset_ensures;

        let pn = self.posts_sorted.len();
        let tn = self.tags_sorted.len();
        let cn = self.categories_sorted.len();
        let mut all: Vec<String> = Vec::new();
        let mut i: usize = 0;
        while i < pn
            invariant
                0 <= i <= pn,
                all@.len() == i,
                forall|j: int|
                    0 <= j < i ==> (#[trigger] all@[j])@ == "/posts/"@
                        + self.posts_sorted@[j].slug@,
            decreases pn - i,
        {
            let route = route_string("/posts/", self.posts_sorted[i].slug.as_str());
            all.push(route);
            i = i + 1;
        }
        let mut t: usize = 0;
        while t < tn
            invariant
                0 <= t <= tn,
                all@.len() == pn + t,
                forall|j: int|
                    0 <= j < pn ==> (#[trigger] all@[j])@ == "/posts/"@
                        + self.posts_sorted@[j].slug@,
                forall|j: int|
                    pn <= j < pn + t ==> (#[trigger] all@[j])@ == "/tags/"@ + self.tags_sorted@[j
                        - pn].slug@,
            decreases tn - t,
        {
            let route = route_string("/tags/", self.tags_sorted[t].slug.as_str());
            all.push(route);
            t = t + 1;
        }
        let mut c: usize = 0;
        while c < cn
            invariant
                0 <= c <= cn,
                all@.len() == pn + tn + c,
                forall|j: int|
                    0 <= j < pn ==> (#[trigger] all@[j])@ == "/posts/"@
                        + self.posts_sorted@[j].slug@,
                forall|j: int|
                    pn <= j < pn + tn ==> (#[trigger] all@[j])@ == "/tags/"@
                        + self.tags_sorted@[j - pn].slug@,
                forall|j: int|
                    pn + tn <= j < pn + tn + c ==> (#[trigger] all@[j])@ == "/categories/"@
                        + self.categories_sorted@[j - pn - tn].slug@,
            decreases cn - c,
        {
            let route = route_string("/categories/", self.categories_sorted[c].slug.as_str());
            all.push(route);
            c = c + 1;
        }
        let ghost all_seq = all@;
        let ordered = sort_vec(all);
        let ghost ord_seq = ordered@;
        let out = dedup_sorted(&ordered);
        proof {
            assert forall|x: int| 0 <= x < out@.len() implies is_route_of(
                (#[trigger] out@[x])@,
                *self,
            ) by {
                assert(has_str(ord_seq, out@[x]@));
                let j = choose|j: int| 0 <= j < ord_seq.len() && (#[trigger] ord_seq[j])@ == out@[x]@;
                assert(ord_seq.to_multiset().count(ord_seq[j]) > 0);
                assert(all_seq.to_multiset().count(ord_seq[j]) > 0);
                assert(all_seq.contains(ord_seq[j]));
                let j2 = choose|j2: int| 0 <= j2 < all_seq.len() && all_seq[j2] == ord_seq[j];
                assert(all_seq[j2]@ == out@[x]@);
                if j2 < pn {
                    assert(out@[x]@ == "/posts/"@ + self.posts_sorted@[j2].slug@);
                } else if j2 < pn + tn {
                    assert(out@[x]@ == "/tags/"@ + self.tags_sorted@[j2 - pn].slug@);
                } else {
                    assert(out@[x]@ == "/categories/"@ + self.categories_sorted@[j2 - pn
                        - tn].slug@);
                }
            }
            assert forall|i2: int| 0 <= i2 < self.posts_sorted@.len() implies has_str(
                out@,
                "/posts/"@ + (#[trigger] self.posts_sorted@[i2]).slug@,
            ) by {
                assert(all_seq[i2]@ == "/posts/"@ + self.posts_sorted@[i2].slug@);
                assert(all_seq.to_multiset().count(all_seq[i2]) > 0);
                assert(ord_seq.to_multiset().count(all_seq[i2]) > 0);
                assert(ord_seq.contains(all_seq[i2]));
                let j = choose|j: int| 0 <= j < ord_seq.len() && ord_seq[j] == all_seq[i2];
                assert(has_str(out@, (ord_seq[j])@));
            }
            assert forall|i2: int| 0 <= i2 < self.tags_sorted@.len() implies has_str(
                out@,
                "/tags/"@ + (#[trigger] self.tags_sorted@[i2]).slug@,
            ) by {
                assert(all_seq[pn + i2]@ == "/tags/"@ + self.tags_sorted@[i2].slug@);
                assert(all_seq.to_multiset().count(all_seq[pn + i2]) > 0);
                assert(ord_seq.to_multiset().count(all_seq[pn + i2]) > 0);
                assert(ord_seq.contains(all_seq[pn + i2]));
                let j = choose|j: int| 0 <= j < ord_seq.len() && ord_seq[j] == all_seq[pn + i2];
                assert(has_str(out@, (ord_seq[j])@));
            }
            assert forall|i2: int| 0 <= i2 < self.categories_sorted@.len() implies has_str(
                out@,
                "/categories/"@ + (#[trigger] self.categories_sorted@[i2]).slug@,
            ) by {
                assert(all_seq[pn + tn + i2]@ == "/categories/"@
                    + self.categories_sorted@[i2].slug@);
                assert(all_seq.to_multiset().count(all_seq[pn + tn + i2]) > 0);
                assert(ord_seq.to_multiset().count(all_seq[pn + tn + i2]) > 0);
                assert(ord_seq.contains(all_seq[pn + tn + i2]));
                let j = choose|j: int|
                    0 <= j < ord_seq.len() && ord_seq[j] == all_seq[pn + tn + i2];
                assert(has_str(out@, (ord_seq[j])@));
            }
        }
        out
    }
}

} // verus!