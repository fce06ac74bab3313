//! Corpus-level laws of the pipeline, proved from the contracts of
//! [`crate::content`]: the shape of a single-post build, the merging of a
//! category shared across files, and the display order of the snapshot.

use vstd::prelude::*;
use crate::frontmatter::ParsedSource;
use crate::entities::{
    fold_categories, fold_tags, fold_tags_list, fold_authors, map_step, cat_key, cat_val, tag_key,
    tag_val, author_key, entity_list_ok, cat_slugs, tag_slugs, id_for,
};
use crate::post::{Post, post_views, post_ok, lookup_category, lookup_author};
use crate::content::{DemoContent, corpus_of, author_table_ok, filter_by_cat, display_time};
use crate::frontmatter::views_of;
use crate::sorting::SortOrder;
use crate::text::lex_lt;

verus! {

broadcast use vstd::seq_lib::group_to_multiset_ensures;

/// An element of one sequence is an element of any sequence with the same
/// multiset.
proof fn lemma_multiset_transfer<T>(a: Seq<T>, b: Seq<T>, i: int)
    requires
        a.to_multiset() == b.to_multiset(),
        0 <= i < a.len(),
    ensures
        exists|j: int| 0 <= j < b.len() && b[j] == a[i],
{
    assert(a.contains(a[i]));
    assert(a.to_multiset().count(a[i]) > 0);
    assert(b.to_multiset().count(a[i]) > 0);
    assert(b.contains(a[i]));
    let j = choose|j: int| 0 <= j < b.len() && b[j] == a[i];
    assert(b[j] == a[i]);
}

/// A successful slug lookup names an index of the category list.
proof fn lemma_lookup_category_index(cs: Seq<crate::entities::Category>, k: Seq<char>)
    requires
        lookup_category(cs, k) is Some,
    ensures
        exists|ci: int|
            0 <= ci < cs.len() && cs[ci] == lookup_category(cs, k)->Some_0 && (
            #[trigger] cs[ci]).slug@ == k,
    decreases cs.len(),
{
    if cs[0].slug@ == k {
        assert(cs[0] == lookup_category(cs, k)->Some_0 && cs[0].slug@ == k);
    } else {
        lemma_lookup_category_index(cs.drop_first(), k);
        let ci0 = choose|ci0: int|
            0 <= ci0 < cs.drop_first().len() && cs.drop_first()[ci0] == lookup_category(
                cs.drop_first(),
                k,
            )->Some_0 && (#[trigger] cs.drop_first()[ci0]).slug@ == k;
        assert(cs[ci0 + 1] == lookup_category(cs, k)->Some_0 && cs[ci0 + 1].slug@ == k);
    }
}

/// A post of the list whose category carries `id` appears in the filtered
/// list.
proof fn lemma_filter_cat_contains(s: Seq<Post>, id: i32, pos: int)
    requires
        0 <= pos < s.len(),
        s[pos].category.id == id,
    ensures
        exists|x: int|
            0 <= x < filter_by_cat(s, id).len() && #[trigger] filter_by_cat(s, id)[x] == s[pos],
    decreases s.len(),
{
    let f = filter_by_cat(s, id);
    if pos == s.len() - 1 {
        assert(f[f.len() - 1] == s[pos]);
    } else {
        assert(s.drop_last()[pos] == s[pos]);
        lemma_filter_cat_contains(s.drop_last(), id, pos);
        let x0 = choose|x0: int|
            0 <= x0 < filter_by_cat(s.drop_last(), id).len() && #[trigger] filter_by_cat(
                s.drop_last(),
                id,
            )[x0] == s.drop_last()[pos];
        assert(f[x0] == s[pos]);
    }
}

/// Two sources with the same category key resolve to one category entity:
/// exactly one entry of the category list carries that slug, and the posts
/// of both sources stand in that entry's bucket.
pub proof fn lemma_shared_category_merges(
    c: DemoContent,
    sp: Seq<ParsedSource>,
    now_ms: i64,
    i: int,
    j: int,
)
    requires
        c.wf(),
        corpus_of(c, sp, now_ms),
        0 <= i < sp.len(),
        0 <= j < sp.len(),
        i != j,
        cat_key(sp[i]@) == cat_key(sp[j]@),
    ensures
        exists|ci: int|
            {
                &&& 0 <= ci < c.categories_sorted@.len()
                &&& (#[trigger] c.categories_sorted@[ci]).slug@ == cat_key(sp[i]@)
                &&& (forall|cj: int|
                    0 <= cj < c.categories_sorted@.len() && (
                    #[trigger] c.categories_sorted@[cj]).slug@ == cat_key(sp[i]@) ==> cj == ci)
                &&& (exists|x: int|
                    0 <= x < c.posts_by_category@[ci]@.len()
                        && (#[trigger] c.posts_by_category@[ci]@[x]).slug@
                        == sp[i]@.frontmatter.slug)
                &&& (exists|y: int|
                    0 <= y < c.posts_by_category@[ci]@.len()
                        && (#[trigger] c.posts_by_category@[ci]@[y]).slug@
                        == sp[j]@.frontmatter.slug)
            },
{
    let pv = views_of(sp);
    let n = sp.len() as int;
    let k = cat_key(sp[i]@);
    let (table, raw): (Seq<(String, i32)>, Seq<Post>) = choose|
        table: Seq<(String, i32)>,
        raw: Seq<Post>,
    |
        {
            &&& author_table_ok(table, fold_authors(pv, n)->Ok_0)
            &&& raw.len() == sp.len()
            &&& (forall|x: int|
                0 <= x < raw.len() ==> post_ok(
                    #[trigger] raw[x],
                    id_for(x),
                    pv[x],
                    table,
                    c.categories_sorted@,
                    c.tags_sorted@,
                    now_ms,
                ))
            &&& c.posts_sorted@.to_multiset() == raw.to_multiset()
        };
    let cs = c.categories_sorted@;
    assert(pv[i] == sp[i]@);
    assert(pv[j] == sp[j]@);
    assert(post_ok(raw[i], id_for(i), pv[i], table, cs, c.tags_sorted@, now_ms));
    assert(post_ok(raw[j], id_for(j), pv[j], table, cs, c.tags_sorted@, now_ms));
    lemma_lookup_category_index(cs, k);
    let ci = choose|ci: int|
        0 <= ci < cs.len() && cs[ci] == lookup_category(cs, k)->Some_0 && (#[trigger] cs[ci]).slug@
            == k;
    assert forall|cj: int|
        0 <= cj < cs.len() && (#[trigger] cs[cj]).slug@ == k implies cj == ci by {
        if cj < ci {
            assert(lex_lt(cs[cj].slug@, cs[ci].slug@));
        } else if cj > ci {
            assert(lex_lt(cs[ci].slug@, cs[cj].slug@));
        }
    }
    let id = cs[ci].id;
    assert(id == id_for(ci));
    assert(raw[i].category.id == id);
    assert(raw[j].category.id == id);
    // both raw posts occur in the display-sorted list, hence in the bucket
    let bucket = filter_by_cat(c.posts_sorted@, id_for(ci));
    assert(post_views(c.posts_by_category@[ci]@) == post_views(bucket));
    lemma_multiset_transfer(raw, c.posts_sorted@, i);
    let pi = choose|pi: int|
        0 <= pi < c.posts_sorted@.len() && c.posts_sorted@[pi] == raw[i];
    lemma_filter_cat_contains(c.posts_sorted@, id, pi);
    let xi = choose|xi: int|
        0 <= xi < bucket.len() && #[trigger] bucket[xi] == c.posts_sorted@[pi];
    assert(post_views(c.posts_by_category@[ci]@).len() == c.posts_by_category@[ci]@.len());
    assert(post_views(bucket).len() == bucket.len());
    assert(c.posts_by_category@[ci]@.len() == bucket.len());
    assert(post_views(c.posts_by_category@[ci]@)[xi] == bucket[xi]@);
    assert(post_views(c.posts_by_category@[ci]@)[xi] == c.posts_by_category@[ci]@[xi]@);
    assert(bucket[xi]@.slug == raw[i].slug@);
    assert((c.posts_by_category@[ci]@[xi]).slug@ == sp[i]@.frontmatter.slug);
    lemma_multiset_transfer(raw, c.posts_sorted@, j);
    let pj = choose|pj: int|
        0 <= pj < c.posts_sorted@.len() && c.posts_sorted@[pj] == raw[j];
    lemma_filter_cat_contains(c.posts_sorted@, id, pj);
    let xj = choose|xj: int|
        0 <= xj < bucket.len() && #[trigger] bucket[xj] == c.posts_sorted@[pj];
    assert(post_views(c.posts_by_category@[ci]@)[xj] == bucket[xj]@);
    assert(post_views(c.posts_by_category@[ci]@)[xj] == c.posts_by_category@[ci]@[xj]@);
    assert(bucket[xj]@.slug == raw[j].slug@);
    assert((c.posts_by_category@[ci]@[xj]).slug@ == sp[j]@.frontmatter.slug);
}

/// A single-source corpus with one tag declaration builds exactly one post,
/// one category and one tag, each carrying identifier 1, and the post's
/// author snapshot carries identifier 1.
pub proof fn lemma_single_post_corpus(c: DemoContent, sp: Seq<ParsedSource>, now_ms: i64)
    requires
        c.wf(),
        corpus_of(c, sp, now_ms),
        sp.len() == 1,
        sp[0]@.frontmatter.tags.len() == 1,
    ensures
        c.posts_sorted@.len() == 1,
        c.posts_sorted@[0].id == 1,
        c.posts_sorted@[0].author.id == 1,
        c.categories_sorted@.len() == 1,
        c.categories_sorted@[0].id == 1,
        c.tags_sorted@.len() == 1,
        c.tags_sorted@[0].id == 1,
{
    let pv = views_of(sp);
    let (table, raw): (Seq<(String, i32)>, Seq<Post>) = choose|
        table: Seq<(String, i32)>,
        raw: Seq<Post>,
    |
        {
            &&& author_table_ok(table, fold_authors(pv, 1)->Ok_0)
            &&& raw.len() == sp.len()
            &&& (forall|x: int|
                0 <= x < raw.len() ==> post_ok(
                    #[trigger] raw[x],
                    id_for(x),
                    pv[x],
                    table,
                    c.categories_sorted@,
                    c.tags_sorted@,
                    now_ms,
                ))
            &&& c.posts_sorted@.to_multiset() == raw.to_multiset()
        };
    // exactly one post, and it is the one built from the single source
    vstd::seq_lib::to_multiset_len(raw);
    vstd::seq_lib::to_multiset_len(c.posts_sorted@);
    assert(c.posts_sorted@.len() == 1);
    lemma_multiset_transfer(c.posts_sorted@, raw, 0);
    assert(c.posts_sorted@[0] == raw[0]);
    assert(post_ok(raw[0], id_for(0), pv[0], table, c.categories_sorted@, c.tags_sorted@, now_ms));
    assert(c.posts_sorted@[0].id == 1);
    // the category fold of one source is a singleton map
    let cm = fold_categories(pv, 1)->Ok_0;
    assert(fold_categories(pv, 0) == Ok::<Map<Seq<char>, (Seq<char>, Seq<char>)>, Seq<char>>(
        Map::empty(),
    ));
    assert(cm =~= Map::empty().insert(cat_key(pv[0]), cat_val(pv[0])));
    lemma_singleton_entity_list(
        cat_slugs(c.categories_sorted@),
        crate::entities::cat_names(c.categories_sorted@),
        crate::entities::cat_colors(c.categories_sorted@),
        cm,
        cat_key(pv[0]),
    );
    assert(c.categories_sorted@.len() == 1);
    assert(c.categories_sorted@[0].id == id_for(0));
    // the tag fold of one source with one declaration is a singleton map
    let tm = fold_tags(pv, 1)->Ok_0;
    let ts = pv[0].frontmatter.tags;
    assert(fold_tags(pv, 0) == Ok::<Map<Seq<char>, (Seq<char>, Seq<char>)>, Seq<char>>(
        Map::empty(),
    ));
    assert(fold_tags(pv, 1) == fold_tags_list(Map::empty(), ts, 0));
    let m1 = map_step(Map::<Seq<char>, (Seq<char>, Seq<char>)>::empty(), tag_key(ts[0]), tag_val(ts[0]))->Ok_0;
    assert(fold_tags_list(m1, ts, 1) == Ok::<Map<Seq<char>, (Seq<char>, Seq<char>)>, Seq<char>>(
        m1,
    ));
    assert(tm =~= Map::empty().insert(tag_key(ts[0]), tag_val(ts[0])));
    lemma_singleton_entity_list(
        tag_slugs(c.tags_sorted@),
        crate::entities::tag_names(c.tags_sorted@),
        crate::entities::tag_colors(c.tags_sorted@),
        tm,
        tag_key(ts[0]),
    );
    assert(c.tags_sorted@.len() == 1);
    assert(c.tags_sorted@[0].id == id_for(0));
    // the author table of a singleton fold has one entry with identifier 1
    let am = fold_authors(pv, 1)->Ok_0;
    assert(fold_authors(pv, 0) == Ok::<Map<Seq<char>, Seq<char>>, Seq<char>>(Map::empty()));
    assert(am =~= Map::empty().insert(author_key(pv[0]), author_name_of_first(pv)));
    lemma_singleton_author_table(table, am, author_key(pv[0]));
    assert(lookup_author(table, author_key(pv[0])) == Some(table[0].1));
    assert(c.posts_sorted@[0].author.id == 1);
}

/// The display name the single source declares; a helper to keep the
/// singleton-map statement readable.
pub open spec fn author_name_of_first(pv: Seq<crate::frontmatter::ParsedSourceV>) -> Seq<char> {
    crate::entities::author_name_of(pv[0])
}

/// An entity list that represents a singleton map has exactly one entry,
/// carrying that key.
proof fn lemma_singleton_entity_list(
    slugs: Seq<Seq<char>>,
    names: Seq<Seq<char>>,
    colors: Seq<Seq<char>>,
    m: Map<Seq<char>, (Seq<char>, Seq<char>)>,
    k: Seq<char>,
)
    requires
        entity_list_ok(slugs, names, colors, m),
        forall|x: Seq<char>| #[trigger] m.contains_key(x) <==> x == k,
    ensures
        slugs.len() == 1,
        slugs[0] == k,
{
    assert(m.contains_key(k));
    let w = choose|w: int| 0 <= w < slugs.len() && #[trigger] slugs[w] == k;
    if slugs.len() >= 2 {
        assert(m.contains_key(slugs[0]));
        assert(m.contains_key(slugs[1]));
        assert(slugs[0] == k && slugs[1] == k);
        assert(lex_lt(slugs[0], slugs[1]));
    }
    assert(slugs[0] == k);
}

/// An author table that represents a singleton map has exactly one entry,
/// carrying identifier 1.
proof fn lemma_singleton_author_table(
    t: Seq<(String, i32)>,
    m: Map<Seq<char>, Seq<char>>,
    k: Seq<char>,
)
    requires
        author_table_ok(t, m),
        forall|x: Seq<char>| #[trigger] m.contains_key(x) <==> x == k,
    ensures
        t.len() == 1,
        t[0].0@ == k,
        t[0].1 == 1,
        lookup_author(t, k) == Some(t[0].1),
{
    assert(m.contains_key(k));
    assert(crate::entities::assoc_has_key(t, k));
    let w = choose|w: int| 0 <= w < t.len() && (#[trigger] t[w].0)@ == k;
    if t.len() >= 2 {
        assert(m.contains_key(t[0].0@));
        assert(m.contains_key(t[1].0@));
        assert(t[0].0@ == k && t[1].0@ == k);
        assert(lex_lt(t[0].0@, t[1].0@));
    }
    assert(t[0].0@ == k);
    assert(t[0].1 == id_for(0));
}

/// The published snapshot lists posts newest first, ties broken by
/// ascending slug: every pair of positions is ordered by the display order.
pub proof fn lemma_posts_display_ordered(c: DemoContent, i: int, j: int)
    requires
        c.wf(),
        0 <= i < j < c.posts_sorted@.len(),
    ensures
        display_time(c.posts_sorted@[j]) < display_time(c.posts_sorted@[i]) || (display_time(
            c.posts_sorted@[j],
        ) == display_time(c.posts_sorted@[i]) && crate::text::lex_le(
            c.posts_sorted@[i].slug@,
            c.posts_sorted@[j].slug@,
        )),
{
    assert(c.posts_sorted@[i].le(c.posts_sorted@[j]));
}

/// Reading the snapshot is idempotent: any two results that the slug lookup
/// accessor may return for the same snapshot and slug are structurally
/// identical, because each accessor's result is a function of the snapshot
/// value alone.
pub proof fn lemma_idempotent_access(
    c: DemoContent,
    slug: Seq<char>,
    r1: Option<Post>,
    r2: Option<Post>,
)
    requires
        match crate::content::lookup_post(c.posts_sorted@, slug) {
            Some(p) => r1 matches Some(q) && q@ == p@,
            None => r1 is None,
        },
        match crate::content::lookup_post(c.posts_sorted@, slug) {
            Some(p) => r2 matches Some(q) && q@ == p@,
            None => r2 is None,
        },
    ensures
        match (r1, r2) {
            (Some(a), Some(b)) => a@ == b@,
            (None, None) => true,
            _ => false,
        },
{
}

} // verus!