//! Entity resolution: three folds over the parsed corpus that deduplicate
//! authors (keyed by lowercased, trimmed email), categories and tags (keyed
//! by trimmed slug), detect conflicting metadata, and assign 1-based
//! identifiers in ascending key order.

use vstd::prelude::*;
use vstd::string::*;
use crate::text::{trim, trim_spec, lex_lt, lex_le, str_le, str_eq, lemma_lex_le_total,
    lemma_lex_lt_trans};
use crate::bridge::{lower_of, lowercase};
use crate::frontmatter::{ParsedSource, ParsedSourceV, FmTagV, views_of};
use crate::error::ContentError;

verus! {

/// A resolved category. Identifiers are 1-based positions in ascending slug
/// order; timestamps are milliseconds since the epoch.
#[derive(Clone, Debug, PartialEq, Eq)]
pub struct Category {
    pub id: i32,
    pub name: String,
    pub slug: String,
    pub color: String,
    pub text_color: String,
    pub is_active: bool,
    pub created_at_ms: i64,
    pub updated_at_ms: i64,
    pub description: Option<String>,
}

/// A resolved tag, with the same shape and rules as a category.
#[derive(Clone, Debug, PartialEq, Eq)]
pub struct Tag {
    pub id: i32,
    pub name: String,
    pub slug: String,
    pub color: String,
    pub text_color: String,
    pub is_active: bool,
    pub created_at_ms: i64,
    pub updated_at_ms: i64,
    pub description: Option<String>,
}

fn dup_opt_string(o: &Option<String>) -> (r: Option<String>)
    ensures
        r == *o,
{
    match o {
        Some(s) => Some(s.clone()),
        None => None,
    }
}

impl Category {
    /// An equal copy.
    pub fn duplicate(&self) -> (r: Category)
        ensures
            r == *self,
    {
        Category {
            id: self.id,
            name: self.name.clone(),
            slug: self.slug.clone(),
            color: self.color.clone(),
            text_color: self.text_color.clone(),
            is_active: self.is_active,
            created_at_ms: self.created_at_ms,
            updated_at_ms: self.updated_at_ms,
            description: dup_opt_string(&self.description),
        }
    }
}

impl Tag {
    /// An equal copy.
    pub fn duplicate(&self) -> (r: Tag)
        ensures
            r == *self,
    {
        Tag {
            id: self.id,
            name: self.name.clone(),
            slug: self.slug.clone(),
            color: self.color.clone(),
            text_color: self.text_color.clone(),
            is_active: self.is_active,
            created_at_ms: self.created_at_ms,
            updated_at_ms: self.updated_at_ms,
            description: dup_opt_string(&self.description),
        }
    }
}

/// The 1-based identifier assigned to position `i` of a sorted entity list,
/// saturated at `i32::MAX`: no real corpus reaches that bound.
pub open spec fn id_for(i: int) -> i32 {
    if i + 1 <= 0x7fff_ffff {
        (i + 1) as i32
    } else {
        0x7fff_ffff
    }
}

/// Executable form of [`id_for`].
pub fn id_at(j: usize) -> (r: i32)
    ensures
        r == id_for(j as int),
{
    if j < 0x7fff_ffff {
        (j + 1) as i32
    } else {
        0x7fff_ffff
    }
}

/// The color a category gets when its frontmatter declares none.
pub open spec fn default_category_color() -> Seq<char> {
    "#f97316"@
}

/// The color a tag gets when its frontmatter declares none.
pub open spec fn default_tag_color() -> Seq<char> {
    "#3b82f6"@
}

/// The text color every resolved category and tag carries.
pub open spec fn default_text_color() -> Seq<char> {
    "#ffffff"@
}

pub open spec fn color_or(c: Option<Seq<char>>, d: Seq<char>) -> Seq<char> {
    match c {
        Some(x) => x,
        None => d,
    }
}

/// The identity key of a source's author: its lowercased, trimmed email.
pub open spec fn author_key(p: ParsedSourceV) -> Seq<char> {
    lower_of(trim_spec(p.frontmatter.author_email))
}

/// The display name a source declares for its author, trimmed.
pub open spec fn author_name_of(p: ParsedSourceV) -> Seq<char> {
    trim_spec(p.frontmatter.author_name)
}

/// The identity key of a source's category: its trimmed slug.
pub open spec fn cat_key(p: ParsedSourceV) -> Seq<char> {
    trim_spec(p.frontmatter.category_slug)
}

/// The metadata a source declares for its category.
pub open spec fn cat_val(p: ParsedSourceV) -> (Seq<char>, Seq<char>) {
    (
        trim_spec(p.frontmatter.category_name),
        color_or(p.frontmatter.category_color, default_category_color()),
    )
}

/// The identity key of a tag declaration: its trimmed slug.
pub open spec fn tag_key(t: FmTagV) -> Seq<char> {
    trim_spec(t.slug)
}

/// The metadata a tag declaration carries.
pub open spec fn tag_val(t: FmTagV) -> (Seq<char>, Seq<char>) {
    (trim_spec(t.name), color_or(t.color, default_tag_color()))
}

/// One fold step: adding `k -> v` to `m` succeeds unless `k` is already
/// bound to a different value, which is a conflict on `k`.
pub open spec fn map_step<V>(m: Map<Seq<char>, V>, k: Seq<char>, v: V) -> Result<
    Map<Seq<char>, V>,
    Seq<char>,
> {
    if m.contains_key(k) && m[k] != v {
        Err(k)
    } else {
        Ok(m.insert(k, v))
    }
}

/// The author fold over the first `i` sources: email key to display name,
/// or the first conflicting email.
pub open spec fn fold_authors(ps: Seq<ParsedSourceV>, i: int) -> Result<
    Map<Seq<char>, Seq<char>>,
    Seq<char>,
>
    decreases i,
{
    if i <= 0 {
        Ok(Map::empty())
    } else {
        match fold_authors(ps, i - 1) {
            Err(e) => Err(e),
            Ok(m) => map_step(m, author_key(ps[i - 1]), author_name_of(ps[i - 1])),
        }
    }
}

/// The category fold over the first `i` sources: slug to (name, color), or
/// the first conflicting slug.
pub open spec fn fold_categories(ps: Seq<ParsedSourceV>, i: int) -> Result<
    Map<Seq<char>, (Seq<char>, Seq<char>)>,
    Seq<char>,
>
    decreases i,
{
    if i <= 0 {
        Ok(Map::empty())
    } else {
        match fold_categories(ps, i - 1) {
            Err(e) => Err(e),
            Ok(m) => map_step(m, cat_key(ps[i - 1]), cat_val(ps[i - 1])),
        }
    }
}

/// The tag fold over one source's tag list, from entry `j` on.
pub open spec fn fold_tags_list(
    m: Map<Seq<char>, (Seq<char>, Seq<char>)>,
    ts: Seq<FmTagV>,
    j: int,
) -> Result<Map<Seq<char>, (Seq<char>, Seq<char>)>, Seq<char>>
    decreases ts.len() - j,
{
    if j < 0 || j >= ts.len() {
        Ok(m)
    } else {
        match map_step(m, tag_key(ts[j]), tag_val(ts[j])) {
            Err(e) => Err(e),
            Ok(m2) => fold_tags_list(m2, ts, j + 1),
        }
    }
}

/// The tag fold over the first `j` entries of one source's tag list.
pub open spec fn fold_tags_prefix(
    m: Map<Seq<char>, (Seq<char>, Seq<char>)>,
    ts: Seq<FmTagV>,
    j: int,
) -> Result<Map<Seq<char>, (Seq<char>, Seq<char>)>, Seq<char>>
    decreases j,
{
    if j <= 0 {
        Ok(m)
    } else {
        match fold_tags_prefix(m, ts, j - 1) {
            Err(e) => Err(e),
            Ok(m2) => map_step(m2, tag_key(ts[j - 1]), tag_val(ts[j - 1])),
        }
    }
}

/// Folding a whole tag list is folding a prefix and then the rest.
pub proof fn lemma_fold_tags_split(
    m: Map<Seq<char>, (Seq<char>, Seq<char>)>,
    ts: Seq<FmTagV>,
    j: int,
)
    requires
        0 <= j <= ts.len(),
    ensures
        fold_tags_list(m, ts, 0) == (match fold_tags_prefix(m, ts, j) {
            Ok(mj) => fold_tags_list(mj, ts, j),
            Err(e) => Err::<Map<Seq<char>, (Seq<char>, Seq<char>)>, Seq<char>>(e),
        }),
    decreases j,
{
    if j > 0 {
        lemma_fold_tags_split(m, ts, j - 1);
        match fold_tags_prefix(m, ts, j - 1) {
            Err(e) => {},
            Ok(mp) => {
                assert(fold_tags_list(mp, ts, j - 1) == (match map_step(
                    mp,
                    tag_key(ts[j - 1]),
                    tag_val(ts[j - 1]),
                ) {
                    Err(e) => Err::<Map<Seq<char>, (Seq<char>, Seq<char>)>, Seq<char>>(e),
                    Ok(m2) => fold_tags_list(m2, ts, j),
                }));
            },
        }
    }
}

/// The tag fold over the first `i` sources.
pub open spec fn fold_tags(ps: Seq<ParsedSourceV>, i: int) -> Result<
    Map<Seq<char>, (Seq<char>, Seq<char>)>,
    Seq<char>,
>
    decreases i,
{
    if i <= 0 {
        Ok(Map::empty())
    } else {
        match fold_tags(ps, i - 1) {
            Err(e) => Err(e),
            Ok(m) => fold_tags_list(m, ps[i - 1].frontmatter.tags, 0),
        }
    }
}

/// A failed fold stays failed over any longer prefix.
pub proof fn lemma_fold_authors_err(ps: Seq<ParsedSourceV>, i: int, j: int)
    requires
        0 <= i <= j,
        fold_authors(ps, i) is Err,
    ensures
        fold_authors(ps, j) == fold_authors(ps, i),
    decreases j - i,
{
    if j > i {
        lemma_fold_authors_err(ps, i, j - 1);
    }
}

pub proof fn lemma_fold_categories_err(ps: Seq<ParsedSourceV>, i: int, j: int)
    requires
        0 <= i <= j,
        fold_categories(ps, i) is Err,
    ensures
        fold_categories(ps, j) == fold_categories(ps, i),
    decreases j - i,
{
    if j > i {
        lemma_fold_categories_err(ps, i, j - 1);
    }
}

pub proof fn lemma_fold_tags_err(ps: Seq<ParsedSourceV>, i: int, j: int)
    requires
        0 <= i <= j,
        fold_tags(ps, i) is Err,
    ensures
        fold_tags(ps, j) == fold_tags(ps, i),
    decreases j - i,
{
    if j > i {
        lemma_fold_tags_err(ps, i, j - 1);
    }
}

/// A successful fold's map binds the key of every source it folded.
pub proof fn lemma_fold_authors_complete(ps: Seq<ParsedSourceV>, i: int)
    requires
        fold_authors(ps, i) is Ok,
    ensures
        forall|j: int| 0 <= j < i ==> fold_authors(ps, i)->Ok_0.contains_key(author_key(ps[j])),
    decreases i,
{
    if i > 0 {
        assert(fold_authors(ps, i - 1) is Ok);
        lemma_fold_authors_complete(ps, i - 1);
    }
}

pub proof fn lemma_fold_categories_complete(ps: Seq<ParsedSourceV>, i: int)
    requires
        fold_categories(ps, i) is Ok,
    ensures
        forall|j: int| 0 <= j < i ==> fold_categories(ps, i)->Ok_0.contains_key(cat_key(ps[j])),
    decreases i,
{
    if i > 0 {
        assert(fold_categories(ps, i - 1) is Ok);
        lemma_fold_categories_complete(ps, i - 1);
    }
}

/// A successful tag-list fold's map binds every tag key of the list, and
/// keeps everything the incoming map binds.
pub proof fn lemma_fold_tags_list_complete(
    m: Map<Seq<char>, (Seq<char>, Seq<char>)>,
    ts: Seq<FmTagV>,
    j: int,
)
    requires
        0 <= j,
        fold_tags_list(m, ts, j) is Ok,
    ensures
        forall|k: Seq<char>| m.contains_key(k) ==> fold_tags_list(m, ts, j)->Ok_0.contains_key(k),
        forall|jj: int| j <= jj < ts.len() ==> fold_tags_list(m, ts, j)->Ok_0.contains_key(
            tag_key(ts[jj]),
        ),
    decreases ts.len() - j,
{
    if !(j < 0 || j >= ts.len()) {
        assert(map_step(m, tag_key(ts[j]), tag_val(ts[j])) is Ok);
        let m2 = map_step(m, tag_key(ts[j]), tag_val(ts[j]))->Ok_0;
        assert(m2 == m.insert(tag_key(ts[j]), tag_val(ts[j])));
        assert(fold_tags_list(m, ts, j) == fold_tags_list(m2, ts, j + 1));
        lemma_fold_tags_list_complete(m2, ts, j + 1);
        assert forall|k: Seq<char>| m.contains_key(k) implies fold_tags_list(
            m,
            ts,
            j,
        )->Ok_0.contains_key(k) by {
            assert(m2.contains_key(k));
        }
        assert forall|jj: int| j <= jj < ts.len() implies fold_tags_list(
            m,
            ts,
            j,
        )->Ok_0.contains_key(tag_key(ts[jj])) by {
            if jj == j {
                assert(m2.contains_key(tag_key(ts[j])));
            } else {
                assert(fold_tags_list(m2, ts, j + 1)->Ok_0.contains_key(tag_key(ts[jj])));
            }
        }
    }
}

/// A successful tag fold's map binds every tag key of every folded source.
pub proof fn lemma_fold_tags_complete(ps: Seq<ParsedSourceV>, i: int)
    requires
        fold_tags(ps, i) is Ok,
    ensures
        forall|j: int, jj: int|
            0 <= j < i && 0 <= jj < ps[j].frontmatter.tags.len() ==> fold_tags(
                ps,
                i,
            )->Ok_0.contains_key(tag_key(ps[j].frontmatter.tags[jj])),
    decreases i,
{
    if i > 0 {
        assert(fold_tags(ps, i - 1) is Ok);
        lemma_fold_tags_complete(ps, i - 1);
        let m = fold_tags(ps, i - 1)->Ok_0;
        lemma_fold_tags_list_complete(m, ps[i - 1].frontmatter.tags, 0);
        assert forall|j: int, jj: int|
            0 <= j < i && 0 <= jj < ps[j].frontmatter.tags.len() implies fold_tags(
            ps,
            i,
        )->Ok_0.contains_key(tag_key(ps[j].frontmatter.tags[jj])) by {
            if j < i - 1 {
                assert(m.contains_key(tag_key(ps[j].frontmatter.tags[jj])));
            }
        }
    }
}

/// Keys of a sorted association list are strictly ascending.
pub open spec fn keys_sorted<V>(s: Seq<(String, V)>) -> bool {
    forall|i: int, j: int| 0 <= i < j < s.len() ==> lex_lt(s[i].0@, s[j].0@)
}

/// Some entry of the association list `s` carries the key `k`.
pub open spec fn assoc_has_key<V>(s: Seq<(String, V)>, k: Seq<char>) -> bool {
    exists|i: int| 0 <= i < s.len() && (#[trigger] s[i].0)@ == k
}

/// The association list `s` represents exactly the map `m`.
pub open spec fn assoc_represents<V: View>(s: Seq<(String, V)>, m: Map<Seq<char>, V::V>) -> bool {
    &&& (forall|i: int|
        0 <= i < s.len() ==> m.contains_key(#[trigger] s[i].0@) && m[s[i].0@] == s[i].1@)
    &&& (forall|k: Seq<char>| #[trigger] m.contains_key(k) ==> assoc_has_key(s, k))
}

/// A key bound in the represented map is carried by some entry.
pub proof fn lemma_represents_found<V: View>(
    s: Seq<(String, V)>,
    m: Map<Seq<char>, V::V>,
    k: Seq<char>,
)
    requires
        assoc_represents(s, m),
        m.contains_key(k),
    ensures
        assoc_has_key(s, k),
{
}

/// A key carried by no entry is not bound in the represented map.
pub proof fn lemma_represents_absent<V: View>(
    s: Seq<(String, V)>,
    m: Map<Seq<char>, V::V>,
    k: Seq<char>,
)
    requires
        assoc_represents(s, m),
        forall|j: int| 0 <= j < s.len() ==> (#[trigger] s[j].0)@ != k,
    ensures
        !m.contains_key(k),
{
    if m.contains_key(k) {
        let i = choose|i: int| 0 <= i < s.len() && (#[trigger] s[i].0)@ == k;
        assert(s[i].0@ != k);
    }
}

/// Where `key` belongs in the sorted association list `t`: the first
/// position whose key is not below `key`.
#[verifier::loop_isolation(false)]
fn assoc_locate<V>(t: &Vec<(String, V)>, key: &str) -> (r: usize)
    requires
        keys_sorted(t@),
    ensures
        r <= t@.len(),
        forall|j: int| 0 <= j < r ==> lex_lt(t@[j].0@, key@),
        r < t@.len() ==> lex_le(key@, t@[r as int].0@),
{
    let n = t.len();
    let mut i: usize = 0;
    while i < n
        invariant
            0 <= i <= n,
            forall|j: int| 0 <= j < i ==> lex_lt(t@[j].0@, key@),
        decreases n - i,
    {
        let e = &t[i];
        if str_le(key, e.0.as_str()) {
            return i;
        }
        proof {
            lemma_lex_le_total(key@, t@[i as int].0@);
        }
        i = i + 1;
    }
    n
}

/// Inserting at the located position keeps the keys sorted.
pub proof fn lemma_keys_sorted_insert<V>(s: Seq<(String, V)>, r: int, x: (String, V))
    requires
        keys_sorted(s),
        0 <= r <= s.len(),
        forall|j: int| 0 <= j < r ==> lex_lt(s[j].0@, x.0@),
        r < s.len() ==> lex_lt(x.0@, s[r].0@),
    ensures
        keys_sorted(s.insert(r, x)),
{
    let t = s.insert(r, x);
    assert forall|i: int, j: int| 0 <= i < j < t.len() implies lex_lt(t[i].0@, t[j].0@) by {
        if i < r && j == r {
        } else if i < r && j > r {
            assert(t[j] == s[j - 1]);
            if j - 1 > r {
                lemma_lex_lt_trans(x.0@, s[r].0@, s[j - 1].0@);
            }
            lemma_lex_lt_trans(s[i].0@, x.0@, s[j - 1].0@);
        } else if i == r && j > r {
            assert(t[j] == s[j - 1]);
            if j - 1 > r {
                lemma_lex_lt_trans(x.0@, s[r].0@, s[j - 1].0@);
            }
        } else if i > r {
            assert(t[i] == s[i - 1]);
            assert(t[j] == s[j - 1]);
        }
    }
}

/// A key strictly between its neighbours is bound nowhere in a sorted list.
pub proof fn lemma_locate_not_found<V>(s: Seq<(String, V)>, r: int, key: Seq<char>)
    requires
        keys_sorted(s),
        0 <= r <= s.len(),
        forall|j: int| 0 <= j < r ==> lex_lt(s[j].0@, key),
        r < s.len() ==> lex_lt(key, s[r].0@),
    ensures
        forall|j: int| 0 <= j < s.len() ==> s[j].0@ != key,
{
    assert forall|j: int| 0 <= j < s.len() implies s[j].0@ != key by {
        if j >= r {
            if j > r {
                lemma_lex_lt_trans(key, s[r].0@, s[j].0@);
            }
        }
    }
}

/// Builds the author identifier table: a fold keyed by lowercased, trimmed
/// email, conflicting display names rejected, identifiers 1..N assigned in
/// ascending email order.
#[verifier::loop_isolation(false)]
pub fn build_author_ids(sources: &Vec<ParsedSource>) -> (r: Result<
    Vec<(String, i32)>,
    ContentError,
>)
    ensures
        match r {
            Ok(t) => {
                &&& fold_authors(views_of(sources@), sources@.len() as int) matches Ok(m)
                &&& keys_sorted(t@)
                &&& t@.len() <= sources@.len()
                &&& (forall|i: int| 0 <= i < t@.len() ==> #[trigger] t@[i].1 == id_for(i))
                &&& (forall|i: int|
                    0 <= i < t@.len() ==> m.contains_key(#[trigger] t@[i].0@))
                &&& (forall|k: Seq<char>|
                    m.contains_key(k) ==> exists|i: int|
                        0 <= i < t@.len() && #[trigger] t@[i].0@ == k)
            },
            Err(e) => {
                &&& fold_authors(views_of(sources@), sources@.len() as int) matches Err(k)
                &&& e matches ContentError::ConflictingAuthor { email } && email@ == k
            },
        },
{
    let ghost psv = views_of(sources@);
    let n = sources.len();
    let mut table: Vec<(String, String)> = Vec::new();
    let mut i: usize = 0;
    while i < n
        invariant
            0 <= i <= n,
            fold_authors(psv, i as int) is Ok,
            keys_sorted(table@),
            table@.len() <= i,
            assoc_represents(table@, fold_authors(psv, i as int)->Ok_0),
        decreases n - i,
    {
        let ghost m = fold_authors(psv, i as int)->Ok_0;
        let ghost pv = psv[i as int];
        proof {
            assert(pv == sources@[i as int]@);
        }
        let src = &sources[i];
        let trimmed_email = trim(src.frontmatter.author.email.as_str());
        let email = lowercase(trimmed_email);
        let name_str = trim(src.frontmatter.author.name.as_str());
        proof {
            assert(email@ == author_key(pv));
            assert(name_str@ == author_name_of(pv));
        }
        let pos = assoc_locate(&table, email.as_str());
        if pos < table.len() && str_eq(table[pos].0.as_str(), email.as_str()) {
            if !str_eq(table[pos].1.as_str(), name_str) {
                proof {
                    assert(m.contains_key(email@) && m[email@] != name_str@);
                    assert(fold_authors(psv, i + 1) == Err::<Map<Seq<char>, Seq<char>>, Seq<char>>(
                        email@,
                    ));
                    lemma_fold_authors_err(psv, i + 1, n as int);
                }
                return Err(ContentError::ConflictingAuthor { email });
            }
            proof {
                assert(m.contains_key(email@) && m[email@] == name_str@);
                assert(m.insert(email@, name_str@) =~= m);
                assert(fold_authors(psv, i + 1)->Ok_0 == m);
            }
        } else {
            proof {
                lemma_locate_not_found(table@, pos as int, email@);
                assert(!m.contains_key(email@));
            }
            let ghost old_table = table@;
            let ghost key = email@;
            let name = name_str.to_owned();
            table.insert(pos, (email, name));
            proof {
                let x = table@[pos as int];
                assert(x.0@ == key);
                lemma_keys_sorted_insert(old_table, pos as int, x);
                let m2 = m.insert(author_key(pv), author_name_of(pv));
                assert(fold_authors(psv, i + 1)->Ok_0 == m2);
                assert forall|idx: int| 0 <= idx < table@.len() implies m2.contains_key(
                    #[trigger] table@[idx].0@,
                ) && m2[table@[idx].0@] == table@[idx].1@ by {
                    if idx < pos {
                        assert(table@[idx] == old_table[idx]);
                    } else if idx > pos {
                        assert(table@[idx] == old_table[idx - 1]);
                    }
                }
                assert forall|k: Seq<char>| m2.contains_key(k) implies exists|idx: int|
                    0 <= idx < table@.len() && #[trigger] table@[idx].0@ == k by {
                    if k == author_key(pv) {
                        assert(table@[pos as int].0@ == k);
                    } else {
                        assert(m.contains_key(k));
                        let idx0 = choose|idx0: int|
                            0 <= idx0 < old_table.len() && #[trigger] old_table[idx0].0@ == k;
                        if idx0 < pos {
                            assert(table@[idx0].0@ == k);
                        } else {
                            assert(table@[idx0 + 1].0@ == k);
                        }
                    }
                }
            }
        }
        i = i + 1;
    }
    let ghost m = fold_authors(psv, n as int)->Ok_0;
    let tn = table.len();
    let mut out: Vec<(String, i32)> = Vec::new();
    let mut j: usize = 0;
    while j < tn
        invariant
            0 <= j <= tn,
            out@.len() == j,
            forall|idx: int|
                0 <= idx < j ==> #[trigger] out@[idx].0@ == table@[idx].0@ && out@[idx].1 == id_for(
                    idx,
                ),
        decreases tn - j,
    {
        let email = table[j].0.clone();
        let id = id_at(j);
        out.push((email, id));
        j = j + 1;
    }
    proof {
        assert forall|i2: int, j2: int| 0 <= i2 < j2 < out@.len() implies lex_lt(
            out@[i2].0@,
            out@[j2].0@,
        ) by {
            assert(out@[i2].0@ == table@[i2].0@);
            assert(out@[j2].0@ == table@[j2].0@);
        }
        assert forall|k: Seq<char>| m.contains_key(k) implies exists|idx: int|
            0 <= idx < out@.len() && #[trigger] out@[idx].0@ == k by {
            let idx0 = choose|idx0: int|
                0 <= idx0 < table@.len() && #[trigger] table@[idx0].0@ == k;
            assert(out@[idx0].0@ == k);
        }
        assert(fold_authors(views_of(sources@), sources@.len() as int) is Ok);
        assert(keys_sorted(out@));
        assert(out@.len() <= sources@.len());
        assert forall|i2: int| 0 <= i2 < out@.len() implies #[trigger] out@[i2].1 == id_for(i2) by {
            assert(out@[i2].0@ == table@[i2].0@);
        }
        assert forall|i2: int| 0 <= i2 < out@.len() implies m.contains_key(
            #[trigger] out@[i2].0@,
        ) by {
            assert(out@[i2].0@ == table@[i2].0@);
        }
    }
    Ok(out)
}

/// Inserting a fresh key at its located position keeps the list
/// representing the stepped map.
pub proof fn lemma_assoc_insert_represents<V: View>(
    old_t: Seq<(String, V)>,
    new_t: Seq<(String, V)>,
    pos: int,
    m: Map<Seq<char>, V::V>,
)
    requires
        assoc_represents(old_t, m),
        0 <= pos <= old_t.len(),
        new_t == old_t.insert(pos, new_t[pos]),
        new_t.len() == old_t.len() + 1,
        !m.contains_key(new_t[pos].0@),
    ensures
        assoc_represents(new_t, m.insert(new_t[pos].0@, new_t[pos].1@)),
{
    let m2 = m.insert(new_t[pos].0@, new_t[pos].1@);
    assert forall|idx: int| 0 <= idx < new_t.len() implies m2.contains_key(
        #[trigger] new_t[idx].0@,
    ) && m2[new_t[idx].0@] == new_t[idx].1@ by {
        if idx < pos {
            assert(new_t[idx] == old_t[idx]);
        } else if idx > pos {
            assert(new_t[idx] == old_t[idx - 1]);
        }
    }
    assert forall|k: Seq<char>| m2.contains_key(k) implies exists|idx: int|
        0 <= idx < new_t.len() && #[trigger] new_t[idx].0@ == k by {
        if k == new_t[pos].0@ {
            assert(new_t[pos].0@ == k);
        } else {
            let idx0 = choose|idx0: int|
                0 <= idx0 < old_t.len() && #[trigger] old_t[idx0].0@ == k;
            if idx0 < pos {
                assert(new_t[idx0].0@ == k);
            } else {
                assert(new_t[idx0 + 1].0@ == k);
            }
        }
    }
}

/// Adds one slug-keyed (name, color) declaration to a sorted entity table,
/// keeping it a representation of the stepped fold map. On a conflict the
/// table is unchanged and the slug comes back as the error.
#[verifier::loop_isolation(false)]
fn entity_step(
    table: &mut Vec<(String, (String, String))>,
    Ghost(m): Ghost<Map<Seq<char>, (Seq<char>, Seq<char>)>>,
    slug: String,
    name: String,
    color: String,
) -> (r: Result<(), String>)
    requires
        keys_sorted(old(table)@),
        assoc_represents(old(table)@, m),
    ensures
        match r {
            Ok(_) => {
                &&& map_step(m, slug@, (name@, color@)) is Ok
                &&& keys_sorted(final(table)@)
                &&& assoc_represents(final(table)@, map_step(m, slug@, (name@, color@))->Ok_0)
                &&& final(table)@.len() <= old(table)@.len() + 1
            },
            Err(s) => {
                &&& s@ == slug@
                &&& map_step(m, slug@, (name@, color@)) == Err::<
                    Map<Seq<char>, (Seq<char>, Seq<char>)>,
                    Seq<char>,
                >(slug@)
                &&& final(table)@ == old(table)@
            },
        },
{
    let pos = assoc_locate(table, slug.as_str());
    if pos < table.len() && str_eq(table[pos].0.as_str(), slug.as_str()) {
        let e = &table[pos];
        if !(str_eq(e.1.0.as_str(), name.as_str()) && str_eq(e.1.1.as_str(), color.as_str())) {
            proof {
                assert(m.contains_key(slug@) && m[slug@] != (name@, color@));
            }
            return Err(slug);
        }
        proof {
            assert(m.contains_key(slug@) && m[slug@] == (name@, color@));
            assert(m.insert(slug@, (name@, color@)) =~= m);
        }
        Ok(())
    } else {
        proof {
            lemma_locate_not_found(table@, pos as int, slug@);
            lemma_represents_absent(table@, m, slug@);
        }
        let ghost old_table = table@;
        table.insert(pos, (slug, (name, color)));
        proof {
            let x = table@[pos as int];
            lemma_keys_sorted_insert(old_table, pos as int, x);
            lemma_assoc_insert_represents(old_table, table@, pos as int, m);
        }
        Ok(())
    }
}

fn default_category_color_str() -> (r: String)
    ensures
        r@ == default_category_color(),
{
    "#f97316".to_owned()
}

fn default_tag_color_str() -> (r: String)
    ensures
        r@ == default_tag_color(),
{
    "#3b82f6".to_owned()
}

fn default_text_color_str() -> (r: String)
    ensures
        r@ == default_text_color(),
{
    "#ffffff".to_owned()
}

/// The fields every resolved category and tag list shares: identifiers are
/// positions, keys are strictly ascending slugs that represent the fold map,
/// and the fixed defaults are in force.
pub open spec fn entity_list_ok(
    slugs: Seq<Seq<char>>,
    names: Seq<Seq<char>>,
    colors: Seq<Seq<char>>,
    m: Map<Seq<char>, (Seq<char>, Seq<char>)>,
) -> bool {
    &&& names.len() == slugs.len()
    &&& colors.len() == slugs.len()
    &&& (forall|i: int, j: int| 0 <= i < j < slugs.len() ==> lex_lt(slugs[i], slugs[j]))
    &&& (forall|i: int|
        0 <= i < slugs.len() ==> m.contains_key(#[trigger] slugs[i]) && m[slugs[i]] == (
        names[i],
        colors[i],
        ))
    &&& (forall|k: Seq<char>|
        m.contains_key(k) ==> exists|i: int| 0 <= i < slugs.len() && #[trigger] slugs[i] == k)
}

/// The slug sequence of a resolved category list.
pub open spec fn cat_slugs(cs: Seq<Category>) -> Seq<Seq<char>> {
    cs.map_values(|c: Category| c.slug@)
}

pub open spec fn cat_names(cs: Seq<Category>) -> Seq<Seq<char>> {
    cs.map_values(|c: Category| c.name@)
}

pub open spec fn cat_colors(cs: Seq<Category>) -> Seq<Seq<char>> {
    cs.map_values(|c: Category| c.color@)
}

/// The slug sequence of a resolved tag list.
pub open spec fn tag_slugs(ts: Seq<Tag>) -> Seq<Seq<char>> {
    ts.map_values(|t: Tag| t.slug@)
}

pub open spec fn tag_names(ts: Seq<Tag>) -> Seq<Seq<char>> {
    ts.map_values(|t: Tag| t.name@)
}

pub open spec fn tag_colors(ts: Seq<Tag>) -> Seq<Seq<char>> {
    ts.map_values(|t: Tag| t.color@)
}

/// The fixed fields of a resolved category.
pub open spec fn cat_defaults_ok(c: Category, now_ms: i64) -> bool {
    &&& c.text_color@ == default_text_color()
    &&& c.is_active
    &&& c.created_at_ms == now_ms
    &&& c.updated_at_ms == now_ms
    &&& c.description is None
}

/// The fixed fields of a resolved tag.
pub open spec fn tag_defaults_ok(t: Tag, now_ms: i64) -> bool {
    &&& t.text_color@ == default_text_color()
    &&& t.is_active
    &&& t.created_at_ms == now_ms
    &&& t.updated_at_ms == now_ms
    &&& t.description is None
}

/// Builds the category table: a fold keyed by trimmed slug over every
/// source's category declaration, conflicting (name, color) pairs rejected,
/// identifiers 1..N assigned in ascending slug order.
#[verifier::loop_isolation(false)]
pub fn build_categories(sources: &Vec<ParsedSource>, now_ms: i64) -> (r: Result<
    Vec<Category>,
    ContentError,
>)
    ensures
        match r {
            Ok(cs) => {
                &&& fold_categories(views_of(sources@), sources@.len() as int) matches Ok(m)
                &&& entity_list_ok(cat_slugs(cs@), cat_names(cs@), cat_colors(cs@), m)
                &&& (forall|i: int| 0 <= i < cs@.len() ==> (#[trigger] cs@[i]).id == id_for(i))
                &&& (forall|i: int|
                    0 <= i < cs@.len() ==> cat_defaults_ok(#[trigger] cs@[i], now_ms))
            },
            Err(e) => {
                &&& fold_categories(views_of(sources@), sources@.len() as int) matches Err(k)
                &&& e matches ContentError::ConflictingCategory { slug } && slug@ == k
            },
        },
{
    let ghost psv = views_of(sources@);
    let n = sources.len();
    let mut table: Vec<(String, (String, String))> = Vec::new();
    let mut i: usize = 0;
    while i < n
        invariant
            0 <= i <= n,
            fold_categories(psv, i as int) is Ok,
            keys_sorted(table@),
            assoc_represents(table@, fold_categories(psv, i as int)->Ok_0),
        decreases n - i,
    {
        let ghost m = fold_categories(psv, i as int)->Ok_0;
        let ghost pv = psv[i as int];
        proof {
            assert(pv == sources@[i as int]@);
        }
        let src = &sources[i];
        let slug = trim(src.frontmatter.category.slug.as_str()).to_owned();
        let name = trim(src.frontmatter.category.name.as_str()).to_owned();
        let color = match &src.frontmatter.category.color {
            Some(c) => c.clone(),
            None => default_category_color_str(),
        };
        proof {
            assert(slug@ == cat_key(pv));
            assert((name@, color@) == cat_val(pv));
        }
        match entity_step(&mut table, Ghost(m), slug, name, color) {
            Ok(_) => {},
            Err(s) => {
                proof {
                    assert(fold_categories(psv, i + 1) == Err::<
                        Map<Seq<char>, (Seq<char>, Seq<char>)>,
                        Seq<char>,
                    >(cat_key(pv)));
                    lemma_fold_categories_err(psv, i + 1, n as int);
                }
                return Err(ContentError::ConflictingCategory { slug: s });
            },
        }
        i = i + 1;
    }
    let ghost m = fold_categories(psv, n as int)->Ok_0;
    let tn = table.len();
    let mut out: Vec<Category> = Vec::new();
    let mut j: usize = 0;
    while j < tn
        invariant
            0 <= j <= tn,
            out@.len() == j,
            forall|idx: int|
                0 <= idx < j ==> (#[trigger] out@[idx]).slug@ == table@[idx].0@
                    && out@[idx].name@ == table@[idx].1.0@ && out@[idx].color@ == table@[idx].1.1@
                    && out@[idx].id == id_for(idx) && cat_defaults_ok(out@[idx], now_ms),
        decreases tn - j,
    {
        let e = &table[j];
        let id = id_at(j);
        out.push(
            Category {
                id,
                name: e.1.0.clone(),
                slug: e.0.clone(),
                color: e.1.1.clone(),
                text_color: default_text_color_str(),
                is_active: true,
                created_at_ms: now_ms,
                updated_at_ms: now_ms,
                description: None,
            },
        );
        j = j + 1;
    }
    proof {
        assert(cat_slugs(out@).len() == out@.len());
        assert forall|i2: int, j2: int| 0 <= i2 < j2 < out@.len() implies lex_lt(
            cat_slugs(out@)[i2],
            cat_slugs(out@)[j2],
        ) by {
            assert(cat_slugs(out@)[i2] == table@[i2].0@);
            assert(cat_slugs(out@)[j2] == table@[j2].0@);
        }
        assert forall|i2: int| 0 <= i2 < out@.len() implies m.contains_key(
            #[trigger] cat_slugs(out@)[i2],
        ) && m[cat_slugs(out@)[i2]] == (cat_names(out@)[i2], cat_colors(out@)[i2]) by {
            assert(cat_slugs(out@)[i2] == table@[i2].0@);
            assert(cat_names(out@)[i2] == table@[i2].1.0@);
            assert(cat_colors(out@)[i2] == table@[i2].1.1@);
        }
        assert forall|k: Seq<char>| m.contains_key(k) implies exists|i2: int|
            0 <= i2 < cat_slugs(out@).len() && #[trigger] cat_slugs(out@)[i2] == k by {
            lemma_represents_found(table@, m, k);
            let idx0 = choose|idx0: int|
                0 <= idx0 < table@.len() && (#[trigger] table@[idx0].0)@ == k;
            assert(out@[idx0].slug@ == k);
            assert(cat_slugs(out@)[idx0] == out@[idx0].slug@);
        }
    }
    Ok(out)
}

/// Builds the tag table: a fold keyed by trimmed slug over every tag
/// declaration of every source, conflicting (name, color) pairs rejected,
/// identifiers 1..N assigned in ascending slug order.
#[verifier::loop_isolation(false)]
pub fn build_tags(sources: &Vec<ParsedSource>, now_ms: i64) -> (r: Result<Vec<Tag>, ContentError>)
    ensures
        match r {
            Ok(ts) => {
                &&& fold_tags(views_of(sources@), sources@.len() as int) matches Ok(m)
                &&& entity_list_ok(tag_slugs(ts@), tag_names(ts@), tag_colors(ts@), m)
                &&& (forall|i: int| 0 <= i < ts@.len() ==> (#[trigger] ts@[i]).id == id_for(i))
                &&& (forall|i: int|
                    0 <= i < ts@.len() ==> tag_defaults_ok(#[trigger] ts@[i], now_ms))
            },
            Err(e) => {
                &&& fold_tags(views_of(sources@), sources@.len() as int) matches Err(k)
                &&& e matches ContentError::ConflictingTag { slug } && slug@ == k
            },
        },
{
    let ghost psv = views_of(sources@);
    let n = sources.len();
    let mut table: Vec<(String, (String, String))> = Vec::new();
    let mut i: usize = 0;
    while i < n
        invariant
            0 <= i <= n,
            fold_tags(psv, i as int) is Ok,
            keys_sorted(table@),
            assoc_represents(table@, fold_tags(psv, i as int)->Ok_0),
        decreases n - i,
    {
        let ghost pv = psv[i as int];
        proof {
            assert(pv == sources@[i as int]@);
        }
        let src = &sources[i];
        let ghost tvs = pv.frontmatter.tags;
        let ghost m0 = fold_tags(psv, i as int)->Ok_0;
        let tags_n = src.frontmatter.tags.len();
        let mut jt: usize = 0;
        proof {
            assert(tvs.len() == tags_n);
            assert(fold_tags(psv, i as int + 1) == fold_tags_list(m0, tvs, 0));
        }
        while jt < tags_n
            invariant
                0 <= jt <= tags_n,
                keys_sorted(table@),
                fold_tags_prefix(m0, tvs, jt as int) is Ok,
                assoc_represents(table@, fold_tags_prefix(m0, tvs, jt as int)->Ok_0),
            decreases tags_n - jt,
        {
            let ghost m_cur = fold_tags_prefix(m0, tvs, jt as int)->Ok_0;
            let ghost tv = tvs[jt as int];
            proof {
                assert(tv == src.frontmatter.tags@[jt as int]@);
            }
            let tag = &src.frontmatter.tags[jt];
            let slug = trim(tag.slug.as_str()).to_owned();
            let name = trim(tag.name.as_str()).to_owned();
            let color = match &tag.color {
                Some(c) => c.clone(),
                None => default_tag_color_str(),
            };
            proof {
                assert(slug@ == tag_key(tv));
                assert((name@, color@) == tag_val(tv));
            }
            match entity_step(&mut table, Ghost(m_cur), slug, name, color) {
                Ok(_) => {
                    proof {
                        assert(fold_tags_prefix(m0, tvs, jt as int + 1) == map_step(
                            m_cur,
                            tag_key(tv),
                            tag_val(tv),
                        ));
                    }
                },
                Err(s) => {
                    proof {
                        assert(fold_tags_prefix(m0, tvs, jt as int + 1) == Err::<
                            Map<Seq<char>, (Seq<char>, Seq<char>)>,
                            Seq<char>,
                        >(tag_key(tv)));
                        lemma_fold_tags_split(m0, tvs, jt as int + 1);
                        assert(fold_tags(psv, i as int + 1) is Err);
                        lemma_fold_tags_err(psv, i as int + 1, n as int);
                    }
                    return Err(ContentError::ConflictingTag { slug: s });
                },
            }
            jt = jt + 1;
        }
        proof {
            lemma_fold_tags_split(m0, tvs, tags_n as int);
            assert(fold_tags_list(fold_tags_prefix(m0, tvs, tags_n as int)->Ok_0, tvs,
                tags_n as int) == Ok::<Map<Seq<char>, (Seq<char>, Seq<char>)>, Seq<char>>(
                fold_tags_prefix(m0, tvs, tags_n as int)->Ok_0,
            ));
            assert(fold_tags(psv, i as int + 1)->Ok_0 == fold_tags_prefix(
                m0,
                tvs,
                tags_n as int,
            )->Ok_0);
        }
        i = i + 1;
    }
    let ghost m = fold_tags(psv, n as int)->Ok_0;
    let tn = table.len();
    let mut out: Vec<Tag> = Vec::new();
    let mut j: usize = 0;
    while j < tn
        invariant
            0 <= j <= tn,
            out@.len() == j,
            forall|idx: int|
                0 <= idx < j ==> (#[trigger] out@[idx]).slug@ == table@[idx].0@
                    && out@[idx].name@ == table@[idx].1.0@ && out@[idx].color@ == table@[idx].1.1@
                    && out@[idx].id == id_for(idx) && tag_defaults_ok(out@[idx], now_ms),
        decreases tn - j,
    {
        let e = &table[j];
        let id = id_at(j);
        out.push(
            Tag {
                id,
                name: e.1.0.clone(),
                slug: e.0.clone(),
                color: e.1.1.clone(),
                text_color: default_text_color_str(),
                is_active: true,
                created_at_ms: now_ms,
                updated_at_ms: now_ms,
                description: None,
            },
        );
        j = j + 1;
    }
    proof {
        assert forall|i2: int, j2: int| 0 <= i2 < j2 < out@.len() implies lex_lt(
            tag_slugs(out@)[i2],
            tag_slugs(out@)[j2],
        ) by {
            assert(tag_slugs(out@)[i2] == table@[i2].0@);
            assert(tag_slugs(out@)[j2] == table@[j2].0@);
        }
        assert forall|i2: int| 0 <= i2 < out@.len() implies m.contains_key(
            #[trigger] tag_slugs(out@)[i2],
        ) && m[tag_slugs(out@)[i2]] == (tag_names(out@)[i2], tag_colors(out@)[i2]) by {
            assert(tag_slugs(out@)[i2] == table@[i2].0@);
            assert(tag_names(out@)[i2] == table@[i2].1.0@);
            assert(tag_colors(out@)[i2] == table@[i2].1.1@);
        }
        assert forall|k: Seq<char>| m.contains_key(k) implies exists|i2: int|
            0 <= i2 < tag_slugs(out@).len() && #[trigger] tag_slugs(out@)[i2] == k by {
            lemma_represents_found(table@, m, k);
            let idx0 = choose|idx0: int|
                0 <= idx0 < table@.len() && (#[trigger] table@[idx0].0)@ == k;
            assert(out@[idx0].slug@ == k);
            assert(tag_slugs(out@)[idx0] == out@[idx0].slug@);
        }
    }
    Ok(out)
}

} // verus!
