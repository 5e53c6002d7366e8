//! The unified post record, the blacklist filter, the merge of the adapters'
//! results and the ignore-on-conflict store model.
use vstd::prelude::*;

use crate::text::same_text;

verus! {

/// The upstream platform a post was taken from.
#[derive(Clone, Copy, Debug, PartialEq, Eq, Structural)]
pub enum PostSource {
    Twitter,
    Mihoyo,
    Pixiv,
    Bcy,
    Lofter,
    TwitterHome,
}

pub open spec fn source_label(s: PostSource) -> Seq<char> {
    match s {
        PostSource::Twitter => "twitter"@,
        PostSource::Mihoyo => "mihoyo"@,
        PostSource::Pixiv => "pixiv"@,
        PostSource::Bcy => "bcy"@,
        PostSource::Lofter => "lofter"@,
        PostSource::TwitterHome => "twitterhome"@,
    }
}

impl PostSource {
    /// The source whose label is `label`.
    pub fn from_label(label: &str) -> (r: Option<PostSource>)
        ensures
            r matches Some(s) ==> source_label(s) == label@,
            r is None ==> forall|s: PostSource| source_label(s) != label@,
    {
        if same_text(label, "twitter") {
            Some(PostSource::Twitter)
        } else if same_text(label, "mihoyo") {
            Some(PostSource::Mihoyo)
        } else if same_text(label, "pixiv") {
            Some(PostSource::Pixiv)
        } else if same_text(label, "bcy") {
            Some(PostSource::Bcy)
        } else if same_text(label, "lofter") {
            Some(PostSource::Lofter)
        } else if same_text(label, "twitterhome") {
            Some(PostSource::TwitterHome)
        } else {
            None
        }
    }

    /// The lower-case label under which the store keeps the source.
    pub fn as_str(&self) -> (r: &'static str)
        ensures
            r@ == source_label(*self),
    {
        match self {
            PostSource::Twitter => "twitter",
            PostSource::Mihoyo => "mihoyo",
            PostSource::Pixiv => "pixiv",
            PostSource::Bcy => "bcy",
            PostSource::Lofter => "lofter",
            PostSource::TwitterHome => "twitterhome",
        }
    }
}

/// One image post in the unified schema; `post_link` is its natural key.
#[derive(Debug)]
pub struct Post {
    pub author: String,
    pub author_link: String,
    pub author_profile_image: Option<String>,
    pub created: String,
    pub images_number: i32,
    pub post_link: String,
    pub preview_link: String,
    pub source: PostSource,
    pub tags: Option<Vec<String>>,
}

/// A post as plain values.
pub ghost struct PostView {
    pub author: Seq<char>,
    pub author_link: Seq<char>,
    pub author_profile_image: Option<Seq<char>>,
    pub created: Seq<char>,
    pub images_number: int,
    pub post_link: Seq<char>,
    pub preview_link: Seq<char>,
    pub source: PostSource,
    pub tags: Option<Seq<Seq<char>>>,
}

pub open spec fn string_views(v: Seq<String>) -> Seq<Seq<char>> {
    v.map_values(|s: String| s@)
}

pub open spec fn option_view(o: Option<String>) -> Option<Seq<char>> {
    match o {
        Some(s) => Some(s@),
        None => None,
    }
}

impl View for Post {
    type V = PostView;

    open spec fn view(&self) -> PostView {
        PostView {
            author: self.author@,
            author_link: self.author_link@,
            author_profile_image: option_view(self.author_profile_image),
            created: self.created@,
            images_number: self.images_number as int,
            post_link: self.post_link@,
            preview_link: self.preview_link@,
            source: self.source,
            tags: match self.tags {
                Some(t) => Some(string_views(t@)),
                None => None,
            },
        }
    }
}

pub open spec fn post_views(v: Seq<Post>) -> Seq<PostView> {
    v.map_values(|p: Post| p@)
}

/// Authors and tags whose posts are never kept.
pub struct BlackList {
    pub authors: Vec<String>,
    pub tags: Vec<String>,
}

/// Endpoints of the upstream platforms.
pub struct SourcesUrls {
    pub pixiv: String,
    pub pixiv_details: String,
    pub pixiv_image: String,
    pub twitter_honkai: String,
    pub twitter_home: String,
    pub mihoyo: String,
    pub bcy: String,
    pub lofter: String,
}

/// `x` is one of the strings of `v`.
pub open spec fn listed(v: Seq<Seq<char>>, x: Seq<char>) -> bool {
    exists|i: int| 0 <= i < v.len() && v[i] == x
}

/// Some tag of `tags` is one of the strings of `v`.
pub open spec fn any_listed(v: Seq<Seq<char>>, tags: Seq<Seq<char>>) -> bool {
    exists|j: int| 0 <= j < tags.len() && #[trigger] listed(v, tags[j])
}

/// A post is suppressed when its author is blacklisted or one of its tags is.
pub open spec fn blocked(p: PostView, authors: Seq<Seq<char>>, tags: Seq<Seq<char>>) -> bool {
    listed(authors, p.author) || match p.tags {
        Some(t) => any_listed(tags, t),
        None => false,
    }
}

impl BlackList {
    pub open spec fn blocks(&self, p: PostView) -> bool {
        blocked(p, string_views(self.authors@), string_views(self.tags@))
    }
}

fn contains_string(v: &Vec<String>, x: &String) -> (r: bool)
    ensures
        r == listed(string_views(v@), x@),
{
    let mut i: usize = 0;
    while i < v.len()
        invariant
            i <= v@.len(),
            forall|k: int| 0 <= k < i ==> v@[k]@ != x@,
        decreases v@.len() - i,
    {
        if v[i] == *x {
            assert(string_views(v@)[i as int] == x@);
            return true;
        }
        i = i + 1;
    }
    assert forall|k: int| 0 <= k < v@.len() implies string_views(v@)[k] != x@ by {
        assert(string_views(v@)[k] == v@[k]@);
    }
    false
}

/// Whether the blacklist suppresses `p`.
pub fn is_in_blacklist(p: &Post, blacklist: &BlackList) -> (r: bool)
    ensures
        r == blacklist.blocks(p@),
{
    let author_in_blacklist = contains_string(&blacklist.authors, &p.author);
    let mut tag_in_blacklist = false;
    match &p.tags {
        Some(tags) => {
            let ghost bl = string_views(blacklist.tags@);
            let ghost tv = string_views(tags@);
            let mut j: usize = 0;
            while j < tags.len() && !tag_in_blacklist
                invariant
                    j <= tags@.len(),
                    tv == string_views(tags@),
                    bl == string_views(blacklist.tags@),
                    tag_in_blacklist ==> any_listed(bl, tv),
                    !tag_in_blacklist ==> forall|k: int| 0 <= k < j ==> !listed(bl, #[trigger] tv[k]),
                decreases tags@.len() - j,
            {
                assert(tv[j as int] == tags@[j as int]@);
                if contains_string(&blacklist.tags, &tags[j]) {
                    tag_in_blacklist = true;
                }
                j = j + 1;
            }
        },
        None => {},
    }
    author_in_blacklist || tag_in_blacklist
}

/// Why one adapter contributed nothing to a cycle.
#[derive(Clone, Copy, Debug, PartialEq, Eq, Structural)]
pub enum FetchError {
    /// The upstream could not be reached, after every retry.
    Network,
    /// The upstream answered with a payload of another shape.
    Parse,
}

/// The posts of the adapters that succeeded, in the order given.
pub open spec fn gathered(rs: Seq<Result<Vec<Post>, FetchError>>) -> Seq<PostView>
    decreases rs.len(),
{
    if rs.len() == 0 {
        Seq::empty()
    } else {
        gathered(rs.drop_last()) + match rs.last() {
            Ok(v) => post_views(v@),
            Err(_) => Seq::empty(),
        }
    }
}

/// The posts of `ps` that the blacklist does not suppress, in order.
pub open spec fn unblocked(ps: Seq<PostView>, bl: BlackList) -> Seq<PostView>
    decreases ps.len(),
{
    if ps.len() == 0 {
        Seq::empty()
    } else {
        unblocked(ps.drop_last(), bl) + if bl.blocks(ps.last()) {
            Seq::empty()
        } else {
            seq![ps.last()]
        }
    }
}

/// Merges the adapters' results: the posts of those that succeeded, in
/// order, without those the blacklist suppresses. A failed adapter
/// contributes nothing and does not stop the others.
pub fn aggregate(results: Vec<Result<Vec<Post>, FetchError>>, blacklist: &BlackList) -> (r: Vec<
    Post,
>)
    ensures
        post_views(r@) == unblocked(gathered(results@), *blacklist),
{
    let posts = merge_results(results);
    filter_unblocked(posts, blacklist)
}

/// The posts that the blacklist does not suppress, in order.
pub fn filter_unblocked(posts: Vec<Post>, blacklist: &BlackList) -> (r: Vec<Post>)
    ensures
        post_views(r@) == unblocked(post_views(posts@), *blacklist),
{
    let ghost all = posts@;
    let mut rest = posts;
    let mut out: Vec<Post> = Vec::new();
    let mut i: usize = 0;
    let total = rest.len();
    assert(post_views(all.subrange(0, 0)) =~= Seq::<PostView>::empty());
    assert(post_views(out@) =~= Seq::<PostView>::empty());
    while rest.len() > 0
        invariant
            i + rest@.len() == all.len(),
            all.len() == total,
            rest@ == all.subrange(i as int, all.len() as int),
            post_views(out@) == unblocked(post_views(all.subrange(0, i as int)), *blacklist),
        decreases rest@.len(),
    {
        let p = rest.remove(0);
        assert(p == all[i as int]);
        assert(post_views(all.subrange(0, i + 1)).drop_last() =~= post_views(
            all.subrange(0, i as int),
        ));
        assert(post_views(all.subrange(0, i + 1)).last() == p@);
        let ghost before = out@;
        if !is_in_blacklist(&p, blacklist) {
            out.push(p);
            assert(post_views(out@) =~= post_views(before) + seq![p@]);
        } else {
            assert(post_views(out@) =~= post_views(before) + Seq::<PostView>::empty());
        }
        assert(rest@ =~= all.subrange(i + 1, all.len() as int));
        i = i + 1;
    }
    assert(all.subrange(0, i as int) =~= all);
    out
}

/// The rows after inserting `p` with ignore-on-conflict by `post_link`:
/// the first row written under a link stays.
pub open spec fn upserted(rows: Seq<PostView>, p: PostView) -> Seq<PostView> {
    if exists|i: int| 0 <= i < rows.len() && rows[i].post_link == p.post_link {
        rows
    } else {
        rows.push(p)
    }
}

/// No two rows share a `post_link`.
pub open spec fn unique_links(rows: Seq<PostView>) -> bool {
    forall|i: int, j: int|
        0 <= i < rows.len() && 0 <= j < rows.len() && i != j ==> rows[i].post_link
            != rows[j].post_link
}

/// In-memory rows keyed by `post_link`, written with ignore-on-conflict.
pub struct PostTable {
    rows: Vec<Post>,
}

impl View for PostTable {
    type V = Seq<PostView>;

    closed spec fn view(&self) -> Seq<PostView> {
        post_views(self.rows@)
    }
}

impl PostTable {
    pub closed spec fn wf(&self) -> bool {
        unique_links(self@)
    }

    pub fn new() -> (r: PostTable)
        ensures
            r.wf(),
            r@ == Seq::<PostView>::empty(),
    {
        let r = PostTable { rows: Vec::new() };
        assert(r@ =~= Seq::<PostView>::empty());
        r
    }

    pub fn len(&self) -> (r: usize)
        ensures
            r == self@.len(),
    {
        self.rows.len()
    }

    /// Whether a row is stored under `link`.
    pub fn has_link(&self, link: &String) -> (r: bool)
        ensures
            r == exists|i: int| 0 <= i < self@.len() && self@[i].post_link == link@,
    {
        let mut i: usize = 0;
        while i < self.rows.len()
            invariant
                i <= self.rows@.len(),
                forall|k: int| 0 <= k < i ==> self@[k].post_link != link@,
            decreases self.rows@.len() - i,
        {
            if self.rows[i].post_link == *link {
                assert(self@[i as int].post_link == link@);
                return true;
            }
            i = i + 1;
        }
        false
    }

    /// Stores `post` unless a row with its `post_link` exists; returns
    /// whether it was stored.
    pub fn upsert(&mut self, post: Post) -> (inserted: bool)
        requires
            old(self).wf(),
        ensures
            final(self).wf(),
            final(self)@ == upserted(old(self)@, post@),
            inserted == (final(self)@.len() == old(self)@.len() + 1),
    {
        if self.has_link(&post.post_link) {
            false
        } else {
            let ghost before = self@;
            self.rows.push(post);
            assert(self@ =~= before.push(post@));
            true
        }
    }

    /// Stores each post in order with ignore-on-conflict; returns how many
    /// rows were added.
    pub fn upsert_posts(&mut self, posts: Vec<Post>) -> (added: usize)
        requires
            old(self).wf(),
        ensures
            final(self).wf(),
            final(self)@ == upserted_all(old(self)@, post_views(posts@)),
            added == final(self)@.len() - old(self)@.len(),
    {
        let ghost start = self@;
        let ghost all = posts@;
        let mut rest = posts;
        let mut added: usize = 0;
        let mut i: usize = 0;
        let total = rest.len();
        assert(post_views(all.subrange(0, 0)) =~= Seq::<PostView>::empty());
        while rest.len() > 0
            invariant
                self.wf(),
                i + rest@.len() == all.len(),
                all.len() == total,
                added <= i,
                rest@ == all.subrange(i as int, all.len() as int),
                self@ == upserted_all(start, post_views(all.subrange(0, i as int))),
                added == self@.len() - start.len(),
                self@.len() >= start.len(),
            decreases rest@.len(),
        {
            let p = rest.remove(0);
            assert(p == all[i as int]);
            assert(post_views(all.subrange(0, i + 1)).drop_last() =~= post_views(
                all.subrange(0, i as int),
            ));
            assert(post_views(all.subrange(0, i + 1)).last() == p@);
            let ghost before = self@;
            if self.upsert(p) {
                added = added + 1;
            }
            assert(rest@ =~= all.subrange(i + 1, all.len() as int));
            i = i + 1;
        }
        assert(all.subrange(0, i as int) =~= all);
        added
    }

    pub fn rows(&self) -> (r: &Vec<Post>)
        ensures
            post_views(r@) == self@,
    {
        &self.rows
    }
}

/// The rows after inserting each of `ps` in order with ignore-on-conflict.
pub open spec fn upserted_all(rows: Seq<PostView>, ps: Seq<PostView>) -> Seq<PostView>
    decreases ps.len(),
{
    if ps.len() == 0 {
        rows
    } else {
        upserted(upserted_all(rows, ps.drop_last()), ps.last())
    }
}

/// A converted entry as a sequence of zero or one posts.
pub open spec fn opt_seq(o: Option<PostView>) -> Seq<PostView> {
    match o {
        Some(p) => seq![p],
        None => Seq::empty(),
    }
}

pub open spec fn opt_post_view(o: Option<Post>) -> Option<PostView> {
    match o {
        Some(p) => Some(p@),
        None => None,
    }
}

/// The posts that `f` makes of each entry of `s`, concatenated in order.
pub open spec fn concat_map<A>(s: Seq<A>, f: spec_fn(A) -> Seq<PostView>) -> Seq<PostView>
    decreases s.len(),
{
    if s.len() == 0 {
        Seq::empty()
    } else {
        concat_map(s.drop_last(), f) + f(s.last())
    }
}

pub proof fn lemma_concat_map_step<A>(s: Seq<A>, f: spec_fn(A) -> Seq<PostView>, i: int)
    requires
        0 <= i < s.len(),
    ensures
        concat_map(s.subrange(0, i + 1), f) == concat_map(s.subrange(0, i), f) + f(s[i]),
{
    assert(s.subrange(0, i + 1).drop_last() =~= s.subrange(0, i));
}

pub proof fn lemma_concat_map_append<A>(a: Seq<A>, b: Seq<A>, f: spec_fn(A) -> Seq<PostView>)
    ensures
        concat_map(a + b, f) == concat_map(a, f) + concat_map(b, f),
    decreases b.len(),
{
    if b.len() == 0 {
        assert(a + b =~= a);
        assert(concat_map(a, f) + concat_map(b, f) =~= concat_map(a, f));
    } else {
        lemma_concat_map_append(a, b.drop_last(), f);
        assert((a + b).drop_last() =~= a + b.drop_last());
        assert(concat_map(a, f) + concat_map(b.drop_last(), f) + f(b.last()) =~= concat_map(a, f)
            + (concat_map(b.drop_last(), f) + f(b.last())));
    }
}

/// An entry of which nothing can be made is dropped, and the entries around
/// it give what they give alone.
pub proof fn lemma_malformed_entry_dropped<A>(
    before: Seq<A>,
    bad: A,
    after: Seq<A>,
    f: spec_fn(A) -> Seq<PostView>,
)
    requires
        f(bad).len() == 0,
    ensures
        concat_map(before.push(bad) + after, f) == concat_map(before, f) + concat_map(after, f),
{
    lemma_concat_map_append(before.push(bad), after, f);
    assert(before.push(bad).drop_last() =~= before);
    assert(concat_map(before, f) + f(bad) =~= concat_map(before, f));
}

/// A copy of `v`, string by string.
pub fn clone_strings(v: &Vec<String>) -> (r: Vec<String>)
    ensures
        string_views(r@) == string_views(v@),
{
    let mut out: Vec<String> = Vec::new();
    let mut i: usize = 0;
    while i < v.len()
        invariant
            i <= v@.len(),
            out@.len() == i,
            forall|k: int| 0 <= k < i ==> out@[k]@ == v@[k]@,
        decreases v@.len() - i,
    {
        out.push(v[i].clone());
        i = i + 1;
    }
    assert(string_views(out@) =~= string_views(v@));
    out
}

/// The posts of the results that succeeded, in order; a failed result
/// contributes nothing.
pub fn merge_results(results: Vec<Result<Vec<Post>, FetchError>>) -> (r: Vec<Post>)
    ensures
        post_views(r@) == gathered(results@),
{
    let ghost all = results@;
    let mut rest = results;
    let mut posts: Vec<Post> = Vec::new();
    let mut i: usize = 0;
    let total = rest.len();
    assert(all.subrange(0, 0) =~= Seq::<Result<Vec<Post>, FetchError>>::empty());
    assert(post_views(posts@) =~= Seq::<PostView>::empty());
    while rest.len() > 0
        invariant
            i + rest@.len() == all.len(),
            all.len() == total,
            rest@ == all.subrange(i as int, all.len() as int),
            post_views(posts@) == gathered(all.subrange(0, i as int)),
        decreases rest@.len(),
    {
        let item = rest.remove(0);
        assert(all.subrange(0, i + 1).drop_last() =~= all.subrange(0, i as int));
        assert(item == all[i as int]);
        let ghost before = posts@;
        match item {
            Ok(mut v) => {
                let ghost vv = v@;
                posts.append(&mut v);
                assert(post_views(posts@) =~= post_views(before) + post_views(vv));
            },
            Err(_) => {
                assert(post_views(posts@) =~= post_views(before) + Seq::<PostView>::empty());
            },
        }
        assert(rest@ =~= all.subrange(i + 1, all.len() as int));
        i = i + 1;
    }
    assert(all.subrange(0, i as int) =~= all);
    posts
}

/// A post whose author is blacklisted is blocked, whatever its tags.
pub proof fn lemma_blacklisted_author_blocks(p: PostView, bl: BlackList)
    requires
        listed(string_views(bl.authors@), p.author),
    ensures
        bl.blocks(p),
{
}

/// A post with a blacklisted tag is blocked, whatever its author.
pub proof fn lemma_blacklisted_tag_blocks(p: PostView, bl: BlackList, tag: Seq<char>)
    requires
        p.tags matches Some(ts) && listed(ts, tag),
        listed(string_views(bl.tags@), tag),
    ensures
        bl.blocks(p),
{
    let ts = p.tags->Some_0;
    let j = choose|j: int| 0 <= j < ts.len() && ts[j] == tag;
    assert(listed(string_views(bl.tags@), ts[j]));
}

/// Inserting a second post under a `post_link` that is already stored
/// changes nothing, so the link keeps exactly one row.
pub proof fn lemma_upsert_idempotent(rows: Seq<PostView>, p: PostView, q: PostView)
    requires
        unique_links(rows),
        p.post_link == q.post_link,
    ensures
        upserted(upserted(rows, p), q) == upserted(rows, p),
        unique_links(upserted(upserted(rows, p), q)),
        exists|i: int|
            0 <= i < upserted(upserted(rows, p), q).len() && (#[trigger] upserted(
                upserted(rows, p),
                q,
            )[i]).post_link == p.post_link && forall|j: int|
                0 <= j < upserted(upserted(rows, p), q).len() && upserted(
                    upserted(rows, p),
                    q,
                )[j].post_link == p.post_link ==> j == i,
{
    let once = upserted(rows, p);
    if exists|i: int| 0 <= i < rows.len() && rows[i].post_link == p.post_link {
        let i = choose|i: int| 0 <= i < rows.len() && rows[i].post_link == p.post_link;
        assert(once == rows);
        assert(upserted(once, q) == once);
        assert(once[i].post_link == p.post_link);
    } else {
        assert(once == rows.push(p));
        let i = rows.len() as int;
        assert(once[i].post_link == q.post_link);
        assert(upserted(once, q) == once);
        assert forall|a: int, b: int|
            0 <= a < once.len() && 0 <= b < once.len() && a != b implies once[a].post_link
            != once[b].post_link by {
            if a < rows.len() && b < rows.len() {
                assert(once[a] == rows[a] && once[b] == rows[b]);
            } else if a < rows.len() {
                assert(once[a] == rows[a]);
            } else if b < rows.len() {
                assert(once[b] == rows[b]);
            }
        }
        assert(once[i].post_link == p.post_link);
    }
}

/// An adapter that failed, whatever the reason, changes nothing in what the
/// others contribute: the merge is the merge of the others alone.
pub proof fn lemma_failed_adapter_isolated(
    results: Seq<Result<Vec<Post>, FetchError>>,
    k: int,
    bl: BlackList,
)
    requires
        0 <= k < results.len(),
        results[k] is Err,
    ensures
        gathered(results) == gathered(results.remove(k)),
        unblocked(gathered(results), bl) == unblocked(gathered(results.remove(k)), bl),
    decreases results.len(),
{
    if k == results.len() - 1 {
        assert(results.remove(k) =~= results.drop_last());
        assert(gathered(results) =~= gathered(results.drop_last()));
    } else {
        lemma_failed_adapter_isolated(results.drop_last(), k, bl);
        assert(results.remove(k).drop_last() =~= results.drop_last().remove(k));
        assert(results.remove(k).last() == results.last());
    }
}

/// Every post shows at least one image.
pub open spec fn all_have_images(ps: Seq<PostView>) -> bool {
    forall|i: int| 0 <= i < ps.len() ==> #[trigger] ps[i].images_number >= 1
}

pub proof fn lemma_concat_map_images<A>(s: Seq<A>, f: spec_fn(A) -> Seq<PostView>)
    requires
        forall|a: A| #[trigger] all_have_images(f(a)),
    ensures
        all_have_images(concat_map(s, f)),
    decreases s.len(),
{
    if s.len() > 0 {
        lemma_concat_map_images(s.drop_last(), f);
        let front = concat_map(s.drop_last(), f);
        let back = f(s.last());
        assert(all_have_images(back));
        assert forall|i: int| 0 <= i < (front + back).len() implies #[trigger] (front
            + back)[i].images_number >= 1 by {
            if i < front.len() {
                assert((front + back)[i] == front[i]);
            } else {
                assert((front + back)[i] == back[i - front.len()]);
            }
        }
    }
}

} // verus!
