//! The search-timeline tweet adapter: a timeline of instructions whose
//! entries are tweets or cursors.
use vstd::prelude::*;

use crate::post::{
    Post, PostSource, PostView, all_have_images, concat_map, lemma_concat_map_images, lemma_concat_map_step, opt_post_view, opt_seq,
    post_views,
};
use crate::tweet::{post_from_tweet, tweet_post};

pub use crate::tweet::{Entities, Media};

verus! {

pub struct TwitterHonkaiResponse {
    pub data: Data,
}

pub struct Data {
    pub search_by_raw_query: SearchByRawQuery,
}

pub struct SearchByRawQuery {
    pub search_timeline: SearchTimeline,
}

pub struct SearchTimeline {
    pub timeline: Timeline,
}

pub struct Timeline {
    pub instructions: Vec<Instruction>,
}

pub struct Instruction {
    pub entries: Vec<Entry>,
}

pub struct Entry {
    pub content: Content,
}

/// What a search entry holds: a tweet, or a marker for the next page.
pub enum Content {
    Tweet { item_content: ItemContent },
    Cursor,
}

pub struct ItemContent {
    pub tweet_results: TweetResults,
}

pub struct TweetResults {
    pub result: TweetResult,
}

/// A tweet, either as it is or inside a wrapper for limited visibility.
pub enum TweetResult {
    Limited(Limited),
    Normal(Tweet),
}

pub struct Limited {
    pub tweet: Tweet,
}

pub struct Tweet {
    pub core: Core,
    pub legacy: TweetDetails,
}

pub struct Core {
    pub user_results: UserResults,
}

pub struct UserResults {
    pub result: UserResult,
}

pub struct UserResult {
    pub legacy: UserDetails,
}

pub struct UserDetails {
    pub name: String,
    pub profile_image_url_https: String,
    pub screen_name: String,
}

pub struct TweetDetails {
    pub created_at: String,
    pub entities: Entities,
}

pub open spec fn unwrapped(r: TweetResult) -> Tweet {
    match r {
        TweetResult::Limited(l) => l.tweet,
        TweetResult::Normal(t) => t,
    }
}

pub open spec fn search_tweet_post(t: Tweet) -> Option<PostView> {
    let user = t.core.user_results.result.legacy;
    tweet_post(
        t.legacy.created_at@,
        t.legacy.entities,
        user.name@,
        user.screen_name@,
        user.profile_image_url_https@,
        PostSource::Twitter,
    )
}

/// The posts of one entry: the tweet's, or none for a cursor.
pub open spec fn entry_posts(e: Entry) -> Seq<PostView> {
    match e.content {
        Content::Tweet { item_content } => opt_seq(
            search_tweet_post(unwrapped(item_content.tweet_results.result)),
        ),
        Content::Cursor => Seq::empty(),
    }
}

pub open spec fn instruction_posts(i: Instruction) -> Seq<PostView> {
    concat_map(i.entries@, |e: Entry| entry_posts(e))
}

pub open spec fn search_posts(r: TwitterHonkaiResponse) -> Seq<PostView> {
    concat_map(
        r.data.search_by_raw_query.search_timeline.timeline.instructions@,
        |i: Instruction| instruction_posts(i),
    )
}

fn entry_to_post(e: &Entry) -> (r: Option<Post>)
    ensures
        opt_seq(opt_post_view(r)) == entry_posts(*e),
{
    match &e.content {
        Content::Tweet { item_content } => {
            let tw = match &item_content.tweet_results.result {
                TweetResult::Normal(normal) => normal,
                TweetResult::Limited(limited) => &limited.tweet,
            };
            let user = &tw.core.user_results.result.legacy;
            post_from_tweet(
                &tw.legacy.created_at,
                &tw.legacy.entities,
                &user.name,
                &user.screen_name,
                &user.profile_image_url_https,
                PostSource::Twitter,
            )
        },
        Content::Cursor => None,
    }
}

fn instruction_to_posts(ins: &Instruction) -> (r: Vec<Post>)
    ensures
        post_views(r@) == instruction_posts(*ins),
{
    let ghost f = |e: Entry| entry_posts(e);
    let entries = &ins.entries;
    let mut out: Vec<Post> = Vec::new();
    let mut k: usize = 0;
    assert(post_views(out@) =~= Seq::<PostView>::empty());
    while k < entries.len()
        invariant
            k <= entries@.len(),
            f == (|e: Entry| entry_posts(e)),
            entries == &ins.entries,
            post_views(out@) == concat_map(entries@.subrange(0, k as int), f),
        decreases entries@.len() - k,
    {
        proof {
            lemma_concat_map_step(entries@, f, k as int);
        }
        let ghost before = out@;
        assert(f(entries@[k as int]) == entry_posts(entries@[k as int]));
        match entry_to_post(&entries[k]) {
            Some(p) => {
                out.push(p);
                assert(post_views(out@) =~= post_views(before) + f(entries@[k as int]));
            },
            None => {
                assert(post_views(out@) =~= post_views(before) + f(entries@[k as int]));
            },
        }
        k = k + 1;
    }
    assert(entries@.subrange(0, entries@.len() as int) =~= entries@);
    out
}

impl TwitterHonkaiResponse {
    /// The posts of every tweet entry of every instruction, in order; an
    /// entry that cannot be converted is skipped.
    pub fn to_posts(&self) -> (r: Vec<Post>)
        ensures
            post_views(r@) == search_posts(*self),
    {
        let ghost f = |i: Instruction| instruction_posts(i);
        let instructions = &self.data.search_by_raw_query.search_timeline.timeline.instructions;
        let mut out: Vec<Post> = Vec::new();
        let mut k: usize = 0;
        assert(post_views(out@) =~= Seq::<PostView>::empty());
        while k < instructions.len()
            invariant
                k <= instructions@.len(),
                f == (|i: Instruction| instruction_posts(i)),
                instructions == &self.data.search_by_raw_query.search_timeline.timeline.instructions,
                post_views(out@) == concat_map(instructions@.subrange(0, k as int), f),
            decreases instructions@.len() - k,
        {
            proof {
                lemma_concat_map_step(instructions@, f, k as int);
            }
            let ghost before = out@;
            let mut more = instruction_to_posts(&instructions[k]);
            let ghost m = more@;
            assert(f(instructions@[k as int]) == instruction_posts(instructions@[k as int]));
            out.append(&mut more);
            assert(post_views(out@) =~= post_views(before) + post_views(m));
            k = k + 1;
        }
        assert(instructions@.subrange(0, instructions@.len() as int) =~= instructions@);
        out
    }
}

/// Every post made from a search timeline shows at least one image.
pub proof fn lemma_search_posts_have_images(r: TwitterHonkaiResponse)
    ensures
        all_have_images(search_posts(r)),
{
    assert forall|i: Instruction| #[trigger] all_have_images(instruction_posts(i)) by {
        lemma_concat_map_images(i.entries@, |e: Entry| entry_posts(e));
    }
    lemma_concat_map_images(
        r.data.search_by_raw_query.search_timeline.timeline.instructions@,
        |i: Instruction| instruction_posts(i),
    );
}

} // verus!
