//! The home-timeline tweet adapter: a timeline of instructions whose entries
//! hold single tweets, conversations, cursors and promoted tweets.
use vstd::prelude::*;

use crate::post::{
    Post, PostSource, PostView, all_have_images, concat_map, lemma_concat_map_images, lemma_concat_map_step, opt_post_view, opt_seq,
    post_views,
};
use crate::text::{matches_at, occurs_at};
use crate::tweet::{post_from_tweet, tweet_post};

pub use crate::tweet::{Entities, Media};

verus! {

pub struct TwitterHomeResponse {
    pub data: Data,
}

pub struct Data {
    pub home: Home,
}

pub struct Home {
    pub home_timeline_urt: HomeTimelineUrt,
}

pub struct HomeTimelineUrt {
    pub instructions: Vec<Instruction>,
}

pub struct Instruction {
    pub entries: Vec<Entry>,
}

pub struct Entry {
    pub entry_id: String,
    pub content: Content,
}

/// What a timeline entry holds.
pub enum Content {
    SingleTweet(SingleTweet),
    Conversation { items: Vec<ConversationItem> },
    Cursor { value: String },
}

pub struct SingleTweet {
    pub item_content: ItemContent,
}

pub struct ConversationItem {
    pub item: SingleTweet,
}

pub struct ItemContent {
    pub tweet_results: TweetResults,
}

pub struct TweetResults {
    pub result: TweetResult,
}

/// A tweet, either as it is or inside a wrapper for limited visibility.
pub enum TweetResult {
    Limited(Limited),
    Normal(Tweet),
}

pub struct Limited {
    pub tweet: Tweet,
}

pub struct Tweet {
    pub core: Core,
    pub legacy: Legacy2,
}

pub struct Core {
    pub user_results: UserResults,
}

pub struct UserResults {
    pub result: Result2,
}

pub struct Result2 {
    pub legacy: Legacy,
}

/// The author of a tweet.
pub struct Legacy {
    pub name: String,
    pub profile_image_url_https: String,
    pub screen_name: String,
}

/// The body of a tweet.
pub struct Legacy2 {
    pub created_at: String,
    pub entities: Entities,
}

pub open spec fn unwrapped(r: TweetResult) -> Tweet {
    match r {
        TweetResult::Limited(l) => l.tweet,
        TweetResult::Normal(t) => t,
    }
}

/// The post made of one timeline tweet, if it has media and a valid date.
pub open spec fn single_tweet_post(t: SingleTweet) -> Option<PostView> {
    let tw = unwrapped(t.item_content.tweet_results.result);
    let user = tw.core.user_results.result.legacy;
    tweet_post(
        tw.legacy.created_at@,
        tw.legacy.entities,
        user.name@,
        user.screen_name@,
        user.profile_image_url_https@,
        PostSource::TwitterHome,
    )
}

pub open spec fn item_posts(i: ConversationItem) -> Seq<PostView> {
    opt_seq(single_tweet_post(i.item))
}

/// The posts of one entry: none for promoted entries and cursors, the
/// tweet's for a single tweet, each item's for a conversation.
pub open spec fn entry_posts(e: Entry) -> Seq<PostView> {
    if occurs_at(e.entry_id@, "promo"@, 0) {
        Seq::empty()
    } else {
        match e.content {
            Content::SingleTweet(t) => opt_seq(single_tweet_post(t)),
            Content::Conversation { items } => concat_map(items@, |i: ConversationItem| item_posts(i)),
            Content::Cursor { .. } => Seq::empty(),
        }
    }
}

pub open spec fn instruction_posts(i: Instruction) -> Seq<PostView> {
    concat_map(i.entries@, |e: Entry| entry_posts(e))
}

pub open spec fn home_posts(r: TwitterHomeResponse) -> Seq<PostView> {
    concat_map(r.data.home.home_timeline_urt.instructions@, |i: Instruction| instruction_posts(i))
}

/// The post made of one timeline tweet, if it has media and a valid date.
pub fn process_tweet(tweet: &SingleTweet) -> (r: Option<Post>)
    ensures
        opt_post_view(r) == single_tweet_post(*tweet),
{
    let tw = match &tweet.item_content.tweet_results.result {
        TweetResult::Normal(normal) => normal,
        TweetResult::Limited(limited) => &limited.tweet,
    };
    let user = &tw.core.user_results.result.legacy;
    post_from_tweet(
        &tw.legacy.created_at,
        &tw.legacy.entities,
        &user.name,
        &user.screen_name,
        &user.profile_image_url_https,
        PostSource::TwitterHome,
    )
}

fn items_to_posts(items: &Vec<ConversationItem>) -> (r: Vec<Post>)
    ensures
        post_views(r@) == concat_map(items@, |i: ConversationItem| item_posts(i)),
{
    let ghost f = |i: ConversationItem| item_posts(i);
    let mut out: Vec<Post> = Vec::new();
    let mut k: usize = 0;
    assert(post_views(out@) =~= Seq::<PostView>::empty());
    while k < items.len()
        invariant
            k <= items@.len(),
            f == (|i: ConversationItem| item_posts(i)),
            post_views(out@) == concat_map(items@.subrange(0, k as int), f),
        decreases items@.len() - k,
    {
        proof {
            lemma_concat_map_step(items@, f, k as int);
        }
        let ghost before = out@;
        assert(f(items@[k as int]) == item_posts(items@[k as int]));
        match process_tweet(&items[k].item) {
            Some(p) => {
                out.push(p);
                assert(post_views(out@) =~= post_views(before) + f(items@[k as int]));
            },
            None => {
                assert(post_views(out@) =~= post_views(before) + f(items@[k as int]));
            },
        }
        k = k + 1;
    }
    assert(items@.subrange(0, items@.len() as int) =~= items@);
    out
}

fn entry_to_posts(e: &Entry) -> (r: Vec<Post>)
    ensures
        post_views(r@) == entry_posts(*e),
{
    if matches_at(e.entry_id.as_str(), "promo", 0) {
        let r: Vec<Post> = Vec::new();
        assert(post_views(r@) =~= Seq::<PostView>::empty());
        return r;
    }
    match &e.content {
        Content::SingleTweet(tweet) => {
            let mut r: Vec<Post> = Vec::new();
            match process_tweet(tweet) {
                Some(p) => r.push(p),
                None => {},
            }
            assert(post_views(r@) =~= entry_posts(*e));
            r
        },
        Content::Conversation { items } => items_to_posts(items),
        Content::Cursor { .. } => {
            let r: Vec<Post> = Vec::new();
            assert(post_views(r@) =~= Seq::<PostView>::empty());
            r
        },
    }
}

fn instruction_to_posts(ins: &Instruction) -> (r: Vec<Post>)
    ensures
        post_views(r@) == instruction_posts(*ins),
{
    let ghost f = |e: Entry| entry_posts(e);
    let entries = &ins.entries;
    let mut out: Vec<Post> = Vec::new();
    let mut k: usize = 0;
    assert(post_views(out@) =~= Seq::<PostView>::empty());
    while k < entries.len()
        invariant
            k <= entries@.len(),
            f == (|e: Entry| entry_posts(e)),
            entries == &ins.entries,
            post_views(out@) == concat_map(entries@.subrange(0, k as int), f),
        decreases entries@.len() - k,
    {
        proof {
            lemma_concat_map_step(entries@, f, k as int);
        }
        let ghost before = out@;
        let mut more = entry_to_posts(&entries[k]);
        let ghost m = more@;
        assert(f(entries@[k as int]) == entry_posts(entries@[k as int]));
        out.append(&mut more);
        assert(post_views(out@) =~= post_views(before) + post_views(m));
        k = k + 1;
    }
    assert(entries@.subrange(0, entries@.len() as int) =~= entries@);
    out
}

impl TwitterHomeResponse {
    /// The posts of every entry of every instruction, in order; an entry
    /// that cannot be converted is skipped.
    pub fn to_posts(&self) -> (r: Vec<Post>)
        ensures
            post_views(r@) == home_posts(*self),
    {
        let ghost f = |i: Instruction| instruction_posts(i);
        let instructions = &self.data.home.home_timeline_urt.instructions;
        let mut out: Vec<Post> = Vec::new();
        let mut k: usize = 0;
        assert(post_views(out@) =~= Seq::<PostView>::empty());
        while k < instructions.len()
            invariant
                k <= instructions@.len(),
                f == (|i: Instruction| instruction_posts(i)),
                instructions == &self.data.home.home_timeline_urt.instructions,
                post_views(out@) == concat_map(instructions@.subrange(0, k as int), f),
            decreases instructions@.len() - k,
        {
            proof {
                lemma_concat_map_step(instructions@, f, k as int);
            }
            let ghost before = out@;
            let mut more = instruction_to_posts(&instructions[k]);
            let ghost m = more@;
            assert(f(instructions@[k as int]) == instruction_posts(instructions@[k as int]));
            out.append(&mut more);
            assert(post_views(out@) =~= post_views(before) + post_views(m));
            k = k + 1;
        }
        assert(instructions@.subrange(0, instructions@.len() as int) =~= instructions@);
        out
    }
}

/// Every post made from a home timeline shows at least one image.
pub proof fn lemma_home_posts_have_images(r: TwitterHomeResponse)
    ensures
        all_have_images(home_posts(r)),
{
    assert forall|e: Entry| #[trigger] all_have_images(entry_posts(e)) by {
        match e.content {
            Content::Conversation { items } => {
                lemma_concat_map_images(items@, |i: ConversationItem| item_posts(i));
            },
            _ => {},
        }
    }
    assert forall|i: Instruction| #[trigger] all_have_images(instruction_posts(i)) by {
        lemma_concat_map_images(i.entries@, |e: Entry| entry_posts(e));
    }
    lemma_concat_map_images(
        r.data.home.home_timeline_urt.instructions@,
        |i: Instruction| instruction_posts(i),
    );
}

} // verus!
