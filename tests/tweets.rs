use pic_scraper::twitter_home::{
    Content, ConversationItem, Core, Data, Entities, Entry, Home, HomeTimelineUrt, Instruction,
    ItemContent, Legacy, Legacy2, Limited, Media, Result2, SingleTweet, Tweet, TweetResult,
    TweetResults, TwitterHomeResponse, UserResults, process_tweet,
};
use pic_scraper::twitter_honkai;
use pic_scraper::PostSource;

fn media(n: usize) -> Option<Vec<Media>> {
    Some(
        (1..=n)
            .map(|i| Media {
                expanded_url: format!(
                    "https://twitter.com/magion02/status/1647973748564455425/photo/{}",
                    i
                ),
                media_url_https: format!("https://pbs.twimg.com/media/pic{}.jpg", i),
            })
            .collect(),
    )
}

fn home_tweet(created_at: &str, media: Option<Vec<Media>>) -> Tweet {
    Tweet {
        core: Core { user_results: user_results() },
        legacy: Legacy2 { created_at: created_at.to_string(), entities: Entities { media } },
    }
}

fn user_results() -> UserResults {
    UserResults {
        result: Result2 {
            legacy: Legacy {
                name: "Magion".to_string(),
                profile_image_url_https: "https://pbs.twimg.com/profile/m.jpg".to_string(),
                screen_name: "magion02".to_string(),
            },
        },
    }
}

fn single(result: TweetResult) -> SingleTweet {
    SingleTweet { item_content: ItemContent { tweet_results: TweetResults { result } } }
}

const DATE: &str = "Mon Apr 17 12:00:00 +0000 2023";

#[test]
fn process_tweet_builds_post() {
    let post = process_tweet(&single(TweetResult::Normal(home_tweet(DATE, media(3))))).unwrap();
    assert_eq!(post.post_link, "https://twitter.com/magion02/status/1647973748564455425");
    assert_eq!(post.preview_link, "https://pbs.twimg.com/media/pic1.jpg");
    assert_eq!(post.author, "Magion@magion02");
    assert_eq!(post.author_link, "https://twitter.com/magion02");
    assert_eq!(post.created, "2023-04-17T12:00:00+00:00");
    assert_eq!(post.images_number, 3);
    assert_eq!(post.source, PostSource::TwitterHome);
    assert_eq!(post.tags, None);
    assert_eq!(
        post.author_profile_image,
        Some("https://pbs.twimg.com/profile/m.jpg".to_string())
    );
}

#[test]
fn process_tweet_unwraps_limited_and_keeps_offset() {
    let limited = TweetResult::Limited(Limited {
        tweet: home_tweet("Tue Apr 18 01:02:03 +0900 2023", media(1)),
    });
    let post = process_tweet(&single(limited)).unwrap();
    assert_eq!(post.created, "2023-04-18T01:02:03+09:00");
}

#[test]
fn process_tweet_rejects_missing_media_and_bad_date() {
    assert!(process_tweet(&single(TweetResult::Normal(home_tweet(DATE, None)))).is_none());
    assert!(process_tweet(&single(TweetResult::Normal(home_tweet(DATE, media(0))))).is_none());
    assert!(process_tweet(&single(TweetResult::Normal(home_tweet("yesterday", media(1)))))
        .is_none());
}

fn entry(id: &str, content: Content) -> Entry {
    Entry { entry_id: id.to_string(), content }
}

#[test]
fn home_timeline_skips_promoted_cursors_and_malformed() {
    let entries = vec![
        entry("tweet-1", Content::SingleTweet(single(TweetResult::Normal(home_tweet(DATE, media(1)))))),
        entry("promoted-tweet-2", Content::SingleTweet(single(TweetResult::Normal(home_tweet(DATE, media(2)))))),
        entry("tweet-3", Content::SingleTweet(single(TweetResult::Normal(home_tweet(DATE, None))))),
        entry(
            "conversation-4",
            Content::Conversation {
                items: vec![
                    ConversationItem { item: single(TweetResult::Normal(home_tweet(DATE, media(4)))) },
                    ConversationItem { item: single(TweetResult::Normal(home_tweet("bad", media(1)))) },
                    ConversationItem { item: single(TweetResult::Normal(home_tweet(DATE, media(5)))) },
                ],
            },
        ),
        entry("cursor-top", Content::Cursor { value: "abc".to_string() }),
    ];
    let resp = TwitterHomeResponse {
        data: Data {
            home: Home { home_timeline_urt: HomeTimelineUrt { instructions: vec![Instruction { entries }] } },
        },
    };
    let counts: Vec<i32> = resp.to_posts().iter().map(|p| p.images_number).collect();
    assert_eq!(counts, vec![1, 4, 5]);
}

fn honkai_tweet(created_at: &str, media: Option<Vec<Media>>) -> twitter_honkai::Tweet {
    twitter_honkai::Tweet {
        core: twitter_honkai::Core {
            user_results: twitter_honkai::UserResults {
                result: twitter_honkai::UserResult {
                    legacy: twitter_honkai::UserDetails {
                        name: "Fu Hua".to_string(),
                        profile_image_url_https: "https://pbs.twimg.com/profile/f.jpg".to_string(),
                        screen_name: "fuhua".to_string(),
                    },
                },
            },
        },
        legacy: twitter_honkai::TweetDetails {
            created_at: created_at.to_string(),
            entities: Entities { media },
        },
    }
}

fn honkai_entry(result: twitter_honkai::TweetResult) -> twitter_honkai::Entry {
    twitter_honkai::Entry {
        content: twitter_honkai::Content::Tweet {
            item_content: twitter_honkai::ItemContent {
                tweet_results: twitter_honkai::TweetResults { result },
            },
        },
    }
}

#[test]
fn search_timeline_converts_tweets_and_skips_cursors() {
    let entries = vec![
        honkai_entry(twitter_honkai::TweetResult::Normal(honkai_tweet(DATE, media(2)))),
        twitter_honkai::Entry { content: twitter_honkai::Content::Cursor },
        honkai_entry(twitter_honkai::TweetResult::Normal(honkai_tweet(DATE, None))),
        honkai_entry(twitter_honkai::TweetResult::Limited(twitter_honkai::Limited {
            tweet: honkai_tweet(DATE, media(1)),
        })),
    ];
    let resp = twitter_honkai::TwitterHonkaiResponse {
        data: twitter_honkai::Data {
            search_by_raw_query: twitter_honkai::SearchByRawQuery {
                search_timeline: twitter_honkai::SearchTimeline {
                    timeline: twitter_honkai::Timeline {
                        instructions: vec![twitter_honkai::Instruction { entries }],
                    },
                },
            },
        },
    };
    let posts = resp.to_posts();
    assert_eq!(posts.len(), 2);
    assert_eq!(posts[0].author, "Fu Hua@fuhua");
    assert_eq!(posts[0].source, PostSource::Twitter);
    assert_eq!(posts[0].images_number, 2);
    assert_eq!(posts[1].images_number, 1);
}
