//! What the two tweet timelines share: media entities and the conversion of
//! one tweet into a post.
use vstd::prelude::*;
use vstd::string::*;

use crate::post::{Post, PostSource, PostView};
use crate::text::{replace_all, replace_str};
use crate::timestamp::{formatted_to_rfc3339, rfc3339_of_formatted};

verus! {

pub struct Media {
    pub expanded_url: String,
    pub media_url_https: String,
}

pub struct Entities {
    pub media: Option<Vec<Media>>,
}

/// The layout of a tweet's `created_at`: `Dow Mon DD HH:MM:SS +ZZZZ YYYY`.
pub open spec fn tweet_date_format() -> Seq<char> {
    "%a %b %d %H:%M:%S %z %Y"@
}

/// The post made of a tweet: it needs media, a first medium, and a
/// creation date in the tweet layout.
pub open spec fn tweet_post(
    created_at: Seq<char>,
    entities: Entities,
    name: Seq<char>,
    screen_name: Seq<char>,
    profile_image: Seq<char>,
    source: PostSource,
) -> Option<PostView> {
    match entities.media {
        None => None,
        Some(media) => {
            if media@.len() == 0 || media@.len() > i32::MAX {
                None
            } else {
                match rfc3339_of_formatted(created_at, tweet_date_format()) {
                    None => None,
                    Some(created) => Some(
                        PostView {
                            author: name + "@"@ + screen_name,
                            author_link: "https://twitter.com/"@ + screen_name,
                            author_profile_image: Some(profile_image),
                            created,
                            images_number: media@.len() as int,
                            post_link: replace_all(media@[0].expanded_url@, "/photo/1"@, ""@),
                            preview_link: media@[0].media_url_https@,
                            source,
                            tags: None,
                        },
                    ),
                }
            }
        },
    }
}

/// Makes a post of a tweet's parts.
pub fn post_from_tweet(
    created_at: &String,
    entities: &Entities,
    name: &String,
    screen_name: &String,
    profile_image: &String,
    source: PostSource,
) -> (r: Option<Post>)
    ensures
        r matches Some(p) ==> Some(p@) == tweet_post(
            created_at@,
            *entities,
            name@,
            screen_name@,
            profile_image@,
            source,
        ),
        r is None ==> tweet_post(
            created_at@,
            *entities,
            name@,
            screen_name@,
            profile_image@,
            source,
        ) is None,
{
    let media = match &entities.media {
        Some(m) => m,
        None => {
            return None;
        },
    };
    if media.len() == 0 || media.len() > 2147483647 {
        return None;
    }
    let created = match formatted_to_rfc3339(created_at.as_str(), "%a %b %d %H:%M:%S %z %Y") {
        Some(c) => c,
        None => {
            return None;
        },
    };
    let main_pic = &media[0];
    proof {
        reveal_strlit("/photo/1");
    }
    let post_link = replace_str(main_pic.expanded_url.as_str(), "/photo/1", "");
    let mut author_link = String::from_str("https://twitter.com/");
    author_link.append(screen_name.as_str());
    let mut author = name.clone();
    author.append("@");
    author.append(screen_name.as_str());
    Some(
        Post {
            author,
            author_link,
            author_profile_image: Some(profile_image.clone()),
            created,
            images_number: media.len() as i32,
            post_link,
            preview_link: main_pic.media_url_https.clone(),
            source,
            tags: None,
        },
    )
}

} // verus!
