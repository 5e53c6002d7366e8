//! Helpers of the site's own routes: tweet identifiers for the like action
//! and the offset of a page of posts.
use vstd::prelude::*;
use vstd::string::*;

use crate::text::{last_chars, suffix_chars};
use crate::timestamp::{epoch_to_rfc3339, rfc3339_of_epoch};

verus! {

/// The identifier of the tweet that `post_link` points at: its last 19
/// characters, or all of it when it is shorter.
pub fn extract_post_id(post_link: &str) -> (r: &str)
    ensures
        r@ == last_chars(post_link@, 19),
{
    suffix_chars(post_link, 19)
}

/// The address of the v1.1 favourite action for the tweet of `post_link`.
pub fn make_like_url(post_link: String) -> (r: String)
    ensures
        r@ == "https://api.twitter.com/1.1/favorites/create.json?id="@ + last_chars(post_link@, 19),
{
    let mut url = String::from_str("https://api.twitter.com/1.1/favorites/create.json?id=");
    url.append(extract_post_id(post_link.as_str()));
    url
}

/// The number of posts on one page of a listing.
pub const PAGE_SIZE: i64 = 20;

/// A page of a listing, counted from 0.
pub struct Page {
    pub page: i64,
}

impl Page {
    /// How many posts precede this page; `None` when that does not fit an `i64`.
    pub fn offset(&self) -> (r: Option<i64>)
        ensures
            r is Some <==> i64::MIN <= self.page * 20 <= i64::MAX,
            r matches Some(o) ==> o == self.page * 20,
    {
        self.page.checked_mul(PAGE_SIZE)
    }
}

/// The RFC 3339 text of the last completed cycle, given in seconds since
/// the Unix epoch; `None` when it cannot be represented.
pub fn last_update_text(secs: i64) -> (r: Option<String>)
    ensures
        r is Some <==> rfc3339_of_epoch(secs as int) is Some,
        r matches Some(t) ==> rfc3339_of_epoch(secs as int) == Some(t@),
{
    epoch_to_rfc3339(secs)
}

} // verus!
