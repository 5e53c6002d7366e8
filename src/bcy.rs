//! The second social adapter: a circle feed of items with cover and picture count.
use vstd::prelude::*;
use vstd::string::*;

use crate::post::{
    Post, PostSource, PostView, all_have_images, concat_map, lemma_concat_map_images, lemma_concat_map_step, opt_post_view, opt_seq,
    post_views,
};
use crate::text::{decimal_of_int, decimal_string, find, find_str};
use crate::timestamp::{epoch_to_rfc3339, rfc3339_of_epoch};

verus! {

pub struct BcyResponse {
    pub data: Data,
}

pub struct Data {
    pub items: Vec<Item>,
}

pub struct Item {
    pub item_detail: ItemDetail,
}

pub struct ItemDetail {
    pub item_id: String,
    pub uid: i64,
    pub uname: String,
    pub avatar: String,
    pub ctime: i64,
    pub cover: Option<String>,
    pub pic_num: Option<i32>,
}

/// The post made of one item: it needs a cover, a picture count of at least
/// one and a representable creation time, which is kept up to its offset.
pub open spec fn item_post(d: ItemDetail) -> Option<PostView> {
    match (d.pic_num, d.cover) {
        (Some(pics), Some(cover)) => if pics < 1 {
            None
        } else {
            match rfc3339_of_epoch(d.ctime as int) {
                None => None,
                Some(stamp) => match find(stamp, "+"@) {
                    None => None,
                    Some(k) => Some(
                        PostView {
                            author: d.uname@,
                            author_link: "https://bcy.net/u/"@ + decimal_of_int(d.uid as int),
                            author_profile_image: Some(d.avatar@),
                            created: stamp.subrange(0, k),
                            images_number: pics as int,
                            post_link: "https://bcy.net/item/detail/"@ + d.item_id@,
                            preview_link: cover@,
                            source: PostSource::Bcy,
                            tags: None,
                        },
                    ),
                },
            }
        },
        _ => None,
    }
}

pub open spec fn bcy_posts(r: BcyResponse) -> Seq<PostView> {
    concat_map(r.data.items@, |i: Item| opt_seq(item_post(i.item_detail)))
}

impl ItemDetail {
    /// The post made of this item, if its fields are well formed.
    pub fn to_post(&self) -> (r: Option<Post>)
        ensures
            opt_post_view(r) == item_post(*self),
    {
        let pics = match self.pic_num {
            Some(n) => n,
            None => {
                return None;
            },
        };
        let cover = match &self.cover {
            Some(c) => c,
            None => {
                return None;
            },
        };
        if pics < 1 {
            return None;
        }
        let stamp = match epoch_to_rfc3339(self.ctime) {
            Some(s) => s,
            None => {
                return None;
            },
        };
        let k = match find_str(stamp.as_str(), "+") {
            Some(k) => k,
            None => {
                return None;
            },
        };
        let created = String::from_str(stamp.as_str().substring_char(0, k));
        let mut author_link = String::from_str("https://bcy.net/u/");
        let uid = decimal_string(self.uid);
        author_link.append(uid.as_str());
        let mut post_link = String::from_str("https://bcy.net/item/detail/");
        post_link.append(self.item_id.as_str());
        Some(
            Post {
                author: self.uname.clone(),
                author_link,
                author_profile_image: Some(self.avatar.clone()),
                created,
                images_number: pics,
                post_link,
                preview_link: cover.clone(),
                source: PostSource::Bcy,
                tags: None,
            },
        )
    }
}

impl BcyResponse {
    /// The posts of the feed, in order; an item without a cover or picture
    /// count is skipped.
    pub fn to_posts(&self) -> (r: Vec<Post>)
        ensures
            post_views(r@) == bcy_posts(*self),
    {
        let ghost f = |i: Item| opt_seq(item_post(i.item_detail));
        let items = &self.data.items;
        let mut out: Vec<Post> = Vec::new();
        let mut k: usize = 0;
        assert(post_views(out@) =~= Seq::<PostView>::empty());
        while k < items.len()
            invariant
                k <= items@.len(),
                f == (|i: Item| opt_seq(item_post(i.item_detail))),
                items == &self.data.items,
                post_views(out@) == concat_map(items@.subrange(0, k as int), f),
            decreases items@.len() - k,
        {
            proof {
                lemma_concat_map_step(items@, f, k as int);
            }
            let ghost before = out@;
            assert(f(items@[k as int]) == opt_seq(item_post(items@[k as int].item_detail)));
            match items[k].item_detail.to_post() {
                Some(p) => {
                    out.push(p);
                    assert(post_views(out@) =~= post_views(before) + f(items@[k as int]));
                },
                None => {
                    assert(post_views(out@) =~= post_views(before) + f(items@[k as int]));
                },
            }
            k = k + 1;
        }
        assert(items@.subrange(0, items@.len() as int) =~= items@);
        out
    }
}

/// Every post made from a feed answer shows at least one image.
pub proof fn lemma_bcy_posts_have_images(r: BcyResponse)
    ensures
        all_have_images(bcy_posts(r)),
{
    lemma_concat_map_images(r.data.items@, |i: Item| opt_seq(item_post(i.item_detail)));
}

} // verus!
