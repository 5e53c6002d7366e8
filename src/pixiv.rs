//! The art-search adapter: a list of illustrations with their author and tags.
use vstd::prelude::*;
use vstd::string::*;

use crate::post::{
    Post, PostSource, PostView, all_have_images, clone_strings, lemma_concat_map_images, concat_map, lemma_concat_map_step, opt_post_view,
    opt_seq, post_views, string_views,
};
use crate::text::{parse_bounded, parse_unsigned};
use crate::timestamp::{epoch_to_rfc3339, rfc3339_of_epoch};

verus! {

pub struct PixivResponse {
    pub body: PixivBody,
}

pub struct PixivBody {
    pub illusts: Vec<PixivIllust>,
}

pub struct PixivIllust {
    pub url: String,
    pub tags: Vec<String>,
    pub upload_timestamp: i64,
    pub id: String,
    pub user_id: String,
    pub page_count: String,
    pub author_details: AuthorDetails,
}

pub struct AuthorDetails {
    pub user_name: String,
}

/// The post made of one illustration: it needs a representable upload time
/// and a page count of at least one.
pub open spec fn illust_post(i: PixivIllust) -> Option<PostView> {
    match rfc3339_of_epoch(i.upload_timestamp as int) {
        None => None,
        Some(created) => match parse_unsigned(i.page_count@, i32::MAX as nat) {
            None => None,
            Some(pages) => if pages == 0 {
                None
            } else {
                Some(
                    PostView {
                        author: i.author_details.user_name@,
                        author_link: "https://www.pixiv.net/en/users/"@ + i.user_id@,
                        author_profile_image: None,
                        created,
                        images_number: pages as int,
                        post_link: "https://www.pixiv.net/en/artworks/"@ + i.id@,
                        preview_link: i.url@,
                        source: PostSource::Pixiv,
                        tags: Some(string_views(i.tags@)),
                    },
                )
            },
        },
    }
}

pub open spec fn pixiv_posts(r: PixivResponse) -> Seq<PostView> {
    concat_map(r.body.illusts@, |i: PixivIllust| opt_seq(illust_post(i)))
}

impl PixivIllust {
    /// The post made of this illustration, if its fields are well formed.
    pub fn to_post(&self) -> (r: Option<Post>)
        ensures
            opt_post_view(r) == illust_post(*self),
    {
        let created = match epoch_to_rfc3339(self.upload_timestamp) {
            Some(c) => c,
            None => {
                return None;
            },
        };
        let pages = match parse_bounded(self.page_count.as_str(), 2147483647) {
            Some(n) => n,
            None => {
                return None;
            },
        };
        if pages == 0 {
            return None;
        }
        let mut author_link = String::from_str("https://www.pixiv.net/en/users/");
        author_link.append(self.user_id.as_str());
        let mut post_link = String::from_str("https://www.pixiv.net/en/artworks/");
        post_link.append(self.id.as_str());
        Some(
            Post {
                author: self.author_details.user_name.clone(),
                author_link,
                author_profile_image: None,
                created,
                images_number: pages as i32,
                post_link,
                preview_link: self.url.clone(),
                source: PostSource::Pixiv,
                tags: Some(clone_strings(&self.tags)),
            },
        )
    }
}

impl PixivResponse {
    /// The posts of the illustrations, in order; a malformed one is skipped.
    pub fn to_posts(&self) -> (r: Vec<Post>)
        ensures
            post_views(r@) == pixiv_posts(*self),
    {
        let ghost f = |i: PixivIllust| opt_seq(illust_post(i));
        let items = &self.body.illusts;
        let mut out: Vec<Post> = Vec::new();
        let mut k: usize = 0;
        assert(post_views(out@) =~= Seq::<PostView>::empty());
        while k < items.len()
            invariant
                k <= items@.len(),
                f == (|i: PixivIllust| opt_seq(illust_post(i))),
                items == &self.body.illusts,
                post_views(out@) == concat_map(items@.subrange(0, k as int), f),
            decreases items@.len() - k,
        {
            proof {
                lemma_concat_map_step(items@, f, k as int);
            }
            let ghost before = out@;
            assert(f(items@[k as int]) == opt_seq(illust_post(items@[k as int])));
            match items[k].to_post() {
                Some(p) => {
                    out.push(p);
                    assert(post_views(out@) =~= post_views(before) + f(items@[k as int]));
                },
                None => {
                    assert(post_views(out@) =~= post_views(before) + f(items@[k as int]));
                },
            }
            k = k + 1;
        }
        assert(items@.subrange(0, items@.len() as int) =~= items@);
        out
    }
}

/// Every post made from a search answer shows at least one image.
pub proof fn lemma_pixiv_posts_have_images(r: PixivResponse)
    ensures
        all_have_images(pixiv_posts(r)),
{
    lemma_concat_map_images(r.body.illusts@, |i: PixivIllust| opt_seq(illust_post(i)));
}

} // verus!
