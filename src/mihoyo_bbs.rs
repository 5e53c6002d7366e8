//! The forum-post adapter: a list of posts with their author, cover and images.
use vstd::prelude::*;
use vstd::string::*;

use crate::post::{
    Post, PostSource, PostView, all_have_images, concat_map, lemma_concat_map_images, lemma_concat_map_step, opt_post_view, opt_seq,
    post_views,
};
use crate::timestamp::{epoch_to_rfc3339, rfc3339_of_epoch};

verus! {

pub struct MihoyoResponse {
    pub message: String,
    pub data: MihiyoData,
}

pub struct MihiyoData {
    pub list: Vec<MihoyoPost>,
}

pub struct MihoyoPost {
    pub post: Details,
    pub user: User,
}

pub struct Details {
    pub post_id: String,
    pub cover: Option<String>,
    pub created_at: i64,
    pub images: Vec<String>,
}

pub struct User {
    pub nickname: String,
    pub uid: String,
    pub avatar_url: String,
}

/// The image-service suffix that turns a cover into a resized JPEG preview.
pub open spec fn preview_suffix() -> Seq<char> {
    "?x-oss-process=image/resize,s_600/quality,q_80/auto-orient,0/interlace,1/format,jpg"@
}

/// The post made of one forum post: it needs a cover, at least one image
/// and a representable creation time.
pub open spec fn forum_post(p: MihoyoPost) -> Option<PostView> {
    match p.post.cover {
        None => None,
        Some(cover) => if p.post.images@.len() == 0 || p.post.images@.len() > i32::MAX {
            None
        } else {
            match rfc3339_of_epoch(p.post.created_at as int) {
                None => None,
                Some(created) => Some(
                    PostView {
                        author: p.user.nickname@,
                        author_link: "https://www.miyoushe.com/bh3/accountCenter/postList?id="@
                            + p.user.uid@,
                        author_profile_image: Some(p.user.avatar_url@),
                        created,
                        images_number: p.post.images@.len() as int,
                        post_link: "https://www.miyoushe.com/bh3/article/"@ + p.post.post_id@,
                        preview_link: cover@ + preview_suffix(),
                        source: PostSource::Mihoyo,
                        tags: None,
                    },
                ),
            }
        },
    }
}

pub open spec fn forum_posts(r: MihoyoResponse) -> Seq<PostView> {
    concat_map(r.data.list@, |p: MihoyoPost| opt_seq(forum_post(p)))
}

impl MihoyoPost {
    /// The post made of this forum post, if its fields are well formed.
    pub fn to_post(&self) -> (r: Option<Post>)
        ensures
            opt_post_view(r) == forum_post(*self),
    {
        let cover = match &self.post.cover {
            Some(c) => c,
            None => {
                return None;
            },
        };
        let n = self.post.images.len();
        if n == 0 || n > 2147483647 {
            return None;
        }
        let created = match epoch_to_rfc3339(self.post.created_at) {
            Some(c) => c,
            None => {
                return None;
            },
        };
        let mut post_link = String::from_str("https://www.miyoushe.com/bh3/article/");
        post_link.append(self.post.post_id.as_str());
        let mut preview_link = cover.clone();
        preview_link.append(
            "?x-oss-process=image/resize,s_600/quality,q_80/auto-orient,0/interlace,1/format,jpg",
        );
        let mut author_link = String::from_str(
            "https://www.miyoushe.com/bh3/accountCenter/postList?id=",
        );
        author_link.append(self.user.uid.as_str());
        Some(
            Post {
                author: self.user.nickname.clone(),
                author_link,
                author_profile_image: Some(self.user.avatar_url.clone()),
                created,
                images_number: n as i32,
                post_link,
                preview_link,
                source: PostSource::Mihoyo,
                tags: None,
            },
        )
    }
}

impl MihoyoResponse {
    /// The posts of the list, in order; one without a cover or images, or
    /// with an unrepresentable time, is skipped.
    pub fn to_posts(&self) -> (r: Vec<Post>)
        ensures
            post_views(r@) == forum_posts(*self),
    {
        let ghost f = |p: MihoyoPost| opt_seq(forum_post(p));
        let items = &self.data.list;
        let mut out: Vec<Post> = Vec::new();
        let mut k: usize = 0;
        assert(post_views(out@) =~= Seq::<PostView>::empty());
        while k < items.len()
            invariant
                k <= items@.len(),
                f == (|p: MihoyoPost| opt_seq(forum_post(p))),
                items == &self.data.list,
                post_views(out@) == concat_map(items@.subrange(0, k as int), f),
            decreases items@.len() - k,
        {
            proof {
                lemma_concat_map_step(items@, f, k as int);
            }
            let ghost before = out@;
            assert(f(items@[k as int]) == opt_seq(forum_post(items@[k as int])));
            match items[k].to_post() {
                Some(p) => {
                    out.push(p);
                    assert(post_views(out@) =~= post_views(before) + f(items@[k as int]));
                },
                None => {
                    assert(post_views(out@) =~= post_views(before) + f(items@[k as int]));
                },
            }
            k = k + 1;
        }
        assert(items@.subrange(0, items@.len() as int) =~= items@);
        out
    }
}

/// Every post made from a forum answer shows at least one image.
pub proof fn lemma_forum_posts_have_images(r: MihoyoResponse)
    ensures
        all_have_images(forum_posts(r)),
{
    lemma_concat_map_images(r.data.list@, |p: MihoyoPost| opt_seq(forum_post(p)));
}

} // verus!
