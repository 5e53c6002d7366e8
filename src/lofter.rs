//! The tag-based blog adapter: one feed per tag, each a list of posts whose
//! HTML body holds the preview image.
use vstd::prelude::*;
use vstd::string::*;

use crate::post::{
    Post, PostSource, PostView, all_have_images, clone_strings, lemma_concat_map_images, concat_map, lemma_concat_map_step, opt_post_view,
    opt_seq, post_views, string_views,
};
use crate::text::{before_first, find, find_str, prefix_before};

verus! {

pub struct LofterResponse {
    pub items: Vec<LofterPost>,
}

pub struct LofterPost {
    pub url: String,
    pub content_html: String,
    pub date_published: String,
    pub authors: Vec<Author>,
    pub tags: Vec<String>,
}

pub struct Author {
    pub name: String,
}

/// The value of the first `src="…"` attribute of `html`.
pub open spec fn preview_img(html: Seq<char>) -> Option<Seq<char>> {
    match find(html, "src=\""@) {
        None => None,
        Some(i) => {
            let rest = html.subrange(i + 5, html.len() as int);
            match find(rest, "\""@) {
                None => None,
                Some(j) => Some(rest.subrange(0, j)),
            }
        },
    }
}

/// The value of the first `src="…"` attribute of `input_str`.
pub fn extract_preview_img(input_str: &str) -> (r: Option<&str>)
    ensures
        r is Some <==> preview_img(input_str@) is Some,
        r matches Some(s) ==> preview_img(input_str@) == Some(s@),
{
    proof {
        reveal_strlit("src=\"");
    }
    let n = input_str.unicode_len();
    let start = match find_str(input_str, "src=\"") {
        Some(i) => i + 5,
        None => {
            return None;
        },
    };
    let rest = input_str.substring_char(start, n);
    match find_str(rest, "\"") {
        Some(j) => Some(rest.substring_char(0, j)),
        None => None,
    }
}

/// The post made of one blog post: it needs an image in its body and an author.
pub open spec fn blog_post(p: LofterPost) -> Option<PostView> {
    match preview_img(p.content_html@) {
        None => None,
        Some(preview) => if p.authors@.len() == 0 {
            None
        } else {
            Some(
                PostView {
                    author: p.authors@[0].name@,
                    author_link: before_first(p.url@, "/post"@),
                    author_profile_image: None,
                    created: p.date_published@,
                    images_number: 1,
                    post_link: p.url@,
                    preview_link: preview,
                    source: PostSource::Lofter,
                    tags: Some(string_views(p.tags@)),
                },
            )
        },
    }
}

pub open spec fn blog_posts(r: LofterResponse) -> Seq<PostView> {
    concat_map(r.items@, |p: LofterPost| opt_seq(blog_post(p)))
}

/// The tags whose feeds are read, in order.
pub open spec fn feed_tags() -> Seq<Seq<char>> {
    seq!["崩坏3"@, "符华"@, "琪亚娜"@, "丽塔"@, "崩坏三"@, "崩坏3rd"@, "雷电芽衣"@]
}

/// What follows a tag in a feed's address.
pub open spec fn feed_query() -> Seq<char> {
    "/date?format=json&filter_description=img"@
}

fn feed_url(base_url: &str, tag: &str) -> (r: String)
    ensures
        r@ == base_url@ + tag@ + feed_query(),
{
    let mut url = String::from_str(base_url);
    url.append(tag);
    url.append("/date?format=json&filter_description=img");
    url
}

impl LofterPost {
    /// The post made of this blog post, if it has an image and an author.
    pub fn to_post(&self) -> (r: Option<Post>)
        ensures
            opt_post_view(r) == blog_post(*self),
    {
        let preview = match extract_preview_img(self.content_html.as_str()) {
            Some(p) => p,
            None => {
                return None;
            },
        };
        if self.authors.len() == 0 {
            return None;
        }
        let author_link = String::from_str(prefix_before(self.url.as_str(), "/post"));
        Some(
            Post {
                author: self.authors[0].name.clone(),
                author_link,
                author_profile_image: None,
                created: self.date_published.clone(),
                images_number: 1,
                post_link: self.url.clone(),
                preview_link: String::from_str(preview),
                source: PostSource::Lofter,
                tags: Some(clone_strings(&self.tags)),
            },
        )
    }
}

impl LofterResponse {
    /// The posts of the feed, in order; one without an image or an author
    /// is skipped.
    pub fn to_posts(&self) -> (r: Vec<Post>)
        ensures
            post_views(r@) == blog_posts(*self),
    {
        let ghost f = |p: LofterPost| opt_seq(blog_post(p));
        let items = &self.items;
        let mut out: Vec<Post> = Vec::new();
        let mut k: usize = 0;
        assert(post_views(out@) =~= Seq::<PostView>::empty());
        while k < items.len()
            invariant
                k <= items@.len(),
                f == (|p: LofterPost| opt_seq(blog_post(p))),
                items == &self.items,
                post_views(out@) == concat_map(items@.subrange(0, k as int), f),
            decreases items@.len() - k,
        {
            proof {
                lemma_concat_map_step(items@, f, k as int);
            }
            let ghost before = out@;
            assert(f(items@[k as int]) == opt_seq(blog_post(items@[k as int])));
            match items[k].to_post() {
                Some(p) => {
                    out.push(p);
                    assert(post_views(out@) =~= post_views(before) + f(items@[k as int]));
                },
                None => {
                    assert(post_views(out@) =~= post_views(before) + f(items@[k as int]));
                },
            }
            k = k + 1;
        }
        assert(items@.subrange(0, items@.len() as int) =~= items@);
        out
    }

    /// The address of each tag's feed under `base_url`, in tag order.
    pub fn tags(base_url: &str) -> (r: Vec<String>)
        ensures
            r@.len() == feed_tags().len(),
            forall|i: int| 0 <= i < r@.len() ==> r@[i]@ == base_url@ + feed_tags()[i] + feed_query(),
    {
        let mut urls: Vec<String> = Vec::new();
        urls.push(feed_url(base_url, "崩坏3"));
        urls.push(feed_url(base_url, "符华"));
        urls.push(feed_url(base_url, "琪亚娜"));
        urls.push(feed_url(base_url, "丽塔"));
        urls.push(feed_url(base_url, "崩坏三"));
        urls.push(feed_url(base_url, "崩坏3rd"));
        urls.push(feed_url(base_url, "雷电芽衣"));
        urls
    }
}

/// Every post made from a blog feed shows at least one image.
pub proof fn lemma_blog_posts_have_images(r: LofterResponse)
    ensures
        all_have_images(blog_posts(r)),
{
    lemma_concat_map_images(r.items@, |p: LofterPost| opt_seq(blog_post(p)));
}

} // verus!
