use pic_scraper::lofter::{extract_preview_img, Author, LofterPost, LofterResponse};
use pic_scraper::mihoyo_bbs::{Details, MihiyoData, MihoyoPost, MihoyoResponse, User};
use pic_scraper::pixiv::{AuthorDetails, PixivBody, PixivIllust, PixivResponse};
use pic_scraper::bcy::{BcyResponse, Data as BcyData, Item, ItemDetail};
use pic_scraper::PostSource;

#[test]
fn test_extract_preview_img() {
    let input_str = r#"<img src="https://imglf5.lf127.net/img/a90519c4da131d98/blZyZHNVUENMRnJFbXRzSlZZSHpCTWh3RnBNMnNFWHZ0VU5nRHpiTG04ST0.png?imageView&amp;thumbnail=1680x0&amp;quality=96&amp;stripmeta=0" referrerpolicy="no-referrer"><img src="https://imglf4.lf127.net/img/7012891e43c59bf3/blZyZHNVUENMRnJFbXRzSlZZSHpCSEJuV1FxZExGRS84QkRGK2U5dU41QT0.gif" referrerpolicy="no-referrer"><p id="p_u5fltfueecg">画了。不想抠细节，饶了我吧。</p> \n<p id="p_uleltfueech">很喜欢高短马尾，有种将军的感觉，四舍五入圆了戍边梦。</p> \n<p id="p_unjltgvzvlz">二编：把签名去了因为实在太丑，加了个过程gif（有点像什么羞耻play</p>"#;
    let output = extract_preview_img(input_str).unwrap();
    assert_eq!(output, "https://imglf5.lf127.net/img/a90519c4da131d98/blZyZHNVUENMRnJFbXRzSlZZSHpCTWh3RnBNMnNFWHZ0VU5nRHpiTG04ST0.png?imageView&amp;thumbnail=1680x0&amp;quality=96&amp;stripmeta=0")
}


fn lofter_post(url: &str, html: &str, authors: &[&str]) -> LofterPost {
    LofterPost {
        url: url.to_string(),
        content_html: html.to_string(),
        date_published: "2023-04-04T08:31:23Z".to_string(),
        authors: authors.iter().map(|a| Author { name: a.to_string() }).collect(),
        tags: vec!["符华".to_string()],
    }
}

#[test]
fn extract_preview_img_needs_src_and_closing_quote() {
    assert_eq!(extract_preview_img("<p>no image</p>"), None);
    assert_eq!(extract_preview_img("<img src=\"unterminated"), None);
    assert_eq!(extract_preview_img("<img src=\"\">"), Some(""));
    assert_eq!(extract_preview_img("a src=\"x.png\" src=\"y.png\""), Some("x.png"));
}

#[test]
fn lofter_skips_entries_without_image_or_author() {
    let resp = LofterResponse {
        items: vec![
            lofter_post(
                "https://someone.lofter.com/post/1d2c3b4a_2b",
                "<img src=\"https://img.example/a.png?imageView\">",
                &["someone"],
            ),
            lofter_post("https://other.lofter.com/post/x", "<p>text only</p>", &["other"]),
            lofter_post("https://third.lofter.com/post/y", "<img src=\"b.png\">", &[]),
            lofter_post("https://fourth.lofter.com/post/z", "<img src=\"c.png\">", &["fourth"]),
        ],
    };
    let posts = resp.to_posts();
    assert_eq!(posts.len(), 2);
    assert_eq!(posts[0].post_link, "https://someone.lofter.com/post/1d2c3b4a_2b");
    assert_eq!(posts[0].author_link, "https://someone.lofter.com");
    assert_eq!(posts[0].preview_link, "https://img.example/a.png?imageView");
    assert_eq!(posts[0].author, "someone");
    assert_eq!(posts[0].images_number, 1);
    assert_eq!(posts[0].source, PostSource::Lofter);
    assert_eq!(posts[0].tags, Some(vec!["符华".to_string()]));
    assert_eq!(posts[0].created, "2023-04-04T08:31:23Z");
    assert_eq!(posts[1].author, "fourth");
}

#[test]
fn lofter_feed_urls_per_tag() {
    let urls = LofterResponse::tags("https://rsshub.app/lofter/tag/");
    assert_eq!(urls.len(), 7);
    assert_eq!(
        urls[0],
        "https://rsshub.app/lofter/tag/崩坏3/date?format=json&filter_description=img"
    );
    assert_eq!(
        urls[6],
        "https://rsshub.app/lofter/tag/雷电芽衣/date?format=json&filter_description=img"
    );
}

fn illust(id: &str, page_count: &str, ts: i64) -> PixivIllust {
    PixivIllust {
        url: format!("https://i.pximg.net/c/{}.jpg", id),
        tags: vec!["崩坏3".to_string(), "符华".to_string()],
        upload_timestamp: ts,
        id: id.to_string(),
        user_id: "59611188".to_string(),
        page_count: page_count.to_string(),
        author_details: AuthorDetails { user_name: "Icey Tashiko".to_string() },
    }
}

#[test]
fn pixiv_converts_and_skips_bad_page_counts() {
    let resp = PixivResponse {
        body: PixivBody {
            illusts: vec![
                illust("106611397", "3", 1680597083),
                illust("1", "many", 1680597083),
                illust("2", "0", 1680597083),
                illust("106611398", "+1", 0),
            ],
        },
    };
    let posts = resp.to_posts();
    assert_eq!(posts.len(), 2);
    let p = &posts[0];
    assert_eq!(p.post_link, "https://www.pixiv.net/en/artworks/106611397");
    assert_eq!(p.author_link, "https://www.pixiv.net/en/users/59611188");
    assert_eq!(p.author, "Icey Tashiko");
    assert_eq!(p.images_number, 3);
    assert_eq!(p.created, "2023-04-04T08:31:23+00:00");
    assert_eq!(p.preview_link, "https://i.pximg.net/c/106611397.jpg");
    assert_eq!(p.author_profile_image, None);
    assert_eq!(p.source, PostSource::Pixiv);
    assert_eq!(p.tags, Some(vec!["崩坏3".to_string(), "符华".to_string()]));
    assert_eq!(posts[1].created, "1970-01-01T00:00:00+00:00");
    assert_eq!(posts[1].images_number, 1);
}

#[test]
fn pixiv_skips_unrepresentable_time() {
    let resp = PixivResponse { body: PixivBody { illusts: vec![illust("5", "1", i64::MAX)] } };
    assert!(resp.to_posts().is_empty());
}

fn forum_post(id: &str, cover: Option<&str>, images: usize) -> MihoyoPost {
    MihoyoPost {
        post: Details {
            post_id: id.to_string(),
            cover: cover.map(|c| c.to_string()),
            created_at: 1680597083,
            images: (0..images).map(|i| format!("img{}", i)).collect(),
        },
        user: User {
            nickname: "captain".to_string(),
            uid: "42".to_string(),
            avatar_url: "https://avatar.example/42.png".to_string(),
        },
    }
}

#[test]
fn mihoyo_converts_and_skips_posts_without_cover() {
    let resp = MihoyoResponse {
        message: "OK".to_string(),
        data: MihiyoData {
            list: vec![
                forum_post("777", Some("https://cover.example/777.png"), 4),
                forum_post("778", None, 2),
                forum_post("779", Some("https://cover.example/779.png"), 0),
            ],
        },
    };
    let posts = resp.to_posts();
    assert_eq!(posts.len(), 1);
    let p = &posts[0];
    assert_eq!(p.post_link, "https://www.miyoushe.com/bh3/article/777");
    assert_eq!(
        p.preview_link,
        "https://cover.example/777.png?x-oss-process=image/resize,s_600/quality,q_80/auto-orient,0/interlace,1/format,jpg"
    );
    assert_eq!(p.author_link, "https://www.miyoushe.com/bh3/accountCenter/postList?id=42");
    assert_eq!(p.author, "captain");
    assert_eq!(p.images_number, 4);
    assert_eq!(p.created, "2023-04-04T08:31:23+00:00");
    assert_eq!(p.author_profile_image, Some("https://avatar.example/42.png".to_string()));
    assert_eq!(p.source, PostSource::Mihoyo);
    assert_eq!(p.tags, None);
}

fn bcy_item(id: &str, uid: i64, cover: Option<&str>, pics: Option<i32>) -> Item {
    Item {
        item_detail: ItemDetail {
            item_id: id.to_string(),
            uid,
            uname: "cosplayer".to_string(),
            avatar: "https://avatar.example/b.png".to_string(),
            ctime: 1680597083,
            cover: cover.map(|c| c.to_string()),
            pic_num: pics,
        },
    }
}

#[test]
fn bcy_converts_and_skips_items_without_cover_or_count() {
    let resp = BcyResponse {
        data: BcyData {
            items: vec![
                bcy_item("7201", 3012, Some("https://cover.example/7201.jpg"), Some(9)),
                bcy_item("7202", 3012, None, Some(2)),
                bcy_item("7203", 3012, Some("https://cover.example/7203.jpg"), None),
                bcy_item("7204", -15, Some("https://cover.example/7204.jpg"), Some(1)),
            ],
        },
    };
    let posts = resp.to_posts();
    assert_eq!(posts.len(), 2);
    let p = &posts[0];
    assert_eq!(p.post_link, "https://bcy.net/item/detail/7201");
    assert_eq!(p.author_link, "https://bcy.net/u/3012");
    assert_eq!(p.created, "2023-04-04T08:31:23");
    assert_eq!(p.images_number, 9);
    assert_eq!(p.preview_link, "https://cover.example/7201.jpg");
    assert_eq!(p.source, PostSource::Bcy);
    assert_eq!(posts[1].author_link, "https://bcy.net/u/-15");
}
