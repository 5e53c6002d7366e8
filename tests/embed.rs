use pic_scraper::embed::{
    details_url, get_img_url, image_url, is_known_bot, needs_empty_referer, resolve_embed,
    IllustDetails, MangaPage, UrlWrapper,
};
use pic_scraper::{EmbedAction, EmbedError, PixivId};

const DISCORD: &str = "Mozilla/5.0 (compatible; Discordbot/2.0; +https://discordapp.com)";
const FIREFOX_92: &str =
    "Mozilla/5.0 (Macintosh; Intel Mac OS X 11.6; rv:92.0) Gecko/20100101 Firefox/92.0";
const FIREFOX_111: &str =
    "Mozilla/5.0 (Windows NT 10.0; Win64; x64; rv:109.0) Gecko/20100101 Firefox/111.0";

#[test]
fn path_with_p_marker_keeps_page() {
    let id = PixivId::from_path("/en/artworks/123_p2").unwrap();
    assert_eq!(id, PixivId { post_id: 123, pic_num: Some(2) });
}

#[test]
fn path_with_slash_converts_page_to_zero_based() {
    let id = PixivId::from_path("/en/artworks/123/3").unwrap();
    assert_eq!(id, PixivId { post_id: 123, pic_num: Some(2) });
}

#[test]
fn path_forms_of_image_requests() {
    assert_eq!(
        PixivId::from_path("/en/artworks/106859625.jpg").unwrap(),
        PixivId { post_id: 106859625, pic_num: None }
    );
    assert_eq!(
        PixivId::from_path("/en/artworks/106856624_p1.jpg").unwrap(),
        PixivId { post_id: 106856624, pic_num: Some(1) }
    );
    assert_eq!(
        PixivId::from_path("/en/artworks/106856624/2.jpg").unwrap(),
        PixivId { post_id: 106856624, pic_num: Some(1) }
    );
    assert_eq!(
        PixivId::from_path("/en/artworks/5/0").unwrap(),
        PixivId { post_id: 5, pic_num: None }
    );
    assert_eq!(
        PixivId::from_path("/en/artworks/5_pxyz").unwrap(),
        PixivId { post_id: 5, pic_num: None }
    );
}

#[test]
fn non_numeric_identifier_is_rejected() {
    assert_eq!(PixivId::from_path("/en/artworks/abc"), Err(EmbedError::BadIdentifier));
    assert_eq!(PixivId::from_path("/en/artworks/"), Err(EmbedError::BadIdentifier));
    assert_eq!(PixivId::from_path("/en/artworks/99999999999"), Err(EmbedError::BadIdentifier));
}

#[test]
fn full_name_with_and_without_page() {
    assert_eq!(PixivId { post_id: 123, pic_num: None }.full(), "123");
    assert_eq!(PixivId { post_id: 123, pic_num: Some(0) }.full(), "123_p0");
}

#[test]
fn bot_gets_preview_card() {
    let expected = r#"<meta name="twitter:card" content="summary_large_image"><meta name="twitter:image" content="https://pixiv.sbs/en/artworks/123.jpg">"#;
    for ua in [DISCORD, FIREFOX_92] {
        match resolve_embed("/en/artworks/123", ua).unwrap() {
            EmbedAction::Card(html) => assert_eq!(html, expected),
            _ => panic!("expected a preview card"),
        }
    }
    match resolve_embed("/en/artworks/123_p4", DISCORD).unwrap() {
        EmbedAction::Card(html) => assert!(html.contains("/en/artworks/123_p4.jpg\"")),
        _ => panic!("expected a preview card"),
    }
}

#[test]
fn browser_gets_redirect() {
    match resolve_embed("/en/artworks/106595952", FIREFOX_111).unwrap() {
        EmbedAction::Redirect(url) => assert_eq!(url, "https://www.pixiv.net/en/artworks/106595952"),
        _ => panic!("expected a redirect"),
    }
    assert!(!is_known_bot(FIREFOX_111));
    assert!(is_known_bot(DISCORD));
}

#[test]
fn image_path_asks_for_image() {
    match resolve_embed("/en/artworks/106856624/2.jpg", DISCORD).unwrap() {
        EmbedAction::Image(id) => assert_eq!(id, PixivId { post_id: 106856624, pic_num: Some(1) }),
        _ => panic!("expected an image"),
    }
    assert!(matches!(
        resolve_embed("/en/artworks/x.jpg", DISCORD),
        Err(EmbedError::BadIdentifier)
    ));
}

fn details() -> IllustDetails {
    IllustDetails {
        url: Some("https://i.pximg.net/c/600x1200_90/img-master/img/2023/04/04/17/31/23/106859625_p0_master1200.jpg".to_string()),
        manga_a: Some(vec![
            MangaPage { url: Some("https://i.pximg.net/c/600x1200_90/img-master/img/2023/04/04/14/54/34/106856624_p0_master1200.jpg".to_string()) },
            MangaPage { url: Some("https://i.pximg.net/c/600x1200_90/img-master/img/2023/04/04/14/54/34/106856624_p1_master1200.jpg".to_string()) },
            MangaPage { url: None },
        ]),
    }
}

#[test]
fn image_address_is_moved_to_own_host() {
    let d = details();
    assert_eq!(
        get_img_url(&d, 0, "http://127.0.0.1/pixiv_image").unwrap(),
        "http://127.0.0.1/pixiv_image/img/2023/04/04/17/31/23/106859625_p0_master1200.jpg"
    );
    assert_eq!(
        get_img_url(&d, 1, "http://127.0.0.1/pixiv_image").unwrap(),
        "http://127.0.0.1/pixiv_image/img/2023/04/04/14/54/34/106856624_p1_master1200.jpg"
    );
    assert_eq!(get_img_url(&d, 2, "h"), None);
    assert_eq!(get_img_url(&d, 3, "h"), None);
    let plain = IllustDetails { url: Some("https://cdn.example/other.jpg".to_string()), manga_a: None };
    assert_eq!(get_img_url(&plain, 0, "h").unwrap(), "https://cdn.example/other.jpg");
    assert_eq!(get_img_url(&plain, 1, "h"), None);
}

#[test]
fn missing_page_is_shape_mismatch() {
    let d = details();
    let id = PixivId { post_id: 1, pic_num: Some(7) };
    assert_eq!(image_url(&d, &id, "h"), Err(EmbedError::UpstreamShapeMismatch));
    let first = PixivId { post_id: 1, pic_num: None };
    assert!(image_url(&d, &first, "h").unwrap().starts_with("h/img/"));
}

#[test]
fn metadata_address_and_referer_rule() {
    assert_eq!(details_url("http://127.0.0.1/pixiv_details", 106859625), "http://127.0.0.1/pixiv_details106859625");
    assert!(needs_empty_referer("https://imglf5.lf127.net/img/a.png?imageView&thumbnail=1680x0"));
    assert!(!needs_empty_referer("https://i.pximg.net/img-master/a.jpg"));
    let w = UrlWrapper { url: "x?imageView".to_string() };
    assert!(w.needs_empty_referer());
}
