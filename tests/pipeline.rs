use pic_scraper::fetch::{FetchEvent, FetchStep, RetryState};
use pic_scraper::post::{aggregate, filter_unblocked, is_in_blacklist, merge_results, PostTable};
use pic_scraper::{BlackList, FetchError, Post, PostSource};

fn post(author: &str, link: &str, tags: Option<Vec<&str>>) -> Post {
    Post {
        author: author.to_string(),
        author_link: format!("https://example.com/u/{}", author),
        author_profile_image: None,
        created: "2023-04-04T08:31:23+00:00".to_string(),
        images_number: 1,
        post_link: link.to_string(),
        preview_link: format!("{}.jpg", link),
        source: PostSource::Pixiv,
        tags: tags.map(|t| t.into_iter().map(|s| s.to_string()).collect()),
    }
}

fn blacklist(authors: &[&str], tags: &[&str]) -> BlackList {
    BlackList {
        authors: authors.iter().map(|s| s.to_string()).collect(),
        tags: tags.iter().map(|s| s.to_string()).collect(),
    }
}

#[test]
fn extract_test_check_blacklist() {
    let p = Post {
        author: "Icey Tashiko".to_string(),
        author_link: "https://www.pixiv.net/en/users/59611188".to_string(),
        author_profile_image: None,
        created: "123".to_string(),
        images_number: 1,
        post_link: "https://www.pixiv.net/en/artworks/106611397".to_string(),
        preview_link: "https://www.pixiv.sbs/en/artworks/106611397.jpg".to_string(),
        source: PostSource::Pixiv,
        tags: Some(vec!["Koikatsu".to_string()]),
    };
    let blacklist = BlackList {
        authors: vec!["123".to_string()],
        tags: vec!["Koikatsu".to_string()],
    };
    assert!(is_in_blacklist(&p, &blacklist));
}

#[test]
fn blacklisted_author_blocks_whatever_the_tags() {
    let bl = blacklist(&["spam"], &["nsfw"]);
    assert!(is_in_blacklist(&post("spam", "a", None), &bl));
    assert!(is_in_blacklist(&post("spam", "a", Some(vec!["art"])), &bl));
    assert!(!is_in_blacklist(&post("artist", "a", Some(vec!["art"])), &bl));
    assert!(!is_in_blacklist(&post("artist", "a", None), &bl));
}

#[test]
fn blacklisted_tag_blocks_whatever_the_author() {
    let bl = blacklist(&["spam"], &["nsfw"]);
    assert!(is_in_blacklist(&post("artist", "a", Some(vec!["art", "nsfw"])), &bl));
    assert!(is_in_blacklist(&post("someone", "a", Some(vec!["nsfw"])), &bl));
    assert!(!is_in_blacklist(&post("someone", "a", Some(vec![])), &bl));
}

#[test]
fn one_failed_adapter_leaves_the_others() {
    let results = vec![
        Ok(vec![post("a", "l1", None), post("spam", "l2", None)]),
        Ok(vec![post("b", "l3", None)]),
        Err(FetchError::Network),
        Ok(vec![post("c", "l4", Some(vec!["nsfw"]))]),
        Ok(vec![]),
        Ok(vec![post("d", "l5", None)]),
    ];
    let bl = blacklist(&["spam"], &["nsfw"]);
    let links: Vec<String> = aggregate(results, &bl).into_iter().map(|p| p.post_link).collect();
    assert_eq!(links, vec!["l1", "l3", "l5"]);
}

#[test]
fn merge_keeps_order_and_skips_failures() {
    let results = vec![
        Err(FetchError::Parse),
        Ok(vec![post("a", "l1", None)]),
        Ok(vec![post("b", "l2", None), post("c", "l3", None)]),
    ];
    let links: Vec<String> = merge_results(results).into_iter().map(|p| p.post_link).collect();
    assert_eq!(links, vec!["l1", "l2", "l3"]);
    assert!(merge_results(vec![]).is_empty());
    assert!(filter_unblocked(vec![], &blacklist(&[], &[])).is_empty());
}

#[test]
fn upsert_same_link_twice_keeps_one_row() {
    let mut table = PostTable::new();
    assert!(table.upsert(post("a", "https://x/1", None)));
    assert!(!table.upsert(post("b", "https://x/1", None)));
    assert_eq!(table.len(), 1);
    assert_eq!(table.rows()[0].author, "a");
    let added = table.upsert_posts(vec![
        post("c", "https://x/2", None),
        post("d", "https://x/2", None),
        post("e", "https://x/1", None),
    ]);
    assert_eq!(added, 1);
    assert_eq!(table.len(), 2);
    assert!(table.has_link(&"https://x/2".to_string()));
    assert_eq!(table.rows()[1].author, "c");
}

#[test]
fn only_network_errors_are_retried() {
    let mut state = RetryState::new();
    assert_eq!(state.next_step(FetchEvent::NetworkError, Some(1000)), FetchStep::Retry { delay_ms: 1000 });
    assert_eq!(state.next_step(FetchEvent::NetworkError, Some(2000)), FetchStep::Retry { delay_ms: 2000 });
    assert_eq!(state.next_step(FetchEvent::NetworkError, None), FetchStep::Fail(FetchError::Network));
    assert_eq!(state.attempts, 3);
    let mut fresh = RetryState::new();
    assert_eq!(
        fresh.next_step(FetchEvent::Answered { parsed: false }, Some(1000)),
        FetchStep::Fail(FetchError::Parse)
    );
    assert_eq!(fresh.next_step(FetchEvent::Answered { parsed: true }, None), FetchStep::Done);
}
