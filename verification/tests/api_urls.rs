use pincer_cli::api::{comment_permalink_url, stories_feed_url, Feed};

#[test]
fn comment_permalink_uses_story_and_comment_short_ids() {
    assert_eq!(
        comment_permalink_url(Feed::Hottest, "story123", "comment456"),
        "https://lobste.rs/s/story123#c_comment456"
    );
    assert_eq!(
        comment_permalink_url(Feed::HnTop, "story123", "comment456"),
        "https://news.ycombinator.com/item?id=comment456"
    );
}

#[test]
fn stories_feed_url_uses_base_json_for_first_page() {
    assert_eq!(stories_feed_url(Feed::Newest, 1), "https://lobste.rs/newest.json");
}

#[test]
fn stories_feed_url_uses_page_path_for_later_pages() {
    assert_eq!(stories_feed_url(Feed::Hottest, 2), "https://lobste.rs/page/2.json");
    assert_eq!(stories_feed_url(Feed::Newest, 3), "https://lobste.rs/newest/page/3.json");
}

#[test]
fn feed_cycle_includes_hacker_news_variants() {
    assert_eq!(Feed::Hottest.cycle(), Feed::Newest);
    assert_eq!(Feed::Newest.cycle(), Feed::HnTop);
    assert_eq!(Feed::HnTop.cycle(), Feed::HnNew);
    assert_eq!(Feed::HnNew.cycle(), Feed::Hottest);
}
