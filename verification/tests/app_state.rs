use pincer_cli::api::{Comment, Feed, StoryDetail};
use pincer_cli::app::{App, UiMode, View};
use pincer_cli::settings::flag_enabled;

fn comment(id: &str, text: &str, score: i32, user: &str) -> Comment {
    Comment {
        short_id: id.to_string(),
        comment_plain: text.to_string(),
        score,
        depth: 0,
        commenting_user: user.to_string(),
        is_deleted: false,
    }
}

#[test]
fn page_navigation_stays_one_based() {
    let mut app = App::new();
    app.prev_page();
    assert_eq!(app.page, 1);

    app.next_page();
    app.next_page();
    assert_eq!(app.page, 3);

    app.prev_page();
    assert_eq!(app.page, 2);
}

#[test]
fn comments_cache_hit_and_evicts_oldest() {
    let mut app = App::new();
    for i in 0..26 {
        let id = format!("s{i}");
        app.cache_story_detail(
            id,
            StoryDetail { title: "t".to_string(), url: "u".to_string(), comments: Vec::new() },
        );
    }

    assert!(app.cached_story_detail("s0").is_none());
    assert!(app.cached_story_detail("s1").is_none());
    assert!(app.cached_story_detail("s2").is_some());
    assert!(app.cached_story_detail("s25").is_some());
}

#[test]
fn wrapped_comments_are_recomputed_for_width_changes() {
    let mut app = App::new();
    app.comments = vec![comment("c1", "one two three four five six", 1, "u")];

    app.ensure_wrapped_comments(20, 6);
    let narrow_len = app.wrapped_comment_lines(0).expect("wrapped").len();
    app.ensure_wrapped_comments(50, 6);
    let wide_len = app.wrapped_comment_lines(0).expect("wrapped").len();

    assert!(narrow_len >= wide_len);
}

#[test]
fn search_filters_comments_and_moves_selection() {
    let mut app = App::new();
    app.comments = vec![comment("a", "hello world", 1, "x"), comment("b", "rust tui", 10, "y")];
    app.search_input = "rust".to_string();
    app.apply_search();

    assert_eq!(app.comment_selected, 1);
    assert_eq!(app.comment_display_data(), (vec![1], Some(0)));
}

#[test]
fn mode_label_tracks_list_comments_search_help() {
    let mut app = App::new();
    assert_eq!(app.mode(), UiMode::List);
    assert_eq!(app.mode_label(), "LIST");

    app.enter_comments_view();
    assert_eq!(app.mode(), UiMode::Comments);
    assert_eq!(app.mode_label(), "COMMENTS");

    app.start_search_mode();
    assert_eq!(app.mode(), UiMode::Search);
    assert_eq!(app.mode_label(), "SEARCH");

    app.toggle_help();
    assert_eq!(app.mode(), UiMode::Help);
    assert_eq!(app.mode_label(), "HELP");
    assert_eq!(app.mode_banner_text(), " MODE HELP | PAGED | CONTRAST DEFAULT ");
}

#[test]
fn explicit_flow_transitions_follow_the_documented_rules() {
    let mut app = App::new();
    assert!(!app.is_quitting());
    assert_eq!(app.current_view(), View::List);

    app.enter_comments_view();
    assert_eq!(app.current_view(), View::Comments);

    app.start_search_mode();
    assert!(app.is_search_mode());
    assert_eq!(app.mode(), UiMode::Search);

    app.toggle_help();
    assert!(app.is_help_visible());
    assert_eq!(app.mode(), UiMode::Help);

    app.toggle_help();
    assert!(app.is_search_mode());

    app.toggle_help();
    assert!(app.is_help_visible());

    app.clear_search_mode();
    assert_eq!(app.current_view(), View::Comments);
    assert!(!app.is_search_mode());

    app.return_to_list();
    assert_eq!(app.current_view(), View::List);

    app.request_quit();
    assert!(app.is_quitting());
}

#[test]
fn stories_loading_tracks_latest_request_only() {
    let mut app = App::new();
    let first = app.begin_stories_loading();
    let second = app.begin_stories_loading();

    assert!(app.stories_loading);
    assert!(!app.is_current_stories_request(first));
    assert!(app.is_current_stories_request(second));

    app.finish_stories_loading();
    assert!(!app.stories_loading);
    assert!(app.is_current_stories_request(second));
    let third = app.begin_stories_loading();
    assert!(!app.is_current_stories_request(second));
    assert!(app.is_current_stories_request(third));
}

#[test]
fn invalidating_feed_story_cache_removes_only_that_feed() {
    let mut app = App::new();
    app.cache_stories(Feed::Hottest, 1, &[]);
    app.cache_stories(Feed::HnTop, 1, &[]);

    app.invalidate_feed_story_cache(Feed::Hottest);

    assert!(app.cached_stories(Feed::Hottest, 1).is_none());
    assert!(app.cached_stories(Feed::HnTop, 1).is_some());
}

#[test]
fn partial_comments_keep_loading_until_finalized() {
    let mut app = App::new();
    app.begin_comments_loading("s1".to_string(), "story".to_string());
    app.load_comments_partial(StoryDetail {
        title: "story".to_string(),
        url: "https://example.com".to_string(),
        comments: vec![comment("c1", "hello", 0, "u1")],
    });

    assert!(app.comments_loading);
    assert_eq!(app.comments.len(), 1);
    assert_eq!(app.current_view(), View::Comments);
}

#[test]
fn begin_comments_loading_clears_previous_collapsed_state() {
    let mut app = App::new();
    app.comments = vec![comment("old", "old", 0, "u")];
    app.toggle_selected_comment_collapsed();

    app.begin_comments_loading("s2".to_string(), "story".to_string());

    assert!(!app.is_comment_collapsed(0));
}

#[test]
fn partial_comments_preserve_selection_when_comments_grow() {
    let mut app = App::new();
    app.begin_comments_loading("s1".to_string(), "story".to_string());
    app.load_comments_partial(StoryDetail {
        title: "story".to_string(),
        url: "https://example.com".to_string(),
        comments: vec![comment("c1", "one", 0, "u1"), comment("c2", "two", 0, "u2")],
    });
    app.comment_selected = 1;

    app.load_comments_partial(StoryDetail {
        title: "story".to_string(),
        url: "https://example.com".to_string(),
        comments: vec![
            comment("c1", "one", 0, "u1"),
            comment("c2", "two", 0, "u2"),
            comment("c3", "three", 0, "u3"),
        ],
    });

    assert_eq!(app.comment_selected, 1);
}

#[test]
fn high_contrast_env_flag_parsing_is_safe() {
    // A variable that is not set reads as off.
    assert!(!flag_enabled(None));
}
