use pincer_cli::api::{Comment, Feed, Story};
use pincer_cli::app::{App, NavMode};
use pincer_cli::keymap::KeymapPreset;

fn story(i: usize) -> Story {
    Story {
        short_id: format!("s{i}"),
        title: format!("Story {i}"),
        url: "https://example.com".to_string(),
        score: 1,
        comment_count: 0,
        tags: vec![],
        submitter_user: "u".to_string(),
        comments_url: format!("https://lobste.rs/s/s{i}"),
    }
}

fn list_ok(app: &App) {
    if app.stories.is_empty() {
        assert_eq!(app.selected, 0);
    } else {
        assert!(app.selected < app.stories.len());
    }
    assert!(app.page >= 1);
}

#[test]
fn switching_feed_and_back_restores_the_list() {
    let mut app = App::new();
    app.stories = (0..5).map(story).collect();
    app.selected = 3;
    app.page = 2;
    app.switch_feed(Feed::HnTop);
    assert!(app.stories.is_empty());
    assert_eq!(app.page, 1);
    app.switch_feed(Feed::Hottest);
    assert_eq!(app.stories.len(), 5);
    assert_eq!(app.selected, 3);
    assert_eq!(app.page, 2);
}

#[test]
fn collapsing_twice_restores_the_thread() {
    let mut app = App::new();
    app.comments = vec![Comment {
        short_id: "c".to_string(),
        comment_plain: "x".to_string(),
        score: 1,
        depth: 0,
        commenting_user: "u".to_string(),
        is_deleted: false,
    }];
    app.toggle_selected_comment_collapsed();
    assert!(app.is_comment_collapsed(0));
    app.toggle_selected_comment_collapsed();
    assert!(!app.is_comment_collapsed(0));
}

#[test]
fn switching_navigation_mode_twice_restores_the_mode() {
    let mut app = App::new();
    app.toggle_nav_mode();
    assert_eq!(app.nav_mode, NavMode::Infinite);
    app.toggle_nav_mode();
    assert_eq!(app.nav_mode, NavMode::Paged);
    assert_eq!(app.page, 1);
    assert!(app.needs_initial_load);
}

#[test]
fn preset_names_read_back() {
    for preset in [KeymapPreset::Vim, KeymapPreset::Plain] {
        assert_eq!(KeymapPreset::parse(preset.as_str()), Ok(preset));
    }
}

#[test]
fn list_steps_keep_the_selection_on_a_story() {
    let mut app = App::new();
    list_ok(&app);
    app.append_stories((0..7).map(story).collect());
    list_ok(&app);
    app.move_selection(20);
    assert_eq!(app.selected, 6);
    list_ok(&app);
    app.prev_page();
    list_ok(&app);
    app.jump_bottom();
    list_ok(&app);
    app.reset_stories();
    list_ok(&app);
    app.append_stories(vec![story(9)]);
    list_ok(&app);
    app.move_selection(-4);
    list_ok(&app);
    app.toggle_nav_mode();
    list_ok(&app);
    let _ = app.begin_stories_loading();
    app.finish_stories_loading();
    app.next_page();
    list_ok(&app);
}

#[test]
fn names_parse_through_from_str() {
    assert_eq!(" HN-Top ".parse::<Feed>(), Ok(Feed::HnTop));
    assert!("reddit".parse::<Feed>().is_err());
    assert_eq!("non-vim".parse::<KeymapPreset>(), Ok(KeymapPreset::Plain));
    assert_eq!(
        "emacs".parse::<KeymapPreset>(),
        Err("unknown keymap preset 'emacs' (expected 'vim' or 'plain')".to_string())
    );
}

fn comment_at(id: &str, text: &str, depth: usize) -> Comment {
    Comment {
        short_id: id.to_string(),
        comment_plain: text.to_string(),
        score: 1,
        depth,
        commenting_user: "u".to_string(),
        is_deleted: false,
    }
}

#[test]
fn kept_feed_state_survives_other_calls() {
    let mut app = App::new();
    app.stories = (0..4).map(story).collect();
    app.selected = 2;
    app.page = 3;
    app.switch_feed(Feed::Newest);
    let r = app.begin_stories_loading();
    app.append_stories(vec![story(9)]);
    app.finish_stories_loading();
    assert!(app.is_current_stories_request(r));
    app.cache_stories(Feed::Newest, 1, &[story(7)]);
    app.move_selection(1);
    app.invalidate_feed_story_cache(Feed::HnTop);
    app.switch_feed(Feed::HnNew);
    app.reset_stories();
    app.switch_feed(Feed::Hottest);
    assert_eq!(app.feed, Feed::Hottest);
    assert_eq!(app.stories.len(), 4);
    assert_eq!(app.stories[0].short_id, "s0");
    assert_eq!(app.selected, 2);
    assert_eq!(app.page, 3);
    assert!(!app.stories_loading);
}

#[test]
fn current_request_survives_other_calls() {
    let mut app = App::new();
    let r = app.begin_stories_loading();
    app.append_stories(vec![story(1)]);
    app.finish_stories_loading();
    app.cache_stories(Feed::Hottest, 1, &[story(1)]);
    app.reset_stories();
    app.switch_feed(Feed::Hottest);
    let _ = app.begin_feed_prefetch(Feed::HnTop);
    assert!(app.is_current_stories_request(r));
    assert!(!app.is_current_stories_request(r - 1));
    assert!(!app.is_current_stories_request(r + 1));
    let s = app.allocate_request_id();
    assert!(app.is_current_stories_request(s));
    assert!(!app.is_current_stories_request(r));
}

#[test]
fn prefetch_mark_cleared_by_three_calls_only() {
    let mut app = App::new();
    assert!(app.begin_feed_prefetch(Feed::HnTop));
    app.switch_feed(Feed::Newest);
    app.reset_stories();
    app.cache_stories(Feed::HnTop, 2, &[story(3)]);
    app.invalidate_feed_story_cache(Feed::HnNew);
    let _ = app.begin_stories_loading();
    assert!(!app.begin_feed_prefetch(Feed::HnTop));
    app.invalidate_feed_story_cache(Feed::HnTop);
    assert!(app.begin_feed_prefetch(Feed::HnTop));
    app.switch_feed(Feed::HnTop);
    assert!(app.begin_feed_prefetch(Feed::HnTop));
    app.reset_stories();
    assert!(app.begin_feed_prefetch(Feed::HnTop));
}

#[test]
fn wrapped_lines_are_indented_and_rewrapping_changes_nothing() {
    let mut app = App::new();
    app.comments = vec![
        comment_at("a", "first paragraph with several words\n\nsecond one", 0),
        comment_at("b", "a reply that is long enough to wrap over lines", 1),
        comment_at("c", "", 9),
    ];
    app.ensure_wrapped_comments(20, 6);
    let first: Vec<Vec<String>> = (0..3).map(|i| app.wrapped_comment_lines(i).unwrap().clone()).collect();
    assert!(app.wrapped_comment_lines(3).is_none());
    let indents = ["  ", "    ", "              "];
    for (i, lines) in first.iter().enumerate() {
        assert!(!lines.is_empty());
        for line in lines {
            assert!(line.starts_with(indents[i]), "{line:?}");
        }
    }
    app.ensure_wrapped_comments(20, 6);
    let second: Vec<Vec<String>> = (0..3).map(|i| app.wrapped_comment_lines(i).unwrap().clone()).collect();
    assert_eq!(first, second);
}

#[test]
fn a_full_round_of_next_match_returns_to_the_start() {
    let mut app = App::new();
    app.comments = vec![
        comment_at("a", "rust here", 0),
        comment_at("b", "nothing", 0),
        comment_at("c", "more rust", 1),
        comment_at("d", "rustacean", 0),
    ];
    app.enter_comments_view();
    app.start_search_mode();
    app.search_input = "rust".to_string();
    app.apply_search();
    assert_eq!(app.comment_selected, 0);
    let mut seen = vec![];
    for _ in 0..3 {
        app.next_matching_comment();
        seen.push(app.comment_selected);
    }
    assert_eq!(seen, vec![2, 3, 0]);
}
