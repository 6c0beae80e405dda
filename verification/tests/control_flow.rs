use pincer_cli::api::{Comment, Feed, Story, StoryDetail};
use pincer_cli::app::{App, AppFlowState, NavMode, View};
use pincer_cli::cache::Freshness;
use pincer_cli::control::{
    after_key, apply_comments_result, apply_startup, apply_stories_result, finish_open, handle_key,
    keepalive_refresh, key_command, needs_first_page_fallback, open_comments, plan_refresh,
    restore_selection, run_queued_refresh, should_fallback_to_first_page, Command, CommentsLoadResult,
    CommentsStage, KeyOutcome, LinkTarget, PrefetchJob, StoriesFetch, StoriesLoadResult,
};
use pincer_cli::keymap::{KeyAction, KeyInput, Keymap, KeymapPreset};
use pincer_cli::settings::RuntimeSettings;
use pincer_cli::state::PersistedState;

fn story(id: &str, title: &str, url: &str) -> Story {
    Story {
        short_id: id.to_string(),
        title: title.to_string(),
        url: url.to_string(),
        score: 7,
        comment_count: 3,
        tags: vec!["rust".to_string()],
        submitter_user: "alice".to_string(),
        comments_url: format!("https://lobste.rs/s/{id}"),
    }
}

fn comment(id: &str, text: &str, score: i32) -> Comment {
    Comment {
        short_id: id.to_string(),
        comment_plain: text.to_string(),
        score,
        depth: 0,
        commenting_user: "bob".to_string(),
        is_deleted: false,
    }
}

fn vim() -> Keymap {
    Keymap::new(KeymapPreset::Vim)
}

fn settings() -> RuntimeSettings {
    RuntimeSettings {
        startup_feed: Feed::HnTop,
        startup_page: 4,
        restore_feed_page: false,
        high_contrast: true,
        prefetch_max_pages: 20,
        hn_progressive_initial_comments: 10,
        hn_progressive_step_comments: 20,
        connect_timeout_ms: 5000,
        request_timeout_ms: 12000,
        retry_attempts: 2,
        retry_backoff_ms: 200,
        hn_comments_fetch_concurrency: 12,
    }
}

#[test]
fn question_mark_opens_and_closes_help() {
    let mut app = App::new();
    assert!(matches!(handle_key(&mut app, KeyInput::Char('?'), vim(), 20), KeyOutcome::Nothing));
    assert!(app.is_help_visible());
    assert_eq!(key_command(&app, KeyInput::Char('j'), vim()), Command::Ignore);
    handle_key(&mut app, KeyInput::Esc, vim(), 20);
    assert!(!app.is_help_visible());
    assert_eq!(app.current_view(), View::List);
}

#[test]
fn q_in_help_overlay_quits() {
    let mut app = App::new();
    app.toggle_help();
    assert_eq!(key_command(&app, KeyInput::Char('q'), vim()), Command::QuitFromHelp);
    handle_key(&mut app, KeyInput::Char('q'), vim(), 20);
    assert!(app.is_quitting());
}

#[test]
fn typing_in_search_mode_builds_the_query() {
    let mut app = App::new();
    app.comments = vec![comment("a", "hello world", 1), comment("b", "rust tui", 2)];
    app.enter_comments_view();
    handle_key(&mut app, KeyInput::Char('/'), vim(), 20);
    assert!(app.is_search_mode());
    for c in ['r', 'u', 's'] {
        handle_key(&mut app, KeyInput::Char(c), vim(), 20);
    }
    assert_eq!(app.search_input, "rus");
    assert_eq!(key_command(&app, KeyInput::Backspace, vim()), Command::Ignore);
    handle_key(&mut app, KeyInput::Backspace, vim(), 20);
    assert_eq!(app.search_input, "rus");
    assert!(app.is_search_mode());
    handle_key(&mut app, KeyInput::Enter, vim(), 20);
    assert!(!app.is_search_mode());
    assert_eq!(app.comment_selected, 1);
}

#[test]
fn list_keys_wait_while_stories_load() {
    let mut app = App::new();
    app.stories = vec![story("s1", "One", "https://a"), story("s2", "Two", "https://b")];
    app.stories_loading = true;
    assert_eq!(key_command(&app, KeyInput::Char('j'), vim()), Command::Ignore);
    assert_eq!(key_command(&app, KeyInput::Char('q'), vim()), Command::Act(KeyAction::Quit));
    app.nav_mode = NavMode::Infinite;
    assert_eq!(key_command(&app, KeyInput::Char('j'), vim()), Command::Act(KeyAction::MoveDown));
}

#[test]
fn queued_refresh_runs_once_loading_ends() {
    let mut app = App::new();
    let _ = app.begin_stories_loading();
    app.finish_stories_loading();
    app.stories_loading = true;
    // The list ignores a refresh key while it loads.
    let out = handle_key(&mut app, KeyInput::Char('r'), vim(), 20);
    assert!(matches!(out, KeyOutcome::Nothing));
    assert!(!app.pending_refresh);
    app.pending_refresh = true;

    assert!(run_queued_refresh(&mut app, 20).is_none());
    app.finish_stories_loading();
    let plan = run_queued_refresh(&mut app, 20).expect("queued refresh runs");
    assert!(!app.pending_refresh);
    assert_eq!(
        plan.fetch,
        Some(StoriesFetch { request_id: 2, feed: Feed::Hottest, start_page: 1, count: 1 })
    );
    assert!(app.stories_loading);
    assert_eq!(app.status, "Loading Lobsters: Hottest page 1...");
}

#[test]
fn next_page_in_paged_mode_fetches_the_next_page() {
    let mut app = App::new();
    match handle_key(&mut app, KeyInput::Char(']'), vim(), 20) {
        KeyOutcome::Stories(plan) => {
            assert_eq!(
                plan.fetch,
                Some(StoriesFetch { request_id: 1, feed: Feed::Hottest, start_page: 2, count: 1 })
            );
            assert_eq!(plan.prefetch, None);
        }
        _ => panic!("expected a stories fetch"),
    }
    assert_eq!(app.page, 2);
}

#[test]
fn tab_cycles_to_the_next_feed_and_warms_the_one_after() {
    let mut app = App::new();
    match handle_key(&mut app, KeyInput::Tab, vim(), 20) {
        KeyOutcome::CycledFeed(plan, job) => {
            assert_eq!(
                plan.fetch,
                Some(StoriesFetch { request_id: 1, feed: Feed::Newest, start_page: 1, count: 1 })
            );
            assert_eq!(job, Some(PrefetchJob { feed: Feed::HnTop, start_page: 1, last_page: 20 }));
        }
        _ => panic!("expected a feed cycle"),
    }
    assert_eq!(app.feed, Feed::Newest);
    assert_eq!(app.page, 1);
}

#[test]
fn opening_links_needs_a_selected_story() {
    let mut app = App::new();
    assert!(matches!(handle_key(&mut app, KeyInput::Char('o'), vim(), 20), KeyOutcome::Nothing));
    assert_eq!(app.status, "No story selected");

    app.stories = vec![story("s1", "One", "")];
    handle_key(&mut app, KeyInput::Char('o'), vim(), 20);
    assert_eq!(app.status, "No link URL for this story");

    app.stories = vec![story("s1", "One", "https://example.com/one")];
    match handle_key(&mut app, KeyInput::Char('o'), vim(), 20) {
        KeyOutcome::Open(LinkTarget::StoryLink, url) => assert_eq!(url, "https://example.com/one"),
        _ => panic!("expected a link to open"),
    }
    finish_open(&mut app, LinkTarget::StoryLink, Ok(()));
    assert_eq!(app.status, "Opened story link");
    finish_open(&mut app, LinkTarget::CommentsPage, Err("no browser".to_string()));
    assert_eq!(app.status, "Error opening comments page: no browser");
}

#[test]
fn comment_permalink_opens_only_in_comments_view() {
    let mut app = App::new();
    app.stories = vec![story("st", "One", "https://a")];
    app.comments = vec![comment("c9", "x", 1)];
    assert!(matches!(handle_key(&mut app, KeyInput::Char('c'), vim(), 20), KeyOutcome::Nothing));
    app.enter_comments_view();
    match handle_key(&mut app, KeyInput::Char('c'), vim(), 20) {
        KeyOutcome::Open(LinkTarget::CommentPermalink, url) => {
            assert_eq!(url, "https://lobste.rs/s/st#c_c9")
        }
        _ => panic!("expected a permalink"),
    }
}

#[test]
fn escape_in_comments_returns_to_list() {
    let mut app = App::new();
    app.enter_comments_view();
    handle_key(&mut app, KeyInput::Esc, vim(), 20);
    assert_eq!(app.current_view(), View::List);
    assert_eq!(app.status, "Ready");
    handle_key(&mut app, KeyInput::Esc, vim(), 20);
    assert!(app.is_quitting());
}

#[test]
fn profiling_toggle_reports_in_status() {
    let mut app = App::new();
    handle_key(&mut app, KeyInput::Char('p'), vim(), 20);
    assert!(app.profiling_enabled);
    assert_eq!(app.status, "Profiling mode enabled");
    handle_key(&mut app, KeyInput::Char('p'), vim(), 20);
    assert_eq!(app.status, "Profiling mode disabled");
}

#[test]
fn high_score_jump_reports_when_nothing_qualifies() {
    let mut app = App::new();
    app.comments = vec![comment("a", "x", 1), comment("b", "y", 2)];
    app.enter_comments_view();
    handle_key(&mut app, KeyInput::Char('H'), vim(), 20);
    assert_eq!(app.status, "No matching high-score comment found");
    app.comments = vec![comment("a", "x", 1), comment("b", "y", 9)];
    app.mark_needs_redraw();
    app.search_input = String::new();
    app.apply_search();
    app.enter_comments_view();
    app.comment_selected = 0;
    handle_key(&mut app, KeyInput::Char('H'), vim(), 20);
    assert_eq!(app.comment_selected, 1);
}

#[test]
fn fresh_cached_page_is_served_without_fetching() {
    let mut app = App::new();
    app.cache_stories(Feed::Hottest, 1, &[story("s1", "One", "https://a")]);
    let plan = plan_refresh(&mut app, true, 20, Freshness::Fresh, Freshness::Fresh);
    assert_eq!(plan.fetch, None);
    assert_eq!(plan.prefetch, Some(PrefetchJob { feed: Feed::Hottest, start_page: 2, last_page: 20 }));
    assert_eq!(app.stories.len(), 1);
    assert_eq!(app.status, "Loaded 1 stories (cached)");
    assert!(!app.stories_loading);
}

#[test]
fn stale_cached_page_is_served_and_refreshed_quietly() {
    let mut app = App::new();
    app.cache_stories(Feed::Hottest, 1, &[story("s1", "One", "https://a")]);
    let plan = plan_refresh(
        &mut app,
        true,
        20,
        Freshness::StaleButUsable,
        Freshness::StaleButUsable,
    );
    assert_eq!(
        plan.fetch,
        Some(StoriesFetch { request_id: 1, feed: Feed::Hottest, start_page: 1, count: 1 })
    );
    assert!(app.background_refreshing);
    assert!(!app.stories_loading);
    assert_eq!(app.stories.len(), 1);
}

#[test]
fn empty_infinite_lobsters_list_loads_four_pages() {
    let mut app = App::new();
    app.nav_mode = NavMode::Infinite;
    let plan = plan_refresh(&mut app, true, 20, Freshness::Expired, Freshness::Expired);
    assert_eq!(
        plan.fetch,
        Some(StoriesFetch { request_id: 1, feed: Feed::Hottest, start_page: 1, count: 4 })
    );
    assert_eq!(app.status, "Loading stories...");
}

fn loaded(request_id: u64, result: Result<Vec<Story>, String>) -> StoriesLoadResult {
    StoriesLoadResult {
        request_id,
        feed: Feed::Hottest,
        requested_page: 3,
        resolved_page: 3,
        fell_back_to_first_page: false,
        result,
        batch_complete: true,
    }
}

#[test]
fn stories_results_for_older_requests_are_dropped() {
    let mut app = App::new();
    let _ = app.begin_stories_loading();
    let applied = apply_stories_result(&mut app, loaded(7, Ok(vec![story("s", "S", "u")])), 20);
    assert!(applied.prefetch.is_empty());
    assert!(applied.save.is_none());
    assert!(app.stories.is_empty());
    assert!(app.stories_loading);
}

#[test]
fn loaded_page_is_cached_shown_and_prefetches_start() {
    let mut app = App::new();
    let id = app.begin_stories_loading();
    let applied = apply_stories_result(
        &mut app,
        loaded(id, Ok(vec![story("a", "A", "u"), story("b", "B", "v")])),
        20,
    );
    assert!(!app.stories_loading);
    assert_eq!(app.stories.len(), 2);
    assert_eq!(app.page, 3);
    assert_eq!(app.status, "Loaded 2 stories");
    assert_eq!(applied.save.map(|s| s.len()), Some(2));
    assert_eq!(
        applied.prefetch,
        vec![
            PrefetchJob { feed: Feed::Hottest, start_page: 2, last_page: 20 },
            PrefetchJob { feed: Feed::Newest, start_page: 1, last_page: 20 },
            PrefetchJob { feed: Feed::HnTop, start_page: 1, last_page: 20 },
            PrefetchJob { feed: Feed::HnNew, start_page: 1, last_page: 20 },
        ]
    );
    assert!(app.cached_stories(Feed::Hottest, 3).is_some());
}

#[test]
fn fallback_and_errors_are_reported() {
    let mut app = App::new();
    let id = app.begin_stories_loading();
    let mut result = loaded(id, Ok(vec![story("a", "A", "u")]));
    result.resolved_page = 1;
    result.fell_back_to_first_page = true;
    apply_stories_result(&mut app, result, 20);
    assert_eq!(app.status, "Page 3 unavailable; loaded page 1 (1 stories)");

    let id = app.begin_stories_loading();
    apply_stories_result(&mut app, loaded(id, Err("boom".to_string())), 20);
    assert_eq!(app.status, "Error fetching stories: boom");
}

#[test]
fn infinite_mode_appends_loaded_pages() {
    let mut app = App::new();
    app.nav_mode = NavMode::Infinite;
    app.stories = vec![story("a", "A", "u")];
    let id = app.begin_stories_loading();
    let applied = apply_stories_result(&mut app, loaded(id, Ok(vec![story("b", "B", "v")])), 20);
    assert!(applied.prefetch.is_empty());
    assert_eq!(app.stories.len(), 2);
    assert_eq!(app.status, "Loaded 2 stories");
}

fn detail(n: usize) -> StoryDetail {
    StoryDetail {
        title: "T".to_string(),
        url: "https://t".to_string(),
        comments: (0..n).map(|i| comment(&format!("c{i}"), "text", 1)).collect(),
    }
}

#[test]
fn comment_results_follow_the_awaited_story() {
    let mut app = App::new();
    app.begin_comments_loading("s1".to_string(), "story".to_string());

    let other = CommentsLoadResult {
        short_id: "zz".to_string(),
        stage: CommentsStage::Final,
        result: Ok(detail(3)),
        elapsed_ms: 5,
    };
    assert!(apply_comments_result(&mut app, other).is_none());
    assert!(app.comments.is_empty());

    let part = CommentsLoadResult {
        short_id: "s1".to_string(),
        stage: CommentsStage::Partial,
        result: Ok(detail(1)),
        elapsed_ms: 12,
    };
    assert!(apply_comments_result(&mut app, part).is_none());
    assert_eq!(app.status, "1 comments loaded in 12ms (loading more...)");
    assert!(app.comments_loading);

    let whole = CommentsLoadResult {
        short_id: "s1".to_string(),
        stage: CommentsStage::Final,
        result: Ok(detail(2)),
        elapsed_ms: 30,
    };
    let saved = apply_comments_result(&mut app, whole).expect("final detail is saved");
    assert_eq!(saved.comments.len(), 2);
    assert_eq!(app.status, "2 comments loaded in 30ms");
    assert!(!app.comments_loading);
    assert_eq!(app.last_comments_load_ms, Some(30));
    assert!(app.cached_story_detail("s1").is_some());
}

#[test]
fn failed_thread_ends_loading_with_an_error() {
    let mut app = App::new();
    app.begin_comments_loading("s1".to_string(), "story".to_string());
    let part = CommentsLoadResult {
        short_id: "s1".to_string(),
        stage: CommentsStage::Partial,
        result: Err("late".to_string()),
        elapsed_ms: 1,
    };
    apply_comments_result(&mut app, part);
    assert!(app.comments_loading);
    let fail = CommentsLoadResult {
        short_id: "s1".to_string(),
        stage: CommentsStage::Final,
        result: Err("down".to_string()),
        elapsed_ms: 1,
    };
    apply_comments_result(&mut app, fail);
    assert!(!app.comments_loading);
    assert_eq!(app.status, "Error fetching comments: down");
}

#[test]
fn opening_comments_uses_the_cache_first() {
    let mut app = App::new();
    assert!(open_comments(&mut app).is_none());
    assert_eq!(app.status, "No story selected");

    app.stories = vec![story("s1", "First", "https://a")];
    let fetch = open_comments(&mut app).expect("not cached: fetch");
    assert_eq!(fetch.short_id, "s1");
    assert!(!fetch.progressive);
    assert_eq!(app.status, "Loading comments...");
    assert_eq!(app.story_detail_title, "First");

    app.cache_story_detail("s1".to_string(), detail(4));
    assert!(open_comments(&mut app).is_none());
    assert_eq!(app.status, "4 comments (cached)");
    assert_eq!(app.comments.len(), 4);

    app.feed = Feed::HnTop;
    app.return_to_list();
    app.invalidate_story_cache("s1");
    assert!(open_comments(&mut app).expect("fetch").progressive);
}

#[test]
fn first_page_fallback_decision() {
    assert!(should_fallback_to_first_page("HTTP status 404"));
    assert!(should_fallback_to_first_page("Page NOT FOUND"));
    assert!(!should_fallback_to_first_page("connection reset"));
    assert!(!needs_first_page_fallback(1, &Ok(Vec::new())));
    assert!(needs_first_page_fallback(2, &Ok(Vec::new())));
    assert!(!needs_first_page_fallback(2, &Ok(vec![story("a", "A", "u")])));
    assert!(needs_first_page_fallback(5, &Err("404 Not Found".to_string())));
    assert!(!needs_first_page_fallback(5, &Err("timeout".to_string())));
}

#[test]
fn startup_applies_settings_and_saved_state() {
    let mut app = App::new();
    let saved = PersistedState { feed: Feed::Newest, page: 0, selected: 9 };
    assert_eq!(apply_startup(&mut app, &settings(), Some(saved.clone())), Some(9));
    assert_eq!(app.feed, Feed::HnTop);
    assert_eq!(app.page, 4);
    assert!(app.high_contrast);

    let mut restoring = settings();
    restoring.restore_feed_page = true;
    let mut app = App::new();
    apply_startup(&mut app, &restoring, Some(saved));
    assert_eq!(app.feed, Feed::Newest);
    assert_eq!(app.page, 1);
}

#[test]
fn saved_selection_waits_for_stories() {
    let mut app = App::new();
    assert!(!restore_selection(&mut app, 5));
    app.stories = vec![story("a", "A", "u"), story("b", "B", "v")];
    assert!(restore_selection(&mut app, 5));
    assert_eq!(app.selected, 1);
}

#[test]
fn keepalive_refreshes_a_shown_paged_list_when_due() {
    let mut app = App::new();
    assert!(keepalive_refresh(&mut app, true, 20).is_none());
    app.stories = vec![story("a", "A", "u")];
    assert!(keepalive_refresh(&mut app, false, 20).is_none());
    let plan = keepalive_refresh(&mut app, true, 20).expect("due");
    assert!(plan.fetch.is_some());
}

#[test]
fn switching_navigation_mode_reloads_after_the_key() {
    let mut app = App::new();
    app.toggle_nav_mode();
    let follow = after_key(&mut app, 20);
    assert!(!app.needs_initial_load);
    let initial = follow.initial.expect("reload");
    assert_eq!(
        initial.fetch,
        Some(StoriesFetch { request_id: 1, feed: Feed::Hottest, start_page: 1, count: 4 })
    );
    assert!(follow.more.is_none());
    assert_eq!(app.flow, AppFlowState::List);
}

#[test]
fn function_keys_open_and_close_help() {
    let mut app = App::new();
    assert_eq!(key_command(&app, KeyInput::F(1), vim()), Command::Act(KeyAction::ToggleHelp));
    assert_eq!(key_command(&app, KeyInput::F(5), vim()), Command::Act(KeyAction::Refresh));
    app.toggle_help();
    assert_eq!(key_command(&app, KeyInput::F(1), vim()), Command::CloseHelp);
    assert_eq!(key_command(&app, KeyInput::F(5), vim()), Command::Ignore);
}
