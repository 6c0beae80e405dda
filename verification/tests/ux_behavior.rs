use pincer_cli::api::Story;
use pincer_cli::app::{App, NavMode};

fn make_story(id: u32, title: &str) -> Story {
    Story {
        short_id: format!("s{id}"),
        title: title.to_string(),
        url: "https://example.com".into(),
        score: (id % 100) as i32,
        comment_count: (id % 50) as i32,
        tags: vec!["tag".into()],
        submitter_user: format!("user{id}"),
        comments_url: format!("https://example.com/comments/{id}"),
    }
}

fn seed_stories(app: &mut App, n: usize) {
    app.stories = (0..n)
        .map(|i| make_story(i as u32, &format!("Story {i}")))
        .collect();
}

/// Toggle from paged to infinite clears stories and sets needs_initial_load.
#[test]
fn toggle_nav_mode_resets_state() {
    let mut app = App::new();
    seed_stories(&mut app, 5);
    app.toggle_nav_mode();

    assert!(app.stories.is_empty(), "stories cleared after toggle");
    assert_eq!(app.page, 1, "page reset after toggle");
    assert!(app.needs_initial_load, "needs_initial_load set after toggle");
    assert_eq!(app.nav_mode, NavMode::Infinite, "switched to infinite");
}

/// Selecting the last story should be within bounds.
#[test]
fn move_selection_stays_in_bounds() {
    let mut app = App::new();
    seed_stories(&mut app, 3);
    app.selected = 2;
    app.move_selection(1); // past end
    assert_eq!(app.selected, 2, "should clamp at last story");

    app.move_selection(-5); // past start
    assert_eq!(app.selected, 0, "should clamp at first story");
}

/// Jump to top/bottom works correctly.
#[test]
fn jump_top_and_bottom() {
    let mut app = App::new();
    seed_stories(&mut app, 10);
    app.selected = 5;

    app.jump_top();
    assert_eq!(app.selected, 0, "jump_top should go to 0");

    app.jump_bottom();
    assert_eq!(app.selected, 9, "jump_bottom should go to last index");
}

/// needs_more_stories triggers with lookahead in infinite mode.
#[test]
fn needs_more_stories_uses_lookahead() {
    let mut app = App::new();
    app.nav_mode = NavMode::Infinite;
    seed_stories(&mut app, 20);
    app.selected = 3;
    assert!(!app.needs_more_stories(), "should not trigger at position 3 of 20");

    app.selected = 18;
    assert!(app.needs_more_stories(), "should trigger at position 18 of 20");
}

/// needs_more_stories is false in paged mode.
#[test]
fn needs_more_stories_false_in_paged_mode() {
    let mut app = App::new();
    app.nav_mode = NavMode::Paged;
    seed_stories(&mut app, 20);
    app.selected = 19;
    assert!(!app.needs_more_stories(), "lookahead should not trigger in paged mode");
}
