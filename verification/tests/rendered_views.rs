use pincer_cli::api::{Comment, Feed, Story};
use pincer_cli::app::{App, NavMode, View};
use pincer_cli::screen::{
    comment_row, comments_inner_width, comments_pending, comments_title, empty_list_message,
    list_title, loading_comments_message, no_comments_message, source_chip, status_bar, story_row,
    CommentRow, Palette, HELP_TEXT, HELP_TITLE, MAX_THREAD_INDENT_LEVEL,
};

/// The lines the screen shows, assembled from the library's texts the way the terminal
/// front end lays them out, for a terminal `width` columns wide.
fn screen_lines(app: &mut App, width: u16) -> Vec<String> {
    let mut lines = Vec::new();
    let (chip, _) = source_chip(app);
    lines.push(format!("{} SOURCE {}", app.mode_banner_text(), chip));
    match app.current_view() {
        View::List => {
            lines.push(list_title(app));
            if app.stories.is_empty() {
                lines.push(empty_list_message().to_string());
            } else {
                for s in &app.stories {
                    let row = story_row(s, width);
                    let mut line = format!("{}{}", row.score, row.title);
                    for (text, _) in row.extras {
                        line.push_str(&text);
                    }
                    lines.push(line);
                }
            }
        }
        View::Comments => {
            lines.push(comments_title(app));
            if comments_pending(app) {
                lines.push(loading_comments_message().to_string());
            } else {
                let (shown, _) = comment_rows(app, width);
                if shown.is_empty() {
                    lines.push(no_comments_message(app).to_string());
                }
                for row in shown {
                    lines.push(header(&row));
                    lines.extend(row.body.iter().cloned());
                }
            }
        }
    }
    let (status, help) = status_bar(app);
    lines.push(status);
    lines.push(help);
    if app.is_help_visible() {
        lines.push(HELP_TITLE.to_string());
        lines.extend(HELP_TEXT.lines().map(|l| l.to_string()));
    }
    lines
}

fn comment_rows(app: &mut App, width: u16) -> (Vec<CommentRow>, usize) {
    let inner = comments_inner_width(app, width);
    app.ensure_wrapped_comments(inner, MAX_THREAD_INDENT_LEVEL);
    let (indices, _) = app.comment_display_data();
    let rows = indices
        .into_iter()
        .filter(|&i| i < app.comments.len())
        .map(|i| comment_row(app, i))
        .collect();
    (rows, inner)
}

fn header(row: &CommentRow) -> String {
    format!("{}{}{}{} {}", row.marker, row.indent, row.prefix, row.user, row.score)
}

fn screen_text(app: &mut App, width: u16) -> String {
    screen_lines(app, width).join("\n")
}

fn line_containing(lines: &[String], needle: &str) -> Option<String> {
    lines.iter().find(|l| l.contains(needle)).cloned()
}

fn mk_comment(user: &str, id: &str) -> Comment {
    Comment {
        short_id: id.to_string(),
        comment_plain: format!("comment from {user}"),
        score: 1,
        depth: 0,
        commenting_user: user.to_string(),
        is_deleted: false,
    }
}

fn mk_body_comment(short_id: &str, depth: usize, deleted: bool) -> Comment {
    Comment {
        short_id: short_id.to_string(),
        comment_plain: format!("body of {short_id}"),
        score: 3,
        depth,
        commenting_user: format!("user_{short_id}"),
        is_deleted: deleted,
    }
}

fn mk_long_comment(short_id: &str, depth: usize) -> Comment {
    Comment {
        short_id: short_id.to_string(),
        comment_plain: "word ".repeat(200),
        score: 3,
        depth,
        commenting_user: format!("user_{short_id}"),
        is_deleted: false,
    }
}

fn make_story(id: u32, title: &str) -> Story {
    Story {
        short_id: format!("s{id}"),
        title: title.to_string(),
        url: "https://example.com".into(),
        score: (id % 100) as i32,
        comment_count: (id % 50) as i32,
        tags: vec!["tag".into()],
        submitter_user: format!("user{id}"),
        comments_url: format!("https://example.com/comments/{id}"),
    }
}

fn seed_stories(app: &mut App, n: usize) {
    app.stories = (0..n).map(|i| make_story(i as u32, &format!("Story {i}"))).collect();
}

fn comments_app() -> App {
    let mut app = App::new();
    app.feed = Feed::Hottest;
    app.enter_comments_view();
    app
}

#[test]
fn search_mode_indicator_is_visible_in_status_area() {
    let mut app = App::new();
    app.enter_comments_view();
    app.start_search_mode();
    app.search_input = "rust".to_string();
    let text = screen_text(&mut app, 120);
    assert!(text.contains("SEARCH: rust (Enter apply, Esc cancel)"));
}

#[test]
fn help_overlay_displays_keybindings_indicator() {
    let mut app = App::new();
    app.toggle_help();
    let text = screen_text(&mut app, 120);
    assert!(text.contains("Keybindings"));
    assert!(text.contains("Help"));
}

#[test]
fn selected_comment_has_symbol_marker_not_just_color() {
    let mut app = App::new();
    app.enter_comments_view();
    app.comments = vec![mk_comment("alice", "c1"), mk_comment("bob", "c2")];
    app.comment_selected = 1;
    let lines = screen_lines(&mut app, 100);
    let selected_line = line_containing(&lines, " bob ").expect("selected row should render");
    let unselected_line = line_containing(&lines, "alice ").expect("unselected row should render");
    assert!(selected_line.contains("▶"), "selected row should include shape marker");
    assert!(!unselected_line.contains("▶"), "unselected row should not include selected marker");
}

#[test]
fn help_line_includes_multiple_keymap_paths() {
    let mut app = App::new();
    let text = screen_text(&mut app, 140);
    assert!(text.contains("j/k move"));
    assert!(text.contains("pgup/pgdn=page"));
    assert!(text.contains("?=help"));
}

#[test]
fn source_indicators_are_textual_not_color_only() {
    let mut lobsters_app = App::new();
    let lobsters = screen_text(&mut lobsters_app, 120);
    assert!(lobsters.contains("[L] LOBSTERS"));
    assert!(lobsters.contains("[SRC:L]"));

    let mut hn_app = App::new();
    hn_app.feed = Feed::HnTop;
    let hn = screen_text(&mut hn_app, 120);
    assert!(hn.contains("[H] HN"));
    assert!(hn.contains("[SRC:H]"));
}

#[test]
fn long_comment_body_wraps_and_does_not_overflow_narrow_terminal() {
    let mut app = App::new();
    app.enter_comments_view();
    app.comments = vec![mk_long_comment("a1", 0), mk_long_comment("a2", 3)];
    app.comment_selected = 0;
    let (rows, inner) = comment_rows(&mut app, 40);
    assert_eq!(rows.len(), 2);
    for row in &rows {
        assert!(row.body.len() > 1);
        for line in &row.body {
            assert!(
                line.chars().count() <= inner,
                "right border of comments box must remain intact (not overwritten by unwrapped text)"
            );
        }
    }
}

#[test]
fn scrolling_far_past_first_screen_does_not_panic() {
    let mut app = App::new();
    app.enter_comments_view();
    app.comments = (0..200).map(|i| mk_long_comment(&format!("c{i}"), i % 5)).collect();
    app.comment_selected = 150;
    let lines = screen_lines(&mut app, 80);
    assert!(lines.len() > 200);
}

#[test]
fn empty_comments_does_not_panic() {
    let mut app = comments_app();
    let text = screen_text(&mut app, 80);
    assert!(text.contains("No comments available for this story."));
}

#[test]
fn loading_state_renders_loading_message() {
    let mut app = comments_app();
    app.comments_loading = true;
    app.story_detail_title = "Loading story".to_string();
    let text = screen_text(&mut app, 80);
    assert!(
        text.contains("Loading comments..."),
        "comments view should display loading text while comments fetch is in progress"
    );
}

#[test]
fn populated_comments_render_without_panic_and_highlight_selected() {
    let mut app = comments_app();
    app.comments = vec![
        mk_body_comment("a1", 0, false),
        mk_body_comment("a2", 1, false),
        mk_body_comment("a3", 2, true),
    ];
    app.comment_selected = 1;
    let lines = screen_lines(&mut app, 100);
    assert!(line_containing(&lines, "user_a2").is_some(), "selected user row must render");
    assert!(line_containing(&lines, "user_a1").is_some(), "unselected user row must render");
    let (rows, _) = comment_rows(&mut app, 100);
    assert!(rows[1].selected);
    assert!(!rows[0].selected);
    let palette = Palette::from_app(&app);
    assert_ne!(palette.selected_bg, palette.selected_user_fg);
}

#[test]
fn selection_bounds_at_last_comment_does_not_panic() {
    let mut app = comments_app();
    app.comments = vec![mk_body_comment("only", 0, false)];
    app.comment_selected = 0;
    let text = screen_text(&mut app, 60);
    assert!(text.contains("user_only"));
}

#[test]
fn nested_comment_text_stays_compact_on_the_left() {
    let mut app = comments_app();
    app.comments = vec![mk_body_comment("root", 0, false), mk_body_comment("deep", 5, false)];
    app.comment_selected = 0;
    let lines = screen_lines(&mut app, 100);
    let find_x = |needle: &str| -> Option<usize> {
        lines.iter().find_map(|l| l.find(needle).map(|b| l[..b].chars().count()))
    };
    let root_x = find_x("user_root").expect("root comment must render");
    let deep_x = find_x("user_deep").expect("deep comment must render");
    assert!(
        deep_x.saturating_sub(root_x) <= 14,
        "deeply nested comments should use capped indentation and stay readable"
    );
}

#[test]
fn tab_clears_stories_and_shows_loading_for_new_feed() {
    let mut app = App::new();
    app.feed = Feed::Hottest;
    seed_stories(&mut app, 5);
    app.reset_stories();
    app.feed = Feed::HnTop;
    let text = screen_text(&mut app, 80);
    assert!(!text.contains("Story 0"), "old stories should be cleared after Tab");
    assert!(text.contains("HN: Top"), "title should show new feed name");
}

#[test]
fn infinite_mode_banner_shows_mode() {
    let mut app = App::new();
    app.nav_mode = NavMode::Infinite;
    let text = screen_text(&mut app, 80);
    assert!(text.contains("INFINITE"), "banner should show INFINITE in infinite mode");
}

#[test]
fn paged_mode_banner_shows_mode() {
    let mut app = App::new();
    app.nav_mode = NavMode::Paged;
    let text = screen_text(&mut app, 80);
    assert!(text.contains("PAGED"), "banner should show PAGED in paged mode");
}

#[test]
fn empty_stories_shows_no_stories_message() {
    let mut app = App::new();
    let text = screen_text(&mut app, 80);
    assert!(text.contains("No stories available"), "empty list should show message");
}

#[test]
fn appended_stories_are_rendered() {
    let mut app = App::new();
    app.nav_mode = NavMode::Infinite;
    seed_stories(&mut app, 3);
    app.append_stories(vec![make_story(3, "Story 3")]);
    let text = screen_text(&mut app, 80);
    assert!(text.contains("Story 3"), "appended story should render");
}

#[test]
fn status_bar_shows_fkey_alternatives() {
    let mut app = App::new();
    let text = screen_text(&mut app, 140);
    assert!(text.contains("F5"), "status bar should mention F5 for refresh");
    assert!(text.contains("F1"), "status bar should mention F1 for help");
}

#[test]
fn infinite_mode_shows_story_count_in_title() {
    let mut app = App::new();
    app.nav_mode = NavMode::Infinite;
    seed_stories(&mut app, 42);
    let text = screen_text(&mut app, 80);
    assert!(text.contains("42 stories"), "title should show story count in infinite mode");
}

#[test]
fn paged_mode_shows_page_in_title() {
    let mut app = App::new();
    app.nav_mode = NavMode::Paged;
    app.page = 3;
    seed_stories(&mut app, 5);
    let text = screen_text(&mut app, 80);
    assert!(text.contains("page 3"), "title should show page number in paged mode");
}
