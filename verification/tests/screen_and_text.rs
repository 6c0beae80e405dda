use pincer_cli::api::{Comment, Feed, Story};
use pincer_cli::app::App;
use pincer_cli::cache::{freshness_for_age, Freshness};
use pincer_cli::hn::{
    flatten_thread, flatten_thread_limited, hn_comment_from_item, hn_page_bounds, hn_story_from_item,
    HnItem, HnNode, HnWalk,
};
use pincer_cli::keymap::KeymapPreset;
use pincer_cli::markup::html_to_plain_text;
use pincer_cli::screen::{
    comment_row, comments_inner_width, comments_title, list_title, no_comments_message, source_chip,
    status_bar, story_row, Extra, Palette, Shade,
};
use pincer_cli::settings::{flag_enabled, parse_bool_text, resolve, EnvOverrides};
use pincer_cli::config::{PersistedConfig, StartupConfig};
use pincer_cli::app::NavMode;

fn story(title: &str, comments: i32, tags: &[&str], user: &str) -> Story {
    Story {
        short_id: "s1".to_string(),
        title: title.to_string(),
        url: "https://example.com".to_string(),
        score: 7,
        comment_count: comments,
        tags: tags.iter().map(|t| t.to_string()).collect(),
        submitter_user: user.to_string(),
        comments_url: "https://lobste.rs/s/s1".to_string(),
    }
}

fn item(id: u64, kind: &str, text: &str, kids: Option<Vec<u64>>) -> HnItem {
    HnItem {
        id,
        item_type: Some(kind.to_string()),
        by: Some("pg".to_string()),
        text: Some(text.to_string()),
        kids,
        url: None,
        score: Some(5),
        title: Some("Title".to_string()),
        descendants: Some(2),
        deleted: None,
        dead: None,
    }
}

#[test]
fn list_title_names_feed_and_page() {
    let mut app = App::new();
    app.page = 3;
    assert_eq!(list_title(&app), " claw \u{2014} Lobsters: Hottest (page 3) ");
}

#[test]
fn story_row_keeps_extras_that_fit() {
    let s = story("Hello", 12, &["rust", "web"], "alice");
    let wide = story_row(&s, 80);
    assert_eq!(wide.score, "  7 ");
    assert_eq!(wide.title, "Hello");
    let texts: Vec<&str> = wide.extras.iter().map(|(t, _)| t.as_str()).collect();
    assert_eq!(texts, vec!["  (12c)", "  [rust,web]", "  by alice"]);
    assert_eq!(wide.extras[1].1, Extra::Tags);

    // 20 columns inside the frame less 9 used leaves 11: the comment count (7) fits,
    // the tags (12) do not, the user (10) does not fit in the 4 left.
    let narrow = story_row(&s, 22);
    assert_eq!(narrow.extras, vec![("  (12c)".to_string(), Extra::Comments)]);

    // 13 bytes are left: the comment count (7) fits, leaving 6; the tags (8) are
    // skipped, and the user (6) still fits after them.
    let s2 = story("Hello", 12, &["rust"], "a");
    let row = story_row(&s2, 24);
    let kinds: Vec<Extra> = row.extras.iter().map(|(_, k)| *k).collect();
    assert_eq!(kinds, vec![Extra::Comments, Extra::User]);

    let tiny = story_row(&s, 2);
    assert!(tiny.extras.is_empty());
}

#[test]
fn story_row_pads_scores_to_three_columns() {
    let mut s = story("T", 0, &[], "u");
    s.score = -5;
    assert_eq!(story_row(&s, 80).score, " -5 ");
    s.score = 1234;
    assert_eq!(story_row(&s, 80).score, "1234 ");
}

#[test]
fn status_bar_shows_state_source_and_help() {
    let mut app = App::new();
    app.status = "Ready".to_string();
    let (line, help) = status_bar(&app);
    assert_eq!(line, "[INFO] [SRC:L] Ready");
    assert!(help.starts_with("j/k move"));

    app.status = "Error fetching stories: boom".to_string();
    let (line, help) = status_bar(&app);
    assert_eq!(line, "[ERROR] [SRC:L] Error fetching stories: boom");
    assert!(help.ends_with(" | Recovery: press r to retry. Esc returns to list."));

    app.status = "Loading...".to_string();
    app.feed = Feed::HnNew;
    app.profiling_enabled = true;
    let (line, _) = status_bar(&app);
    assert_eq!(line, "[LOADING] [SRC:H] Loading... | frames=0 last_load=n/a");
}

#[test]
fn status_bar_shows_the_query_while_searching() {
    let mut app = App::new();
    app.enter_comments_view();
    app.start_search_mode();
    app.search_input = "rust".to_string();
    let (_, help) = status_bar(&app);
    assert_eq!(help, "SEARCH: rust (Enter apply, Esc cancel) | Recovery: Esc cancels search.");
}

#[test]
fn comment_rows_mark_selection_depth_and_collapse() {
    let mut app = App::new();
    app.comments = vec![
        Comment {
            short_id: "a".to_string(),
            comment_plain: "top".to_string(),
            score: 3,
            depth: 0,
            commenting_user: "ann".to_string(),
            is_deleted: false,
        },
        Comment {
            short_id: "b".to_string(),
            comment_plain: "reply".to_string(),
            score: -1,
            depth: 9,
            commenting_user: "ben".to_string(),
            is_deleted: false,
        },
    ];
    app.ensure_wrapped_comments(40, 6);
    let first = comment_row(&app, 0);
    assert!(first.selected);
    assert_eq!(first.marker, "\u{25b6} ");
    assert_eq!(first.prefix, "");
    assert_eq!(first.user, " ann ");
    assert_eq!(first.score, "(3)");
    assert!(!first.body.is_empty());

    let second = comment_row(&app, 1);
    assert!(!second.selected);
    assert_eq!(second.marker, "  ");
    assert_eq!(second.indent, " ".repeat(12));
    assert_eq!(second.prefix, "\u{21b3} ");
    assert_eq!(second.score, "(-1)");

    app.comment_selected = 1;
    app.toggle_selected_comment_collapsed();
    let collapsed = comment_row(&app, 1);
    assert!(collapsed.collapsed);
    assert_eq!(collapsed.body, vec![format!("{}  [collapsed]", " ".repeat(12))]);
}

#[test]
fn comments_pane_texts() {
    let mut app = App::new();
    assert_eq!(comments_title(&app), " comments ");
    app.stories = vec![story("Picked", 0, &[], "u")];
    assert_eq!(comments_title(&app), " Picked ");
    app.story_detail_title = "Loaded".to_string();
    assert_eq!(comments_title(&app), " Loaded ");
    assert_eq!(no_comments_message(&app), "No comments available for this story.");
    app.active_search = Some("x".to_string());
    assert_eq!(no_comments_message(&app), "No matching comments for current search.");
    assert_eq!(comments_inner_width(&app, 40), 38);
    assert_eq!(comments_inner_width(&app, 1), 1);
}

#[test]
fn palette_and_source_chip_follow_contrast() {
    let mut app = App::new();
    assert_eq!(Palette::from_app(&app).selected_bg, Shade::Rgb(40, 40, 40));
    assert_eq!(source_chip(&app), (" [L] LOBSTERS ", Shade::Cyan));
    app.high_contrast = true;
    app.feed = Feed::HnTop;
    assert_eq!(Palette::from_app(&app).selected_bg, Shade::Blue);
    assert_eq!(source_chip(&app), (" [H] HN ", Shade::White));
}

#[test]
fn html_comments_become_plain_text() {
    assert_eq!(html_to_plain_text("<p>Hello &amp; <i>world</i></p>"), "Hello & world");
    assert_eq!(html_to_plain_text("a &lt;b&gt; &quot;c&quot; &#x27;d&#39;"), "a <b> \"c\" 'd'");
    assert_eq!(html_to_plain_text("x&unknown;y"), "x y");
    assert_eq!(html_to_plain_text("  spaced\n\tout  "), "spaced out");
}

#[test]
fn hn_items_become_stories_and_comments() {
    let s = hn_story_from_item(&item(42, "story", "", None)).expect("a story");
    assert_eq!(s.short_id, "42");
    assert_eq!(s.url, "https://news.ycombinator.com/item?id=42");
    assert_eq!(s.tags, vec!["hn".to_string()]);
    assert!(hn_story_from_item(&item(1, "comment", "", None)).is_none());

    let c = hn_comment_from_item(&item(7, "comment", "<p>hi</p>", None), 2);
    assert_eq!(c.short_id, "7");
    assert_eq!(c.comment_plain, "hi");
    assert_eq!(c.depth, 2);
    let empty = hn_comment_from_item(&item(8, "comment", "<p></p>", None), 0);
    assert_eq!(empty.comment_plain, "[deleted]");
}

#[test]
fn hn_pages_are_slices_of_twenty_five() {
    assert_eq!(hn_page_bounds(1, 60), Some((0, 25)));
    assert_eq!(hn_page_bounds(3, 60), Some((50, 60)));
    assert_eq!(hn_page_bounds(4, 60), None);
    assert_eq!(hn_page_bounds(0, 10), Some((0, 10)));
}

fn tree() -> Vec<HnNode> {
    vec![
        HnNode::Fetched {
            item: item(1, "comment", "one", Some(vec![2])),
            children: vec![HnNode::Fetched { item: item(2, "comment", "two", None), children: vec![] }],
        },
        HnNode::Missing,
        HnNode::Fetched { item: item(3, "job", "not a comment", None), children: vec![] },
        HnNode::Fetched { item: item(4, "comment", "four", None), children: vec![] },
    ]
}

#[test]
fn threads_flatten_in_reading_order() {
    let all = flatten_thread(&tree());
    let ids: Vec<(String, usize)> = all.iter().map(|c| (c.short_id.clone(), c.depth)).collect();
    assert_eq!(
        ids,
        vec![("1".to_string(), 0), ("2".to_string(), 1), ("4".to_string(), 0)]
    );
    let first_two = flatten_thread_limited(&tree(), 2);
    assert_eq!(first_two.len(), 2);
    assert_eq!(first_two[1].short_id, "2");
    assert_eq!(flatten_thread_limited(&tree(), 10).len(), 3);
}

#[test]
fn cache_freshness_by_age() {
    assert_eq!(freshness_for_age(0), Freshness::Fresh);
    assert_eq!(freshness_for_age(59_999), Freshness::Fresh);
    assert_eq!(freshness_for_age(60_000), Freshness::StaleButUsable);
    assert_eq!(freshness_for_age(299_999), Freshness::StaleButUsable);
    assert_eq!(freshness_for_age(300_000), Freshness::Expired);
}

#[test]
fn boolean_settings_read_common_words() {
    assert_eq!(parse_bool_text(" YES "), Some(true));
    assert_eq!(parse_bool_text("off"), Some(false));
    assert_eq!(parse_bool_text("maybe"), None);
    assert!(flag_enabled(Some("1")));
    assert!(!flag_enabled(Some("0")));
}

#[test]
fn settings_resolve_file_then_environment() {
    let mut app = App::new();
    let cfg = PersistedConfig {
        keymap: Some(KeymapPreset::Vim),
        startup: Some(StartupConfig {
            feed: Some("hn-new".to_string()),
            page: Some(0),
            restore_feed_page: Some(true),
            nav_mode: Some("INFINITE".to_string()),
        }),
        performance: None,
        network: None,
        ui: None,
    };
    let env = EnvOverrides {
        keymap: Some("plain".to_string()),
        startup_page: Some("5".to_string()),
        http_retry_backoff_ms: Some("0".to_string()),
        http_retry_attempts: Some("0".to_string()),
        ..EnvOverrides::default()
    };
    let (keymap, s) = resolve(&mut app, Some(&cfg), &env);
    assert_eq!(keymap.preset(), KeymapPreset::Plain);
    assert_eq!(s.startup_feed, Feed::HnNew);
    assert_eq!(s.startup_page, 5);
    assert!(s.restore_feed_page);
    assert_eq!(s.retry_backoff_ms, 0);
    assert_eq!(s.retry_attempts, 1);
    assert_eq!(s.prefetch_max_pages, 20);
    assert_eq!(app.nav_mode, NavMode::Infinite);
    assert_eq!(app.status, "Loaded plain keymap preset");
}

#[test]
fn settings_warn_about_values_that_do_not_read() {
    let mut app = App::new();
    let env = EnvOverrides {
        startup_page: Some("abc".to_string()),
        ..EnvOverrides::default()
    };
    let (_, s) = resolve(&mut app, None, &env);
    assert_eq!(s.startup_page, 1);
    assert_eq!(app.status, "Config warning: invalid startup page: invalid digit found in string");

    let mut app = App::new();
    let env = EnvOverrides {
        startup_feed: Some("reddit".to_string()),
        high_contrast: Some("sure".to_string()),
        ..EnvOverrides::default()
    };
    let (_, s) = resolve(&mut app, None, &env);
    assert_eq!(s.startup_feed, Feed::Hottest);
    assert_eq!(app.status, "Config warning: invalid boolean for PINCER_HIGH_CONTRAST");

    let mut app = App::new();
    let env = EnvOverrides {
        prefetch_max_pages: Some("99999999999".to_string()),
        ..EnvOverrides::default()
    };
    resolve(&mut app, None, &env);
    assert_eq!(
        app.status,
        "Config warning: invalid PINCER_PREFETCH_MAX_PAGES: number too large to fit in target type"
    );
}

#[test]
fn feed_names_parse_back() {
    for feed in [Feed::Hottest, Feed::Newest, Feed::HnTop, Feed::HnNew] {
        assert_eq!(Feed::parse(feed.as_str()), Ok(feed));
    }
    assert_eq!(
        Feed::parse("reddit"),
        Err("unknown feed 'reddit' (expected 'hottest', 'newest', 'hn-top' or 'hn-new')".to_string())
    );
}

#[test]
fn search_queries_ignore_case() {
    let mut app = App::new();
    app.comments = vec![
        Comment {
            short_id: "a".to_string(),
            comment_plain: "hello world".to_string(),
            score: 1,
            depth: 0,
            commenting_user: "x".to_string(),
            is_deleted: false,
        },
        Comment {
            short_id: "b".to_string(),
            comment_plain: "Rust TUI".to_string(),
            score: 1,
            depth: 0,
            commenting_user: "y".to_string(),
            is_deleted: false,
        },
    ];
    app.search_input = "  RUST ".to_string();
    app.apply_search();
    assert_eq!(app.active_search.as_deref(), Some("rust"));
    assert_eq!(app.comment_display_data(), (vec![1], Some(0)));
}

#[test]
fn story_rows_measure_titles_in_bytes() {
    // "h\u{e9}llo" is five characters but six bytes, so with the score the row uses 10
    // bytes. With 7 left the comment count (7 bytes) fits; with 6 left it does not, and
    // the empty tag list (4 bytes) takes its place.
    let s = story("h\u{e9}llo", 12, &[], "u");
    let kinds = |area: u16| -> Vec<Extra> { story_row(&s, area).extras.iter().map(|(_, k)| *k).collect() };
    assert_eq!(kinds(19), vec![Extra::Comments]);
    assert_eq!(kinds(18), vec![Extra::Tags]);
}

#[test]
fn long_comments_wrap_to_the_pane() {
    let mut app = App::new();
    app.comments = vec![Comment {
        short_id: "c".to_string(),
        comment_plain: "one two three four five six seven eight nine ten".to_string(),
        score: 1,
        depth: 0,
        commenting_user: "u".to_string(),
        is_deleted: false,
    }];
    app.ensure_wrapped_comments(12, 6);
    let lines = app.wrapped_comment_lines(0).expect("wrapped").clone();
    assert!(lines.len() > 1);
    for line in &lines {
        assert!(line.starts_with("  "));
        assert!(line.chars().count() <= 12);
    }
    let joined: Vec<String> = lines.iter().map(|l| l.trim().to_string()).collect();
    assert_eq!(joined.join(" "), "one two three four five six seven eight nine ten");
}

#[test]
fn hn_story_ids_are_decimal() {
    assert_eq!(pincer_cli::hn::hn_story_id("8863"), Ok(8863));
    assert_eq!(
        pincer_cli::hn::hn_story_id("abc"),
        Err("invalid digit found in string".to_string())
    );
}

#[test]
fn thread_walk_stops_after_its_budget() {
    let mut walk = HnWalk::new(vec![1, 2, 3], 3, 2);
    assert_eq!(walk.next_batch(), Some(vec![1, 2]));
    walk.deliver(vec![Some(item(1, "comment", "one", Some(vec![4]))), Some(item(2, "job", "x", None))]);
    assert_eq!(walk.next_batch(), Some(vec![4]));
    walk.deliver(vec![Some(item(4, "comment", "four", None))]);
    assert_eq!(walk.next_batch(), Some(vec![3]));
    walk.deliver(vec![Some(item(3, "comment", "three", Some(vec![5])))]);
    assert_eq!(walk.next_batch(), None);
    let found: Vec<(String, usize)> =
        walk.into_comments().iter().map(|c| (c.short_id.clone(), c.depth)).collect();
    assert_eq!(found, vec![("1".to_string(), 0), ("4".to_string(), 1), ("3".to_string(), 0)]);
}

#[test]
fn thread_walk_skips_missing_items() {
    let mut walk = HnWalk::new(vec![1, 2], 10, 5);
    assert_eq!(walk.next_batch(), Some(vec![1, 2]));
    walk.deliver(vec![None, Some(item(2, "comment", "two", None))]);
    assert_eq!(walk.next_batch(), None);
    assert_eq!(walk.into_comments().len(), 1);
}

fn deeper_tree() -> Vec<HnNode> {
    let leaf = |id: u64| HnNode::Fetched { item: item(id, "comment", "leaf", None), children: vec![] };
    vec![
        HnNode::Fetched {
            item: item(10, "comment", "a", Some(vec![11, 12, 13])),
            children: vec![
                leaf(11),
                HnNode::Fetched { item: item(12, "comment", "b", Some(vec![14])), children: vec![leaf(14)] },
                HnNode::Missing,
            ],
        },
        HnNode::Fetched { item: item(20, "story", "no", Some(vec![21])), children: vec![leaf(21)] },
        leaf(30),
        leaf(40),
    ]
}

fn node_by_id(nodes: &[HnNode], id: u64) -> Option<&HnNode> {
    for n in nodes {
        if let HnNode::Fetched { item, children } = n {
            if item.id == id {
                return Some(n);
            }
            if let Some(found) = node_by_id(children, id) {
                return Some(found);
            }
        }
    }
    None
}

fn walk_over(nodes: &[HnNode], kids: Vec<u64>, max: usize, batch: usize) -> Vec<(String, usize)> {
    let mut walk = HnWalk::new(kids, max, batch);
    while let Some(ids) = walk.next_batch() {
        let items = ids
            .iter()
            .map(|id| match node_by_id(nodes, *id) {
                Some(HnNode::Fetched { item, .. }) => Some(item.clone()),
                _ => None,
            })
            .collect();
        walk.deliver(items);
    }
    walk.into_comments().iter().map(|c| (c.short_id.clone(), c.depth)).collect()
}

#[test]
fn thread_walk_finds_what_flattening_finds() {
    let nodes = deeper_tree();
    for max in 0..8 {
        for batch in 1..4 {
            let walked = walk_over(&nodes, vec![10, 20, 30, 40], max, batch);
            let flat: Vec<(String, usize)> = flatten_thread_limited(&nodes, max)
                .iter()
                .map(|c| (c.short_id.clone(), c.depth))
                .collect();
            assert_eq!(walked, flat, "max {max}, batch {batch}");
        }
    }
    assert_eq!(
        walk_over(&nodes, vec![10, 20, 30, 40], 10, 2),
        vec![
            ("10".to_string(), 0),
            ("11".to_string(), 1),
            ("12".to_string(), 1),
            ("14".to_string(), 2),
            ("30".to_string(), 0),
            ("40".to_string(), 0),
        ]
    );
}

#[test]
fn list_title_counts_stories_in_infinite_mode() {
    let mut app = App::new();
    app.nav_mode = pincer_cli::app::NavMode::Infinite;
    app.page = 3;
    assert_eq!(list_title(&app), " claw \u{2014} Lobsters: Hottest (0 stories) ");
    app.stories = vec![story("A", 1, &[], "u"), story("B", 2, &[], "u")];
    assert_eq!(list_title(&app), " claw \u{2014} Lobsters: Hottest (2 stories) ");
}
