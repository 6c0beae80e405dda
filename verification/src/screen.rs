use vstd::prelude::*;

use crate::api::{feed_label, feed_source, string_views, Source, Story};
use crate::app::{searching, spaces, text_set, view_of, App, AppFlowState, NavMode, View as Screen};
use crate::markup::{byte_len, utf8_bytes};
use crate::text::{
    ascii_lower, ascii_lower_chars, chars_of, contains, contains_chars, decimal, join, join_chars,
    push_chars, push_decimal, push_signed_decimal, push_str, signed_decimal, starts_with_chars,
    string_of, views_of,
};

verus! {

/// How deep a comment thread is indented at most.
pub const MAX_THREAD_INDENT_LEVEL: usize = 6;

/// The title of the help overlay's frame.
pub const HELP_TITLE: &'static str = " Keybindings ";

/// The keybindings the help overlay lists.
pub const HELP_TEXT: &'static str = "Help\n\nList: j/k, g/G, Tab, r/F5, [page] / ]page[, PageUp/PageDown, Enter\nComments: j/k, g/G, / search, n next match, H high-score, z collapse, c permalink\nGlobal: o open story, b open thread, p profiling, ?/F1 help, q quit, Esc back";

// ---------------------------------------------------------------------------
// Colours
// ---------------------------------------------------------------------------

/// A terminal colour.
#[derive(Debug, Clone, Copy, PartialEq, Eq, Structural)]
pub enum Shade {
    White,
    Gray,
    Cyan,
    Yellow,
    LightCyan,
    Blue,
    Black,
    DarkGray,
    Rgb(u8, u8, u8),
}

/// The colours the screen is drawn in.
#[derive(Debug, Clone, Copy, PartialEq, Eq, Structural)]
pub struct Palette {
    pub text: Shade,
    pub muted: Shade,
    pub accent: Shade,
    pub warning: Shade,
    pub tag: Shade,
    pub selected_bg: Shade,
    pub selected_user_fg: Shade,
    pub selected_user_bg: Shade,
    pub banner_bg: Shade,
    pub banner_fg: Shade,
}

/// The background of the help overlay.
pub open spec fn overlay_background() -> Shade {
    Shade::Rgb(17, 21, 28)
}

pub fn help_background() -> (r: Shade)
    ensures
        r == overlay_background(),
{
    Shade::Rgb(17, 21, 28)
}

/// The palette: high contrast swaps the tag, selection and banner colours for starker ones.
pub open spec fn palette_for(high_contrast: bool) -> Palette {
    if high_contrast {
        Palette {
            text: Shade::White,
            muted: Shade::Gray,
            accent: Shade::Cyan,
            warning: Shade::Yellow,
            tag: Shade::LightCyan,
            selected_bg: Shade::Blue,
            selected_user_fg: Shade::Black,
            selected_user_bg: Shade::White,
            banner_bg: Shade::White,
            banner_fg: Shade::Black,
        }
    } else {
        Palette {
            text: Shade::White,
            muted: Shade::Gray,
            accent: Shade::Cyan,
            warning: Shade::Yellow,
            tag: Shade::Cyan,
            selected_bg: Shade::Rgb(40, 40, 40),
            selected_user_fg: Shade::Black,
            selected_user_bg: Shade::Yellow,
            banner_bg: Shade::DarkGray,
            banner_fg: Shade::White,
        }
    }
}

impl Palette {
    pub fn from_app(app: &App) -> (r: Self)
        ensures
            r == palette_for(app.high_contrast),
    {
        if app.high_contrast {
            Palette {
                text: Shade::White,
                muted: Shade::Gray,
                accent: Shade::Cyan,
                warning: Shade::Yellow,
                tag: Shade::LightCyan,
                selected_bg: Shade::Blue,
                selected_user_fg: Shade::Black,
                selected_user_bg: Shade::White,
                banner_bg: Shade::White,
                banner_fg: Shade::Black,
            }
        } else {
            Palette {
                text: Shade::White,
                muted: Shade::Gray,
                accent: Shade::Cyan,
                warning: Shade::Yellow,
                tag: Shade::Cyan,
                selected_bg: Shade::Rgb(40, 40, 40),
                selected_user_fg: Shade::Black,
                selected_user_bg: Shade::Yellow,
                banner_bg: Shade::DarkGray,
                banner_fg: Shade::White,
            }
        }
    }
}

// ---------------------------------------------------------------------------
// Banner
// ---------------------------------------------------------------------------

pub open spec fn chip_label(source: Source) -> Seq<char> {
    match source {
        Source::Lobsters => " [L] LOBSTERS "@,
        Source::HackerNews => " [H] HN "@,
    }
}

/// The chip's background: white in high contrast, else cyan for Lobsters and yellow for
/// Hacker News.
pub open spec fn chip_background(source: Source, high_contrast: bool) -> Shade {
    if high_contrast {
        Shade::White
    } else {
        match source {
            Source::Lobsters => Shade::Cyan,
            Source::HackerNews => Shade::Yellow,
        }
    }
}

/// The banner's source chip: its label and background; its text is black.
pub fn source_chip(app: &App) -> (r: (&'static str, Shade))
    ensures
        r.0@ == chip_label(feed_source(app.feed)),
        r.1 == chip_background(feed_source(app.feed), app.high_contrast),
{
    match app.feed.source() {
        Source::Lobsters => (" [L] LOBSTERS ", if app.high_contrast {
            Shade::White
        } else {
            Shade::Cyan
        }),
        Source::HackerNews => (" [H] HN ", if app.high_contrast {
            Shade::White
        } else {
            Shade::Yellow
        }),
    }
}

// ---------------------------------------------------------------------------
// Story list
// ---------------------------------------------------------------------------

/// The title of the story list's frame: the feed, then the page in paged mode, or how
/// many stories are loaded in infinite mode.
pub open spec fn list_title_text(feed_name: Seq<char>, nav: NavMode, page: u32, count: nat) -> Seq<char> {
    " claw \u{2014} "@ + feed_name + match nav {
        NavMode::Paged => " (page "@ + decimal(page as nat) + ") "@,
        NavMode::Infinite => " ("@ + decimal(count) + " stories) "@,
    }
}

/// The title of the story list's frame.
pub fn list_title(app: &App) -> (r: String)
    ensures
        r@ == list_title_text(feed_label(app.feed), app.nav_mode, app.page, app.stories@.len()),
{
    let mut out: Vec<char> = Vec::new();
    push_str(&mut out, " claw \u{2014} ");
    push_str(&mut out, app.feed.label());
    match app.nav_mode {
        NavMode::Paged => {
            push_str(&mut out, " (page ");
            push_decimal(&mut out, app.page as u128);
            push_str(&mut out, ") ");
        },
        NavMode::Infinite => {
            push_str(&mut out, " (");
            push_decimal(&mut out, app.stories.len() as u128);
            push_str(&mut out, " stories) ");
        },
    }
    string_of(&out)
}

/// What the story list says when it is empty.
pub fn empty_list_message() -> (r: &'static str)
    ensures
        r@ == "No stories available. Press r to refresh."@,
{
    "No stories available. Press r to refresh."
}

/// What the comments pane says while the first comments load.
pub fn loading_comments_message() -> (r: &'static str)
    ensures
        r@ == "Loading comments..."@,
{
    "Loading comments..."
}

/// A score right-aligned in three columns, then a space.
pub open spec fn score_label(score: i32) -> Seq<char> {
    let d = signed_decimal(score as int);
    if d.len() < 3 {
        Seq::new((3 - d.len()) as nat, |i: int| ' ') + d + " "@
    } else {
        d + " "@
    }
}

/// Which optional part of a story row a text is.
#[derive(Debug, Clone, Copy, PartialEq, Eq, Structural)]
pub enum Extra {
    Comments,
    Tags,
    User,
}

/// The optional parts of a story row, most important first: comment count, tags, user.
pub open spec fn row_extras(s: Story) -> Seq<(Seq<char>, Extra)> {
    seq![
        ("  ("@ + signed_decimal(s.comment_count as int) + "c)"@, Extra::Comments),
        ("  ["@ + join(string_views(s.tags@), ","@) + "]"@, Extra::Tags),
        ("  by "@ + s.submitter_user@, Extra::User),
    ]
}

/// The extras that fit, in order, in `room` bytes: each one that fits in what is left is
/// kept.
pub open spec fn fit_extras(extras: Seq<(Seq<char>, Extra)>, room: int) -> Seq<(Seq<char>, Extra)>
    decreases extras.len(),
{
    if extras.len() == 0 {
        seq![]
    } else if utf8_bytes(extras[0].0) <= room {
        seq![extras[0]] + fit_extras(extras.drop_first(), room - utf8_bytes(extras[0].0))
    } else {
        fit_extras(extras.drop_first(), room)
    }
}

pub open spec fn extra_views(v: Seq<(String, Extra)>) -> Seq<(Seq<char>, Extra)> {
    v.map_values(|e: (String, Extra)| (e.0@, e.1))
}

/// One row of the story list, in parts: the score and title always, then the extras that
/// fit in the frame.
pub struct StoryRow {
    pub score: String,
    pub title: String,
    pub extras: Vec<(String, Extra)>,
}

pub open spec fn minus_or_zero(a: int, b: int) -> int {
    if a > b {
        a - b
    } else {
        0
    }
}

fn score_text(score: i32) -> (r: Vec<char>)
    ensures
        r@ == score_label(score),
{
    let mut d: Vec<char> = Vec::new();
    push_signed_decimal(&mut d, score as i64);
    let mut out: Vec<char> = Vec::new();
    if d.len() < 3 {
        let pad = spaces(3 - d.len());
        push_chars(&mut out, &pad);
    }
    push_chars(&mut out, &d);
    push_str(&mut out, " ");
    out
}

fn tags_text(tags: &Vec<String>) -> (r: Vec<char>)
    ensures
        r@ == "  ["@ + join(string_views(tags@), ","@) + "]"@,
{
    let mut parts: Vec<Vec<char>> = Vec::new();
    for i in 0..tags.len()
        invariant
            views_of(parts@) == string_views(tags@).take(i as int),
    {
        let piece = chars_of(tags[i].as_str());
        assert(piece@ == string_views(tags@)[i as int]);
        let ghost before = parts@;
        parts.push(piece);
        assert(views_of(parts@) =~= views_of(before).push(piece@));
        assert(string_views(tags@).take(i + 1) =~= string_views(tags@).take(i as int).push(
            string_views(tags@)[i as int],
        ));
    }
    assert(string_views(tags@).take(tags@.len() as int) =~= string_views(tags@));
    let joined = join_chars(&parts, &chars_of(","));
    let mut out: Vec<char> = Vec::new();
    push_str(&mut out, "  [");
    push_chars(&mut out, &joined);
    push_str(&mut out, "]");
    out
}

/// Lays out one story row in a frame `area_width` columns wide, borders included.
pub fn story_row(story: &Story, area_width: u16) -> (r: StoryRow)
    ensures
        r.score@ == score_label(story.score),
        r.title@ == story.title@,
        extra_views(r.extras@) == fit_extras(
            row_extras(*story),
            minus_or_zero(
                minus_or_zero(area_width as int, 2),
                (utf8_bytes(score_label(story.score)) + utf8_bytes(story.title@)) as int,
            ),
        ),
{
    let inner_width: usize = if area_width >= 2 {
        (area_width - 2) as usize
    } else {
        0
    };
    let score = string_of(&score_text(story.score));
    let title = story.title.clone();
    let used: u128 = byte_len(score.as_str()) as u128 + byte_len(title.as_str()) as u128;
    let mut remaining: u128 = if (inner_width as u128) > used {
        inner_width as u128 - used
    } else {
        0
    };
    let mut c: Vec<char> = Vec::new();
    push_str(&mut c, "  (");
    push_signed_decimal(&mut c, story.comment_count as i64);
    push_str(&mut c, "c)");
    let mut u: Vec<char> = Vec::new();
    push_str(&mut u, "  by ");
    push_str(&mut u, story.submitter_user.as_str());
    let candidates: Vec<(String, Extra)> = vec![
        (string_of(&c), Extra::Comments),
        (string_of(&tags_text(&story.tags)), Extra::Tags),
        (string_of(&u), Extra::User),
    ];
    let ghost all = row_extras(*story);
    assert(extra_views(candidates@) =~= all);
    let mut extras: Vec<(String, Extra)> = Vec::new();
    let ghost room0 = remaining as int;
    assert(all.skip(0) =~= all);
    assert(extra_views(extras@) + fit_extras(all.skip(0), room0) =~= fit_extras(all, room0));
    for i in 0..candidates.len()
        invariant
            candidates@.len() == 3,
            extra_views(candidates@) == all,
            fit_extras(all, room0) == extra_views(extras@) + fit_extras(
                all.skip(i as int),
                remaining as int,
            ),
    {
        let n = byte_len(candidates[i].0.as_str());
        assert(all.skip(i as int).drop_first() =~= all.skip(i + 1));
        assert(all.skip(i as int)[0] == (candidates@[i as int].0@, candidates@[i as int].1));
        if (n as u128) <= remaining {
            let text = string_of(&chars_of(candidates[i].0.as_str()));
            let ghost before = extras@;
            extras.push((text, candidates[i].1));
            remaining = remaining - n as u128;
            assert(extra_views(extras@) =~= extra_views(before) + seq![
                (candidates@[i as int].0@, candidates@[i as int].1),
            ]);
        }
    }
    assert(all.skip(3) =~= Seq::<(Seq<char>, Extra)>::empty());
    assert(extra_views(extras@) + fit_extras(all.skip(3), remaining as int) =~= extra_views(extras@));
    StoryRow { score, title, extras }
}

// ---------------------------------------------------------------------------
// Comments
// ---------------------------------------------------------------------------

/// The title of the comments frame: the loaded story's title, else the selected story's,
/// else `comments`, with a space on each side.
pub open spec fn comments_title_text(a: App) -> Seq<char> {
    if a.story_detail_title@.len() > 0 {
        " "@ + a.story_detail_title@ + " "@
    } else if a.selected < a.stories@.len() {
        " "@ + a.stories@[a.selected as int].title@ + " "@
    } else {
        " comments "@
    }
}

pub fn comments_title(app: &App) -> (r: String)
    ensures
        r@ == comments_title_text(*app),
{
    let mut out: Vec<char> = Vec::new();
    let detail_title = chars_of(app.story_detail_title.as_str());
    if detail_title.len() > 0 {
        push_str(&mut out, " ");
        push_chars(&mut out, &detail_title);
        push_str(&mut out, " ");
    } else {
        match app.selected_story() {
            Some(s) => {
                push_str(&mut out, " ");
                push_str(&mut out, s.title.as_str());
                push_str(&mut out, " ");
            },
            None => push_str(&mut out, " comments "),
        }
    }
    string_of(&out)
}

/// Whether the comments pane shows only that comments are loading.
pub fn comments_pending(app: &App) -> (r: bool)
    ensures
        r == (app.comments_loading && app.comments@.len() == 0),
{
    app.comments_loading && app.comments.len() == 0
}

/// The width comment bodies wrap to: the frame's inside, less a scrollbar column when
/// there are comments, and at least one.
pub fn comments_inner_width(app: &App, area_width: u16) -> (r: usize)
    ensures
        r == ({
            let used: int = if app.comments@.len() > 0 {
                3
            } else {
                2
            };
            if area_width as int - used >= 1 {
                area_width as int - used
            } else {
                1
            }
        }),
{
    let used: u16 = if app.comments.len() > 0 {
        3
    } else {
        2
    };
    let w = area_width.saturating_sub(used);
    if w < 1 {
        1
    } else {
        w as usize
    }
}

/// What the comments pane says when no comment is shown.
pub fn no_comments_message(app: &App) -> (r: &'static str)
    ensures
        r@ == if app.active_search is Some {
            "No matching comments for current search."@
        } else {
            "No comments available for this story."@
        },
{
    if app.active_search.is_some() {
        "No matching comments for current search."
    } else {
        "No comments available for this story."
    }
}

/// One comment of the comments pane, in parts.
pub struct CommentRow {
    pub selected: bool,
    pub marker: &'static str,
    pub indent: String,
    pub prefix: &'static str,
    pub user: String,
    pub score: String,
    pub collapsed: bool,
    pub body: Vec<String>,
}

pub open spec fn depth_indent(depth: usize) -> Seq<char> {
    Seq::new(
        (2 * (if depth < MAX_THREAD_INDENT_LEVEL {
            depth
        } else {
            MAX_THREAD_INDENT_LEVEL
        })) as nat,
        |i: int| ' ',
    )
}

/// Lays out the comment at `index`: a marker on the selected one, the thread indent, an
/// arrow on replies, the user and score, then the wrapped body, or a collapsed mark.
pub fn comment_row(app: &App, index: usize) -> (r: CommentRow)
    requires
        index < app.comments@.len(),
    ensures
        ({
            let c = app.comments@[index as int];
            let collapsed = text_set(app.collapsed_ids()).contains(c.short_id@);
            &&& r.selected == (index == app.comment_selected)
            &&& r.marker@ == if r.selected {
                "\u{25b6} "@
            } else {
                "  "@
            }
            &&& r.indent@ == depth_indent(c.depth)
            &&& r.prefix@ == if c.depth == 0 {
                ""@
            } else {
                "\u{21b3} "@
            }
            &&& r.user@ == " "@ + c.commenting_user@ + " "@
            &&& r.score@ == "("@ + signed_decimal(c.score as int) + ")"@
            &&& r.collapsed == collapsed
            &&& collapsed ==> string_views(r.body@) == seq![depth_indent(c.depth) + "  [collapsed]"@]
            &&& !collapsed ==> string_views(r.body@) == if index < app.wrapped_comments@.len() {
                string_views(app.wrapped_comments@[index as int]@)
            } else {
                Seq::empty()
            }
        }),
{
    let c = &app.comments[index];
    let selected = index == app.comment_selected;
    let level = if c.depth < MAX_THREAD_INDENT_LEVEL {
        c.depth
    } else {
        MAX_THREAD_INDENT_LEVEL
    };
    let indent_chars = spaces(2 * level);
    assert(indent_chars@ =~= depth_indent(c.depth));
    let mut user: Vec<char> = Vec::new();
    push_str(&mut user, " ");
    push_str(&mut user, c.commenting_user.as_str());
    push_str(&mut user, " ");
    let mut score: Vec<char> = Vec::new();
    push_str(&mut score, "(");
    push_signed_decimal(&mut score, c.score as i64);
    push_str(&mut score, ")");
    let collapsed = app.is_comment_collapsed(index);
    let mut body: Vec<String> = Vec::new();
    if collapsed {
        let mut line: Vec<char> = Vec::new();
        push_chars(&mut line, &indent_chars);
        push_str(&mut line, "  [collapsed]");
        body.push(string_of(&line));
        assert(string_views(body@) =~= seq![depth_indent(c.depth) + "  [collapsed]"@]);
    } else {
        match app.wrapped_comment_lines(index) {
            Some(lines) => {
                for i in 0..lines.len()
                    invariant
                        string_views(body@) == string_views(lines@).take(i as int),
                {
                    let line = string_of(&chars_of(lines[i].as_str()));
                    assert(line@ == string_views(lines@)[i as int]);
                    let ghost before = body@;
                    body.push(line);
                    assert(string_views(body@) =~= string_views(before).push(line@));
                    assert(string_views(lines@).take(i + 1) =~= string_views(lines@).take(
                        i as int,
                    ).push(string_views(lines@)[i as int]));
                }
                assert(string_views(lines@).take(lines@.len() as int) =~= string_views(lines@));
            },
            None => {
                assert(string_views(body@) =~= Seq::<Seq<char>>::empty());
            },
        }
    }
    CommentRow {
        selected,
        marker: if selected {
            "\u{25b6} "
        } else {
            "  "
        },
        indent: string_of(&indent_chars),
        prefix: if c.depth == 0 {
            ""
        } else {
            "\u{21b3} "
        },
        user: string_of(&user),
        score: string_of(&score),
        collapsed,
        body,
    }
}

// ---------------------------------------------------------------------------
// Status bar
// ---------------------------------------------------------------------------

pub open spec fn list_help() -> Seq<char> {
    "j/k move \u{2022} enter=comments \u{2022} o=open link \u{2022} tab=switch feed \u{2022} [ ] pgup/pgdn=page \u{2022} r=refresh (F5) \u{2022} ?=help (F1) \u{2022} q=quit"@
}

pub open spec fn comments_help() -> Seq<char> {
    "j/k move \u{2022} /=search \u{2022} n=next match \u{2022} H=high-score \u{2022} z=collapse \u{2022} c=comment link \u{2022} b=open thread \u{2022} esc=back"@
}

/// Whether a status line reports an error: it says `error`, in any ASCII case.
pub open spec fn reports_error(status: Seq<char>) -> bool {
    contains(ascii_lower(status), "error"@)
}

/// The help text of the status bar: the view's keys, or the query being typed.
pub open spec fn help_text(a: App) -> Seq<char> {
    if searching(a.flow) {
        "SEARCH: "@ + a.search_input@ + " (Enter apply, Esc cancel)"@
    } else if view_of(a.flow) == Screen::List {
        list_help()
    } else {
        comments_help()
    }
}

/// The recovery hint after the help text, if any, by what is going on.
pub open spec fn hint_text(a: App) -> Seq<char> {
    if searching(a.flow) {
        "Recovery: Esc cancels search."@
    } else if crate::app::help_visible(a.flow) {
        "Recovery: Press ? or Esc to close help."@
    } else if a.comments_loading {
        "Loading comments\u{2026} wait or press Esc to return."@
    } else if a.stories_loading {
        "Loading stories\u{2026} please wait."@
    } else if reports_error(a.status@) {
        "Recovery: press r to retry. Esc returns to list."@
    } else {
        ""@
    }
}

/// The status message, with frame count and last load time appended when profiling.
pub open spec fn status_text(a: App) -> Seq<char> {
    if a.profiling_enabled {
        a.status@ + " | frames="@ + decimal(a.frame_count as nat) + " last_load="@ + match a.last_comments_load_ms {
            Some(ms) => decimal(ms as nat) + "ms"@,
            None => "n/a"@,
        }
    } else {
        a.status@
    }
}

/// The state tag the status line opens with.
pub open spec fn state_tag(a: App) -> Seq<char> {
    if reports_error(a.status@) {
        "[ERROR]"@
    } else if a.comments_loading || a.stories_loading || (a.status@.len() >= "Loading"@.len()
        && a.status@.take("Loading"@.len() as int) == "Loading"@) {
        "[LOADING]"@
    } else {
        "[INFO]"@
    }
}

pub open spec fn source_token(source: Source) -> Seq<char> {
    match source {
        Source::Lobsters => "SRC:L"@,
        Source::HackerNews => "SRC:H"@,
    }
}

/// The two lines of the status bar: state, source and message; then help and hint.
pub open spec fn status_bar_text(a: App) -> (Seq<char>, Seq<char>) {
    let hint = hint_text(a);
    (
        state_tag(a) + " ["@ + source_token(feed_source(a.feed)) + "] "@ + status_text(a),
        if hint.len() == 0 {
            help_text(a)
        } else {
            help_text(a) + " | "@ + hint
        },
    )
}

fn state_and_message(app: &App, is_error: bool) -> (r: Vec<char>)
    requires
        is_error == reports_error(app.status@),
    ensures
        r@ == status_bar_text(*app).0,
{
    let status = chars_of(app.status.as_str());
    let mut out: Vec<char> = Vec::new();
    if is_error {
        push_str(&mut out, "[ERROR]");
    } else if app.comments_loading || app.stories_loading || starts_with_chars(&status, &chars_of("Loading")) {
        push_str(&mut out, "[LOADING]");
    } else {
        push_str(&mut out, "[INFO]");
    }
    push_str(&mut out, " [");
    push_str(
        &mut out,
        match app.feed.source() {
            Source::Lobsters => "SRC:L",
            Source::HackerNews => "SRC:H",
        },
    );
    push_str(&mut out, "] ");
    push_chars(&mut out, &status);
    if app.profiling_enabled {
        push_str(&mut out, " | frames=");
        push_decimal(&mut out, app.frame_count as u128);
        push_str(&mut out, " last_load=");
        match app.last_comments_load_ms {
            Some(ms) => {
                push_decimal(&mut out, ms);
                push_str(&mut out, "ms");
            },
            None => push_str(&mut out, "n/a"),
        }
    }
    out
}

fn help_and_hint(app: &App, is_error: bool) -> (r: Vec<char>)
    requires
        is_error == reports_error(app.status@),
    ensures
        r@ == status_bar_text(*app).1,
{
    let mut out: Vec<char> = Vec::new();
    let search_mode = app.is_search_mode();
    if search_mode {
        push_str(&mut out, "SEARCH: ");
        push_str(&mut out, app.search_input.as_str());
        push_str(&mut out, " (Enter apply, Esc cancel)");
    } else if app.current_view() == Screen::List {
        push_str(
            &mut out,
            "j/k move \u{2022} enter=comments \u{2022} o=open link \u{2022} tab=switch feed \u{2022} [ ] pgup/pgdn=page \u{2022} r=refresh (F5) \u{2022} ?=help (F1) \u{2022} q=quit",
        );
    } else {
        push_str(
            &mut out,
            "j/k move \u{2022} /=search \u{2022} n=next match \u{2022} H=high-score \u{2022} z=collapse \u{2022} c=comment link \u{2022} b=open thread \u{2022} esc=back",
        );
    }
    let hint: &str = if search_mode {
        "Recovery: Esc cancels search."
    } else if app.is_help_visible() {
        "Recovery: Press ? or Esc to close help."
    } else if app.comments_loading {
        "Loading comments\u{2026} wait or press Esc to return."
    } else if app.stories_loading {
        "Loading stories\u{2026} please wait."
    } else if is_error {
        "Recovery: press r to retry. Esc returns to list."
    } else {
        ""
    };
    let hint_chars = chars_of(hint);
    if hint_chars.len() > 0 {
        push_str(&mut out, " | ");
        push_chars(&mut out, &hint_chars);
    }
    proof {
        reveal_strlit("");
    }
    out
}

/// The two lines of the status bar (see `status_bar_text`).
pub fn status_bar(app: &App) -> (r: (String, String))
    ensures
        r.0@ == status_bar_text(*app).0,
        r.1@ == status_bar_text(*app).1,
{
    let lowered = ascii_lower_chars(&chars_of(app.status.as_str()));
    let is_error = contains_chars(&lowered, &chars_of("error"));
    (string_of(&state_and_message(app, is_error)), string_of(&help_and_hint(app, is_error)))
}

} // verus!
