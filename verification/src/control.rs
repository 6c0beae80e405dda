use vstd::prelude::*;

use crate::api::{
    comment_permalink_url, feed_cycle, comment_views, copy_stories, feed_source, permalink, story_views, Feed, Source,
    Story, StoryDetail, StoryView,
};
use crate::app::{
    feed_set, find, help_visible, loaded_status, loading_status, next_version, sat_inc, searching,
    view_of, collapse_toggled, drop_feed, help_toggled, insert_newest, jumped_bottom, jumped_top,
    min_usize, moved_selection, moved_to_high_score, moved_to_next_match, search_applied, search_cleared,
    search_started, stories_reset, feed_invalidated, without, lemma_index_of, App, AppFlowState, NavMode, COMMENTS_CACHE_CAPACITY,
    STORIES_CACHE_CAPACITY,
};
use crate::app::View as Screen;
use crate::cache::{CachedStories, Freshness};
use crate::keymap::{binding, search_binding, KeyAction, KeyContext, KeyInput, Keymap, KeymapPreset};
use crate::settings::RuntimeSettings;
use crate::state::PersistedState;
use crate::text::{
    ascii_lower, ascii_lower_chars, chars_of, contains, contains_chars, decimal, owned, push_decimal,
    push_str, string_of,
};

verus! {

// ---------------------------------------------------------------------------
// What a key asks for
// ---------------------------------------------------------------------------

/// What a key press asks the app to do.
#[derive(Debug, Clone, Copy, PartialEq, Eq, Structural)]
pub enum Command {
    /// Nothing: the key is not bound here, or the action waits for loading to finish.
    Ignore,
    /// Close the help overlay.
    CloseHelp,
    /// Quit from the help overlay.
    QuitFromHelp,
    /// Leave search mode without applying the query.
    SearchCancel,
    /// Apply the typed query.
    SearchApply,
    /// Type a character into the query.
    SearchType(char),
    /// Perform a list or comments action.
    Act(KeyAction),
}

/// Actions that stay available while the story list is loading.
pub open spec fn allowed_while_loading(action: KeyAction, nav_mode: NavMode) -> bool {
    ||| action == KeyAction::Quit
    ||| action == KeyAction::ToggleHelp
    ||| action == KeyAction::Escape
    ||| action == KeyAction::ToggleProfiling
    ||| (nav_mode == NavMode::Infinite && (action == KeyAction::MoveDown || action
        == KeyAction::MoveUp))
}

/// The command a key gives: the help overlay takes `Esc`, `?`, `F1` and `q` only; search mode in
/// the comments view takes `Esc` to cancel and `Enter` to apply, types any character, and
/// does nothing on other keys (`Backspace`, bound everywhere to leaving a view, among
/// them); elsewhere the view's binding acts, unless the list is loading and the action must
/// wait.
pub open spec fn command_for(
    flow: AppFlowState,
    stories_loading: bool,
    nav_mode: NavMode,
    preset: KeymapPreset,
    key: KeyInput,
) -> Command {
    if help_visible(flow) {
        match key {
            KeyInput::Esc => Command::CloseHelp,
            KeyInput::Char(c) => if c == '?' {
                Command::CloseHelp
            } else if c == 'q' {
                Command::QuitFromHelp
            } else {
                Command::Ignore
            },
            KeyInput::F(1) => Command::CloseHelp,
            _ => Command::Ignore,
        }
    } else if searching(flow) && view_of(flow) == Screen::Comments {
        match search_binding(key) {
            Some(KeyAction::SearchCancel) => Command::SearchCancel,
            Some(KeyAction::SearchApply) => Command::SearchApply,
            _ => match key {
                KeyInput::Char(c) => Command::SearchType(c),
                _ => Command::Ignore,
            },
        }
    } else {
        let context = if view_of(flow) == Screen::List {
            KeyContext::List
        } else {
            KeyContext::Comments
        };
        match binding(preset, context, key) {
            None => Command::Ignore,
            Some(action) => if stories_loading && view_of(flow) == Screen::List
                && !allowed_while_loading(action, nav_mode) {
                Command::Ignore
            } else {
                Command::Act(action)
            },
        }
    }
}

/// The command `key` gives in the app's present state.
pub fn key_command(app: &App, key: KeyInput, keymap: Keymap) -> (r: Command)
    ensures
        r == command_for(app.flow, app.stories_loading, app.nav_mode, keymap.preset, key),
{
    if app.is_help_visible() {
        return match key {
            KeyInput::Esc => Command::CloseHelp,
            KeyInput::Char(c) => if c == '?' {
                Command::CloseHelp
            } else if c == 'q' {
                Command::QuitFromHelp
            } else {
                Command::Ignore
            },
            KeyInput::F(1) => Command::CloseHelp,
            _ => Command::Ignore,
        };
    }
    if app.is_search_mode() && app.current_view() == Screen::Comments {
        return match Keymap::search_action(key) {
            Some(KeyAction::SearchCancel) => Command::SearchCancel,
            Some(KeyAction::SearchApply) => Command::SearchApply,
            _ => match key {
                KeyInput::Char(c) => Command::SearchType(c),
                _ => Command::Ignore,
            },
        };
    }
    let view = app.current_view();
    let context = if view == Screen::List {
        KeyContext::List
    } else {
        KeyContext::Comments
    };
    match keymap.action_for(context, key) {
        None => Command::Ignore,
        Some(action) => {
            let allowed = match action {
                KeyAction::Quit | KeyAction::ToggleHelp | KeyAction::Escape
                | KeyAction::ToggleProfiling => true,
                KeyAction::MoveDown | KeyAction::MoveUp => app.nav_mode == NavMode::Infinite,
                _ => false,
            };
            if app.stories_loading && view == Screen::List && !allowed {
                Command::Ignore
            } else {
                Command::Act(action)
            }
        },
    }
}

// ---------------------------------------------------------------------------
// Refreshing the story list
// ---------------------------------------------------------------------------

/// A fetch of `count` pages of `feed` from `start_page` on, to run in the background; its
/// results carry `request_id`.
#[derive(Debug, Clone, Copy, PartialEq, Eq, Structural)]
pub struct StoriesFetch {
    pub request_id: u64,
    pub feed: Feed,
    pub start_page: u32,
    pub count: u32,
}

/// A background prefetch of pages `start_page` to `last_page` of `feed`, which stops at
/// the first page that fails or comes back empty.
#[derive(Debug, Clone, Copy, PartialEq, Eq, Structural)]
pub struct PrefetchJob {
    pub feed: Feed,
    pub start_page: u32,
    pub last_page: u32,
}

/// The background work a refresh asks for.
#[derive(Debug, Clone, Copy, PartialEq, Eq, Structural)]
pub struct RefreshPlan {
    pub fetch: Option<StoriesFetch>,
    pub prefetch: Option<PrefetchJob>,
}

/// The prefetch that starting one for `feed` gives: none when one was already started.
pub open spec fn prefetch_job_for(a: App, feed: Feed, start_page: u32, max_pages: u32) -> Option<
    PrefetchJob,
> {
    job_if_new(feed_set(a.prefetch_started_feeds@), feed, start_page, max_pages)
}

/// A prefetch of `feed` from `start_page`, unless `started` holds it.
pub open spec fn job_if_new(started: Set<Feed>, feed: Feed, start_page: u32, max_pages: u32) -> Option<
    PrefetchJob,
> {
    if started.contains(feed) {
        None
    } else {
        Some(
            PrefetchJob {
                feed,
                start_page,
                last_page: if max_pages < start_page {
                    start_page
                } else {
                    max_pages
                },
            },
        )
    }
}

/// `b` is `a` with `feed` marked as prefetching.
pub open spec fn prefetch_marked(a: App, b: App, feed: Feed) -> bool {
    &&& feed_set(b.prefetch_started_feeds@) == feed_set(a.prefetch_started_feeds@).insert(feed)
    &&& b == App { prefetch_started_feeds: b.prefetch_started_feeds, ..a }
}

/// Starts a background prefetch of `feed` from `start_page` unless one was started.
pub fn ensure_feed_prefetch(app: &mut App, feed: Feed, start_page: u32, prefetch_max_pages: u32) -> (r: Option<PrefetchJob>)
    requires
        old(app).wf(),
    ensures
        final(app).wf(),
        r == prefetch_job_for(*old(app), feed, start_page, prefetch_max_pages),
        prefetch_marked(*old(app), *final(app), feed),
{
    if !app.begin_feed_prefetch(feed) {
        return None;
    }
    let last_page = if prefetch_max_pages < start_page {
        start_page
    } else {
        prefetch_max_pages
    };
    Some(PrefetchJob { feed, start_page, last_page })
}

/// How many pages a refresh fetches: an empty infinite list of a Lobsters feed loads four
/// pages at once; anything else one.
pub open spec fn refresh_count(a: App) -> u32 {
    if a.nav_mode == NavMode::Infinite && a.stories@.len() == 0 {
        if feed_source(a.feed) == Source::HackerNews {
            1
        } else {
            4
        }
    } else {
        1
    }
}

pub open spec fn cached_status(n: nat) -> Seq<char> {
    "Loaded "@ + decimal(n) + " stories (cached)"@
}

/// `b` is `a` showing the cached stories `held`: appended in infinite mode, in place of the
/// list, with the selection at the top, otherwise.
pub open spec fn served(a: App, b: App, held: Seq<StoryView>) -> bool {
    if a.nav_mode == NavMode::Infinite {
        &&& story_views(b.stories@) == story_views(a.stories@) + held
        &&& b.status@ == loaded_status(b.stories@.len())
        &&& b == App {
            stories: b.stories,
            status: b.status,
            stories_version: next_version(a.stories_version),
            needs_redraw: true,
            ..a
        }
    } else {
        &&& story_views(b.stories@) == held
        &&& b.status@ == cached_status(held.len())
        &&& b == App { stories: b.stories, selected: 0, status: b.status, ..a }
    }
}

/// Serves cached stories: appended in infinite mode, replacing the list otherwise.
fn serve_cached(app: &mut App, cached: CachedStories)
    ensures
        served(*old(app), *final(app), cached.held()),
{
    let ghost held = cached.held();
    let stories = cached.into_stories();
    if app.nav_mode == NavMode::Infinite {
        let ghost before = app.stories@;
        app.append_stories(stories);
        assert(story_views(app.stories@) =~= story_views(before) + held);
    } else {
        app.stories = stories;
        app.selected = 0;
        let mut out: Vec<char> = Vec::new();
        push_str(&mut out, "Loaded ");
        push_decimal(&mut out, app.stories.len() as u128);
        push_str(&mut out, " stories (cached)");
        app.status = string_of(&out);
    }
}

/// What a refresh did, given the cached page's freshness when deciding whether to serve it
/// (`first`) and when deciding whether to refresh it in the background (`second`):
/// - a fresh cached page is served, a prefetch of the feed from page two is started, and
///   nothing is fetched;
/// - a stale but usable one is served and refreshed in the background;
/// - while a single-page load runs, nothing more is fetched;
/// - otherwise the pages are fetched, with the list marked as loading.
pub open spec fn refresh_post(
    a: App,
    b: App,
    r: RefreshPlan,
    use_cache: bool,
    max_pages: u32,
    first: Freshness,
    second: Freshness,
) -> bool {
    exists|m: App|
        #![trigger refresh_rest(a, m, b, r, use_cache, max_pages, first, second)]
        refresh_served(a, m, serves_cached(a, use_cache, first)) && refresh_rest(
            a,
            m,
            b,
            r,
            use_cache,
            max_pages,
            first,
            second,
        )
}

/// Whether the refresh serves the cached page first.
pub open spec fn serves_cached(a: App, use_cache: bool, first: Freshness) -> bool {
    &&& use_cache
    &&& refresh_count(a) == 1
    &&& find(a.stories_cache@, (a.feed, a.page)) is Some
    &&& first != Freshness::Expired
}

/// The rest of a refresh, from `m`, the state after any cached page was served.
pub open spec fn refresh_rest(
    a: App,
    m: App,
    b: App,
    r: RefreshPlan,
    use_cache: bool,
    max_pages: u32,
    first: Freshness,
    second: Freshness,
) -> bool {
    let count = refresh_count(a);
    after_serve(
        m,
        b,
        r,
        count,
        serves_cached(a, use_cache, first) && first == Freshness::Fresh,
        use_cache && count == 1 && find(a.stories_cache@, (a.feed, a.page)) is Some && second
            == Freshness::StaleButUsable,
        max_pages,
    )
}

/// From `m`: a fresh page served only starts a prefetch; a running single-page load
/// stops the refresh; otherwise `count` pages are fetched, quietly in the background when
/// `background`, else with the list marked as loading.
pub open spec fn after_serve(
    m: App,
    b: App,
    r: RefreshPlan,
    count: u32,
    fresh_served: bool,
    background: bool,
    max_pages: u32,
) -> bool {
    if fresh_served {
        &&& r == RefreshPlan { fetch: None, prefetch: prefetch_job_for(m, m.feed, 2, max_pages) }
        &&& prefetch_marked(m, b, m.feed)
    } else if m.stories_loading && count == 1 {
        &&& r == RefreshPlan { fetch: None, prefetch: None }
        &&& b == m
    } else {
        let fetch = StoriesFetch {
            request_id: sat_inc(m.pending_stories_request_id),
            feed: m.feed,
            start_page: m.page,
            count,
        };
        &&& r == RefreshPlan { fetch: Some(fetch), prefetch: None }
        &&& if background {
            b == App {
                background_refreshing: true,
                pending_stories_request_id: fetch.request_id,
                ..m
            }
        } else {
            &&& b.status@ == loading_status(m.nav_mode, m.stories@.len() == 0, m.feed, m.page)
            &&& b == App {
                stories_loading: true,
                pending_stories_request_id: fetch.request_id,
                status: b.status,
                ..m
            }
        }
    }
}

/// `m` is `a` after serving the cached page, when it is served.
pub open spec fn refresh_served(a: App, m: App, serve: bool) -> bool {
    if serve {
        served(a, m, find(a.stories_cache@, (a.feed, a.page))->0.held())
    } else {
        m == a
    }
}

/// Serves the cached current page when the refresh may use the cache and the page is
/// not expired; true when it did.
fn serve_if_usable(app: &mut App, use_cache: bool, count: u32, first: Freshness) -> (served_page: bool)
    requires
        old(app).wf(),
        count == refresh_count(*old(app)),
    ensures
        final(app).wf(),
        served_page == serves_cached(*old(app), use_cache, first),
        refresh_served(*old(app), *final(app), served_page),
{
    if use_cache && count == 1 && first != Freshness::Expired {
        if let Some(cached) = app.cached_stories(app.feed, app.page) {
            serve_cached(app, cached);
            return true;
        }
    }
    false
}

/// The rest of a refresh once any cached page was served (see `after_serve`).
fn finish_refresh(
    app: &mut App,
    count: u32,
    fresh_served: bool,
    background: bool,
    prefetch_max_pages: u32,
) -> (r: RefreshPlan)
    requires
        old(app).wf(),
    ensures
        final(app).wf(),
        after_serve(*old(app), *final(app), r, count, fresh_served, background, prefetch_max_pages),
{
    if fresh_served {
        let feed = app.feed;
        let prefetch = ensure_feed_prefetch(app, feed, 2, prefetch_max_pages);
        return RefreshPlan { fetch: None, prefetch };
    }
    if app.stories_loading && count == 1 {
        return RefreshPlan { fetch: None, prefetch: None };
    }
    let request_id = if background {
        app.background_refreshing = true;
        app.allocate_request_id()
    } else {
        app.begin_stories_loading()
    };
    RefreshPlan {
        fetch: Some(StoriesFetch { request_id, feed: app.feed, start_page: app.page, count }),
        prefetch: None,
    }
}

/// Refreshes the current page of stories, given the cached page's freshness at the two
/// points where it is read (see `refresh_post`).
pub fn plan_refresh(
    app: &mut App,
    use_cache: bool,
    prefetch_max_pages: u32,
    first: Freshness,
    second: Freshness,
) -> (r: RefreshPlan)
    requires
        old(app).wf(),
    ensures
        final(app).wf(),
        refresh_post(*old(app), *final(app), r, use_cache, prefetch_max_pages, first, second),
{
    let ghost a = *app;
    let count: u32 = if app.nav_mode == NavMode::Infinite && app.stories.len() == 0 {
        if app.feed.source() == Source::HackerNews {
            1
        } else {
            4
        }
    } else {
        1
    };
    let has_entry = use_cache && count == 1 && app.cached_stories(app.feed, app.page).is_some();
    let served_page = serve_if_usable(app, use_cache, count, first);
    let ghost m = *app;
    let background = has_entry && second == Freshness::StaleButUsable;
    let r = finish_refresh(
        app,
        count,
        served_page && first == Freshness::Fresh,
        background,
        prefetch_max_pages,
    );
    assert(refresh_rest(a, m, *app, r, use_cache, prefetch_max_pages, first, second));
    r
}

/// The freshness of the cached current page now, or `Expired` when none is cached.
fn current_page_freshness(app: &App) -> (r: Freshness)
    requires
        app.wf(),
    ensures
        find(app.stories_cache@, (app.feed, app.page)) is None ==> r == Freshness::Expired,
{
    match app.cached_stories(app.feed, app.page) {
        Some(cached) => cached.freshness(),
        None => Freshness::Expired,
    }
}

/// A refresh done with whatever freshness the clock gave at the two reads.
pub open spec fn refresh_any(a: App, b: App, r: RefreshPlan, use_cache: bool, max_pages: u32) -> bool {
    exists|first: Freshness, second: Freshness|
        #![trigger refresh_post(a, b, r, use_cache, max_pages, first, second)]
        refresh_post(a, b, r, use_cache, max_pages, first, second)
}

/// Refreshes the current page of stories, reading the cached page's age from the clock.
pub fn refresh_stories(app: &mut App, use_cache: bool, prefetch_max_pages: u32) -> (r: RefreshPlan)
    requires
        old(app).wf(),
    ensures
        final(app).wf(),
        refresh_any(*old(app), *final(app), r, use_cache, prefetch_max_pages),
{
    let first = current_page_freshness(app);
    let second = current_page_freshness(app);
    plan_refresh(app, use_cache, prefetch_max_pages, first, second)
}

// ---------------------------------------------------------------------------
// Loaded stories
// ---------------------------------------------------------------------------

/// What a background fetch of stories brought back.
pub struct StoriesLoadResult {
    pub request_id: u64,
    pub feed: Feed,
    pub requested_page: u32,
    pub resolved_page: u32,
    pub fell_back_to_first_page: bool,
    pub result: Result<Vec<Story>, String>,
    pub batch_complete: bool,
}

/// What taking in a result asks of the caller: prefetches to start, and stories to save
/// to disk.
pub struct StoriesApplied {
    pub prefetch: Vec<PrefetchJob>,
    pub save: Option<Vec<Story>>,
}

pub open spec fn all_feeds() -> Set<Feed> {
    set![Feed::Hottest, Feed::Newest, Feed::HnTop, Feed::HnNew]
}

pub open spec fn opt_job(o: Option<PrefetchJob>) -> Seq<PrefetchJob> {
    match o {
        Some(j) => seq![j],
        None => Seq::empty(),
    }
}

pub open spec fn other_feed_job(started: Set<Feed>, f: Feed, loaded: Feed, max_pages: u32) -> Seq<
    PrefetchJob,
> {
    if f == loaded {
        Seq::empty()
    } else {
        opt_job(job_if_new(started, f, 1, max_pages))
    }
}

/// The prefetches a page loaded in paged mode starts: its own feed from page two, then
/// each other feed, in order, from page one; none for a feed already prefetching.
pub open spec fn load_prefetch_jobs(started: Set<Feed>, loaded: Feed, max_pages: u32) -> Seq<
    PrefetchJob,
> {
    opt_job(job_if_new(started, loaded, 2, max_pages))
        + other_feed_job(started, Feed::Hottest, loaded, max_pages)
        + other_feed_job(started, Feed::Newest, loaded, max_pages)
        + other_feed_job(started, Feed::HnTop, loaded, max_pages)
        + other_feed_job(started, Feed::HnNew, loaded, max_pages)
}

pub open spec fn fallback_status(requested: u32, n: nat) -> Seq<char> {
    "Page "@ + decimal(requested as nat) + " unavailable; loaded page 1 ("@ + decimal(n)
        + " stories)"@
}

pub open spec fn after_batch(a: App, complete: bool) -> App {
    if complete {
        App { stories_loading: false, background_refreshing: false, ..a }
    } else {
        a
    }
}

/// `b` is `a` with `held` cached as page `page` of `feed`, as the newest entry.
pub open spec fn page_cached(a: App, b: App, feed: Feed, page: u32, held: Seq<StoryView>) -> bool {
    &&& b.stories_cache@.len() > 0
    &&& b.stories_cache@.last().0 == (feed, page)
    &&& b.stories_cache@.last().1.held() == held
    &&& b.stories_cache@ == insert_newest(
        a.stories_cache@,
        (feed, page),
        b.stories_cache@.last().1,
        STORIES_CACHE_CAPACITY as nat,
    )
    &&& b == App { stories_cache: b.stories_cache, ..a }
}

/// Infinite mode: the loaded page is appended, to an emptied list when it belongs to
/// another feed than the one shown.
pub open spec fn appended_loaded(c: App, b: App, feed: Feed, page: u32, held: Seq<StoryView>) -> bool {
    let cleared = c.stories@.len() > 0 && feed != c.feed;
    &&& story_views(b.stories@) == (if cleared {
        Seq::empty()
    } else {
        story_views(c.stories@)
    }) + held
    &&& b.status@ == loaded_status(b.stories@.len())
    &&& b == App {
        stories: b.stories,
        selected: if cleared {
            0
        } else {
            c.selected
        },
        page,
        status: b.status,
        stories_version: next_version(c.stories_version),
        needs_redraw: true,
        ..c
    }
}

/// Paged mode: the loaded page replaces the list, with the selection at the top, and
/// prefetches start.
pub open spec fn shown_loaded(
    c: App,
    b: App,
    feed: Feed,
    page: u32,
    requested: u32,
    fell_back: bool,
    held: Seq<StoryView>,
    jobs: Seq<PrefetchJob>,
    max_pages: u32,
) -> bool {
    &&& story_views(b.stories@) == held
    &&& b.status@ == if fell_back {
        fallback_status(requested, held.len())
    } else {
        loaded_status(held.len())
    }
    &&& jobs == load_prefetch_jobs(feed_set(c.prefetch_started_feeds@), feed, max_pages)
    &&& feed_set(b.prefetch_started_feeds@) == feed_set(c.prefetch_started_feeds@).union(
        all_feeds(),
    )
    &&& b == App {
        stories: b.stories,
        selected: 0,
        page,
        status: b.status,
        prefetch_started_feeds: b.prefetch_started_feeds,
        ..c
    }
}

/// After caching, the loaded page is shown as the navigation mode asks.
pub open spec fn loaded_shown(
    m: App,
    b: App,
    feed: Feed,
    page: u32,
    requested: u32,
    fell_back: bool,
    held: Seq<StoryView>,
    jobs: Seq<PrefetchJob>,
    max_pages: u32,
) -> bool {
    if m.nav_mode == NavMode::Infinite {
        &&& appended_loaded(m, b, feed, page, held)
        &&& jobs.len() == 0
    } else {
        shown_loaded(m, b, feed, page, requested, fell_back, held, jobs, max_pages)
    }
}

/// Loaded stories are cached, handed back for saving and shown.
pub open spec fn loaded_taken(
    c: App,
    b: App,
    feed: Feed,
    page: u32,
    requested: u32,
    fell_back: bool,
    held: Seq<StoryView>,
    r: StoriesApplied,
    max_pages: u32,
) -> bool {
    &&& r.save is Some
    &&& story_views(r.save->0@) == held
    &&& exists|m: App|
        #![trigger loaded_shown(m, b, feed, page, requested, fell_back, held, r.prefetch@, max_pages)]
        page_cached(c, m, feed, page, held) && loaded_shown(
            m,
            b,
            feed,
            page,
            requested,
            fell_back,
            held,
            r.prefetch@,
            max_pages,
        )
}

/// Taking in a stories result: one for an earlier request is dropped; a completed batch
/// ends the loading; loaded stories are cached, saved and shown; an error is reported in
/// paged mode.
pub open spec fn stories_result_post(
    a: App,
    b: App,
    loaded: StoriesLoadResult,
    r: StoriesApplied,
    max_pages: u32,
) -> bool {
    if loaded.request_id != a.pending_stories_request_id {
        &&& b == a
        &&& r.prefetch@.len() == 0
        &&& r.save is None
    } else {
        let c = after_batch(a, loaded.batch_complete);
        match loaded.result {
            Ok(stories) => loaded_taken(
                c,
                b,
                loaded.feed,
                loaded.resolved_page,
                loaded.requested_page,
                loaded.fell_back_to_first_page,
                story_views(stories@),
                r,
                max_pages,
            ),
            Err(msg) => {
                &&& r.prefetch@.len() == 0
                &&& r.save is None
                &&& if c.nav_mode != NavMode::Infinite {
                    &&& b.status@ == "Error fetching stories: "@ + msg@
                    &&& b == App { status: b.status, ..c }
                } else {
                    b == c
                }
            },
        }
    }
}

fn push_job(jobs: &mut Vec<PrefetchJob>, job: Option<PrefetchJob>)
    ensures
        final(jobs)@ == old(jobs)@ + opt_job(job),
{
    if let Some(j) = job {
        jobs.push(j);
    }
}

/// Starts the prefetch of another feed than the one loaded.
fn prefetch_other_feed(app: &mut App, f: Feed, loaded: Feed, max_pages: u32, jobs: &mut Vec<PrefetchJob>)
    requires
        old(app).wf(),
    ensures
        final(app).wf(),
        final(jobs)@ == old(jobs)@ + other_feed_job(
            feed_set(old(app).prefetch_started_feeds@),
            f,
            loaded,
            max_pages,
        ),
        f == loaded ==> *final(app) == *old(app),
        f != loaded ==> prefetch_marked(*old(app), *final(app), f),
{
    if f != loaded {
        let job = ensure_feed_prefetch(app, f, 1, max_pages);
        push_job(jobs, job);
    } else {
        assert(other_feed_job(feed_set(app.prefetch_started_feeds@), f, loaded, max_pages) =~= Seq::<
            PrefetchJob,
        >::empty());
        assert(jobs@ =~= jobs@ + Seq::<PrefetchJob>::empty());
    }
}

/// Starts the prefetches a page loaded in paged mode asks for.
#[verifier::rlimit(60)]
fn prefetch_after_load(app: &mut App, feed: Feed, max_pages: u32) -> (jobs: Vec<PrefetchJob>)
    requires
        old(app).wf(),
    ensures
        final(app).wf(),
        jobs@ == load_prefetch_jobs(feed_set(old(app).prefetch_started_feeds@), feed, max_pages),
        feed_set(final(app).prefetch_started_feeds@) == feed_set(
            old(app).prefetch_started_feeds@,
        ).union(all_feeds()),
        *final(app) == (App { prefetch_started_feeds: final(app).prefetch_started_feeds, ..*old(app) }),
{
    let ghost started = feed_set(app.prefetch_started_feeds@);
    let mut jobs: Vec<PrefetchJob> = Vec::new();
    let first = ensure_feed_prefetch(app, feed, 2, max_pages);
    push_job(&mut jobs, first);
    prefetch_other_feed(app, Feed::Hottest, feed, max_pages, &mut jobs);
    prefetch_other_feed(app, Feed::Newest, feed, max_pages, &mut jobs);
    prefetch_other_feed(app, Feed::HnTop, feed, max_pages, &mut jobs);
    prefetch_other_feed(app, Feed::HnNew, feed, max_pages, &mut jobs);
    assert(jobs@ =~= load_prefetch_jobs(started, feed, max_pages));
    assert(feed_set(app.prefetch_started_feeds@) =~= started.union(all_feeds()));
    jobs
}

/// The status after a page loads in paged mode.
fn loaded_page_status(requested: u32, fell_back: bool, n: usize) -> (r: String)
    ensures
        r@ == if fell_back {
            fallback_status(requested, n as nat)
        } else {
            loaded_status(n as nat)
        },
{
    let mut out: Vec<char> = Vec::new();
    if fell_back {
        push_str(&mut out, "Page ");
        push_decimal(&mut out, requested as u128);
        push_str(&mut out, " unavailable; loaded page 1 (");
        push_decimal(&mut out, n as u128);
        push_str(&mut out, " stories)");
    } else {
        push_str(&mut out, "Loaded ");
        push_decimal(&mut out, n as u128);
        push_str(&mut out, " stories");
    }
    string_of(&out)
}

/// Paged mode: shows the loaded page and starts the prefetches.
fn show_loaded_page(
    app: &mut App,
    feed: Feed,
    page: u32,
    requested: u32,
    fell_back: bool,
    stories: Vec<Story>,
    max_pages: u32,
) -> (jobs: Vec<PrefetchJob>)
    requires
        old(app).wf(),
    ensures
        final(app).wf(),
        shown_loaded(
            *old(app),
            *final(app),
            feed,
            page,
            requested,
            fell_back,
            story_views(stories@),
            jobs@,
            max_pages,
        ),
{
    app.page = page;
    app.stories = stories;
    app.selected = 0;
    let jobs = prefetch_after_load(app, feed, max_pages);
    app.status = loaded_page_status(requested, fell_back, app.stories.len());
    jobs
}

/// Infinite mode: appends the loaded page, first emptying a list of another feed.
fn append_loaded_page(app: &mut App, feed: Feed, page: u32, stories: Vec<Story>)
    ensures
        appended_loaded(*old(app), *final(app), feed, page, story_views(stories@)),
{
    let ghost c = *app;
    if app.stories.len() > 0 && feed != app.feed {
        app.stories.clear();
        app.selected = 0;
    }
    let ghost before = app.stories@;
    app.page = page;
    app.append_stories(stories);
    assert(story_views(app.stories@) =~= story_views(before) + story_views(stories@));
    assert(story_views(before) =~= if c.stories@.len() > 0 && feed != c.feed {
        Seq::<StoryView>::empty()
    } else {
        story_views(c.stories@)
    });
}

/// Caches, hands back for saving and shows a loaded page.
fn take_loaded_stories(
    app: &mut App,
    feed: Feed,
    page: u32,
    requested: u32,
    fell_back: bool,
    stories: Vec<Story>,
    max_pages: u32,
) -> (r: StoriesApplied)
    requires
        old(app).wf(),
    ensures
        final(app).wf(),
        loaded_taken(
            *old(app),
            *final(app),
            feed,
            page,
            requested,
            fell_back,
            story_views(stories@),
            r,
            max_pages,
        ),
{
    let ghost c = *app;
    let ghost held = story_views(stories@);
    let save = copy_stories(stories.as_slice());
    app.cache_stories(feed, page, stories.as_slice());
    let ghost m = *app;
    let prefetch = if app.nav_mode == NavMode::Infinite {
        append_loaded_page(app, feed, page, stories);
        Vec::new()
    } else {
        show_loaded_page(app, feed, page, requested, fell_back, stories, max_pages)
    };
    let r = StoriesApplied { prefetch, save: Some(save) };
    assert(page_cached(c, m, feed, page, held));
    assert(loaded_shown(m, *app, feed, page, requested, fell_back, held, r.prefetch@, max_pages));
    r
}

/// Takes in one result of a background stories fetch (see `stories_result_post`).
#[verifier::spinoff_prover]
#[verifier::rlimit(50)]
pub fn apply_stories_result(app: &mut App, loaded: StoriesLoadResult, prefetch_max_pages: u32) -> (r: StoriesApplied)
    requires
        old(app).wf(),
    ensures
        final(app).wf(),
        stories_result_post(*old(app), *final(app), loaded, r, prefetch_max_pages),
{
    if !app.is_current_stories_request(loaded.request_id) {
        return StoriesApplied { prefetch: Vec::new(), save: None };
    }
    if loaded.batch_complete {
        app.finish_stories_loading();
        app.background_refreshing = false;
    }
    let ghost c = *app;
    match loaded.result {
        Ok(stories) => take_loaded_stories(
            app,
            loaded.feed,
            loaded.resolved_page,
            loaded.requested_page,
            loaded.fell_back_to_first_page,
            stories,
            prefetch_max_pages,
        ),
        Err(error_message) => {
            if app.nav_mode != NavMode::Infinite {
                let mut out: Vec<char> = Vec::new();
                push_str(&mut out, "Error fetching stories: ");
                push_str(&mut out, error_message.as_str());
                app.status = string_of(&out);
            }
            StoriesApplied { prefetch: Vec::new(), save: None }
        },
    }
}

/// What one page of a fetch of several pages sends back, given whether an earlier page
/// loaded: a page that loaded is sent, the last one completing the batch; a failure is
/// sent, completing the batch, only when nothing loaded before it. The batch goes on only
/// after a page that loaded.
pub fn batch_page_result(
    fetch: StoriesFetch,
    index: u32,
    result: Result<Vec<Story>, String>,
    had_data: bool,
) -> (r: (Option<StoriesLoadResult>, bool))
    requires
        fetch.start_page + index <= u32::MAX,
        index < fetch.count,
    ensures
        match result {
            Ok(stories) => {
                &&& r.1
                &&& r.0 is Some
                &&& r.0->0.request_id == fetch.request_id
                &&& r.0->0.feed == fetch.feed
                &&& r.0->0.requested_page == fetch.start_page + index
                &&& r.0->0.resolved_page == fetch.start_page + index
                &&& !r.0->0.fell_back_to_first_page
                &&& r.0->0.result == Ok::<Vec<Story>, String>(stories)
                &&& r.0->0.batch_complete == (index + 1 == fetch.count)
            },
            Err(message) => {
                &&& !r.1
                &&& had_data ==> r.0 is None
                &&& !had_data ==> {
                    &&& r.0 is Some
                    &&& r.0->0.request_id == fetch.request_id
                    &&& r.0->0.feed == fetch.feed
                    &&& r.0->0.requested_page == fetch.start_page
                    &&& r.0->0.resolved_page == fetch.start_page + index
                    &&& !r.0->0.fell_back_to_first_page
                    &&& r.0->0.result == Err::<Vec<Story>, String>(message)
                    &&& r.0->0.batch_complete
                }
            },
        },
{
    let page = fetch.start_page + index;
    match result {
        Ok(stories) => (
            Some(
                StoriesLoadResult {
                    request_id: fetch.request_id,
                    feed: fetch.feed,
                    requested_page: page,
                    resolved_page: page,
                    fell_back_to_first_page: false,
                    result: Ok(stories),
                    batch_complete: index + 1 == fetch.count,
                },
            ),
            true,
        ),
        Err(message) => {
            if had_data {
                (None, false)
            } else {
                (
                    Some(
                        StoriesLoadResult {
                            request_id: fetch.request_id,
                            feed: fetch.feed,
                            requested_page: fetch.start_page,
                            resolved_page: page,
                            fell_back_to_first_page: false,
                            result: Err(message),
                            batch_complete: true,
                        },
                    ),
                    false,
                )
            }
        },
    }
}

/// What a prefetched page gives: its stories to cache, when it loaded and is not empty;
/// otherwise nothing, and the prefetch stops.
pub fn prefetched_page(result: Result<Vec<Story>, String>) -> (r: Option<Vec<Story>>)
    ensures
        match result {
            Ok(stories) => if stories@.len() > 0 {
                r == Some(stories)
            } else {
                r is None
            },
            Err(_) => r is None,
        },
{
    match result {
        Ok(stories) => if stories.len() > 0 {
            Some(stories)
        } else {
            None
        },
        Err(_) => None,
    }
}

// ---------------------------------------------------------------------------
// Comments
// ---------------------------------------------------------------------------

/// Whether a comments result is the first part of a thread still loading, or all of it.
#[derive(Debug, Clone, Copy, PartialEq, Eq, Structural)]
pub enum CommentsStage {
    Partial,
    Final,
}

/// What a background fetch of a story's comments brought back, and after how long.
pub struct CommentsLoadResult {
    pub short_id: String,
    pub stage: CommentsStage,
    pub result: Result<StoryDetail, String>,
    pub elapsed_ms: u128,
}

/// A fetch of the comments of story `short_id` of `feed`; a Hacker News thread loads
/// progressively, in parts.
pub struct CommentsFetch {
    pub short_id: String,
    pub feed: Feed,
    pub progressive: bool,
}

pub open spec fn partial_status(n: nat, ms: u128) -> Seq<char> {
    decimal(n) + " comments loaded in "@ + decimal(ms as nat) + "ms (loading more...)"@
}

pub open spec fn final_status(n: nat, ms: u128) -> Seq<char> {
    decimal(n) + " comments loaded in "@ + decimal(ms as nat) + "ms"@
}

/// Whether a comments result belongs to the story whose comments are awaited.
pub open spec fn awaited(a: App, short_id: Seq<char>) -> bool {
    match a.pending_comment_story_id {
        Some(id) => id@ == short_id,
        None => false,
    }
}

/// The first part of a thread is shown, keeping the selection as far as it reaches.
pub open spec fn partial_shown(a: App, b: App, detail: StoryDetail, ms: u128) -> bool {
    &&& b.wrapped_comments@.len() == 0
    &&& b.status@ == partial_status(detail.comments@.len(), ms)
    &&& b == App {
        story_detail_title: detail.title,
        comments: detail.comments,
        comment_selected: if detail.comments@.len() == 0 {
            0
        } else {
            min_usize(a.comment_selected, (detail.comments@.len() - 1) as usize)
        },
        wrapped_comments_width: None,
        wrapped_comments: b.wrapped_comments,
        flow: AppFlowState::Comments,
        filtered_indices_dirty: true,
        comments_version: next_version(a.comments_version),
        needs_redraw: true,
        status: b.status,
        ..a
    }
}

/// The whole thread is cached under `short_id` and shown from the top.
pub open spec fn final_shown(a: App, b: App, short_id: Seq<char>, detail: StoryDetail, ms: u128) -> bool {
    &&& b.detail_cache() == insert_newest(
        a.detail_cache(),
        short_id,
        detail@,
        COMMENTS_CACHE_CAPACITY as nat,
    )
    &&& b.collapsed_comment_ids@.len() == 0
    &&& b.wrapped_comments@.len() == 0
    &&& b.status@ == final_status(detail.comments@.len(), ms)
    &&& b == App {
        comments_cache: b.comments_cache,
        story_detail_title: detail.title,
        comments: detail.comments,
        comment_selected: 0,
        collapsed_comment_ids: b.collapsed_comment_ids,
        wrapped_comments_width: None,
        wrapped_comments: b.wrapped_comments,
        flow: AppFlowState::Comments,
        comments_loading: false,
        pending_comment_story_id: None,
        status: b.status,
        filtered_indices_dirty: true,
        comments_version: next_version(a.comments_version),
        needs_redraw: true,
        last_comments_load_ms: Some(ms),
        ..a
    }
}

/// Taking in a comments result: one for another story is dropped; a part is shown; the
/// whole thread is cached, handed back for saving and shown; a failed part is ignored and
/// a failed thread ends the loading with an error.
pub open spec fn comments_result_post(a: App, b: App, loaded: CommentsLoadResult, save: Option<StoryDetail>) -> bool {
    if !awaited(a, loaded.short_id@) {
        &&& b == a
        &&& save is None
    } else {
        match loaded.result {
            Ok(detail) => match loaded.stage {
                CommentsStage::Partial => {
                    &&& partial_shown(a, b, detail, loaded.elapsed_ms)
                    &&& save is None
                },
                CommentsStage::Final => {
                    &&& final_shown(a, b, loaded.short_id@, detail, loaded.elapsed_ms)
                    &&& save is Some
                    &&& save->0@ == detail@
                },
            },
            Err(msg) => {
                &&& save is None
                &&& match loaded.stage {
                    CommentsStage::Partial => b == a,
                    CommentsStage::Final => {
                        &&& b.status@ == "Error fetching comments: "@ + msg@
                        &&& b == App {
                            comments_loading: false,
                            pending_comment_story_id: None,
                            status: b.status,
                            ..a
                        }
                    },
                }
            },
        }
    }
}

fn comments_status(n: usize, ms: u128, partial: bool) -> (r: String)
    ensures
        r@ == if partial {
            partial_status(n as nat, ms)
        } else {
            final_status(n as nat, ms)
        },
{
    let mut out: Vec<char> = Vec::new();
    push_decimal(&mut out, n as u128);
    push_str(&mut out, " comments loaded in ");
    push_decimal(&mut out, ms);
    if partial {
        push_str(&mut out, "ms (loading more...)");
    } else {
        push_str(&mut out, "ms");
    }
    string_of(&out)
}

fn is_awaited(app: &App, short_id: &String) -> (r: bool)
    ensures
        r == awaited(*app, short_id@),
{
    match &app.pending_comment_story_id {
        Some(id) => crate::text::str_eq(id.as_str(), short_id.as_str()),
        None => false,
    }
}

/// Shows and caches a whole thread.
fn show_final_comments(app: &mut App, short_id: String, detail: StoryDetail, ms: u128) -> (save: StoryDetail)
    requires
        old(app).wf(),
    ensures
        final(app).wf(),
        final_shown(*old(app), *final(app), short_id@, detail, ms),
        save@ == detail@,
{
    let n = detail.comments.len();
    let save = detail.duplicate();
    app.cache_story_detail(short_id, detail.duplicate());
    app.load_comments_detail(detail);
    app.last_comments_load_ms = Some(ms);
    app.status = comments_status(n, ms, false);
    save
}

/// Takes in one result of a background comments fetch (see `comments_result_post`).
pub fn apply_comments_result(app: &mut App, loaded: CommentsLoadResult) -> (save: Option<StoryDetail>)
    requires
        old(app).wf(),
    ensures
        final(app).wf(),
        comments_result_post(*old(app), *final(app), loaded, save),
{
    if !is_awaited(app, &loaded.short_id) {
        return None;
    }
    match loaded.result {
        Ok(detail) => match loaded.stage {
            CommentsStage::Partial => {
                let n = detail.comments.len();
                app.load_comments_partial(detail);
                app.status = comments_status(n, loaded.elapsed_ms, true);
                None
            },
            CommentsStage::Final => Some(
                show_final_comments(app, loaded.short_id, detail, loaded.elapsed_ms),
            ),
        },
        Err(error_message) => match loaded.stage {
            CommentsStage::Partial => None,
            CommentsStage::Final => {
                app.clear_comments_loading();
                let mut out: Vec<char> = Vec::new();
                push_str(&mut out, "Error fetching comments: ");
                push_str(&mut out, error_message.as_str());
                app.status = string_of(&out);
                None
            },
        },
    }
}

pub open spec fn cached_comments_status(n: nat) -> Seq<char> {
    decimal(n) + " comments (cached)"@
}

/// Opening the comments of the selected story: a cached thread is shown at once;
/// otherwise the view waits for a fetch, which is handed back; with no story selected the
/// status says so.
pub open spec fn open_comments_post(a: App, b: App, r: Option<CommentsFetch>) -> bool {
    if a.selected >= a.stories@.len() {
        &&& r is None
        &&& b.status@ == "No story selected"@
        &&& b == App { status: b.status, ..a }
    } else {
        let story = a.stories@[a.selected as int];
        match find(a.detail_cache(), story.short_id@) {
            Some(d) => {
                &&& r is None
                &&& b.story_detail_title@ == d.title
                &&& comment_views(b.comments@) == d.comments
                &&& b.collapsed_comment_ids@.len() == 0
                &&& b.wrapped_comments@.len() == 0
                &&& b.status@ == cached_comments_status(d.comments.len())
                &&& b == App {
                    story_detail_title: b.story_detail_title,
                    comments: b.comments,
                    comment_selected: 0,
                    collapsed_comment_ids: b.collapsed_comment_ids,
                    wrapped_comments_width: None,
                    wrapped_comments: b.wrapped_comments,
                    flow: AppFlowState::Comments,
                    comments_loading: false,
                    pending_comment_story_id: None,
                    status: b.status,
                    filtered_indices_dirty: true,
                    comments_version: next_version(a.comments_version),
                    needs_redraw: true,
                    ..a
                }
            },
            None => {
                &&& r is Some
                &&& r->0.short_id@ == story.short_id@
                &&& r->0.feed == a.feed
                &&& r->0.progressive == (feed_source(a.feed) == Source::HackerNews)
                &&& b.comments@.len() == 0
                &&& b.collapsed_comment_ids@.len() == 0
                &&& b.wrapped_comments@.len() == 0
                &&& b.status@ == "Loading comments..."@
                &&& b.pending_comment_story_id is Some
                &&& b.pending_comment_story_id->0@ == story.short_id@
                &&& b.story_detail_title@ == story.title@
                &&& b == App {
                    comments_loading: true,
                    pending_comment_story_id: b.pending_comment_story_id,
                    story_detail_title: b.story_detail_title,
                    comments: b.comments,
                    comment_selected: 0,
                    collapsed_comment_ids: b.collapsed_comment_ids,
                    wrapped_comments_width: None,
                    wrapped_comments: b.wrapped_comments,
                    flow: AppFlowState::Comments,
                    status: b.status,
                    filtered_indices_dirty: true,
                    comments_version: next_version(a.comments_version),
                    needs_redraw: true,
                    ..a
                }
            },
        }
    }
}

/// Opens the comments of the selected story (see `open_comments_post`).
pub fn open_comments(app: &mut App) -> (r: Option<CommentsFetch>)
    requires
        old(app).wf(),
    ensures
        final(app).wf(),
        open_comments_post(*old(app), *final(app), r),
{
    let (short_id, loading_title) = match app.selected_story() {
        Some(s) => (s.short_id.clone(), s.title.clone()),
        None => {
            app.status = owned("No story selected");
            return None;
        },
    };
    if let Some(detail) = app.cached_story_detail(short_id.as_str()) {
        app.load_comments_detail(detail);
        let mut out: Vec<char> = Vec::new();
        push_decimal(&mut out, app.comments.len() as u128);
        push_str(&mut out, " comments (cached)");
        app.status = string_of(&out);
        return None;
    }
    let fetch_id = short_id.clone();
    app.begin_comments_loading(short_id, loading_title);
    Some(
        CommentsFetch {
            short_id: fetch_id,
            feed: app.feed,
            progressive: app.feed.source() == Source::HackerNews,
        },
    )
}

/// Reloading the comments shown: the selected story's cached thread is forgotten, then
/// its comments open as `open_comments` opens them.
pub open spec fn refresh_comments_post(a: App, b: App, r: Option<CommentsFetch>) -> bool {
    if a.selected >= a.stories@.len() {
        &&& r is None
        &&& b.status@ == "No story selected"@
        &&& b == App { status: b.status, ..a }
    } else {
        exists|m: App|
            #![trigger open_comments_post(m, b, r)]
            m.detail_cache() == without(
                a.detail_cache(),
                a.stories@[a.selected as int].short_id@,
            ) && m == App { comments_cache: m.comments_cache, ..a } && open_comments_post(m, b, r)
    }
}

/// Reloads the comments of the selected story, bypassing the cache.
pub fn refresh_current_comments(app: &mut App) -> (r: Option<CommentsFetch>)
    requires
        old(app).wf(),
    ensures
        final(app).wf(),
        refresh_comments_post(*old(app), *final(app), r),
{
    let short_id = match app.selected_story() {
        Some(story) => story.short_id.clone(),
        None => {
            app.status = owned("No story selected");
            return None;
        },
    };
    app.invalidate_story_cache(short_id.as_str());
    let ghost m = *app;
    let r = open_comments(app);
    assert(open_comments_post(m, *app, r));
    r
}

// ---------------------------------------------------------------------------
// Links
// ---------------------------------------------------------------------------

/// The pages the app opens in a browser.
#[derive(Debug, Clone, Copy, PartialEq, Eq, Structural)]
pub enum LinkTarget {
    StoryLink,
    CommentsPage,
    CommentPermalink,
}

/// `b` is `a` with only the status changed, to `msg`.
pub open spec fn status_set(a: App, b: App, msg: Seq<char>) -> bool {
    &&& b.status@ == msg
    &&& b == App { status: b.status, ..a }
}

/// The URL of the selected story's link; with no story, or a story without a link, the
/// status says so instead.
pub fn story_link(app: &mut App) -> (r: Option<String>)
    ensures
        old(app).selected >= old(app).stories@.len() ==> r is None && status_set(
            *old(app),
            *final(app),
            "No story selected"@,
        ),
        old(app).selected < old(app).stories@.len() ==> {
            let url = old(app).stories@[old(app).selected as int].url@;
            if url.len() == 0 {
                r is None && status_set(*old(app), *final(app), "No link URL for this story"@)
            } else {
                r is Some && r->0@ == url && *final(app) == *old(app)
            }
        },
{
    let url = match app.selected_story() {
        Some(story) => story.url.clone(),
        None => {
            app.status = owned("No story selected");
            return None;
        },
    };
    if url.as_str().unicode_len() == 0 {
        app.status = owned("No link URL for this story");
        return None;
    }
    Some(url)
}

/// The URL of the selected story's comments page; with no story the status says so.
pub fn comments_page_link(app: &mut App) -> (r: Option<String>)
    ensures
        old(app).selected >= old(app).stories@.len() ==> r is None && status_set(
            *old(app),
            *final(app),
            "No story selected"@,
        ),
        old(app).selected < old(app).stories@.len() ==> r is Some && r->0@ == old(
            app,
        ).stories@[old(app).selected as int].comments_url@ && *final(app) == *old(app),
{
    match app.selected_story() {
        Some(story) => Some(story.comments_url.clone()),
        None => {
            app.status = owned("No story selected");
            None
        },
    }
}

/// The permalink of the selected comment; with no story or no comment selected the status
/// says so.
pub fn comment_permalink_link(app: &mut App) -> (r: Option<String>)
    ensures
        old(app).selected >= old(app).stories@.len() ==> r is None && status_set(
            *old(app),
            *final(app),
            "No story selected"@,
        ),
        old(app).selected < old(app).stories@.len() && old(app).comment_selected >= old(
            app,
        ).comments@.len() ==> r is None && status_set(
            *old(app),
            *final(app),
            "No comment selected"@,
        ),
        old(app).selected < old(app).stories@.len() && old(app).comment_selected < old(
            app,
        ).comments@.len() ==> r is Some && r->0@ == permalink(
            old(app).feed,
            old(app).stories@[old(app).selected as int].short_id@,
            old(app).comments@[old(app).comment_selected as int].short_id@,
        ) && *final(app) == *old(app),
{
    let story_short_id = match app.selected_story() {
        Some(s) => s.short_id.clone(),
        None => {
            app.status = owned("No story selected");
            return None;
        },
    };
    if app.comment_selected >= app.comments.len() {
        app.status = owned("No comment selected");
        return None;
    }
    let comment = &app.comments[app.comment_selected];
    Some(comment_permalink_url(app.feed, story_short_id.as_str(), comment.short_id.as_str()))
}

pub open spec fn opened_message(target: LinkTarget) -> Seq<char> {
    match target {
        LinkTarget::StoryLink => "Opened story link"@,
        LinkTarget::CommentsPage => "Opened comments page"@,
        LinkTarget::CommentPermalink => "Opened comment permalink"@,
    }
}

pub open spec fn open_error_prefix(target: LinkTarget) -> Seq<char> {
    match target {
        LinkTarget::StoryLink => "Error opening story link: "@,
        LinkTarget::CommentsPage => "Error opening comments page: "@,
        LinkTarget::CommentPermalink => "Error opening comment permalink: "@,
    }
}

/// Reports in the status whether opening `target` in the browser worked.
pub fn finish_open(app: &mut App, target: LinkTarget, result: Result<(), String>)
    ensures
        status_set(
            *old(app),
            *final(app),
            match result {
                Ok(_) => opened_message(target),
                Err(e) => open_error_prefix(target) + e@,
            },
        ),
{
    match result {
        Ok(_) => {
            app.status = owned(
                match target {
                    LinkTarget::StoryLink => "Opened story link",
                    LinkTarget::CommentsPage => "Opened comments page",
                    LinkTarget::CommentPermalink => "Opened comment permalink",
                },
            );
        },
        Err(e) => {
            let mut out: Vec<char> = Vec::new();
            push_str(
                &mut out,
                match target {
                    LinkTarget::StoryLink => "Error opening story link: ",
                    LinkTarget::CommentsPage => "Error opening comments page: ",
                    LinkTarget::CommentPermalink => "Error opening comment permalink: ",
                },
            );
            push_str(&mut out, e.as_str());
            app.status = string_of(&out);
        },
    }
}

// ---------------------------------------------------------------------------
// Falling back to the first page
// ---------------------------------------------------------------------------

/// An error message that says a page does not exist: `404` or `not found`, in any ASCII
/// case.
pub open spec fn mentions_not_found(message: Seq<char>) -> bool {
    contains(ascii_lower(message), "404"@) || contains(ascii_lower(message), "not found"@)
}

/// Whether an error message says that what was asked for does not exist.
pub fn reports_not_found(message: &str) -> (r: bool)
    ensures
        r == mentions_not_found(message@),
{
    let lowered = ascii_lower_chars(&chars_of(message));
    contains_chars(&lowered, &chars_of("404")) || contains_chars(&lowered, &chars_of("not found"))
}

/// Whether a failed fetch of a later page is retried as page one.
pub fn should_fallback_to_first_page(message: &str) -> (r: bool)
    ensures
        r == mentions_not_found(message@),
{
    reports_not_found(message)
}

/// Whether a fetch of `requested_page` that gave `result` is retried as page one: a page
/// past the first that came back empty, or that does not exist.
pub open spec fn falls_back(requested_page: u32, result: Result<Vec<Story>, String>) -> bool {
    requested_page > 1 && match result {
        Ok(stories) => stories@.len() == 0,
        Err(message) => mentions_not_found(message@),
    }
}

pub fn needs_first_page_fallback(requested_page: u32, result: &Result<Vec<Story>, String>) -> (r: bool)
    ensures
        r == falls_back(requested_page, *result),
{
    if requested_page <= 1 {
        return false;
    }
    match result {
        Ok(stories) => stories.len() == 0,
        Err(message) => should_fallback_to_first_page(message.as_str()),
    }
}

// ---------------------------------------------------------------------------
// Between key presses
// ---------------------------------------------------------------------------

/// Before a forced refresh the infinite list starts over; in paged mode the feed's cache
/// is dropped.
pub open spec fn cleared_for_refresh(a: App, b: App) -> bool {
    if a.nav_mode == NavMode::Infinite {
        stories_reset(a, b)
    } else {
        feed_invalidated(a, b, a.feed)
    }
}

fn clear_for_refresh(app: &mut App)
    requires
        old(app).wf(),
    ensures
        final(app).wf(),
        cleared_for_refresh(*old(app), *final(app)),
{
    if app.nav_mode == NavMode::Infinite {
        app.reset_stories();
    } else {
        let feed = app.feed;
        app.invalidate_feed_story_cache(feed);
    }
}

/// A forced refresh: the cache is bypassed, so no freshness matters.
pub open spec fn forced_refresh(a: App, b: App, r: RefreshPlan, max_pages: u32) -> bool {
    exists|m: App|
        #![trigger refresh_post(m, b, r, false, max_pages, Freshness::Expired, Freshness::Expired)]
        cleared_for_refresh(a, m) && refresh_post(
            m,
            b,
            r,
            false,
            max_pages,
            Freshness::Expired,
            Freshness::Expired,
        )
}

fn force_refresh(app: &mut App, prefetch_max_pages: u32) -> (r: RefreshPlan)
    requires
        old(app).wf(),
    ensures
        final(app).wf(),
        forced_refresh(*old(app), *final(app), r, prefetch_max_pages),
{
    clear_for_refresh(app);
    let ghost m = *app;
    let r = plan_refresh(app, false, prefetch_max_pages, Freshness::Expired, Freshness::Expired);
    assert(refresh_post(m, *app, r, false, prefetch_max_pages, Freshness::Expired, Freshness::Expired));
    r
}

/// A refresh asked for while the list was loading runs once the loading ends.
pub fn run_queued_refresh(app: &mut App, prefetch_max_pages: u32) -> (r: Option<RefreshPlan>)
    requires
        old(app).wf(),
    ensures
        final(app).wf(),
        !(old(app).pending_refresh && !old(app).stories_loading) ==> r is None && *final(app)
            == *old(app),
        old(app).pending_refresh && !old(app).stories_loading ==> r is Some && forced_refresh(
            App { pending_refresh: false, ..*old(app) },
            *final(app),
            r->0,
            prefetch_max_pages,
        ),
{
    if app.pending_refresh && !app.stories_loading {
        app.pending_refresh = false;
        Some(force_refresh(app, prefetch_max_pages))
    } else {
        None
    }
}

/// The quiet periodic refresh of the current page in paged mode, when `due` and nothing
/// is loading.
pub fn keepalive_refresh(app: &mut App, due: bool, prefetch_max_pages: u32) -> (r: Option<RefreshPlan>)
    requires
        old(app).wf(),
    ensures
        final(app).wf(),
        ({
            let go = old(app).nav_mode != NavMode::Infinite && !old(app).stories_loading
                && old(app).stories@.len() > 0 && due;
            &&& !go ==> r is None && *final(app) == *old(app)
            &&& go ==> r is Some && forced_refresh(*old(app), *final(app), r->0, prefetch_max_pages)
        }),
{
    if app.nav_mode != NavMode::Infinite && !app.stories_loading && app.stories.len() > 0 && due {
        Some(force_refresh(app, prefetch_max_pages))
    } else {
        None
    }
}

/// Puts back the selection saved by the last run once stories are shown; true when done.
pub fn restore_selection(app: &mut App, saved: usize) -> (done: bool)
    ensures
        done == (!old(app).stories_loading && old(app).stories@.len() > 0),
        done ==> *final(app) == (App {
            selected: min_usize(saved, (old(app).stories@.len() - 1) as usize),
            ..*old(app)
        }),
        !done ==> *final(app) == *old(app),
{
    if !app.stories_loading && app.stories.len() > 0 {
        let last = app.stories.len() - 1;
        app.selected = if saved <= last {
            saved
        } else {
            last
        };
        true
    } else {
        false
    }
}

/// The refreshes a key press leads to once handled.
pub struct FollowUp {
    pub initial: Option<RefreshPlan>,
    pub more: Option<RefreshPlan>,
}

/// Whether an infinite list is near enough its end to load the next page.
pub open spec fn wants_more(m: App) -> bool {
    &&& m.nav_mode == NavMode::Infinite
    &&& m.stories@.len() > 0
    &&& !m.stories_loading
    &&& m.selected + crate::app::INFINITE_SCROLL_LOOKAHEAD >= m.stories@.len()
}

/// The first step of `after_key`: a list emptied by switching the navigation mode loads
/// again.
pub open spec fn initial_load_done(a: App, m: App, initial: Option<RefreshPlan>, max_pages: u32) -> bool {
    if a.needs_initial_load {
        &&& initial is Some
        &&& refresh_post(
            App { needs_initial_load: false, ..a },
            m,
            initial->0,
            false,
            max_pages,
            Freshness::Expired,
            Freshness::Expired,
        )
    } else {
        &&& initial is None
        &&& m == a
    }
}

/// The second step of `after_key`, from `m`: an infinite list near its end loads the next
/// page.
pub open spec fn more_loaded(m: App, b: App, more: Option<RefreshPlan>, max_pages: u32) -> bool {
    if wants_more(m) {
        &&& more is Some
        &&& refresh_any(App { page: m.page.saturating_add(1), ..m }, b, more->0, true, max_pages)
    } else {
        &&& more is None
        &&& b == m
    }
}

/// After a key press: a list emptied by switching the navigation mode loads again, and an
/// infinite list near its end loads the next page.
pub fn after_key(app: &mut App, prefetch_max_pages: u32) -> (r: FollowUp)
    requires
        old(app).wf(),
    ensures
        final(app).wf(),
        exists|m: App|
            #![trigger more_loaded(m, *final(app), r.more, prefetch_max_pages)]
            initial_load_done(*old(app), m, r.initial, prefetch_max_pages) && more_loaded(
                m,
                *final(app),
                r.more,
                prefetch_max_pages,
            ),
{
    let ghost a = *app;
    let initial = if app.needs_initial_load {
        app.needs_initial_load = false;
        let ghost m0 = *app;
        let p = plan_refresh(app, false, prefetch_max_pages, Freshness::Expired, Freshness::Expired);
        assert(refresh_post(m0, *app, p, false, prefetch_max_pages, Freshness::Expired, Freshness::Expired));
        Some(p)
    } else {
        None
    };
    let ghost m = *app;
    assert(initial_load_done(a, m, initial, prefetch_max_pages));
    let more = if app.needs_more_stories() {
        app.page = app.page.saturating_add(1);
        let ghost m1 = *app;
        assert(m1 == App { page: m.page.saturating_add(1), ..m });
        let p = refresh_stories(app, true, prefetch_max_pages);
        Some(p)
    } else {
        None
    };
    assert(wants_more(m) == (more is Some));
    assert(!wants_more(m) ==> *app == m);
    assert(more_loaded(m, *app, more, prefetch_max_pages));
    FollowUp { initial, more }
}

// ---------------------------------------------------------------------------
// Startup
// ---------------------------------------------------------------------------

/// Applies the resolved settings and the state saved by the last run, whose feed and page
/// are restored when the settings ask for it; gives back the saved selection.
pub fn apply_startup(app: &mut App, settings: &RuntimeSettings, saved: Option<PersistedState>) -> (r: Option<usize>)
    ensures
        r == match saved {
            Some(st) => Some(st.selected),
            None => None::<usize>,
        },
        *final(app) == (App {
            high_contrast: settings.high_contrast,
            feed: match saved {
                Some(st) => if settings.restore_feed_page {
                    st.feed
                } else {
                    settings.startup_feed
                },
                None => settings.startup_feed,
            },
            page: match saved {
                Some(st) => if settings.restore_feed_page {
                    if st.page < 1 {
                        1
                    } else {
                        st.page
                    }
                } else {
                    settings.startup_page
                },
                None => settings.startup_page,
            },
            ..*old(app)
        }),
{
    app.high_contrast = settings.high_contrast;
    app.feed = settings.startup_feed;
    app.page = settings.startup_page;
    match saved {
        Some(st) => {
            if settings.restore_feed_page {
                app.feed = st.feed;
                app.page = if st.page < 1 {
                    1
                } else {
                    st.page
                };
            }
            Some(st.selected)
        },
        None => None,
    }
}

// ---------------------------------------------------------------------------
// Handling a key
// ---------------------------------------------------------------------------

/// The background work or browser page a key press asks for.
pub enum KeyOutcome {
    Nothing,
    Stories(RefreshPlan),
    CycledFeed(RefreshPlan, Option<PrefetchJob>),
    Comments(CommentsFetch),
    Open(LinkTarget, String),
}

pub open spec fn fetch_of(r: KeyOutcome) -> Option<CommentsFetch> {
    match r {
        KeyOutcome::Comments(f) => Some(f),
        _ => None,
    }
}

pub open spec fn link_of(r: KeyOutcome, target: LinkTarget) -> Option<Seq<char>> {
    match r {
        KeyOutcome::Open(t, url) => if t == target {
            Some(url@)
        } else {
            None
        },
        _ => None,
    }
}

/// The sizes handled keys can move over: selections are moved as 32-bit numbers.
pub open spec fn key_bounds(a: App) -> bool {
    &&& a.stories@.len() <= i32::MAX
    &&& a.selected < i32::MAX
    &&& a.current_filtered().len() < i32::MAX
}

pub open spec fn quit(a: App) -> App {
    App { flow: AppFlowState::Quitting, needs_redraw: true, ..a }
}

pub open spec fn profiling_message(enabled: bool) -> Seq<char> {
    if enabled {
        "Profiling mode enabled"@
    } else {
        "Profiling mode disabled"@
    }
}

/// The last position of a list of `len` items, or zero for an empty one.
pub open spec fn last_pos(len: nat) -> int {
    if len == 0 {
        0
    } else {
        len - 1
    }
}

/// Where a page jump down an infinite list lands: 25 stories on, at most the last.
pub open spec fn jump_target(selected: usize, len: nat) -> int {
    let jump = if 25 < last_pos(len) {
        25
    } else {
        last_pos(len)
    };
    if selected + jump < last_pos(len) {
        selected + jump
    } else {
        last_pos(len)
    }
}

/// A page jump down an infinite list, preloading the next page when it lands near the end.
pub open spec fn infinite_jump_post(a: App, b: App, r: KeyOutcome, max_pages: u32) -> bool {
    let target = jump_target(a.selected, a.stories@.len());
    let m = App { selected: target as usize, ..a };
    if target + 15 >= a.stories@.len() && !a.stories_loading {
        &&& r is Stories
        &&& exists|m2: App|
            #![trigger refresh_any(m2, b, r->Stories_0, true, max_pages)]
            status_set(
                App { page: a.page.saturating_add(1), ..m },
                m2,
                "Preloading more stories..."@,
            ) && refresh_any(m2, b, r->Stories_0, true, max_pages)
    } else {
        &&& r is Nothing
        &&& b == m
    }
}

/// The feed after the next is warmed up when it has no usable first page cached.
pub open spec fn warmed(m: App, b: App, job: Option<PrefetchJob>, next: Feed, max_pages: u32) -> bool {
    ||| job == prefetch_job_for(m, next, 1, max_pages) && prefetch_marked(m, b, next)
    ||| find(m.stories_cache@, (next, 1)) is Some && job is None && b == m
}

/// Cycling the feed: the list starts over on the next feed, which is refreshed, and the
/// feed after it is warmed up.
pub open spec fn cycle_post(a: App, b: App, r: KeyOutcome, max_pages: u32) -> bool {
    &&& r is CycledFeed
    &&& exists|m: App, m2: App|
        #![trigger refresh_any(m, m2, r->CycledFeed_0, true, max_pages), warmed(m2, b, r->CycledFeed_1, feed_cycle(feed_cycle(a.feed)), max_pages)]
        stories_reset(a, App { feed: a.feed, ..m }) && m.feed == feed_cycle(a.feed)
            && refresh_any(m, m2, r->CycledFeed_0, true, max_pages) && warmed(
            m2,
            b,
            r->CycledFeed_1,
            feed_cycle(feed_cycle(a.feed)),
            max_pages,
        )
}

/// What an action does, by action.
pub open spec fn action_post(a: App, b: App, r: KeyOutcome, action: KeyAction, max_pages: u32) -> bool {
    let list = view_of(a.flow) == Screen::List;
    let comments = view_of(a.flow) == Screen::Comments;
    match action {
        KeyAction::ToggleHelp => r is Nothing && b == App {
            flow: help_toggled(a.flow),
            needs_redraw: true,
            ..a
        },
        KeyAction::ToggleProfiling => r is Nothing && status_set(
            App { profiling_enabled: !a.profiling_enabled, needs_redraw: true, ..a },
            b,
            profiling_message(!a.profiling_enabled),
        ),
        KeyAction::Quit => r is Nothing && b == quit(a),
        KeyAction::Escape => r is Nothing && if help_visible(a.flow) {
            b == App { flow: help_toggled(a.flow), needs_redraw: true, ..a }
        } else if comments {
            status_set(App { flow: AppFlowState::List, needs_redraw: true, ..a }, b, "Ready"@)
        } else {
            b == quit(a)
        },
        KeyAction::MoveDown => r is Nothing && moved_selection(a, b, 1i32),
        KeyAction::MoveUp => r is Nothing && moved_selection(a, b, -1i32),
        KeyAction::JumpTop => r is Nothing && jumped_top(a, b),
        KeyAction::JumpBottom => r is Nothing && jumped_bottom(a, b),
        KeyAction::Refresh => if list {
            if a.stories_loading {
                r is Nothing && status_set(
                    App { pending_refresh: true, ..a },
                    b,
                    "Refresh queued\u{2026}"@,
                )
            } else {
                r is Stories && forced_refresh(a, b, r->Stories_0, max_pages)
            }
        } else {
            (r is Nothing || r is Comments) && refresh_comments_post(a, b, fetch_of(r))
        },
        KeyAction::NextPage => if !list {
            r is Nothing && b == a
        } else if a.nav_mode == NavMode::Infinite {
            infinite_jump_post(a, b, r, max_pages)
        } else {
            r is Stories && refresh_any(
                App { page: a.page.saturating_add(1), ..a },
                b,
                r->Stories_0,
                true,
                max_pages,
            )
        },
        KeyAction::PrevPage => if !list {
            r is Nothing && b == a
        } else if a.nav_mode == NavMode::Infinite {
            r is Nothing && b == App {
                selected: if a.selected < 25 {
                    0
                } else {
                    (a.selected - 25) as usize
                },
                ..a
            }
        } else {
            r is Stories && refresh_any(
                App {
                    page: if a.page <= 1 {
                        1
                    } else {
                        (a.page - 1) as u32
                    },
                    ..a
                },
                b,
                r->Stories_0,
                true,
                max_pages,
            )
        },
        KeyAction::CycleFeed => if list {
            cycle_post(a, b, r, max_pages)
        } else {
            r is Nothing && b == a
        },
        KeyAction::OpenComments => if list {
            (r is Nothing || r is Comments) && open_comments_post(a, b, fetch_of(r))
        } else {
            r is Nothing && b == a
        },
        KeyAction::OpenStoryLink => (r is Nothing || r is Open) && if a.selected >= a.stories@.len() {
            r is Nothing && status_set(a, b, "No story selected"@)
        } else if a.stories@[a.selected as int].url@.len() == 0 {
            r is Nothing && status_set(a, b, "No link URL for this story"@)
        } else {
            link_of(r, LinkTarget::StoryLink) == Some(a.stories@[a.selected as int].url@) && b == a
        },
        KeyAction::OpenCommentsThread => (r is Nothing || r is Open) && if a.selected
            >= a.stories@.len() {
            r is Nothing && status_set(a, b, "No story selected"@)
        } else {
            link_of(r, LinkTarget::CommentsPage) == Some(
                a.stories@[a.selected as int].comments_url@,
            ) && b == a
        },
        KeyAction::OpenCommentPermalink => (r is Nothing || r is Open) && if !comments {
            r is Nothing && b == a
        } else if a.selected >= a.stories@.len() {
            r is Nothing && status_set(a, b, "No story selected"@)
        } else if a.comment_selected >= a.comments@.len() {
            r is Nothing && status_set(a, b, "No comment selected"@)
        } else {
            link_of(r, LinkTarget::CommentPermalink) == Some(
                permalink(
                    a.feed,
                    a.stories@[a.selected as int].short_id@,
                    a.comments@[a.comment_selected as int].short_id@,
                ),
            ) && b == a
        },
        KeyAction::ToggleCommentCollapse => r is Nothing && if comments {
            collapse_toggled(a, b)
        } else {
            b == a
        },
        KeyAction::StartSearch => r is Nothing && if comments {
            search_started(a, b)
        } else {
            b == a
        },
        KeyAction::NextMatch => r is Nothing && if comments {
            moved_to_next_match(a, b)
        } else {
            b == a
        },
        KeyAction::NextHighScore => r is Nothing && if comments {
            let found = a.high_score_target(5) is Some;
            exists|m: App|
                #![trigger moved_to_high_score(a, m, 5, found)]
                moved_to_high_score(a, m, 5, found) && if found {
                    b == m
                } else {
                    status_set(m, b, "No matching high-score comment found"@)
                }
        } else {
            b == a
        },
        KeyAction::SearchCancel | KeyAction::SearchApply | KeyAction::SearchBackspace => r is Nothing
            && b == a,
    }
}

/// What handling `key` does: the command it gives decides (see `command_for`).
pub open spec fn key_post(a: App, b: App, r: KeyOutcome, key: KeyInput, preset: KeymapPreset, max_pages: u32) -> bool {
    match command_for(a.flow, a.stories_loading, a.nav_mode, preset, key) {
        Command::Ignore => r is Nothing && b == a,
        Command::CloseHelp => r is Nothing && b == App {
            flow: help_toggled(a.flow),
            needs_redraw: true,
            ..a
        },
        Command::QuitFromHelp => r is Nothing && b == quit(a),
        Command::SearchCancel => r is Nothing && search_cleared(a, b),
        Command::SearchApply => r is Nothing && search_applied(a, b),
        Command::SearchType(c) => r is Nothing && b == App { search_input: b.search_input, ..a }
            && b.search_input@ == a.search_input@.push(c),
        Command::Act(action) => action_post(a, b, r, action, max_pages),
    }
}

fn with_char(s: &String, c: char) -> (r: String)
    ensures
        r@ == s@.push(c),
{
    let mut v = chars_of(s.as_str());
    v.push(c);
    string_of(&v)
}

fn act_refresh(app: &mut App, prefetch_max_pages: u32) -> (r: KeyOutcome)
    requires
        old(app).wf(),
    ensures
        final(app).wf(),
        action_post(*old(app), *final(app), r, KeyAction::Refresh, prefetch_max_pages),
{
    if app.current_view() == Screen::List {
        if app.stories_loading {
            app.pending_refresh = true;
            app.status = owned("Refresh queued\u{2026}");
            KeyOutcome::Nothing
        } else {
            KeyOutcome::Stories(force_refresh(app, prefetch_max_pages))
        }
    } else {
        match refresh_current_comments(app) {
            Some(fetch) => KeyOutcome::Comments(fetch),
            None => KeyOutcome::Nothing,
        }
    }
}

fn act_next_page(app: &mut App, prefetch_max_pages: u32) -> (r: KeyOutcome)
    requires
        old(app).wf(),
        key_bounds(*old(app)),
    ensures
        final(app).wf(),
        action_post(*old(app), *final(app), r, KeyAction::NextPage, prefetch_max_pages),
{
    if app.current_view() != Screen::List {
        return KeyOutcome::Nothing;
    }
    if app.nav_mode == NavMode::Infinite {
        let last = if app.stories.len() == 0 {
            0
        } else {
            app.stories.len() - 1
        };
        let jump = if 25 < last {
            25
        } else {
            last
        };
        let target = if app.selected + jump < last {
            app.selected + jump
        } else {
            last
        };
        app.selected = target;
        if app.selected + 15 >= app.stories.len() && !app.stories_loading {
            app.page = app.page.saturating_add(1);
            app.status = owned("Preloading more stories...");
            let ghost m2 = *app;
            let plan = refresh_stories(app, true, prefetch_max_pages);
            assert(refresh_any(m2, *app, plan, true, prefetch_max_pages));
            KeyOutcome::Stories(plan)
        } else {
            KeyOutcome::Nothing
        }
    } else {
        app.next_page();
        KeyOutcome::Stories(refresh_stories(app, true, prefetch_max_pages))
    }
}

fn act_prev_page(app: &mut App, prefetch_max_pages: u32) -> (r: KeyOutcome)
    requires
        old(app).wf(),
    ensures
        final(app).wf(),
        action_post(*old(app), *final(app), r, KeyAction::PrevPage, prefetch_max_pages),
{
    if app.current_view() != Screen::List {
        return KeyOutcome::Nothing;
    }
    if app.nav_mode == NavMode::Infinite {
        app.selected = app.selected.saturating_sub(25);
        KeyOutcome::Nothing
    } else {
        app.prev_page();
        KeyOutcome::Stories(refresh_stories(app, true, prefetch_max_pages))
    }
}

/// Whether the first page of `feed` is missing from the cache or expired; reads the clock.
fn first_page_expired(app: &App, feed: Feed) -> (r: bool)
    requires
        app.wf(),
    ensures
        find(app.stories_cache@, (feed, 1)) is None ==> r,
{
    match app.cached_stories(feed, 1) {
        Some(cached) => cached.is_expired(),
        None => true,
    }
}

#[verifier::spinoff_prover]
#[verifier::rlimit(40)]
fn act_cycle_feed(app: &mut App, prefetch_max_pages: u32) -> (r: KeyOutcome)
    requires
        old(app).wf(),
    ensures
        final(app).wf(),
        action_post(*old(app), *final(app), r, KeyAction::CycleFeed, prefetch_max_pages),
{
    if app.current_view() != Screen::List {
        return KeyOutcome::Nothing;
    }
    let ghost a = *app;
    app.reset_stories();
    let next = app.feed.cycle();
    app.feed = next;
    let ghost m = *app;
    let plan = refresh_stories(app, true, prefetch_max_pages);
    let ghost m2 = *app;
    let next_feed = app.feed.cycle();
    let job = if first_page_expired(app, next_feed) {
        ensure_feed_prefetch(app, next_feed, 1, prefetch_max_pages)
    } else {
        None
    };
    let r = KeyOutcome::CycledFeed(plan, job);
    assert(stories_reset(a, App { feed: a.feed, ..m }));
    assert(refresh_any(m, m2, r->CycledFeed_0, true, prefetch_max_pages));
    assert(warmed(m2, *app, r->CycledFeed_1, feed_cycle(feed_cycle(a.feed)), prefetch_max_pages));
    r
}

fn act_high_score(app: &mut App) -> (r: KeyOutcome)
    requires
        old(app).wf(),
        key_bounds(*old(app)),
    ensures
        final(app).wf(),
        action_post(*old(app), *final(app), r, KeyAction::NextHighScore, 0),
{
    if app.current_view() == Screen::Comments {
        let ghost a = *app;
        let found = app.next_high_score_comment(5);
        let ghost m = *app;
        if !found {
            app.status = owned("No matching high-score comment found");
        }
        assert(moved_to_high_score(a, m, 5, a.high_score_target(5) is Some));
    }
    KeyOutcome::Nothing
}

fn act_links(app: &mut App, action: KeyAction) -> (r: KeyOutcome)
    requires
        action == KeyAction::OpenStoryLink || action == KeyAction::OpenCommentsThread || action
            == KeyAction::OpenCommentPermalink,
    ensures
        action_post(*old(app), *final(app), r, action, 0),
{
    let (target, url) = match action {
        KeyAction::OpenStoryLink => (LinkTarget::StoryLink, story_link(app)),
        KeyAction::OpenCommentsThread => (LinkTarget::CommentsPage, comments_page_link(app)),
        _ => {
            if app.current_view() != Screen::Comments {
                return KeyOutcome::Nothing;
            }
            (LinkTarget::CommentPermalink, comment_permalink_link(app))
        },
    };
    match url {
        Some(u) => KeyOutcome::Open(target, u),
        None => KeyOutcome::Nothing,
    }
}

fn act_profiling(app: &mut App) -> (r: KeyOutcome)
    requires
        old(app).wf(),
    ensures
        final(app).wf(),
        action_post(*old(app), *final(app), r, KeyAction::ToggleProfiling, 0),
{
    app.toggle_profiling();
    app.status = owned(
        if app.profiling_enabled {
            "Profiling mode enabled"
        } else {
            "Profiling mode disabled"
        },
    );
    KeyOutcome::Nothing
}

fn act_escape(app: &mut App) -> (r: KeyOutcome)
    requires
        old(app).wf(),
    ensures
        final(app).wf(),
        action_post(*old(app), *final(app), r, KeyAction::Escape, 0),
{
    if app.is_help_visible() {
        app.toggle_help();
    } else if app.current_view() == Screen::Comments {
        app.return_to_list();
        app.status = owned("Ready");
    } else {
        app.request_quit();
    }
    KeyOutcome::Nothing
}

fn act_moves(app: &mut App, action: KeyAction) -> (r: KeyOutcome)
    requires
        old(app).wf(),
        key_bounds(*old(app)),
        action == KeyAction::MoveDown || action == KeyAction::MoveUp || action
            == KeyAction::JumpTop || action == KeyAction::JumpBottom,
    ensures
        final(app).wf(),
        action_post(*old(app), *final(app), r, action, 0),
{
    proof {
        lemma_index_of(app.current_filtered(), app.comment_selected);
    }
    match action {
        KeyAction::MoveDown => app.move_selection(1),
        KeyAction::MoveUp => app.move_selection(-1),
        KeyAction::JumpTop => app.jump_top(),
        _ => app.jump_bottom(),
    }
    KeyOutcome::Nothing
}

fn act_comments(app: &mut App, action: KeyAction) -> (r: KeyOutcome)
    requires
        old(app).wf(),
        action == KeyAction::OpenComments || action == KeyAction::ToggleCommentCollapse || action
            == KeyAction::StartSearch || action == KeyAction::NextMatch,
    ensures
        final(app).wf(),
        action_post(*old(app), *final(app), r, action, 0),
{
    let comments = app.current_view() == Screen::Comments;
    match action {
        KeyAction::OpenComments => {
            if app.current_view() == Screen::List {
                match open_comments(app) {
                    Some(fetch) => KeyOutcome::Comments(fetch),
                    None => KeyOutcome::Nothing,
                }
            } else {
                KeyOutcome::Nothing
            }
        },
        KeyAction::ToggleCommentCollapse => {
            if comments {
                app.toggle_selected_comment_collapsed();
            }
            KeyOutcome::Nothing
        },
        KeyAction::StartSearch => {
            if comments {
                app.start_search_mode();
            }
            KeyOutcome::Nothing
        },
        _ => {
            if comments {
                app.next_matching_comment();
            }
            KeyOutcome::Nothing
        },
    }
}

/// Performs a list or comments action.
fn act(app: &mut App, action: KeyAction, prefetch_max_pages: u32) -> (r: KeyOutcome)
    requires
        old(app).wf(),
        key_bounds(*old(app)),
    ensures
        final(app).wf(),
        action_post(*old(app), *final(app), r, action, prefetch_max_pages),
{
    match action {
        KeyAction::ToggleHelp => {
            app.toggle_help();
            KeyOutcome::Nothing
        },
        KeyAction::ToggleProfiling => act_profiling(app),
        KeyAction::Quit => {
            app.request_quit();
            KeyOutcome::Nothing
        },
        KeyAction::Escape => act_escape(app),
        KeyAction::MoveDown | KeyAction::MoveUp | KeyAction::JumpTop
        | KeyAction::JumpBottom => act_moves(app, action),
        KeyAction::Refresh => act_refresh(app, prefetch_max_pages),
        KeyAction::NextPage => act_next_page(app, prefetch_max_pages),
        KeyAction::PrevPage => act_prev_page(app, prefetch_max_pages),
        KeyAction::CycleFeed => act_cycle_feed(app, prefetch_max_pages),
        KeyAction::OpenComments | KeyAction::ToggleCommentCollapse | KeyAction::StartSearch
        | KeyAction::NextMatch => act_comments(app, action),
        KeyAction::OpenStoryLink | KeyAction::OpenCommentsThread
        | KeyAction::OpenCommentPermalink => act_links(app, action),
        KeyAction::NextHighScore => act_high_score(app),
        KeyAction::SearchCancel | KeyAction::SearchApply | KeyAction::SearchBackspace => {
            KeyOutcome::Nothing
        },
    }
}

/// Handles one key press (see `key_post`), and says what background work or browser page
/// it asks for.
pub fn handle_key(app: &mut App, key: KeyInput, keymap: Keymap, prefetch_max_pages: u32) -> (r: KeyOutcome)
    requires
        old(app).wf(),
        key_bounds(*old(app)),
    ensures
        final(app).wf(),
        key_post(*old(app), *final(app), r, key, keymap.preset, prefetch_max_pages),
{
    match key_command(app, key, keymap) {
        Command::Ignore => KeyOutcome::Nothing,
        Command::CloseHelp => {
            app.toggle_help();
            KeyOutcome::Nothing
        },
        Command::QuitFromHelp => {
            app.request_quit();
            KeyOutcome::Nothing
        },
        Command::SearchCancel => {
            app.clear_search_mode();
            KeyOutcome::Nothing
        },
        Command::SearchApply => {
            app.apply_search();
            KeyOutcome::Nothing
        },
        Command::SearchType(c) => {
            app.search_input = with_char(&app.search_input, c);
            KeyOutcome::Nothing
        },
        Command::Act(action) => act(app, action, prefetch_max_pages),
    }
}

} // verus!
