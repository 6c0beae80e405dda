use vstd::prelude::*;

use crate::api::{Feed, Story, StoryDetail};
use crate::app::{
    body_indent, comment_wrap, comments_wrapped, filtered_indices, moved_to_next_match, search_view,
    lemma_index_of, index_of, collapse_toggled, cur_pos, feed_invalidated, feed_set, find, has_key, help_visible, insert_newest, jumped_bottom,
    jumped_top, lemma_drop_feed_find, lemma_insert_newest, lemma_without_find, loaded_status,
    moved_selection, nav_mode_toggled, next_version, searching, sat_inc, stories_reset,
    switched_feed, text_set, view_of, without, App,
    AppFlowState, View as Screen, COMMENTS_CACHE_CAPACITY, STORIES_CACHE_CAPACITY,
};
use crate::cache::Freshness;
use crate::control::{
    key_post, page_cached, partial_shown, refresh_post, refresh_rest, refresh_served,
    serves_cached, KeyOutcome, RefreshPlan,
};
use crate::keymap::{parse_preset, preset_name, KeyInput, KeymapPreset};
use crate::config::{PersistedConfig, UiConfig};
use crate::hn::{hn_story, HnItem};
use crate::settings::config_parts;
use crate::app::{moved_to_high_score, search_applied};
use crate::settings::{resolved_settings, ConfigParts, EnvOverrides};
use crate::text::{ascii_lower, contains, trim, trim_end, trim_start};
use crate::text::lowercase;
use crate::api::comment_views;
use crate::wrap::{lemma_wrapped_body_indented, starts_with};

verus! {

/// Switching to another feed and back gives the first feed its stories, page and
/// selection again.
pub proof fn lemma_switch_feed_round_trip(a: App, b: App, c: App, other: Feed)
    requires
        other != a.feed,
        switched_feed(a, b, other),
        switched_feed(b, c, a.feed),
        a.selected < a.stories@.len() || (a.stories@.len() == 0 && a.selected == 0),
    ensures
        c.feed == a.feed,
        c.stories == a.stories,
        c.page == a.page,
        c.selected == a.selected,
{
    let saved = crate::app::FeedState { stories: a.stories, page: a.page, selected: a.selected };
    let kept = without(a.feed_states@, a.feed).push((a.feed, saved));
    assert(find(kept, a.feed) == Some(saved));
    lemma_without_find(kept, other, a.feed);
    assert(find(b.feed_states@, a.feed) == Some(saved));
}

/// Collapsing the selected comment twice leaves the collapsed set as it was.
pub proof fn lemma_collapse_toggle_twice(a: App, b: App, c: App)
    requires
        collapse_toggled(a, b),
        collapse_toggled(b, c),
    ensures
        text_set(c.collapsed_ids()) == text_set(a.collapsed_ids()),
{
    if a.comment_selected < a.comments@.len() {
        let id = a.comments@[a.comment_selected as int].short_id@;
        let s = text_set(a.collapsed_ids());
        if s.contains(id) {
            assert(s.remove(id).insert(id) =~= s);
        } else {
            assert(s.insert(id).remove(id) =~= s);
        }
    }
}

/// Switching the navigation mode twice gives the mode back, with the list emptied to
/// page one, to load again.
pub proof fn lemma_nav_mode_toggle_twice(a: App, b: App, c: App)
    requires
        nav_mode_toggled(a, b),
        nav_mode_toggled(b, c),
    ensures
        c.nav_mode == a.nav_mode,
        c.page == 1,
        c.stories@.len() == 0,
        c.needs_initial_load,
{
}

/// Pages are numbered from one: going back never leaves page one, and going forward then
/// back returns to the page started from, short of the last page number.
pub proof fn lemma_page_navigation(a: App, b: App, c: App)
    requires
        b == (App { page: a.page.saturating_add(1), ..a }),
        c == (App {
            page: if b.page <= 1 {
                1
            } else {
                (b.page - 1) as u32
            },
            ..b
        }),
    ensures
        b.page >= 1,
        c.page >= 1,
        1 <= a.page < u32::MAX ==> c == a,
{
}

/// A fetch a refresh hands out carries the request id that is now the current one, so
/// its result is the one taken in; any earlier request's result is dropped.
pub proof fn lemma_refresh_fetch_is_current(
    a: App,
    b: App,
    r: RefreshPlan,
    use_cache: bool,
    max_pages: u32,
    first: Freshness,
    second: Freshness,
)
    requires
        refresh_post(a, b, r, use_cache, max_pages, first, second),
        r.fetch is Some,
    ensures
        b.pending_stories_request_id == r.fetch->0.request_id,
        r.fetch->0.request_id == sat_inc(a.pending_stories_request_id),
{
    let m = choose|m: App|
        #![trigger refresh_rest(a, m, b, r, use_cache, max_pages, first, second)]
        refresh_served(a, m, serves_cached(a, use_cache, first)) && refresh_rest(
            a,
            m,
            b,
            r,
            use_cache,
            max_pages,
            first,
            second,
        );
    assert(m.pending_stories_request_id == a.pending_stories_request_id);
}

/// Request ids only move forward until the largest one: a new request is never mistaken
/// for an earlier one.
pub proof fn lemma_request_ids_advance(id: u64)
    requires
        id < u64::MAX,
    ensures
        sat_inc(id) > id,
{
}

/// Moving the selection keeps it on a story of the list, or on a comment shown.
pub proof fn lemma_move_selection_in_bounds(a: App, b: App, delta: i32)
    requires
        moved_selection(a, b, delta),
    ensures
        view_of(a.flow) == Screen::List && a.stories@.len() > 0 ==> b.selected
            < a.stories@.len(),
        view_of(a.flow) == Screen::Comments && a.current_filtered().len() > 0 ==> a.current_filtered().contains(
            b.comment_selected,
        ),
{
    if view_of(a.flow) == Screen::Comments && a.current_filtered().len() > 0 {
        let f = a.current_filtered();
        let i = crate::app::clamp(cur_pos(f, a.comment_selected) + delta, 0, f.len() - 1);
        assert(0 <= i < f.len());
        assert(f[i] == b.comment_selected);
    }
}

/// A first part of a thread that reaches the selected comment keeps the selection where
/// it is, and the thread keeps loading.
pub proof fn lemma_partial_keeps_selection(a: App, b: App, detail: StoryDetail, ms: u128)
    requires
        partial_shown(a, b, detail, ms),
        a.comment_selected < detail.comments@.len(),
        detail.comments@.len() <= usize::MAX,
    ensures
        b.comment_selected == a.comment_selected,
        b.comments_loading == a.comments_loading,
        b.pending_comment_story_id == a.pending_comment_story_id,
{
}

/// Every count and timeout setting but the retry backoff is at least one, whatever the
/// configuration file and the environment say.
pub proof fn lemma_settings_at_least_one(high_contrast: bool, cfg: ConfigParts, env: EnvOverrides)
    requires
        cfg.page is Some ==> cfg.page->0 <= u32::MAX,
        cfg.prefetch is Some ==> cfg.prefetch->0 <= u32::MAX,
        cfg.initial is Some ==> cfg.initial->0 <= usize::MAX,
        cfg.step is Some ==> cfg.step->0 <= usize::MAX,
        cfg.concurrency is Some ==> cfg.concurrency->0 <= usize::MAX,
        cfg.connect is Some ==> cfg.connect->0 <= u64::MAX,
        cfg.request is Some ==> cfg.request->0 <= u64::MAX,
        cfg.retries is Some ==> cfg.retries->0 <= usize::MAX,
    ensures
        resolved_settings(high_contrast, cfg, env).startup_page >= 1,
        resolved_settings(high_contrast, cfg, env).prefetch_max_pages >= 1,
        resolved_settings(high_contrast, cfg, env).hn_progressive_initial_comments >= 1,
        resolved_settings(high_contrast, cfg, env).hn_progressive_step_comments >= 1,
        resolved_settings(high_contrast, cfg, env).hn_comments_fetch_concurrency >= 1,
        resolved_settings(high_contrast, cfg, env).connect_timeout_ms >= 1,
        resolved_settings(high_contrast, cfg, env).request_timeout_ms >= 1,
        resolved_settings(high_contrast, cfg, env).retry_attempts >= 1,
{
}

/// Each preset reads back from its own name.
pub proof fn lemma_preset_name_round_trip(p: KeymapPreset)
    ensures
        parse_preset(preset_name(p)) == Some(p),
{
    reveal_strlit("vim");
    reveal_strlit("plain");
    reveal_strlit("default");
    reveal_strlit("non-vim");
    reveal_strlit("nonvim");
    let n = preset_name(p);
    assert(trim_start(n) == n);
    assert(trim_end(n) == n);
    assert(ascii_lower(n) =~= n);
}

/// A story detail cached under `id` reads back as cached, and the cache stays within its
/// capacity.
pub proof fn lemma_comments_cache_read_after_write(a: App, b: App, id: Seq<char>, d: crate::api::StoryDetailView)
    requires
        a.wf(),
        b.detail_cache() == insert_newest(a.detail_cache(), id, d, COMMENTS_CACHE_CAPACITY as nat),
    ensures
        find(b.detail_cache(), id) == Some(d),
        b.detail_cache().len() <= COMMENTS_CACHE_CAPACITY,
{
    lemma_insert_newest(a.detail_cache(), id, d, COMMENTS_CACHE_CAPACITY as nat);
}

/// Pressing `?` twice, away from search mode, opens and closes the help overlay and
/// leaves the app as it was.
pub proof fn lemma_help_key_round_trip(
    a: App,
    b: App,
    c: App,
    preset: KeymapPreset,
    max_pages: u32,
    r1: KeyOutcome,
    r2: KeyOutcome,
)
    requires
        !searching(a.flow),
        !help_visible(a.flow),
        a.flow != AppFlowState::Quitting,
        key_post(a, b, r1, KeyInput::Char('?'), preset, max_pages),
        key_post(b, c, r2, KeyInput::Char('?'), preset, max_pages),
    ensures
        c == (App { needs_redraw: true, ..a }),
        help_visible(b.flow),
{
    crate::app::lemma_help_toggle_involution(a.flow);
}

/// A page of stories cached under a feed and page reads back as cached, and the cache
/// stays within its capacity.
pub proof fn lemma_stories_cache_read_after_write(
    a: App,
    b: App,
    feed: Feed,
    page: u32,
    held: Seq<crate::api::StoryView>,
)
    requires
        a.wf(),
        page_cached(a, b, feed, page, held),
    ensures
        find(b.stories_cache@, (feed, page)) is Some,
        find(b.stories_cache@, (feed, page))->0.held() == held,
        b.stories_cache@.len() <= STORIES_CACHE_CAPACITY,
{
    lemma_insert_newest(a.stories_cache@, (feed, page), b.stories_cache@.last().1, STORIES_CACHE_CAPACITY as nat);
}

/// Dropping a feed's cached pages leaves every other feed's pages as they were.
pub proof fn lemma_invalidate_only_that_feed(a: App, b: App, feed: Feed, key: (Feed, u32))
    requires
        feed_invalidated(a, b, feed),
    ensures
        key.0 == feed ==> find(b.stories_cache@, key) is None,
        key.0 != feed ==> find(b.stories_cache@, key) == find(a.stories_cache@, key),
{
    lemma_drop_feed_find(a.stories_cache@, feed, key);
}

/// The story list's selection is on a story whenever there are stories, and at the top
/// when there are none; the page is never below one.
pub open spec fn list_ok(a: App) -> bool {
    &&& a.stories@.len() == 0 ==> a.selected == 0
    &&& a.stories@.len() > 0 ==> a.selected < a.stories@.len()
    &&& a.page >= 1
}

/// One step of the story list: a move, a jump, a page turn, a switch of navigation mode, a
/// reset, appended stories, or the start or end of a load, each as its operation states it.
pub open spec fn list_step(a: App, b: App, delta: i32, appended: Seq<Story>) -> bool {
    ||| moved_selection(a, b, delta)
    ||| jumped_top(a, b)
    ||| jumped_bottom(a, b)
    ||| b == (App { page: a.page.saturating_add(1), ..a })
    ||| b == (App {
        page: if a.page <= 1 {
            1
        } else {
            (a.page - 1) as u32
        },
        ..a
    })
    ||| nav_mode_toggled(a, b)
    ||| stories_reset(a, b)
    ||| {
        &&& b.stories@ == a.stories@ + appended
        &&& b.status@ == loaded_status(b.stories@.len())
        &&& b == (App {
            stories: b.stories,
            status: b.status,
            stories_version: next_version(a.stories_version),
            needs_redraw: true,
            ..a
        })
    }
    ||| b == (App { stories_loading: false, ..a })
    ||| {
        &&& b == (App {
            stories_loading: true,
            pending_stories_request_id: sat_inc(a.pending_stories_request_id),
            status: b.status,
            ..a
        })
    }
}

/// Every step of the story list keeps the selection on a story and the page at one or
/// more.
pub proof fn lemma_list_ok_kept(a: App, b: App, delta: i32, appended: Seq<Story>)
    requires
        list_ok(a),
        list_step(a, b, delta, appended),
    ensures
        list_ok(b),
{
}

/// More stories are only ever asked for by an infinite list.
pub proof fn lemma_more_stories_only_when_infinite(a: App)
    requires
        crate::control::wants_more(a),
    ensures
        a.nav_mode == crate::app::NavMode::Infinite,
{
}

/// The calls on the app that touch the current feed, the kept feed states, the current
/// stories request or the prefetch marks, each as its own contract states it; `Other`
/// stands for every other call, each of which leaves those four as they are.
pub enum AppCall {
    SwitchFeed,
    ResetStories,
    InvalidateFeed,
    ToggleNavMode,
    BeginPrefetch,
    SeedFeedState,
    BeginLoading,
    AllocateRequestId,
    FinishLoading,
    CacheChange,
    Other,
}

/// The current feed, the kept feed states, the current stories request and the prefetch
/// marks are as they were.
pub open spec fn untouched(a: App, b: App) -> bool {
    &&& b.feed == a.feed
    &&& b.feed_states == a.feed_states
    &&& b.pending_stories_request_id == a.pending_stories_request_id
    &&& b.prefetch_started_feeds == a.prefetch_started_feeds
}

/// `b` is what `call`, given the feed `g` where it takes one, makes of `a`.
pub open spec fn app_call(a: App, b: App, call: AppCall, g: Feed) -> bool {
    match call {
        AppCall::SwitchFeed => switched_feed(a, b, g),
        AppCall::ResetStories => stories_reset(a, b),
        AppCall::InvalidateFeed => feed_invalidated(a, b, g),
        AppCall::ToggleNavMode => nav_mode_toggled(a, b),
        AppCall::BeginPrefetch => {
            &&& feed_set(b.prefetch_started_feeds@) == feed_set(a.prefetch_started_feeds@).insert(g)
            &&& b == (App { prefetch_started_feeds: b.prefetch_started_feeds, ..a })
        },
        AppCall::SeedFeedState => b == a || {
            &&& !has_key(a.feed_states@, g)
            &&& g != a.feed
            &&& b.feed_states@.len() == a.feed_states@.len() + 1
            &&& b.feed_states@.drop_last() == a.feed_states@
            &&& b.feed_states@.last().0 == g
            &&& b == (App { feed_states: b.feed_states, ..a })
        },
        AppCall::BeginLoading => b == (App {
            stories_loading: true,
            pending_stories_request_id: sat_inc(a.pending_stories_request_id),
            status: b.status,
            ..a
        }),
        AppCall::AllocateRequestId => b == (App {
            pending_stories_request_id: sat_inc(a.pending_stories_request_id),
            ..a
        }),
        AppCall::FinishLoading => b == (App { stories_loading: false, ..a }),
        AppCall::CacheChange => b == (App { stories_cache: b.stories_cache, ..a }),
        AppCall::Other => untouched(a, b),
    }
}

/// `s` runs through `calls` in turn: each state is what the call before it makes of the
/// one before.
pub open spec fn runs(s: Seq<App>, calls: Seq<(AppCall, Feed)>) -> bool {
    &&& s.len() == calls.len() + 1
    &&& forall|i: int| 0 <= i < calls.len() ==> #[trigger] app_call(s[i], s[i + 1], calls[i].0, calls[i].1)
}

proof fn lemma_find_has_key<K, V>(s: Seq<(K, V)>, k: K)
    requires
        find(s, k) is Some,
    ensures
        has_key(s, k),
    decreases s.len(),
{
    if s.last().0 != k {
        lemma_find_has_key(s.drop_last(), k);
        let i = choose|i: int| 0 <= i < s.drop_last().len() && s.drop_last()[i].0 == k;
        assert(s[i].0 == k);
    } else {
        assert(s[s.len() - 1].0 == k);
    }
}

proof fn lemma_find_push<K, V>(s: Seq<(K, V)>, e: (K, V), k: K)
    requires
        e.0 != k,
    ensures
        find(s.push(e), k) == find(s, k),
{
    assert(s.push(e).drop_last() =~= s);
}

/// Whether a call spares the kept state of feed `f`: neither a switch of navigation mode,
/// nor dropping `f`'s pages, nor a switch to `f`.
pub open spec fn spares_kept_state(call: (AppCall, Feed), f: Feed) -> bool {
    &&& call.0 != AppCall::ToggleNavMode
    &&& !(call.0 == AppCall::InvalidateFeed && call.1 == f)
    &&& !(call.0 == AppCall::SwitchFeed && call.1 == f)
}

proof fn lemma_kept_state_step(a: App, b: App, call: (AppCall, Feed), f: Feed, saved: crate::app::FeedState)
    requires
        a.feed != f,
        find(a.feed_states@, f) == Some(saved),
        app_call(a, b, call.0, call.1),
        spares_kept_state(call, f),
    ensures
        b.feed != f,
        find(b.feed_states@, f) == Some(saved),
{
    let g = call.1;
    match call.0 {
        AppCall::SwitchFeed => {
            if g != a.feed {
                let st = crate::app::FeedState { stories: a.stories, page: a.page, selected: a.selected };
                let kept = without(a.feed_states@, a.feed).push((a.feed, st));
                lemma_without_find(kept, g, f);
                lemma_find_push(without(a.feed_states@, a.feed), (a.feed, st), f);
                lemma_without_find(a.feed_states@, a.feed, f);
            }
        },
        AppCall::ResetStories => {
            lemma_without_find(a.feed_states@, a.feed, f);
        },
        AppCall::InvalidateFeed => {
            lemma_without_find(a.feed_states@, g, f);
        },
        AppCall::SeedFeedState => {
            if b != a {
                lemma_find_has_key(a.feed_states@, f);
                assert(b.feed_states@ =~= a.feed_states@.push(b.feed_states@.last()));
                lemma_find_push(a.feed_states@, b.feed_states@.last(), f);
            }
        },
        _ => {},
    }
}

proof fn lemma_kept_state_through(s: Seq<App>, calls: Seq<(AppCall, Feed)>, f: Feed, saved: crate::app::FeedState, k: int)
    requires
        runs(s, calls),
        s[0].feed != f,
        find(s[0].feed_states@, f) == Some(saved),
        forall|i: int| 0 <= i < calls.len() ==> #[trigger] spares_kept_state(calls[i], f),
        0 <= k < s.len(),
    ensures
        s[k].feed != f,
        find(s[k].feed_states@, f) == Some(saved),
    decreases k,
{
    if k > 0 {
        lemma_kept_state_through(s, calls, f, saved, k - 1);
        assert(app_call(s[k - 1], s[k - 1 + 1], calls[k - 1].0, calls[k - 1].1));
        assert(spares_kept_state(calls[k - 1], f));
        lemma_kept_state_step(s[k - 1], s[k], calls[k - 1], f, saved);
    }
}

/// Switching to another feed keeps the first feed's stories, page and selection through
/// any calls that spare its kept state (see `spares_kept_state`), and switching back then
/// gives them again, with no load under way.
pub proof fn lemma_switch_back_after_calls(a: App, s: Seq<App>, calls: Seq<(AppCall, Feed)>, other: Feed, z: App)
    requires
        list_ok(a),
        other != a.feed,
        runs(s, calls),
        switched_feed(a, s[0], other),
        forall|i: int| 0 <= i < calls.len() ==> #[trigger] spares_kept_state(calls[i], a.feed),
        switched_feed(s.last(), z, a.feed),
    ensures
        z.feed == a.feed,
        z.stories == a.stories,
        z.page == a.page,
        z.selected == a.selected,
        !z.stories_loading,
{
    let saved = crate::app::FeedState { stories: a.stories, page: a.page, selected: a.selected };
    let kept = without(a.feed_states@, a.feed).push((a.feed, saved));
    assert(find(kept, a.feed) == Some(saved));
    lemma_without_find(kept, other, a.feed);
    lemma_kept_state_through(s, calls, a.feed, saved, s.len() - 1);
}

/// Whether a call keeps the current stories request: neither starting a load, nor
/// allocating a request id, nor switching to another feed.
pub open spec fn keeps_request(call: (AppCall, Feed), current: Feed) -> bool {
    &&& call.0 != AppCall::BeginLoading
    &&& call.0 != AppCall::AllocateRequestId
    &&& !(call.0 == AppCall::SwitchFeed && call.1 != current)
}

proof fn lemma_request_through(s: Seq<App>, calls: Seq<(AppCall, Feed)>, k: int)
    requires
        runs(s, calls),
        forall|i: int| 0 <= i < calls.len() ==> #[trigger] keeps_request(calls[i], s[i].feed),
        0 <= k < s.len(),
    ensures
        s[k].pending_stories_request_id == s[0].pending_stories_request_id,
    decreases k,
{
    if k > 0 {
        lemma_request_through(s, calls, k - 1);
        assert(app_call(s[k - 1], s[k - 1 + 1], calls[k - 1].0, calls[k - 1].1));
        assert(keeps_request(calls[k - 1], s[k - 1].feed));
    }
}

/// The stories request made last stays the current one through any calls that keep it
/// (see `keeps_request`): only its id is taken as current
/// (`is_current_stories_request`).
pub proof fn lemma_request_id_survives(s: Seq<App>, calls: Seq<(AppCall, Feed)>)
    requires
        runs(s, calls),
        forall|i: int| 0 <= i < calls.len() ==> #[trigger] keeps_request(calls[i], s[i].feed),
    ensures
        forall|k: int| 0 <= k < s.len() ==> #[trigger] s[k].pending_stories_request_id
            == s[0].pending_stories_request_id,
{
    assert forall|k: int| 0 <= k < s.len() implies #[trigger] s[k].pending_stories_request_id
        == s[0].pending_stories_request_id by {
        lemma_request_through(s, calls, k);
    }
}

/// Whether a call spares the prefetch mark of feed `f`: neither dropping `f`'s pages,
/// nor a switch to `f`, nor a reset of the list while `f` is the current feed.
pub open spec fn spares_mark(call: (AppCall, Feed), f: Feed, current: Feed) -> bool {
    &&& !(call.0 == AppCall::InvalidateFeed && call.1 == f)
    &&& !(call.0 == AppCall::SwitchFeed && call.1 == f)
    &&& !(call.0 == AppCall::ResetStories && current == f)
}

proof fn lemma_mark_through(s: Seq<App>, calls: Seq<(AppCall, Feed)>, f: Feed, k: int)
    requires
        runs(s, calls),
        feed_set(s[0].prefetch_started_feeds@).contains(f),
        forall|i: int| 0 <= i < calls.len() ==> #[trigger] spares_mark(calls[i], f, s[i].feed),
        0 <= k < s.len(),
    ensures
        feed_set(s[k].prefetch_started_feeds@).contains(f),
    decreases k,
{
    if k > 0 {
        lemma_mark_through(s, calls, f, k - 1);
        assert(app_call(s[k - 1], s[k - 1 + 1], calls[k - 1].0, calls[k - 1].1));
        assert(spares_mark(calls[k - 1], f, s[k - 1].feed));
    }
}

/// A new app marks no feed as prefetching; a feed once marked stays marked through any
/// calls that spare its mark (see `spares_mark`), so asking again to prefetch it is
/// refused.
pub proof fn lemma_prefetch_mark_kept(s: Seq<App>, calls: Seq<(AppCall, Feed)>, f: Feed)
    requires
        runs(s, calls),
        feed_set(s[0].prefetch_started_feeds@).contains(f),
        forall|i: int| 0 <= i < calls.len() ==> #[trigger] spares_mark(calls[i], f, s[i].feed),
    ensures
        forall|k: int| 0 <= k < s.len() ==> feed_set(#[trigger] s[k].prefetch_started_feeds@).contains(f),
        forall|a: App| #[trigger] a.is_initial() ==> !feed_set(a.prefetch_started_feeds@).contains(f),
{
    assert forall|k: int| 0 <= k < s.len() implies feed_set(#[trigger] s[k].prefetch_started_feeds@).contains(f) by {
        lemma_mark_through(s, calls, f, k);
    }
}

/// The wrapped lines held stand for the comments they were made from, at the width
/// they were made for.
pub open spec fn wrap_current(a: App, max_indent_level: usize) -> bool {
    match a.wrapped_comments_width {
        Some(w) => a.wrapped().len() <= a.comments@.len() ==> forall|i: int|
            0 <= i < a.wrapped().len() ==> #[trigger] a.wrapped()[i] == comment_wrap(
                a.comments@[i]@,
                w,
                max_indent_level,
            ),
        None => true,
    }
}

/// Wrapping the comments for a pane gives each comment its own display lines, at least
/// one, each starting with the comment's indentation; wrapping again for the same pane
/// changes nothing. A new app holds no wrapped lines to stand for anything.
pub proof fn lemma_wrap_indent_and_repeat(a: App, b: App, c: App, inner_width: usize, max_indent_level: usize)
    requires
        wrap_current(a, max_indent_level),
        comments_wrapped(a, b, inner_width, max_indent_level),
        comments_wrapped(b, c, inner_width, max_indent_level),
    ensures
        b.wrapped().len() == b.comments@.len(),
        forall|i: int|
            0 <= i < b.comments@.len() ==> {
                &&& #[trigger] b.wrapped()[i] == comment_wrap(b.comments@[i]@, inner_width, max_indent_level)
                &&& b.wrapped()[i].len() >= 1
                &&& forall|j: int|
                    0 <= j < b.wrapped()[i].len() ==> starts_with(
                        #[trigger] b.wrapped()[i][j],
                        body_indent(b.comments@[i].depth, max_indent_level),
                    )
            },
        wrap_current(b, max_indent_level),
        c.wrapped() == b.wrapped(),
        c == (App { wrapped_comments: c.wrapped_comments, ..b }),
        forall|n: App| #[trigger] n.is_initial() ==> wrap_current(n, max_indent_level),
{
    assert forall|i: int| 0 <= i < b.comments@.len() implies {
        &&& #[trigger] b.wrapped()[i] == comment_wrap(b.comments@[i]@, inner_width, max_indent_level)
        &&& b.wrapped()[i].len() >= 1
        &&& forall|j: int|
            0 <= j < b.wrapped()[i].len() ==> starts_with(
                #[trigger] b.wrapped()[i][j],
                body_indent(b.comments@[i].depth, max_indent_level),
            )
    } by {
        let cv = b.comments@[i]@;
        let indent = body_indent(cv.depth, max_indent_level);
        let w = if inner_width > indent.len() {
            (inner_width - indent.len()) as usize
        } else {
            1usize
        };
        lemma_wrapped_body_indented(cv.comment_plain, cv.is_deleted, indent, w);
    }
    assert(c.wrapped() =~= b.wrapped());
}

proof fn lemma_filtered_ascending(comments: Seq<crate::api::CommentView>, search: Option<Seq<char>>)
    requires
        comments.len() <= usize::MAX,
    ensures
        forall|i: int, j: int|
            0 <= i < j < filtered_indices(comments, search).len() ==> filtered_indices(comments, search)[i]
                < filtered_indices(comments, search)[j],
        forall|i: int|
            0 <= i < filtered_indices(comments, search).len() ==> filtered_indices(comments, search)[i]
                < comments.len(),
    decreases comments.len(),
{
    if comments.len() > 0 {
        lemma_filtered_ascending(comments.drop_last(), search);
        let prev = filtered_indices(comments.drop_last(), search);
        let last = (comments.len() - 1) as usize;
        let r = filtered_indices(comments, search);
        if r.len() != prev.len() {
            assert(r == prev.push(last));
            assert forall|i: int, j: int| 0 <= i < j < r.len() implies r[i] < r[j] by {
                if j < prev.len() {
                    assert(r[i] == prev[i] && r[j] == prev[j]);
                } else {
                    assert(r[i] == prev[i]);
                }
            }
            assert forall|i: int| 0 <= i < r.len() implies r[i] < comments.len() by {
                if i < prev.len() {
                    assert(r[i] == prev[i]);
                }
            }
        } else {
            assert(r == prev);
        }
    }
}

proof fn lemma_pos_of_distinct(f: Seq<usize>, k: int)
    requires
        forall|i: int, j: int| 0 <= i < j < f.len() ==> f[i] < f[j],
        0 <= k < f.len(),
    ensures
        cur_pos(f, f[k]) == k,
{
    lemma_index_of(f, f[k]);
}

proof fn lemma_round_through(s: Seq<App>, f: Seq<usize>, p: int, k: int)
    requires
        f.len() > 0,
        forall|i: int, j: int| 0 <= i < j < f.len() ==> f[i] < f[j],
        s[0].current_filtered() == f,
        0 <= p < f.len(),
        s[0].comment_selected == f[p],
        forall|i: int| 0 <= i < s.len() - 1 ==> #[trigger] moved_to_next_match(s[i], s[i + 1]),
        0 <= k < s.len(),
    ensures
        s[k].current_filtered() == f,
        s[k].comments == s[0].comments,
        s[k].active_search == s[0].active_search,
        s[k].comment_selected == f[(p + k) % (f.len() as int)],
    decreases k,
{
    let n = f.len() as int;
    if k == 0 {
        vstd::arithmetic::div_mod::lemma_small_mod(p as nat, n as nat);
    } else {
        lemma_round_through(s, f, p, k - 1);
        assert(moved_to_next_match(s[k - 1], s[k - 1 + 1]));
        let q = (p + k - 1) % n;
        vstd::arithmetic::div_mod::lemma_mod_bound(p + k - 1, n);
        lemma_pos_of_distinct(f, q);
        assert(s[k].comment_selected == f[(q + 1) % n]);
        vstd::arithmetic::div_mod::lemma_add_mod_noop(p + k - 1, 1, n);
        if n > 1 {
            vstd::arithmetic::div_mod::lemma_small_mod(1, n as nat);
        } else {
            assert(q == 0);
            assert((q + 1) % n == 0);
            assert((p + k) % n == 0) by {
                vstd::arithmetic::div_mod::lemma_mod_bound(p + k, n);
            }
        }
    }
}

/// With the shown comments those a search matches, in order, going to the next match as
/// many times as there are matches brings the selection back to where it started; each
/// step goes to the next match, round to the first.
pub proof fn lemma_next_match_full_round(s: Seq<App>, p: int)
    requires
        s.len() >= 1,
        s[0].comments@.len() <= usize::MAX,
        s[0].current_filtered() == filtered_indices(comment_views(s[0].comments@), search_view(s[0].active_search)),
        0 <= p < s[0].current_filtered().len(),
        s[0].comment_selected == s[0].current_filtered()[p],
        forall|i: int| 0 <= i < s.len() - 1 ==> #[trigger] moved_to_next_match(s[i], s[i + 1]),
    ensures
        forall|k: int|
            0 <= k < s.len() ==> #[trigger] s[k].comment_selected == s[0].current_filtered()[(p + k) % (
            s[0].current_filtered().len() as int)],
        s.len() == s[0].current_filtered().len() + 1 ==> s.last().comment_selected == s[0].comment_selected,
{
    let f = s[0].current_filtered();
    let n = f.len() as int;
    lemma_filtered_ascending(comment_views(s[0].comments@), search_view(s[0].active_search));
    assert forall|k: int| 0 <= k < s.len() implies #[trigger] s[k].comment_selected == f[(p + k) % n] by {
        lemma_round_through(s, f, p, k);
    }
    if s.len() == n + 1 {
        lemma_round_through(s, f, p, n);
        vstd::arithmetic::div_mod::lemma_add_mod_noop(p, n, n);
        vstd::arithmetic::div_mod::lemma_small_mod(p as nat, n as nat);
        vstd::arithmetic::div_mod::lemma_mod_self_0(n);
        assert(s.last() == s[n]);
    }
}

/// Jumping to the bottom (`G` under the vim preset, End under the plain one) puts the
/// selection on the last story of the list, or on the last comment shown; nothing else but
/// the selection moves.
pub proof fn lemma_jump_bottom_keys(
    a: App,
    b: App,
    r: KeyOutcome,
    key: KeyInput,
    preset: KeymapPreset,
    max_pages: u32,
)
    requires
        (preset == KeymapPreset::Vim && key == KeyInput::Char('G')) || (preset == KeymapPreset::Plain
            && key == KeyInput::End),
        !help_visible(a.flow),
        !searching(a.flow),
        !a.stories_loading,
        key_post(a, b, r, key, preset, max_pages),
    ensures
        r is Nothing,
        b.stories == a.stories,
        b.comments == a.comments,
        view_of(a.flow) == Screen::List && a.stories@.len() > 0 ==> b.selected == a.stories@.len() - 1,
        view_of(a.flow) == Screen::Comments && a.current_filtered().len() > 0 ==> b.comment_selected
            == a.current_filtered().last(),
{
    assert(a.stories@.len() == a.stories.len());
}

/// Jumping to the top (`g` under the vim preset, Home under the plain one) puts the
/// selection on the first story of the list, or on the first comment shown.
pub proof fn lemma_jump_top_keys(
    a: App,
    b: App,
    r: KeyOutcome,
    key: KeyInput,
    preset: KeymapPreset,
    max_pages: u32,
)
    requires
        (preset == KeymapPreset::Vim && key == KeyInput::Char('g')) || (preset == KeymapPreset::Plain
            && key == KeyInput::Home),
        !help_visible(a.flow),
        !searching(a.flow),
        !a.stories_loading,
        key_post(a, b, r, key, preset, max_pages),
    ensures
        r is Nothing,
        b.stories == a.stories,
        b.comments == a.comments,
        view_of(a.flow) == Screen::List ==> b.selected == 0,
        view_of(a.flow) == Screen::Comments && a.current_filtered().len() > 0 ==> b.comment_selected
            == a.current_filtered()[0],
{
}

proof fn lemma_filtered_member(
    cs: Seq<crate::api::CommentView>,
    search: Option<Seq<char>>,
    i: int,
)
    requires
        cs.len() <= usize::MAX,
        0 <= i < cs.len(),
    ensures
        filtered_indices(cs, search).contains(i as usize) <==> match search {
            None => true,
            Some(q) => contains(lowercase(cs[i].comment_plain), q) || contains(
                lowercase(cs[i].commenting_user),
                q,
            ),
        },
    decreases cs.len(),
{
    let prev = filtered_indices(cs.drop_last(), search);
    let last = (cs.len() - 1) as usize;
    let r = filtered_indices(cs, search);
    lemma_filtered_ascending(cs.drop_last(), search);
    if i < cs.len() - 1 {
        lemma_filtered_member(cs.drop_last(), search, i);
        assert(cs.drop_last()[i] == cs[i]);
        if r.len() != prev.len() {
            assert(r == prev.push(last));
            if prev.contains(i as usize) {
                let k = choose|k: int| 0 <= k < prev.len() && prev[k] == i as usize;
                assert(r[k] == i as usize);
            }
            if r.contains(i as usize) {
                let k = choose|k: int| 0 <= k < r.len() && r[k] == i as usize;
                assert(k < prev.len());
                assert(prev[k] == i as usize);
            }
        } else {
            assert(r == prev);
        }
    } else {
        assert(!prev.contains(last)) by {
            if prev.contains(last) {
                let k = choose|k: int| 0 <= k < prev.len() && prev[k] == last;
                assert(prev[k] < cs.drop_last().len());
            }
        }
        if r.len() != prev.len() {
            assert(r == prev.push(last));
            assert(r[prev.len() as int] == last);
        } else {
            assert(r == prev);
        }
    }
}

/// Applying a search shows exactly the comments whose text or author, lowered, contains
/// the typed query trimmed and lowered; an empty query shows every comment.
pub proof fn lemma_search_matches_text_or_author(a: App, b: App, i: int)
    requires
        search_applied(a, b),
        a.comments@.len() <= usize::MAX,
        0 <= i < a.comments@.len(),
    ensures
        ({
            let q = lowercase(trim(a.search_input@));
            &&& q.len() == 0 ==> b.current_filtered().contains(i as usize)
            &&& q.len() > 0 ==> (b.current_filtered().contains(i as usize) <==> (contains(
                lowercase(a.comments@[i].comment_plain@),
                q,
            ) || contains(lowercase(a.comments@[i].commenting_user@), q)))
        }),
{
    let q = lowercase(trim(a.search_input@));
    let cs = comment_views(a.comments@);
    assert(cs[i] == a.comments@[i]@);
    lemma_filtered_member(cs, if q.len() == 0 { None } else { Some(q) }, i);
}

/// A Hacker News item makes a story exactly when it is a story; the story's score is the
/// item's points and its comment count the item's descendants, each zero when absent.
pub proof fn lemma_hn_story_counts(item: HnItem)
    ensures
        (item.item_type == Some::<String>(item.item_type->0) && item.item_type->0@ == "story"@)
            <==> hn_story(item) is Some,
        hn_story(item) is Some ==> {
            let s = hn_story(item)->0;
            &&& item.score is Some ==> s.score == item.score->0
            &&& item.score is None ==> s.score == 0
            &&& item.descendants is Some ==> s.comment_count == item.descendants->0
            &&& item.descendants is None ==> s.comment_count == 0
        },
{
}

/// The configuration file's high-contrast setting decides, unless the environment sets it;
/// with neither, the app's own setting stays.
pub proof fn lemma_config_high_contrast(high_contrast: bool, c: PersistedConfig, env: EnvOverrides)
    requires
        env.high_contrast is None,
    ensures
        (c.ui is Some && c.ui->0.high_contrast is Some) ==> resolved_settings(
            high_contrast,
            config_parts(Some(c)),
            env,
        ).high_contrast == c.ui->0.high_contrast->0,
        (c.ui is None || c.ui->0.high_contrast is None) ==> resolved_settings(
            high_contrast,
            config_parts(Some(c)),
            env,
        ).high_contrast == high_contrast,
        resolved_settings(high_contrast, config_parts(None), env).high_contrast == high_contrast,
{
}

proof fn lemma_first_high_offset(
    f: Seq<usize>,
    cs: Seq<crate::api::CommentView>,
    start: int,
    min: i32,
    o: int,
    t: int,
)
    requires
        0 <= o <= t < f.len(),
        f[(start + t) % (f.len() as int)] < cs.len(),
        cs[f[(start + t) % (f.len() as int)] as int].score >= min,
        forall|k: int|
            o <= k < t ==> !(#[trigger] f[(start + k) % (f.len() as int)] < cs.len() && cs[f[(start + k)
                % (f.len() as int)] as int].score >= min),
    ensures
        crate::app::high_score_offset(f, cs, start, min, o) == Some(t),
    decreases t - o,
{
    if o < t {
        assert(!(f[(start + o) % (f.len() as int)] < cs.len() && cs[f[(start + o) % (f.len() as int)] as int].score
            >= min));
        lemma_first_high_offset(f, cs, start, min, o + 1, t);
    }
}

/// The comment at `idx` exists and scores at least `min`.
pub open spec fn scores_at_least(a: App, idx: usize, min: i32) -> bool {
    idx < a.comments@.len() && a.comments@[idx as int].score >= min
}

/// With the comments shown each shown once and the selection among them, `H` moves to the
/// first shown comment after the selection, going round, that scores at least
/// `min_score`; when that is another comment than the selected one, the selection moves
/// off it.
pub proof fn lemma_high_score_moves_on(a: App, b: App, min_score: i32, r: bool, p: int, j: int)
    requires
        moved_to_high_score(a, b, min_score, r),
        forall|x: int, y: int|
            0 <= x < y < a.current_filtered().len() ==> a.current_filtered()[x] != a.current_filtered()[y],
        0 <= p < a.current_filtered().len(),
        a.current_filtered()[p] == a.comment_selected,
        1 <= j < a.current_filtered().len(),
        scores_at_least(a, a.current_filtered()[(p + j) % (a.current_filtered().len() as int)], min_score),
        forall|k: int|
            1 <= k < j ==> !scores_at_least(
                a,
                #[trigger] a.current_filtered()[(p + k) % (a.current_filtered().len() as int)],
                min_score,
            ),
    ensures
        r,
        b.comment_selected == a.current_filtered()[(p + j) % (a.current_filtered().len() as int)],
        b.comment_selected != a.comment_selected,
        b.comments == a.comments,
{
    let f = a.current_filtered();
    let n = f.len() as int;
    let cs = comment_views(a.comments@);
    lemma_index_of(f, a.comment_selected);
    assert(index_of(f, a.comment_selected) == Some(p));
    assert(a.high_score_start() == p + 1);
    assert forall|k: int| 0 <= k < j - 1 implies !(#[trigger] f[(p + 1 + k) % n] < cs.len() && cs[f[(p + 1
        + k) % n] as int].score >= min_score) by {
        assert(p + 1 + k == p + (k + 1));
        let idx = f[(p + (k + 1)) % n];
        assert(!scores_at_least(a, idx, min_score));
        if idx < cs.len() {
            assert(cs[idx as int] == a.comments@[idx as int]@);
        }
    }
    let idx = f[(p + j) % n];
    assert(cs[idx as int] == a.comments@[idx as int]@);
    assert(p + 1 + (j - 1) == p + j);
    lemma_first_high_offset(f, cs, p + 1, min_score, 0, j - 1);
    assert(a.high_score_target(min_score) == Some(j - 1));
    vstd::arithmetic::div_mod::lemma_mod_bound(p + j, n);
    if p + j < n {
        vstd::arithmetic::div_mod::lemma_small_mod((p + j) as nat, n as nat);
    } else {
        vstd::arithmetic::div_mod::lemma_mod_add_multiples_vanish(p + j - n, n);
        vstd::arithmetic::div_mod::lemma_small_mod((p + j - n) as nat, n as nat);
    }
    assert((p + j) % n != p);
}

/// Moving down (`j` under the vim preset, Down under either) goes to the next story, and
/// stays on the last; moving up (`k`, or Up) goes to the one before, and stays on the
/// first.
pub proof fn lemma_move_keys(a: App, b: App, r: KeyOutcome, key: KeyInput, preset: KeymapPreset, max_pages: u32)
    requires
        key == KeyInput::Down || key == KeyInput::Up || (preset == KeymapPreset::Vim && (key
            == KeyInput::Char('j') || key == KeyInput::Char('k'))),
        !help_visible(a.flow),
        !searching(a.flow),
        !a.stories_loading,
        view_of(a.flow) == Screen::List,
        a.selected < a.stories@.len(),
        key_post(a, b, r, key, preset, max_pages),
    ensures
        r is Nothing,
        b.stories == a.stories,
        (key == KeyInput::Down || key == KeyInput::Char('j')) ==> b.selected == if a.selected + 1
            < a.stories@.len() {
            a.selected + 1
        } else {
            a.selected as int
        },
        (key == KeyInput::Up || key == KeyInput::Char('k')) ==> b.selected == if a.selected >= 1 {
            a.selected - 1
        } else {
            0
        },
{
    assert(a.stories@.len() == a.stories.len());
}

} // verus!
