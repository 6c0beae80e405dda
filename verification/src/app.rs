use vstd::prelude::*;
use vstd::view::View as _;

use crate::api::{
    comment_views, copy_stories, feed_label, story_views, Comment, CommentView, Feed, Story,
    StoryDetail, StoryDetailView, StoryView,
};
use crate::cache::CachedStories;
use crate::wrap::{wrap_comment_text, wrapped_body};
use crate::text::{
    ascii_upper, ascii_upper_chars, chars_of, contains, contains_chars, decimal, lowercase,
    owned, push_chars, push_decimal, push_str, str_eq, string_of, to_lowercase, trim, trim_str,
};

verus! {

/// How many story details the comments cache keeps.
pub const COMMENTS_CACHE_CAPACITY: usize = 24;

/// How many story pages the stories cache keeps.
pub const STORIES_CACHE_CAPACITY: usize = 50;

/// How close to the end of the list the selection may come before the next page loads.
pub const INFINITE_SCROLL_LOOKAHEAD: usize = 15;

#[derive(Debug, Clone, Copy, PartialEq, Eq, Structural)]
pub enum View {
    List,
    Comments,
}

/// Explicit UI flow for the terminal app.
#[derive(Debug, Clone, Copy, PartialEq, Eq, Structural)]
pub enum AppFlowState {
    List,
    Comments,
    SearchingComments,
    HelpList,
    HelpComments,
    HelpSearchingComments,
    Quitting,
}

#[derive(Debug, Clone, Copy, PartialEq, Eq, Structural)]
pub enum UiMode {
    List,
    Comments,
    Search,
    Help,
}

#[derive(Debug, Clone, Copy, PartialEq, Eq, Structural)]
pub enum NavMode {
    Paged,
    Infinite,
}

pub open spec fn nav_name(mode: NavMode) -> Seq<char> {
    match mode {
        NavMode::Paged => "paged"@,
        NavMode::Infinite => "infinite"@,
    }
}

impl NavMode {
    pub fn as_str(self) -> (r: &'static str)
        ensures
            r@ == nav_name(self),
    {
        match self {
            Self::Paged => "paged",
            Self::Infinite => "infinite",
        }
    }
}

pub open spec fn other_nav_mode(mode: NavMode) -> NavMode {
    match mode {
        NavMode::Paged => NavMode::Infinite,
        NavMode::Infinite => NavMode::Paged,
    }
}

// ---------------------------------------------------------------------------
// The flow state machine
// ---------------------------------------------------------------------------

pub open spec fn view_of(flow: AppFlowState) -> View {
    match flow {
        AppFlowState::List | AppFlowState::HelpList | AppFlowState::Quitting => View::List,
        _ => View::Comments,
    }
}

pub open spec fn help_visible(flow: AppFlowState) -> bool {
    flow == AppFlowState::HelpList || flow == AppFlowState::HelpComments || flow
        == AppFlowState::HelpSearchingComments
}

pub open spec fn searching(flow: AppFlowState) -> bool {
    flow == AppFlowState::SearchingComments || flow == AppFlowState::HelpSearchingComments
}

pub open spec fn mode_of(flow: AppFlowState) -> UiMode {
    match flow {
        AppFlowState::List | AppFlowState::Quitting => UiMode::List,
        AppFlowState::Comments => UiMode::Comments,
        AppFlowState::SearchingComments => UiMode::Search,
        _ => UiMode::Help,
    }
}

pub open spec fn mode_label_of(mode: UiMode) -> Seq<char> {
    match mode {
        UiMode::List => "LIST"@,
        UiMode::Comments => "COMMENTS"@,
        UiMode::Search => "SEARCH"@,
        UiMode::Help => "HELP"@,
    }
}

/// Opening or closing the help overlay over the current flow.
pub open spec fn help_toggled(flow: AppFlowState) -> AppFlowState {
    match flow {
        AppFlowState::List => AppFlowState::HelpList,
        AppFlowState::Comments => AppFlowState::HelpComments,
        AppFlowState::SearchingComments => AppFlowState::HelpSearchingComments,
        AppFlowState::HelpList => AppFlowState::List,
        AppFlowState::HelpComments => AppFlowState::Comments,
        AppFlowState::HelpSearchingComments => AppFlowState::SearchingComments,
        AppFlowState::Quitting => AppFlowState::Quitting,
    }
}

/// Leaving search mode, with the help overlay kept as it was.
pub open spec fn search_left(flow: AppFlowState) -> AppFlowState {
    match flow {
        AppFlowState::SearchingComments => AppFlowState::Comments,
        AppFlowState::HelpSearchingComments => AppFlowState::HelpComments,
        _ => flow,
    }
}

/// Toggling help twice gives back the flow it started from, and each toggle flips whether
/// help is shown, except once the app is quitting.
pub proof fn lemma_help_toggle_involution(flow: AppFlowState)
    ensures
        help_toggled(help_toggled(flow)) == flow,
        flow != AppFlowState::Quitting ==> help_visible(help_toggled(flow)) != help_visible(flow),
        searching(help_toggled(flow)) == searching(flow),
        flow != AppFlowState::Quitting ==> view_of(help_toggled(flow)) == view_of(flow),
{
}

// ---------------------------------------------------------------------------
// Small helpers
// ---------------------------------------------------------------------------

pub open spec fn next_version(v: u64) -> u64 {
    if v == u64::MAX {
        0
    } else {
        (v + 1) as u64
    }
}

fn bump(v: u64) -> (r: u64)
    ensures
        r == next_version(v),
{
    if v == u64::MAX {
        0
    } else {
        v + 1
    }
}

pub open spec fn sat_inc(v: u64) -> u64 {
    if v == u64::MAX {
        v
    } else {
        (v + 1) as u64
    }
}

/// Position of the first occurrence of `x` in `s`, if any.
pub open spec fn index_of(s: Seq<usize>, x: usize) -> Option<int>
    decreases s.len(),
{
    if s.len() == 0 {
        None
    } else if s[0] == x {
        Some(0)
    } else {
        match index_of(s.drop_first(), x) {
            Some(i) => Some(i + 1),
            None => None,
        }
    }
}

pub proof fn lemma_index_of(s: Seq<usize>, x: usize)
    ensures
        match index_of(s, x) {
            Some(i) => 0 <= i < s.len() && s[i] == x && forall|j: int| 0 <= j < i ==> s[j] != x,
            None => forall|j: int| 0 <= j < s.len() ==> s[j] != x,
        },
    decreases s.len(),
{
    if s.len() > 0 {
        lemma_index_of(s.drop_first(), x);
        if s[0] != x {
            match index_of(s.drop_first(), x) {
                Some(i) => {
                    assert forall|j: int| 0 <= j < i + 1 implies s[j] != x by {
                        if j > 0 {
                            assert(s[j] == s.drop_first()[j - 1]);
                        }
                    }
                },
                None => {
                    assert forall|j: int| 0 <= j < s.len() implies s[j] != x by {
                        if j > 0 {
                            assert(s[j] == s.drop_first()[j - 1]);
                        }
                    }
                },
            }
        }
    }
}

fn position_of(s: &Vec<usize>, x: usize) -> (r: Option<usize>)
    ensures
        match r {
            Some(i) => index_of(s@, x) == Some(i as int) && i < s@.len() && s@[i as int] == x,
            None => index_of(s@, x) is None,
        },
{
    proof {
        lemma_index_of(s@, x);
    }
    for i in 0..s.len()
        invariant
            forall|j: int| 0 <= j < i ==> s@[j] != x,
            match index_of(s@, x) {
                Some(k) => 0 <= k < s@.len() && s@[k] == x && forall|j: int|
                    0 <= j < k ==> s@[j] != x,
                None => forall|j: int| 0 <= j < s@.len() ==> s@[j] != x,
            },
    {
        if s[i] == x {
            return Some(i);
        }
    }
    None
}

/// Whether a comment's text or author contains the (already lowered) query, with both
/// lowered the way `str::to_lowercase` lowers.
pub open spec fn comment_matches(c: CommentView, query: Seq<char>) -> bool {
    contains(lowercase(c.comment_plain), query) || contains(lowercase(c.commenting_user), query)
}

fn comment_matches_query(comment: &Comment, query: &str) -> (r: bool)
    ensures
        r == comment_matches(comment@, query@),
{
    let q = chars_of(query);
    let text = to_lowercase(comment.comment_plain.as_str());
    if contains_chars(&chars_of(text.as_str()), &q) {
        return true;
    }
    let user = to_lowercase(comment.commenting_user.as_str());
    contains_chars(&chars_of(user.as_str()), &q)
}

/// Indices of the comments a search shows: all of them with no search, else those that
/// match the query, in order.
pub open spec fn filtered_indices(comments: Seq<CommentView>, search: Option<Seq<char>>) -> Seq<
    usize,
>
    decreases comments.len(),
{
    if comments.len() == 0 {
        seq![]
    } else {
        let prev = filtered_indices(comments.drop_last(), search);
        let i = (comments.len() - 1) as usize;
        match search {
            None => prev.push(i),
            Some(q) => if comment_matches(comments.last(), q) {
                prev.push(i)
            } else {
                prev
            },
        }
    }
}

pub open spec fn search_view(s: Option<String>) -> Option<Seq<char>> {
    match s {
        Some(q) => Some(q@),
        None => None,
    }
}

proof fn lemma_filtered_bounds(comments: Seq<CommentView>, search: Option<Seq<char>>)
    requires
        comments.len() <= usize::MAX,
    ensures
        forall|k: int|
            0 <= k < filtered_indices(comments, search).len() ==> filtered_indices(
                comments,
                search,
            )[k] < comments.len(),
        forall|a: int, b: int|
            0 <= a < b < filtered_indices(comments, search).len() ==> filtered_indices(
                comments,
                search,
            )[a] < filtered_indices(comments, search)[b],
        filtered_indices(comments, search).len() <= comments.len(),
    decreases comments.len(),
{
    if comments.len() > 0 {
        lemma_filtered_bounds(comments.drop_last(), search);
        let prev = filtered_indices(comments.drop_last(), search);
        assert(forall|k: int| 0 <= k < prev.len() ==> prev[k] < comments.len() - 1);
        let f = filtered_indices(comments, search);
        let i = (comments.len() - 1) as usize;
        let pushed = prev.push(i);
        assert(f == prev || f == pushed);
        assert forall|a: int, b: int| 0 <= a < b < f.len() implies f[a] < f[b] by {
            if f == pushed {
                assert(f[a] == prev[a]);
                if b < prev.len() {
                    assert(f[b] == prev[b]);
                } else {
                    assert(f[b] == i);
                }
            } else {
                assert(f[a] == prev[a]);
                assert(f[b] == prev[b]);
            }
            assert(prev[a] < prev[b] || b >= prev.len());
        }
    }
}

/// A story list, its page and its selection, kept for a feed that is not shown.
pub struct FeedState {
    pub stories: Vec<Story>,
    pub page: u32,
    pub selected: usize,
}

// ---------------------------------------------------------------------------
// Association lists, oldest entry first
// ---------------------------------------------------------------------------

pub open spec fn find<K, V>(s: Seq<(K, V)>, k: K) -> Option<V>
    decreases s.len(),
{
    if s.len() == 0 {
        None
    } else if s.last().0 == k {
        Some(s.last().1)
    } else {
        find(s.drop_last(), k)
    }
}

pub open spec fn has_key<K, V>(s: Seq<(K, V)>, k: K) -> bool {
    exists|i: int| 0 <= i < s.len() && s[i].0 == k
}

pub open spec fn unique_keys<K, V>(s: Seq<(K, V)>) -> bool {
    forall|i: int, j: int| 0 <= i < j < s.len() ==> s[i].0 != s[j].0
}

/// `s` without the entry for `k`.
pub open spec fn without<K, V>(s: Seq<(K, V)>, k: K) -> Seq<(K, V)>
    decreases s.len(),
{
    if s.len() == 0 {
        s
    } else {
        let prev = without(s.drop_last(), k);
        if s.last().0 == k {
            prev
        } else {
            prev.push(s.last())
        }
    }
}

/// `s` with `(k, v)` as its newest entry, and its oldest entry dropped when that takes it
/// past `cap` entries.
pub open spec fn insert_newest<K, V>(s: Seq<(K, V)>, k: K, v: V, cap: nat) -> Seq<(K, V)> {
    let t = without(s, k).push((k, v));
    if t.len() > cap {
        t.drop_first()
    } else {
        t
    }
}

pub proof fn lemma_find_none<K, V>(s: Seq<(K, V)>, k: K)
    ensures
        find(s, k) is None <==> !has_key(s, k),
    decreases s.len(),
{
    if s.len() > 0 {
        lemma_find_none(s.drop_last(), k);
        if s.last().0 != k {
            if has_key(s, k) {
                let i = choose|i: int| 0 <= i < s.len() && s[i].0 == k;
                assert(s.drop_last()[i].0 == k);
            }
            if has_key(s.drop_last(), k) {
                let i = choose|i: int| 0 <= i < s.drop_last().len() && s.drop_last()[i].0 == k;
                assert(s[i].0 == k);
            }
        } else {
            assert(s[s.len() - 1].0 == k);
        }
    }
}

pub proof fn lemma_without_find<K, V>(s: Seq<(K, V)>, k: K, k2: K)
    ensures
        find(without(s, k), k) is None,
        k2 != k ==> find(without(s, k), k2) == find(s, k2),
    decreases s.len(),
{
    if s.len() > 0 {
        let p = s.drop_last();
        lemma_without_find(p, k, k2);
        let w = without(s, k);
        let wp = without(p, k);
        if s.last().0 != k {
            assert(w.drop_last() =~= wp);
        } else {
            assert(w == wp);
        }
    }
}

pub proof fn lemma_without_members<K, V>(s: Seq<(K, V)>, k: K)
    ensures
        without(s, k).len() <= s.len(),
        forall|j: int|
            0 <= j < without(s, k).len() ==> exists|i: int|
                0 <= i < s.len() && #[trigger] without(s, k)[j] == s[i],
    decreases s.len(),
{
    if s.len() > 0 {
        let p = s.drop_last();
        lemma_without_members(p, k);
        let w = without(s, k);
        let wp = without(p, k);
        assert forall|j: int| 0 <= j < w.len() implies exists|i: int|
            0 <= i < s.len() && #[trigger] w[j] == s[i] by {
            if j < wp.len() {
                let i = choose|i: int| 0 <= i < p.len() && wp[j] == p[i];
                assert(s[i] == p[i]);
            } else {
                assert(w[j] == s[s.len() - 1]);
            }
        }
    }
}

pub proof fn lemma_without_absent<K, V>(s: Seq<(K, V)>, k: K)
    requires
        !has_key(s, k),
    ensures
        without(s, k) == s,
    decreases s.len(),
{
    if s.len() > 0 {
        let p = s.drop_last();
        assert(!has_key(p, k)) by {
            if has_key(p, k) {
                let i = choose|i: int| 0 <= i < p.len() && p[i].0 == k;
                assert(s[i].0 == k);
            }
        }
        lemma_without_absent(p, k);
        assert(s.last().0 != k) by {
            assert(s[s.len() - 1].0 != k);
        }
        assert(without(s, k) =~= s);
    }
}

pub proof fn lemma_without_unique<K, V>(s: Seq<(K, V)>, k: K)
    requires
        unique_keys(s),
    ensures
        unique_keys(without(s, k)),
    decreases s.len(),
{
    if s.len() > 0 {
        let p = s.drop_last();
        lemma_without_unique(p, k);
        lemma_without_members(p, k);
        let w = without(s, k);
        let wp = without(p, k);
        if s.last().0 != k {
            assert(w.drop_last() =~= wp);
            assert forall|a: int, b: int| 0 <= a < b < w.len() implies w[a].0 != w[b].0 by {
                if b == w.len() - 1 {
                    let i = choose|i: int| 0 <= i < p.len() && #[trigger] wp[a] == p[i];
                    assert(w[a] == wp[a]);
                    assert(s[i] == p[i]);
                    assert(w[b] == s[s.len() - 1]);
                } else {
                    assert(w[a] == wp[a]);
                    assert(w[b] == wp[b]);
                }
            }
        }
    }
}

pub proof fn lemma_without<K, V>(s: Seq<(K, V)>, k: K)
    ensures
        find(without(s, k), k) is None,
        forall|k2: K| k2 != k ==> find(#[trigger] without(s, k), k2) == find(s, k2),
        without(s, k).len() <= s.len(),
        !has_key(s, k) ==> without(s, k) == s,
        unique_keys(s) ==> unique_keys(without(s, k)),
{
    lemma_without_find(s, k, k);
    assert forall|k2: K| k2 != k implies find(#[trigger] without(s, k), k2) == find(s, k2) by {
        lemma_without_find(s, k, k2);
    }
    lemma_without_members(s, k);
    if !has_key(s, k) {
        lemma_without_absent(s, k);
    }
    if unique_keys(s) {
        lemma_without_unique(s, k);
    }
}

/// For unique keys, dropping the oldest entry loses exactly that entry.
pub proof fn lemma_find_drop_first<K, V>(s: Seq<(K, V)>, k: K)
    requires
        unique_keys(s),
        s.len() > 0,
    ensures
        find(s.drop_first(), k) == if s[0].0 == k {
            None
        } else {
            find(s, k)
        },
    decreases s.len(),
{
    if s.len() == 1 {
        assert(s.drop_first().len() == 0);
    } else {
        let p = s.drop_last();
        lemma_find_drop_first(p, k);
        assert(s.drop_first().drop_last() =~= p.drop_first());
        assert(s.drop_first().last() == s.last());
        if s[0].0 == k {
            assert(s.last().0 != k) by {
                assert(s[0].0 != s[s.len() - 1].0);
            }
        }
    }
}

/// Inserting gives back the value on a read of the same key, keeps every other key's
/// value unless the oldest entry was dropped for room, keeps keys unique, and never holds
/// more than `cap` entries.
pub proof fn lemma_insert_newest<K, V>(s: Seq<(K, V)>, k: K, v: V, cap: nat)
    requires
        unique_keys(s),
        s.len() <= cap,
        cap > 0,
    ensures
        find(insert_newest(s, k, v, cap), k) == Some(v),
        unique_keys(insert_newest(s, k, v, cap)),
        insert_newest(s, k, v, cap).len() <= cap,
        forall|k2: K|
            k2 != k ==> (#[trigger] find(insert_newest(s, k, v, cap), k2) == find(s, k2) || (find(
                insert_newest(s, k, v, cap),
                k2,
            ) is None && without(s, k).len() == cap && without(s, k)[0].0 == k2)),
{
    lemma_without(s, k);
    let w = without(s, k);
    let t = w.push((k, v));
    assert(t.drop_last() =~= w);
    assert(unique_keys(t)) by {
        assert forall|a: int, b: int| 0 <= a < b < t.len() implies t[a].0 != t[b].0 by {
            if b == t.len() - 1 {
                lemma_find_none(w, k);
                if w[a].0 == k {
                    assert(has_key(w, k));
                }
            }
        }
    }
    if t.len() > cap {
        lemma_find_drop_first(t, k);
        assert(t[0].0 != k) by {
            assert(t[0].0 != t[t.len() - 1].0);
        }
        assert forall|k2: K| k2 != k implies #[trigger] find(insert_newest(s, k, v, cap), k2) == find(
            s,
            k2,
        ) || (find(insert_newest(s, k, v, cap), k2) is None && without(s, k).len() == cap
            && without(s, k)[0].0 == k2) by {
            lemma_find_drop_first(t, k2);
            assert(w[0] == t[0]);
        }
    }
}


// ---------------------------------------------------------------------------
// The application state
// ---------------------------------------------------------------------------

pub struct App {
    pub feed: Feed,
    pub page: u32,
    pub stories: Vec<Story>,
    pub feed_states: Vec<(Feed, FeedState)>,
    pub selected: usize,
    pub stories_loading: bool,
    pub flow: AppFlowState,
    pub comments: Vec<Comment>,
    pub comment_selected: usize,
    pub comments_loading: bool,
    pub pending_comment_story_id: Option<String>,
    pub pending_stories_request_id: u64,
    pub comments_cache: Vec<(String, StoryDetail)>,
    pub wrapped_comments_width: Option<usize>,
    pub wrapped_comments: Vec<Vec<String>>,
    pub collapsed_comment_ids: Vec<String>,
    pub search_input: String,
    pub active_search: Option<String>,
    pub profiling_enabled: bool,
    pub frame_count: u64,
    pub last_comments_load_ms: Option<u128>,
    pub story_detail_title: String,
    pub status: String,
    pub high_contrast: bool,
    pub nav_mode: NavMode,
    pub needs_initial_load: bool,
    pub pending_refresh: bool,
    pub background_refreshing: bool,
    pub stories_cache: Vec<((Feed, u32), CachedStories)>,
    pub prefetch_started_feeds: Vec<Feed>,
    pub filtered_indices_cache: Vec<usize>,
    pub filtered_indices_dirty: bool,
    pub stories_version: u64,
    pub comments_version: u64,
    pub needs_redraw: bool,
}

pub open spec fn detail_entry_views(s: Seq<(String, StoryDetail)>) -> Seq<(Seq<char>, StoryDetailView)> {
    s.map_values(|e: (String, StoryDetail)| (e.0@, e.1@))
}

pub open spec fn no_dup_feeds(s: Seq<Feed>) -> bool {
    forall|i: int, j: int| 0 <= i < j < s.len() ==> s[i] != s[j]
}

pub open spec fn no_dup_texts(s: Seq<Seq<char>>) -> bool {
    forall|i: int, j: int| 0 <= i < j < s.len() ==> s[i] != s[j]
}

impl App {



    /// The comments cache, oldest entry first.
    pub open spec fn detail_cache(&self) -> Seq<(Seq<char>, StoryDetailView)> {
        detail_entry_views(self.comments_cache@)
    }


    /// Ids of the comments that are collapsed.
    pub open spec fn collapsed_ids(&self) -> Seq<Seq<char>> {
        string_seq_views(self.collapsed_comment_ids@)
    }



    /// The wrapped lines of each comment, as computed so far.
    pub open spec fn wrapped(&self) -> Seq<Seq<Seq<char>>> {
        self.wrapped_comments@.map_values(|v: Vec<String>| v@.map_values(|s: String| s@))
    }

    /// The indices a comment search shows now: recomputed when marked stale, else the
    /// ones computed last.
    pub open spec fn current_filtered(&self) -> Seq<usize> {
        if self.filtered_indices_dirty {
            filtered_indices(comment_views(self.comments@), search_view(self.active_search))
        } else {
            self.filtered_indices_cache@
        }
    }




    /// The private bookkeeping is consistent: each cache holds each key once and no more
    /// entries than its capacity, and the sets hold no element twice.
    pub open spec fn wf(&self) -> bool {
        &&& unique_keys(self.feed_states@)
        &&& unique_keys(self.detail_cache())
        &&& self.comments_cache@.len() <= COMMENTS_CACHE_CAPACITY
        &&& unique_keys(self.stories_cache@)
        &&& self.stories_cache@.len() <= STORIES_CACHE_CAPACITY
        &&& no_dup_feeds(self.prefetch_started_feeds@)
        &&& no_dup_texts(self.collapsed_ids())
    }

    /// The state a new app starts in: first page of the Lobsters hottest feed, list view,
    /// nothing loaded, cached or selected.
    pub open spec fn is_initial(&self) -> bool {
        &&& self.wf()
        &&& self.feed == Feed::Hottest
        &&& self.page == 1
        &&& self.stories@.len() == 0
        &&& self.selected == 0
        &&& !self.stories_loading
        &&& self.flow == AppFlowState::List
        &&& self.comments@.len() == 0
        &&& self.comment_selected == 0
        &&& !self.comments_loading
        &&& self.pending_comment_story_id is None
        &&& self.pending_stories_request_id == 0
        &&& self.detail_cache().len() == 0
        &&& self.wrapped_comments_width is None
        &&& self.wrapped().len() == 0
        &&& self.collapsed_ids().len() == 0
        &&& self.search_input@.len() == 0
        &&& self.active_search is None
        &&& !self.profiling_enabled
        &&& self.frame_count == 0
        &&& self.last_comments_load_ms is None
        &&& self.story_detail_title@.len() == 0
        &&& self.status@ == "Loading..."@
        &&& !self.high_contrast
        &&& self.nav_mode == NavMode::Paged
        &&& !self.needs_initial_load
        &&& !self.pending_refresh
        &&& !self.background_refreshing
        &&& self.stories_cache@.len() == 0
        &&& self.prefetch_started_feeds@.len() == 0
        &&& self.feed_states@.len() == 0
        &&& self.current_filtered().len() == 0
        &&& self.stories_version == 0
        &&& self.comments_version == 0
        &&& self.needs_redraw
    }

    pub fn new() -> (r: Self)
        ensures
            r.is_initial(),
    {
        let r = Self {
            feed: Feed::Hottest,
            page: 1,
            stories: Vec::new(),
            selected: 0,
            stories_loading: false,
            flow: AppFlowState::List,
            comments: Vec::new(),
            comment_selected: 0,
            comments_loading: false,
            pending_comment_story_id: None,
            pending_stories_request_id: 0,
            comments_cache: Vec::new(),
            wrapped_comments_width: None,
            wrapped_comments: Vec::new(),
            collapsed_comment_ids: Vec::new(),
            search_input: String::new(),
            active_search: None,
            profiling_enabled: false,
            frame_count: 0,
            last_comments_load_ms: None,
            story_detail_title: String::new(),
            status: owned("Loading..."),
            high_contrast: false,
            nav_mode: NavMode::Paged,
            needs_initial_load: false,
            pending_refresh: false,
            background_refreshing: false,
            stories_cache: Vec::new(),
            prefetch_started_feeds: Vec::new(),
            feed_states: Vec::new(),
            filtered_indices_cache: Vec::new(),
            filtered_indices_dirty: true,
            stories_version: 0,
            comments_version: 0,
            needs_redraw: true,
        };
        assert(r.detail_cache() =~= seq![]);
        assert(r.collapsed_ids() =~= seq![]);
        assert(r.wrapped() =~= seq![]);
        assert(comment_views(r.comments@) =~= seq![]);
        r
    }

    #[must_use]
    pub fn selected_story(&self) -> (r: Option<&Story>)
        ensures
            match r {
                Some(s) => self.selected < self.stories@.len() && *s == self.stories@[self.selected as int],
                None => self.selected >= self.stories@.len(),
            },
    {
        if self.selected < self.stories.len() {
            Some(&self.stories[self.selected])
        } else {
            None
        }
    }

    #[must_use]
    pub fn selected_comment(&self) -> (r: Option<&Comment>)
        ensures
            match r {
                Some(c) => self.comment_selected < self.comments@.len() && *c
                    == self.comments@[self.comment_selected as int],
                None => self.comment_selected >= self.comments@.len(),
            },
    {
        if self.comment_selected < self.comments.len() {
            Some(&self.comments[self.comment_selected])
        } else {
            None
        }
    }

    #[must_use]
    pub fn current_view(&self) -> (r: View)
        ensures
            r == view_of(self.flow),
    {
        match self.flow {
            AppFlowState::List | AppFlowState::HelpList => View::List,
            AppFlowState::Comments
            | AppFlowState::SearchingComments
            | AppFlowState::HelpComments
            | AppFlowState::HelpSearchingComments => View::Comments,
            AppFlowState::Quitting => View::List,
        }
    }

    #[must_use]
    pub fn is_help_visible(&self) -> (r: bool)
        ensures
            r == help_visible(self.flow),
    {
        match self.flow {
            AppFlowState::HelpList | AppFlowState::HelpComments
            | AppFlowState::HelpSearchingComments => true,
            _ => false,
        }
    }

    #[must_use]
    pub fn is_search_mode(&self) -> (r: bool)
        ensures
            r == searching(self.flow),
    {
        match self.flow {
            AppFlowState::SearchingComments | AppFlowState::HelpSearchingComments => true,
            _ => false,
        }
    }

    #[must_use]
    pub fn is_quitting(&self) -> (r: bool)
        ensures
            r == (self.flow == AppFlowState::Quitting),
    {
        match self.flow {
            AppFlowState::Quitting => true,
            _ => false,
        }
    }

    pub fn toggle_help(&mut self)
        requires
            old(self).wf(),
        ensures
            final(self).wf(),
            *final(self) == (App { flow: help_toggled(old(self).flow), needs_redraw: true, ..*old(self) }),
    {
        self.flow = match self.flow {
            AppFlowState::List => AppFlowState::HelpList,
            AppFlowState::Comments => AppFlowState::HelpComments,
            AppFlowState::SearchingComments => AppFlowState::HelpSearchingComments,
            AppFlowState::HelpList => AppFlowState::List,
            AppFlowState::HelpComments => AppFlowState::Comments,
            AppFlowState::HelpSearchingComments => AppFlowState::SearchingComments,
            AppFlowState::Quitting => AppFlowState::Quitting,
        };
        self.needs_redraw = true;
    }
}


/// The status line while a page of stories loads.
pub open spec fn loading_status(nav: NavMode, no_stories: bool, feed: Feed, page: u32) -> Seq<char> {
    if nav == NavMode::Infinite {
        if no_stories {
            "Loading stories..."@
        } else {
            "Loading more stories..."@
        }
    } else {
        "Loading "@ + feed_label(feed) + " page "@ + decimal(page as nat) + "..."@
    }
}

pub open spec fn loaded_status(n: nat) -> Seq<char> {
    "Loaded "@ + decimal(n) + " stories"@
}

pub open spec fn banner_text(flow: AppFlowState, nav: NavMode, high_contrast: bool) -> Seq<char> {
    " MODE "@ + mode_label_of(mode_of(flow)) + " | "@ + ascii_upper(nav_name(nav))
        + " | CONTRAST "@ + (if high_contrast {
        "HIGH"@
    } else {
        "DEFAULT"@
    }) + " "@
}

impl App {
    pub fn return_to_list(&mut self)
        ensures
            *final(self) == (App { flow: AppFlowState::List, needs_redraw: true, ..*old(self) }),
    {
        self.flow = AppFlowState::List;
        self.needs_redraw = true;
    }

    pub fn enter_comments_view(&mut self)
        ensures
            *final(self) == (App { flow: AppFlowState::Comments, needs_redraw: true, ..*old(self) }),
    {
        self.flow = AppFlowState::Comments;
        self.needs_redraw = true;
    }

    pub fn request_quit(&mut self)
        ensures
            *final(self) == (App { flow: AppFlowState::Quitting, needs_redraw: true, ..*old(self) }),
    {
        self.flow = AppFlowState::Quitting;
        self.needs_redraw = true;
    }

    #[must_use]
    pub fn mode(&self) -> (r: UiMode)
        ensures
            r == mode_of(self.flow),
    {
        match self.flow {
            AppFlowState::List => UiMode::List,
            AppFlowState::Comments => UiMode::Comments,
            AppFlowState::SearchingComments => UiMode::Search,
            AppFlowState::HelpList
            | AppFlowState::HelpComments
            | AppFlowState::HelpSearchingComments => UiMode::Help,
            AppFlowState::Quitting => UiMode::List,
        }
    }

    #[must_use]
    pub fn mode_label(&self) -> (r: &'static str)
        ensures
            r@ == mode_label_of(mode_of(self.flow)),
    {
        match self.mode() {
            UiMode::List => "LIST",
            UiMode::Comments => "COMMENTS",
            UiMode::Search => "SEARCH",
            UiMode::Help => "HELP",
        }
    }

    #[must_use]
    pub fn mode_banner_text(&self) -> (r: String)
        ensures
            r@ == banner_text(self.flow, self.nav_mode, self.high_contrast),
    {
        let mut out: Vec<char> = Vec::new();
        push_str(&mut out, " MODE ");
        push_str(&mut out, self.mode_label());
        push_str(&mut out, " | ");
        let nav = ascii_upper_chars(&chars_of(self.nav_mode.as_str()));
        push_chars(&mut out, &nav);
        push_str(&mut out, " | CONTRAST ");
        push_str(&mut out, if self.high_contrast { "HIGH" } else { "DEFAULT" });
        push_str(&mut out, " ");
        string_of(&out)
    }

    pub fn tick_frame(&mut self)
        ensures
            *final(self) == (App { frame_count: sat_inc(old(self).frame_count), ..*old(self) }),
    {
        self.frame_count = self.frame_count.saturating_add(1);
    }

    pub fn toggle_profiling(&mut self)
        ensures
            *final(self) == (App {
                profiling_enabled: !old(self).profiling_enabled,
                needs_redraw: true,
                ..*old(self)
            }),
    {
        self.profiling_enabled = !self.profiling_enabled;
        self.needs_redraw = true;
    }

    #[must_use]
    pub fn needs_redraw(&self) -> (r: bool)
        ensures
            r == self.needs_redraw,
    {
        self.needs_redraw
    }

    pub fn consume_redraw(&mut self)
        ensures
            *final(self) == (App { needs_redraw: false, ..*old(self) }),
    {
        self.needs_redraw = false;
    }

    pub fn mark_needs_redraw(&mut self)
        ensures
            *final(self) == (App { needs_redraw: true, ..*old(self) }),
    {
        self.needs_redraw = true;
    }

    pub fn next_page(&mut self)
        ensures
            *final(self) == (App { page: old(self).page.saturating_add(1), ..*old(self) }),
    {
        self.page = self.page.saturating_add(1);
    }

    pub fn prev_page(&mut self)
        ensures
            *final(self) == (App {
                page: if old(self).page <= 1 {
                    1
                } else {
                    (old(self).page - 1) as u32
                },
                ..*old(self)
            }),
    {
        let p = self.page.saturating_sub(1);
        self.page = if p < 1 { 1 } else { p };
    }

    pub fn begin_stories_loading(&mut self) -> (r: u64)
        ensures
            r == sat_inc(old(self).pending_stories_request_id),
            final(self).status@ == loading_status(
                old(self).nav_mode,
                old(self).stories@.len() == 0,
                old(self).feed,
                old(self).page,
            ),
            *final(self) == (App {
                stories_loading: true,
                pending_stories_request_id: r,
                status: final(self).status,
                ..*old(self)
            }),
    {
        self.stories_loading = true;
        self.pending_stories_request_id = self.pending_stories_request_id.saturating_add(1);
        let mut out: Vec<char> = Vec::new();
        if self.nav_mode == NavMode::Infinite {
            if self.stories.len() == 0 {
                push_str(&mut out, "Loading stories...");
            } else {
                push_str(&mut out, "Loading more stories...");
            }
        } else {
            push_str(&mut out, "Loading ");
            push_str(&mut out, self.feed.label());
            push_str(&mut out, " page ");
            push_decimal(&mut out, self.page as u128);
            push_str(&mut out, "...");
        }
        self.status = string_of(&out);
        self.pending_stories_request_id
    }

    pub fn is_current_stories_request(&self, request_id: u64) -> (r: bool)
        ensures
            r == (request_id == self.pending_stories_request_id),
    {
        request_id == self.pending_stories_request_id
    }

    pub fn allocate_request_id(&mut self) -> (r: u64)
        ensures
            r == sat_inc(old(self).pending_stories_request_id),
            *final(self) == (App { pending_stories_request_id: r, ..*old(self) }),
    {
        self.pending_stories_request_id = self.pending_stories_request_id.saturating_add(1);
        self.pending_stories_request_id
    }

    pub fn finish_stories_loading(&mut self)
        ensures
            *final(self) == (App { stories_loading: false, ..*old(self) }),
    {
        self.stories_loading = false;
    }

    #[must_use]
    pub fn needs_more_stories(&self) -> (r: bool)
        ensures
            r == (self.nav_mode == NavMode::Infinite && self.stories@.len() > 0
                && !self.stories_loading && self.selected + INFINITE_SCROLL_LOOKAHEAD
                >= self.stories@.len()),
    {
        self.nav_mode == NavMode::Infinite && self.stories.len() > 0 && !self.stories_loading && (
        self.stories.len() <= INFINITE_SCROLL_LOOKAHEAD || self.selected >= self.stories.len()
            - INFINITE_SCROLL_LOOKAHEAD)
    }

    /// Auto-preload: should the next page be chain-loaded right away? Unlike
    /// `needs_more_stories`, this does not wait for the selection to near the end.
    #[must_use]
    pub fn should_preload_next_page(&self, prefetch_max_pages: u32) -> (r: bool)
        ensures
            r == (self.nav_mode == NavMode::Infinite && self.stories@.len() > 0
                && !self.stories_loading && self.page < prefetch_max_pages),
    {
        self.nav_mode == NavMode::Infinite && self.stories.len() > 0 && !self.stories_loading
            && self.page < prefetch_max_pages
    }

    /// Whether the list should fill itself up: it never does; pages load on demand.
    #[must_use]
    pub fn needs_fill_stories(&self) -> (r: bool)
        ensures
            !r,
    {
        false
    }

    pub fn append_stories(&mut self, stories: Vec<Story>)
        ensures
            final(self).stories@ == old(self).stories@ + stories@,
            final(self).status@ == loaded_status(final(self).stories@.len()),
            *final(self) == (App {
                stories: final(self).stories,
                status: final(self).status,
                stories_version: next_version(old(self).stories_version),
                needs_redraw: true,
                ..*old(self)
            }),
    {
        let mut stories = stories;
        self.stories.append(&mut stories);
        let mut out: Vec<char> = Vec::new();
        push_str(&mut out, "Loaded ");
        push_decimal(&mut out, self.stories.len() as u128);
        push_str(&mut out, " stories");
        self.status = string_of(&out);
        self.stories_version = bump(self.stories_version);
        self.needs_redraw = true;
    }

    pub fn toggle_nav_mode(&mut self)
        ensures
            nav_mode_toggled(*old(self), *final(self)),
    {
        self.nav_mode = match self.nav_mode {
            NavMode::Paged => NavMode::Infinite,
            NavMode::Infinite => NavMode::Paged,
        };
        self.stories.clear();
        self.selected = 0;
        self.page = 1;
        self.feed_states.clear();
        self.needs_initial_load = true;
        let mut out: Vec<char> = Vec::new();
        push_str(&mut out, "Navigation mode: ");
        push_str(&mut out, self.nav_mode.as_str());
        self.status = string_of(&out);
        self.stories_version = bump(self.stories_version);
        self.needs_redraw = true;
    }
}


/// For unique keys, the entry for `k` at `i` is the one `without` drops.
pub proof fn lemma_without_at<K, V>(s: Seq<(K, V)>, k: K, i: int)
    requires
        unique_keys(s),
        0 <= i < s.len(),
        s[i].0 == k,
    ensures
        without(s, k) == s.remove(i),
    decreases s.len(),
{
    let p = s.drop_last();
    if i == s.len() - 1 {
        assert(!has_key(p, k)) by {
            if has_key(p, k) {
                let j = choose|j: int| 0 <= j < p.len() && p[j].0 == k;
                assert(s[j].0 == s[i].0);
            }
        }
        lemma_without_absent(p, k);
        assert(s.remove(i) =~= p);
    } else {
        lemma_without_at(p, k, i);
        assert(s.last().0 != k) by {
            assert(s[i].0 != s[s.len() - 1].0);
        }
        assert(s.remove(i) =~= p.remove(i).push(s.last()));
    }
}

/// Index of the entry for `k`, if any.
fn index_of_feed_state(s: &Vec<(Feed, FeedState)>, k: Feed) -> (r: Option<usize>)
    ensures
        match r {
            Some(i) => i < s@.len() && s@[i as int].0 == k,
            None => !has_key(s@, k),
        },
{
    for i in 0..s.len()
        invariant
            forall|j: int| 0 <= j < i ==> s@[j].0 != k,
    {
        if s[i].0 == k {
            return Some(i);
        }
    }
    None
}

fn index_of_page(s: &Vec<((Feed, u32), CachedStories)>, feed: Feed, page: u32) -> (r: Option<
    usize,
>)
    ensures
        match r {
            Some(i) => i < s@.len() && s@[i as int].0 == (feed, page),
            None => !has_key(s@, (feed, page)),
        },
{
    for i in 0..s.len()
        invariant
            forall|j: int| 0 <= j < i ==> s@[j].0 != (feed, page),
    {
        if s[i].0.0 == feed && s[i].0.1 == page {
            return Some(i);
        }
    }
    None
}

/// Removes the entry for `k`, if any.
fn remove_feed_state(s: &mut Vec<(Feed, FeedState)>, k: Feed) -> (r: Option<FeedState>)
    requires
        unique_keys(old(s)@),
    ensures
        final(s)@ == without(old(s)@, k),
        r == find(old(s)@, k),
        unique_keys(final(s)@),
{
    proof {
        lemma_without(old(s)@, k);
        lemma_find_none(old(s)@, k);
    }
    match index_of_feed_state(s, k) {
        Some(i) => {
            proof {
                lemma_without_at(old(s)@, k, i as int);
                lemma_find_at(old(s)@, k, i as int);
            }
            let e = s.remove(i);
            Some(e.1)
        },
        None => None,
    }
}

/// For unique keys, the value found for `k` is the one stored at its index.
pub proof fn lemma_find_at<K, V>(s: Seq<(K, V)>, k: K, i: int)
    requires
        unique_keys(s),
        0 <= i < s.len(),
        s[i].0 == k,
    ensures
        find(s, k) == Some(s[i].1),
    decreases s.len(),
{
    if i < s.len() - 1 {
        assert(s.last().0 != k) by {
            assert(s[i].0 != s[s.len() - 1].0);
        }
        lemma_find_at(s.drop_last(), k, i);
    }
}

/// Feeds as a set.
pub open spec fn feed_set(s: Seq<Feed>) -> Set<Feed> {
    Set::new(|f: Feed| s.contains(f))
}

fn feed_index(s: &Vec<Feed>, f: Feed) -> (r: Option<usize>)
    ensures
        match r {
            Some(i) => i < s@.len() && s@[i as int] == f,
            None => !s@.contains(f),
        },
{
    for i in 0..s.len()
        invariant
            forall|j: int| 0 <= j < i ==> s@[j] != f,
    {
        if s[i] == f {
            return Some(i);
        }
    }
    None
}

fn remove_feed(s: &mut Vec<Feed>, f: Feed)
    requires
        no_dup_feeds(old(s)@),
    ensures
        feed_set(final(s)@) == feed_set(old(s)@).remove(f),
        no_dup_feeds(final(s)@),
{
    match feed_index(s, f) {
        Some(i) => {
            let ghost pre = s@;
            s.remove(i);
            assert(feed_set(s@) =~= feed_set(pre).remove(f)) by {
                assert forall|g: Feed| s@.contains(g) <==> (pre.contains(g) && g != f) by {
                    if s@.contains(g) {
                        let j = choose|j: int| 0 <= j < s@.len() && s@[j] == g;
                        if j < i {
                            assert(pre[j] == g);
                            assert(pre[j] != pre[i as int]);
                        } else {
                            assert(pre[j + 1] == g);
                            assert(pre[j + 1] != pre[i as int]);
                        }
                    }
                    if pre.contains(g) && g != f {
                        let j = choose|j: int| 0 <= j < pre.len() && pre[j] == g;
                        if j < i {
                            assert(s@[j] == g);
                        } else {
                            assert(j != i);
                            assert(s@[j - 1] == g);
                        }
                    }
                }
            }
            assert(no_dup_feeds(s@)) by {
                assert forall|a: int, b: int| 0 <= a < b < s@.len() implies s@[a] != s@[b] by {
                    let a2 = if a < i { a } else { a + 1 };
                    let b2 = if b < i { b } else { b + 1 };
                    assert(s@[a] == pre[a2]);
                    assert(s@[b] == pre[b2]);
                }
            }
        },
        None => {
            assert(feed_set(s@) =~= feed_set(s@).remove(f));
        },
    }
}

/// `s` without the entries of feed `f`.
pub open spec fn drop_feed<V>(s: Seq<((Feed, u32), V)>, f: Feed) -> Seq<((Feed, u32), V)>
    decreases s.len(),
{
    if s.len() == 0 {
        s
    } else {
        let prev = drop_feed(s.drop_last(), f);
        if s.last().0.0 == f {
            prev
        } else {
            prev.push(s.last())
        }
    }
}

pub proof fn lemma_drop_feed_concat<V>(a: Seq<((Feed, u32), V)>, b: Seq<((Feed, u32), V)>, f: Feed)
    ensures
        drop_feed(a + b, f) == drop_feed(a, f) + drop_feed(b, f),
    decreases b.len(),
{
    if b.len() == 0 {
        assert(a + b =~= a);
        assert(drop_feed(a, f) + drop_feed(b, f) =~= drop_feed(a, f));
    } else {
        lemma_drop_feed_concat(a, b.drop_last(), f);
        assert((a + b).drop_last() =~= a + b.drop_last());
        assert((a + b).last() == b.last());
    }
}

/// Dropping a feed's entries loses exactly the reads of that feed.
pub proof fn lemma_drop_feed_find<V>(s: Seq<((Feed, u32), V)>, f: Feed, k: (Feed, u32))
    ensures
        find(drop_feed(s, f), k) == if k.0 == f {
            None
        } else {
            find(s, k)
        },
        drop_feed(s, f).len() <= s.len(),
        unique_keys(s) ==> unique_keys(drop_feed(s, f)),
    decreases s.len(),
{
    if s.len() > 0 {
        let p = s.drop_last();
        lemma_drop_feed_find(p, f, k);
        lemma_drop_feed_members(p, f);
        let d = drop_feed(s, f);
        let dp = drop_feed(p, f);
        if s.last().0.0 != f {
            assert(d.drop_last() =~= dp);
        }
        if unique_keys(s) && s.last().0.0 != f {
            assert forall|a: int, b: int| 0 <= a < b < d.len() implies d[a].0 != d[b].0 by {
                if b == d.len() - 1 {
                    let i = choose|i: int| 0 <= i < p.len() && #[trigger] dp[a] == p[i];
                    assert(d[a] == dp[a]);
                    assert(s[i] == p[i]);
                    assert(d[b] == s[s.len() - 1]);
                } else {
                    assert(d[a] == dp[a]);
                    assert(d[b] == dp[b]);
                }
            }
        }
    }
}

pub proof fn lemma_drop_feed_members<V>(s: Seq<((Feed, u32), V)>, f: Feed)
    ensures
        forall|j: int|
            0 <= j < drop_feed(s, f).len() ==> exists|i: int|
                0 <= i < s.len() && #[trigger] drop_feed(s, f)[j] == s[i],
    decreases s.len(),
{
    if s.len() > 0 {
        let p = s.drop_last();
        lemma_drop_feed_members(p, f);
        let d = drop_feed(s, f);
        let dp = drop_feed(p, f);
        assert forall|j: int| 0 <= j < d.len() implies exists|i: int|
            0 <= i < s.len() && #[trigger] d[j] == s[i] by {
            if j < dp.len() {
                let i = choose|i: int| 0 <= i < p.len() && dp[j] == p[i];
                assert(s[i] == p[i]);
            } else {
                assert(d[j] == s[s.len() - 1]);
            }
        }
    }
}

fn drop_feed_entries(s: &mut Vec<((Feed, u32), CachedStories)>, f: Feed)
    ensures
        final(s)@ == drop_feed(old(s)@, f),
{
    let ghost orig = old(s)@;
    let mut i = s.len();
    assert(orig.skip(i as int) =~= seq![]);
    assert(s@ =~= orig.take(i as int) + drop_feed(orig.skip(i as int), f));
    while i > 0
        invariant
            i <= orig.len(),
            s@ == orig.take(i as int) + drop_feed(orig.skip(i as int), f),
        decreases i,
    {
        let ghost x = orig[i - 1];
        let ghost d = drop_feed(orig.skip(i as int), f);
        proof {
            assert(orig.skip(i - 1) =~= seq![x] + orig.skip(i as int));
            lemma_drop_feed_concat(seq![x], orig.skip(i as int), f);
            assert(seq![x].drop_last() =~= Seq::<((Feed, u32), CachedStories)>::empty());
            assert(drop_feed(Seq::<((Feed, u32), CachedStories)>::empty(), f).len() == 0);
            assert(orig.take(i as int) =~= orig.take(i - 1).push(x));
            if x.0.0 == f {
                assert(drop_feed(seq![x], f) =~= Seq::<((Feed, u32), CachedStories)>::empty());
            } else {
                assert(drop_feed(seq![x], f) =~= seq![x]);
            }
        }
        if s[i - 1].0.0 == f {
            let ghost pre = s@;
            s.remove(i - 1);
            assert(s@ =~= orig.take(i - 1) + d);
            assert(drop_feed(orig.skip(i - 1), f) =~= d);
        } else {
            assert(s@ =~= orig.take(i - 1) + (seq![x] + d));
            assert(drop_feed(orig.skip(i - 1), f) =~= seq![x] + d);
        }
        i = i - 1;
    }
    assert(orig.skip(0) =~= orig);
    assert(s@ =~= drop_feed(orig, f));
}

impl App {
    pub fn reset_stories(&mut self)
        requires
            old(self).wf(),
        ensures
            final(self).wf(),
            stories_reset(*old(self), *final(self)),
    {
        self.stories.clear();
        self.selected = 0;
        self.page = 1;
        let _ = remove_feed_state(&mut self.feed_states, self.feed);
        remove_feed(&mut self.prefetch_started_feeds, self.feed);
        self.stories_version = bump(self.stories_version);
        self.needs_redraw = true;
    }

    /// Switches to another feed, keeping the current feed's stories, page and selection so
    /// that coming back is instant.
    pub fn switch_feed(&mut self, next: Feed)
        requires
            old(self).wf(),
        ensures
            final(self).wf(),
            switched_feed(*old(self), *final(self), next),
    {
        if next == self.feed {
            return;
        }
        let ghost s0 = self.feed_states@;
        let mut current: Vec<Story> = Vec::new();
        std::mem::swap(&mut current, &mut self.stories);
        let _ = remove_feed_state(&mut self.feed_states, self.feed);
        self.feed_states.push((self.feed, FeedState { stories: current, page: self.page, selected: self.selected }));
        proof {
            lemma_without(s0, self.feed);
            let w = without(s0, self.feed);
            let t = self.feed_states@;
            assert(t.drop_last() =~= w);
            assert(unique_keys(t)) by {
                lemma_find_none(w, self.feed);
                assert forall|a: int, b: int| 0 <= a < b < t.len() implies t[a].0 != t[b].0 by {
                    if b == t.len() - 1 {
                        if t[a].0 == self.feed {
                            assert(w[a].0 == self.feed);
                            assert(has_key(w, self.feed));
                        }
                    } else {
                        assert(t[a] == w[a]);
                        assert(t[b] == w[b]);
                    }
                }
            }
            lemma_without_find(s0, self.feed, next);
            assert(find(t, next) == find(w, next));
        }
        match remove_feed_state(&mut self.feed_states, next) {
            Some(state) => {
                self.stories = state.stories;
                self.page = state.page;
                let last = if self.stories.len() == 0 { 0 } else { self.stories.len() - 1 };
                self.selected = if state.selected < last { state.selected } else { last };
            },
            None => {
                self.stories = Vec::new();
                self.page = 1;
                self.selected = 0;
            },
        }
        self.feed = next;
        remove_feed(&mut self.prefetch_started_feeds, next);
        self.pending_stories_request_id = bump(self.pending_stories_request_id);
        self.stories_loading = false;
        self.stories_version = bump(self.stories_version);
        self.needs_redraw = true;
    }

    /// A copy of the cached page `page` of `feed`, if cached.
    #[must_use]
    pub fn cached_stories(&self, feed: Feed, page: u32) -> (r: Option<CachedStories>)
        requires
            self.wf(),
        ensures
            match find(self.stories_cache@, (feed, page)) {
                Some(c) => r is Some && r->0.held() == c.held() && r->0.cached_at() == c.cached_at(),
                None => r is None,
            },
    {
        proof {
            lemma_find_none(self.stories_cache@, (feed, page));
        }
        match index_of_page(&self.stories_cache, feed, page) {
            Some(i) => {
                proof {
                    lemma_find_at(self.stories_cache@, (feed, page), i as int);
                }
                Some(self.stories_cache[i].1.duplicate())
            },
            None => None,
        }
    }

    /// Caches `stories` as page `page` of `feed`, as the newest entry; the oldest entry
    /// goes when the cache is full.
    pub fn cache_stories(&mut self, feed: Feed, page: u32, stories: &[Story])
        requires
            old(self).wf(),
        ensures
            final(self).wf(),
            final(self).stories_cache@.len() > 0,
            final(self).stories_cache@.last().0 == (feed, page),
            final(self).stories_cache@.last().1.held() == story_views(stories@),
            final(self).stories_cache@ == insert_newest(
                old(self).stories_cache@,
                (feed, page),
                final(self).stories_cache@.last().1,
                STORIES_CACHE_CAPACITY as nat,
            ),
            *final(self) == (App { stories_cache: final(self).stories_cache, ..*old(self) }),
    {
        let ghost s0 = self.stories_cache@;
        proof {
            lemma_without(s0, (feed, page));
            lemma_find_none(s0, (feed, page));
        }
        match index_of_page(&self.stories_cache, feed, page) {
            Some(i) => {
                proof {
                    lemma_without_at(s0, (feed, page), i as int);
                }
                self.stories_cache.remove(i);
            },
            None => {},
        }
        assert(self.stories_cache@ == without(s0, (feed, page)));
        let entry = CachedStories::new(copy_stories(stories));
        let ghost v = entry;
        self.stories_cache.push(((feed, page), entry));
        if self.stories_cache.len() > STORIES_CACHE_CAPACITY {
            self.stories_cache.remove(0);
        }
        proof {
            lemma_insert_newest(s0, (feed, page), v, STORIES_CACHE_CAPACITY as nat);
            let t = without(s0, (feed, page)).push(((feed, page), v));
            assert(self.stories_cache@ =~= insert_newest(s0, (feed, page), v, STORIES_CACHE_CAPACITY as nat));
            assert(self.stories_cache@.last() == t.last());
        }
    }

    /// Marks `feed` as prefetching; false when it already was.
    #[must_use]
    pub fn begin_feed_prefetch(&mut self, feed: Feed) -> (r: bool)
        requires
            old(self).wf(),
        ensures
            final(self).wf(),
            r == !feed_set(old(self).prefetch_started_feeds@).contains(feed),
            feed_set(final(self).prefetch_started_feeds@) == feed_set(
                old(self).prefetch_started_feeds@,
            ).insert(feed),
            *final(self) == (App {
                prefetch_started_feeds: final(self).prefetch_started_feeds,
                ..*old(self)
            }),
    {
        if feed_index(&self.prefetch_started_feeds, feed).is_some() {
            assert(feed_set(self.prefetch_started_feeds@).insert(feed) =~= feed_set(
                self.prefetch_started_feeds@,
            ));
            return false;
        }
        let ghost pre = self.prefetch_started_feeds@;
        self.prefetch_started_feeds.push(feed);
        assert(feed_set(self.prefetch_started_feeds@) =~= feed_set(pre).insert(feed)) by {
            assert forall|g: Feed| self.prefetch_started_feeds@.contains(g) <==> (pre.contains(g)
                || g == feed) by {
                if pre.contains(g) {
                    let j = choose|j: int| 0 <= j < pre.len() && pre[j] == g;
                    assert(self.prefetch_started_feeds@[j] == g);
                }
                if g == feed {
                    assert(self.prefetch_started_feeds@[pre.len() as int] == g);
                }
                if self.prefetch_started_feeds@.contains(g) {
                    let j = choose|j: int| 0 <= j < self.prefetch_started_feeds@.len() && self.prefetch_started_feeds@[j] == g;
                    if j < pre.len() {
                        assert(pre[j] == g);
                    }
                }
            }
        }
        assert(no_dup_feeds(self.prefetch_started_feeds@)) by {
            assert forall|a: int, b: int| 0 <= a < b < self.prefetch_started_feeds@.len() implies self.prefetch_started_feeds@[a]
                != self.prefetch_started_feeds@[b] by {
                if b == pre.len() {
                    assert(self.prefetch_started_feeds@[a] == pre[a]);
                    assert(pre.contains(pre[a]));
                } else {
                    assert(self.prefetch_started_feeds@[a] == pre[a]);
                    assert(self.prefetch_started_feeds@[b] == pre[b]);
                }
            }
        }
        true
    }

    /// Forgets every cached page of `feed`, and its prefetch mark and kept state.
    pub fn invalidate_feed_story_cache(&mut self, feed: Feed)
        requires
            old(self).wf(),
        ensures
            final(self).wf(),
            feed_invalidated(*old(self), *final(self), feed),
    {
        let ghost s0 = self.stories_cache@;
        drop_feed_entries(&mut self.stories_cache, feed);
        proof {
            lemma_drop_feed_find(s0, feed, (feed, 0));
        }
        remove_feed(&mut self.prefetch_started_feeds, feed);
        let _ = remove_feed_state(&mut self.feed_states, feed);
    }

    /// Seeds the kept state of `feed` from its cached first page, so that the first switch
    /// to it is instant.
    pub fn seed_feed_state(&mut self, feed: Feed)
        requires
            old(self).wf(),
        ensures
            final(self).wf(),
            (has_key(old(self).feed_states@, feed) || feed == old(self).feed || find(
                old(self).stories_cache@,
                (feed, 1),
            ) is None) ==> *final(self) == *old(self),
            !(has_key(old(self).feed_states@, feed) || feed == old(self).feed) ==> match find(
                old(self).stories_cache@,
                (feed, 1),
            ) {
                Some(c) => {
                    &&& final(self).feed_states@.len() == old(self).feed_states@.len() + 1
                    &&& final(self).feed_states@.drop_last() == old(self).feed_states@
                    &&& final(self).feed_states@.last().0 == feed
                    &&& story_views(final(self).feed_states@.last().1.stories@) == c.held()
                    &&& final(self).feed_states@.last().1.page == 1
                    &&& final(self).feed_states@.last().1.selected == 0
                    &&& *final(self) == (App { feed_states: final(self).feed_states, ..*old(self) })
                },
                None => true,
            },
    {
        proof {
            lemma_find_none(self.feed_states@, feed);
        }
        if index_of_feed_state(&self.feed_states, feed).is_some() || feed == self.feed {
            return;
        }
        if let Some(cached) = self.cached_stories(feed, 1) {
            let ghost pre = self.feed_states@;
            let stories = cached.into_stories();
            self.feed_states.push((feed, FeedState { stories, page: 1, selected: 0 }));
            assert(self.feed_states@.drop_last() =~= pre);
            assert(unique_keys(self.feed_states@)) by {
                assert forall|a: int, b: int| 0 <= a < b < self.feed_states@.len() implies self.feed_states@[a].0
                    != self.feed_states@[b].0 by {
                    if b == self.feed_states@.len() - 1 {
                        if self.feed_states@[a].0 == feed {
                            assert(pre[a].0 == feed);
                        }
                    } else {
                        assert(self.feed_states@[a] == pre[a]);
                        assert(self.feed_states@[b] == pre[b]);
                    }
                }
            }
        }
    }

    /// Forgets the cached page `page` of `feed`.
    pub fn invalidate_page_cache(&mut self, feed: Feed, page: u32)
        requires
            old(self).wf(),
        ensures
            final(self).wf(),
            final(self).stories_cache@ == without(old(self).stories_cache@, (feed, page)),
            *final(self) == (App { stories_cache: final(self).stories_cache, ..*old(self) }),
    {
        let ghost s0 = self.stories_cache@;
        proof {
            lemma_without(s0, (feed, page));
            lemma_find_none(s0, (feed, page));
        }
        match index_of_page(&self.stories_cache, feed, page) {
            Some(i) => {
                proof {
                    lemma_without_at(s0, (feed, page), i as int);
                }
                self.stories_cache.remove(i);
            },
            None => {},
        }
    }
}


pub open spec fn clamp(v: int, lo: int, hi: int) -> int {
    if v < lo {
        lo
    } else if v > hi {
        hi
    } else {
        v
    }
}

/// Where the selection stands in the shown indices: its position, or the top when it is
/// not among them.
pub open spec fn cur_pos(f: Seq<usize>, x: usize) -> int {
    match index_of(f, x) {
        Some(i) => i,
        None => 0,
    }
}

pub open spec fn min_usize(a: usize, b: usize) -> usize {
    if a <= b {
        a
    } else {
        b
    }
}

/// The indentation of a comment body: two spaces per level, one level more than the
/// comment's capped depth.
pub open spec fn body_indent(depth: usize, max_indent_level: usize) -> Seq<char> {
    Seq::new((2 * (min_usize(depth, max_indent_level) + 1)) as nat, |i: int| ' ')
}

/// The display lines of a comment in a pane `inner_width` columns wide.
pub open spec fn comment_wrap(c: CommentView, inner_width: usize, max_indent_level: usize) -> Seq<
    Seq<char>,
> {
    let indent = body_indent(c.depth, max_indent_level);
    let w = if inner_width > indent.len() {
        (inner_width - indent.len()) as usize
    } else {
        1usize
    };
    wrapped_body(c.comment_plain, c.is_deleted, indent, w)
}

/// The wrapped lines are up to date for a pane `inner_width` columns wide: lines kept
/// for the same width stay, the others are made afresh.
pub open spec fn comments_wrapped(a: App, b: App, inner_width: usize, max_indent_level: usize) -> bool {
    &&& b.wrapped_comments_width == Some(inner_width)
    &&& b.wrapped().len() == a.comments@.len()
    &&& forall|i: int|
        0 <= i < a.comments@.len() ==> #[trigger] b.wrapped()[i] == if a.wrapped_comments_width == Some(
            inner_width,
        ) && i < a.wrapped().len() && a.wrapped().len() <= a.comments@.len() {
            a.wrapped()[i]
        } else {
            comment_wrap(a.comments@[i]@, inner_width, max_indent_level)
        }
    &&& b == (App {
        wrapped_comments_width: Some(inner_width),
        wrapped_comments: b.wrapped_comments,
        ..a
    })
}

/// The ids as a set.
pub open spec fn text_set(s: Seq<Seq<char>>) -> Set<Seq<char>> {
    Set::new(|t: Seq<char>| s.contains(t))
}

/// The first offset at or after `o` from which a shown comment scores at least `min`,
/// walking the shown indices round from `start`.
pub open spec fn high_score_offset(
    f: Seq<usize>,
    cs: Seq<CommentView>,
    start: int,
    min: i32,
    o: int,
) -> Option<int>
    decreases f.len() - o,
{
    if o < 0 || o >= f.len() {
        None
    } else {
        let idx = f[(start + o) % (f.len() as int)];
        if idx < cs.len() && cs[idx as int].score >= min {
            Some(o)
        } else {
            high_score_offset(f, cs, start, min, o + 1)
        }
    }
}

proof fn lemma_detail_views_remove(s: Seq<(String, StoryDetail)>, i: int)
    requires
        0 <= i < s.len(),
    ensures
        detail_entry_views(s.remove(i)) == detail_entry_views(s).remove(i),
{
    assert(detail_entry_views(s.remove(i)) =~= detail_entry_views(s).remove(i));
}

proof fn lemma_detail_views_push(s: Seq<(String, StoryDetail)>, e: (String, StoryDetail))
    ensures
        detail_entry_views(s.push(e)) == detail_entry_views(s).push((e.0@, e.1@)),
{
    assert(detail_entry_views(s.push(e)) =~= detail_entry_views(s).push((e.0@, e.1@)));
}

fn detail_index(s: &Vec<(String, StoryDetail)>, key: &str) -> (r: Option<usize>)
    ensures
        match r {
            Some(i) => i < s@.len() && detail_entry_views(s@)[i as int].0 == key@,
            None => !has_key(detail_entry_views(s@), key@),
        },
{
    for i in 0..s.len()
        invariant
            forall|j: int| 0 <= j < i ==> detail_entry_views(s@)[j].0 != key@,
    {
        if str_eq(s[i].0.as_str(), key) {
            return Some(i);
        }
    }
    None
}

fn text_index(s: &Vec<String>, key: &str) -> (r: Option<usize>)
    ensures
        match r {
            Some(i) => i < s@.len() && s@[i as int]@ == key@,
            None => forall|j: int| 0 <= j < s@.len() ==> s@[j]@ != key@,
        },
{
    for i in 0..s.len()
        invariant
            forall|j: int| 0 <= j < i ==> s@[j]@ != key@,
    {
        if str_eq(s[i].as_str(), key) {
            return Some(i);
        }
    }
    None
}

fn insert_detail(cache: &mut Vec<(String, StoryDetail)>, short_id: String, detail: StoryDetail)
    requires
        unique_keys(detail_entry_views(old(cache)@)),
        old(cache)@.len() <= COMMENTS_CACHE_CAPACITY,
    ensures
        unique_keys(detail_entry_views(final(cache)@)),
        final(cache)@.len() <= COMMENTS_CACHE_CAPACITY,
        detail_entry_views(final(cache)@) == insert_newest(
            detail_entry_views(old(cache)@),
            short_id@,
            detail@,
            COMMENTS_CACHE_CAPACITY as nat,
        ),
{
    let ghost v0 = detail_entry_views(cache@);
    let ghost key = short_id@;
    let ghost val = detail@;
    proof {
        lemma_without(v0, key);
        lemma_find_none(v0, key);
        lemma_insert_newest(v0, key, val, COMMENTS_CACHE_CAPACITY as nat);
    }
    match detail_index(cache, short_id.as_str()) {
        Some(i) => {
            proof {
                lemma_without_at(v0, key, i as int);
                lemma_detail_views_remove(cache@, i as int);
            }
            cache.remove(i);
        },
        None => {},
    }
    assert(detail_entry_views(cache@) == without(v0, key));
    let ghost before = cache@;
    cache.push((short_id, detail));
    proof {
        lemma_detail_views_push(before, cache@.last());
        assert(cache@ == before.push(cache@.last()));
        assert(detail_entry_views(cache@) == without(v0, key).push((key, val)));
    }
    if cache.len() > COMMENTS_CACHE_CAPACITY {
        proof {
            lemma_detail_views_remove(cache@, 0);
        }
        cache.remove(0);
    }
    assert(detail_entry_views(cache@) =~= insert_newest(v0, key, val, COMMENTS_CACHE_CAPACITY as nat));
}


pub open spec fn string_seq_views(v: Seq<String>) -> Seq<Seq<char>> {
    v.map_values(|s: String| s@)
}

/// Removes `id` from the set, or adds it when absent.
fn toggle_text(v: &mut Vec<String>, id: String)
    requires
        no_dup_texts(string_seq_views(old(v)@)),
    ensures
        no_dup_texts(string_seq_views(final(v)@)),
        text_set(string_seq_views(final(v)@)) == if text_set(string_seq_views(old(v)@)).contains(id@) {
            text_set(string_seq_views(old(v)@)).remove(id@)
        } else {
            text_set(string_seq_views(old(v)@)).insert(id@)
        },
{
    let ghost pre = string_seq_views(v@);
    let ghost pre_v = v@;
    let ghost key = id@;
    match text_index(v, id.as_str()) {
        Some(i) => {
            v.remove(i);
            let ghost now = string_seq_views(v@);
            assert(now =~= pre.remove(i as int));
            assert(text_set(pre).contains(key)) by {
                assert(pre[i as int] == key);
            }
            assert(text_set(now) =~= text_set(pre).remove(key)) by {
                assert forall|t: Seq<char>| now.contains(t) <==> (pre.contains(t) && t != key) by {
                    if now.contains(t) {
                        let j = choose|j: int| 0 <= j < now.len() && now[j] == t;
                        let j2 = if j < i { j } else { j + 1 };
                        assert(pre[j2] == t);
                        assert(pre[j2] != pre[i as int]);
                    }
                    if pre.contains(t) && t != key {
                        let j = choose|j: int| 0 <= j < pre.len() && pre[j] == t;
                        if j < i {
                            assert(now[j] == t);
                        } else {
                            assert(j != i);
                            assert(now[j - 1] == t);
                        }
                    }
                }
            }
            assert(no_dup_texts(now)) by {
                assert forall|a: int, b: int| 0 <= a < b < now.len() implies now[a] != now[b] by {
                    let a2 = if a < i { a } else { a + 1 };
                    let b2 = if b < i { b } else { b + 1 };
                    assert(now[a] == pre[a2]);
                    assert(now[b] == pre[b2]);
                }
            }
        },
        None => {
            v.push(id);
            let ghost now = string_seq_views(v@);
            assert(now =~= pre.push(key));
            assert(!text_set(pre).contains(key)) by {
                if pre.contains(key) {
                    let j = choose|j: int| 0 <= j < pre.len() && pre[j] == key;
                    assert(pre_v[j]@ == key);
                }
            }
            assert(text_set(now) =~= text_set(pre).insert(key)) by {
                assert forall|t: Seq<char>| now.contains(t) <==> (pre.contains(t) || t == key) by {
                    if pre.contains(t) {
                        let j = choose|j: int| 0 <= j < pre.len() && pre[j] == t;
                        assert(now[j] == t);
                    }
                    if t == key {
                        assert(now[pre.len() as int] == t);
                    }
                    if now.contains(t) {
                        let j = choose|j: int| 0 <= j < now.len() && now[j] == t;
                        if j < pre.len() {
                            assert(pre[j] == t);
                        }
                    }
                }
            }
            assert(no_dup_texts(now)) by {
                assert forall|a: int, b: int| 0 <= a < b < now.len() implies now[a] != now[b] by {
                    assert(now[a] == pre[a]);
                    if b == pre.len() {
                        assert(pre.contains(pre[a]));
                    } else {
                        assert(now[b] == pre[b]);
                    }
                }
            }
        },
    }
}

fn copy_indices(v: &Vec<usize>) -> (r: Vec<usize>)
    ensures
        r@ == v@,
{
    let mut out: Vec<usize> = Vec::new();
    for i in 0..v.len()
        invariant
            out@ == v@.take(i as int),
    {
        out.push(v[i]);
        assert(v@.take(i + 1) =~= v@.take(i as int).push(v@[i as int]));
    }
    assert(v@.take(v.len() as int) =~= v@);
    out
}

pub fn spaces(n: usize) -> (r: Vec<char>)
    ensures
        r@ == Seq::new(n as nat, |i: int| ' '),
{
    let mut out: Vec<char> = Vec::new();
    for i in 0..n
        invariant
            out@ == Seq::new(i as nat, |k: int| ' '),
    {
        out.push(' ');
        assert(out@ =~= Seq::new((i + 1) as nat, |k: int| ' '));
    }
    out
}

impl App {
    /// The shown comment indices have been computed and stored, and nothing else changed.
    pub open spec fn settled_from(&self, old: App) -> bool {
        &&& self.filtered_indices_cache@ == old.current_filtered()
        &&& *self == App {
            filtered_indices_cache: self.filtered_indices_cache,
            filtered_indices_dirty: false,
            ..old
        }
    }

    /// The indices of the comments the current search shows.
    fn filtered_comment_indices(&mut self) -> (r: Vec<usize>)
        ensures
            r@ == old(self).current_filtered(),
            final(self).settled_from(*old(self)),
    {
        if self.filtered_indices_dirty {
            let ghost cs = comment_views(self.comments@);
            let ghost q = search_view(self.active_search);
            let mut result: Vec<usize> = Vec::new();
            for i in 0..self.comments.len()
                invariant
                    cs == comment_views(self.comments@),
                    q == search_view(self.active_search),
                    result@ == filtered_indices(cs.take(i as int), q),
            {
                assert(cs.take(i + 1).drop_last() =~= cs.take(i as int));
                assert(cs.take(i + 1).last() == self.comments@[i as int]@);
                let keep = match &self.active_search {
                    None => true,
                    Some(query) => comment_matches_query(&self.comments[i], query.as_str()),
                };
                if keep {
                    result.push(i);
                }
            }
            assert(cs.take(self.comments.len() as int) =~= cs);
            self.filtered_indices_cache = result;
            self.filtered_indices_dirty = false;
        }
        copy_indices(&self.filtered_indices_cache)
    }

    fn mark_filtered_indices_dirty(&mut self)
        ensures
            *final(self) == (App { filtered_indices_dirty: true, ..*old(self) }),
    {
        self.filtered_indices_dirty = true;
    }

    fn clear_wrapped_comments(&mut self)
        ensures
            final(self).wrapped_comments@.len() == 0,
            *final(self) == (App {
                wrapped_comments_width: None,
                wrapped_comments: final(self).wrapped_comments,
                ..*old(self)
            }),
    {
        self.wrapped_comments_width = None;
        self.wrapped_comments.clear();
    }

    pub fn move_selection(&mut self, delta: i32)
        requires
            view_of(old(self).flow) == View::List && old(self).stories@.len() > 0 ==> {
                &&& old(self).stories@.len() <= i32::MAX
                &&& old(self).selected <= i32::MAX
                &&& i32::MIN <= old(self).selected + delta <= i32::MAX
            },
            view_of(old(self).flow) == View::Comments && old(self).current_filtered().len() > 0 ==> {
                &&& old(self).current_filtered().len() <= i32::MAX
                &&& cur_pos(old(self).current_filtered(), old(self).comment_selected) + delta
                    <= i32::MAX
            },
        ensures
            moved_selection(*old(self), *final(self), delta),
    {
        match self.current_view() {
            View::List => {
                if self.stories.len() == 0 {
                    return;
                }
                let len = self.stories.len() as i32;
                let mut idx = self.selected as i32 + delta;
                if idx < 0 {
                    idx = 0;
                }
                if idx >= len {
                    idx = len - 1;
                }
                self.selected = idx as usize;
            },
            View::Comments => {
                let filtered = self.filtered_comment_indices();
                assert(filtered@ == old(self).current_filtered());
                assert(self.comment_selected == old(self).comment_selected);
                if filtered.len() == 0 {
                    return;
                }
                let pos = match position_of(&filtered, self.comment_selected) {
                    Some(p) => p as i32,
                    None => 0,
                };
                let mut new_pos = pos + delta;
                if new_pos < 0 {
                    new_pos = 0;
                }
                if new_pos >= filtered.len() as i32 {
                    new_pos = filtered.len() as i32 - 1;
                }
                self.comment_selected = filtered[new_pos as usize];
            },
        }
        self.needs_redraw = true;
    }

    pub fn jump_top(&mut self)
        ensures
            jumped_top(*old(self), *final(self)),
    {
        match self.current_view() {
            View::List => self.selected = 0,
            View::Comments => {
                let f = self.filtered_comment_indices();
                if f.len() > 0 {
                    self.comment_selected = f[0];
                }
            },
        }
        self.needs_redraw = true;
    }

    pub fn jump_bottom(&mut self)
        ensures
            jumped_bottom(*old(self), *final(self)),
    {
        match self.current_view() {
            View::List => {
                if self.stories.len() > 0 {
                    self.selected = self.stories.len() - 1;
                }
            },
            View::Comments => {
                let f = self.filtered_comment_indices();
                if f.len() > 0 {
                    self.comment_selected = f[f.len() - 1];
                }
            },
        }
        self.needs_redraw = true;
    }

    pub fn clear_comments_loading(&mut self)
        ensures
            *final(self) == (App {
                comments_loading: false,
                pending_comment_story_id: None,
                ..*old(self)
            }),
    {
        self.comments_loading = false;
        self.pending_comment_story_id = None;
    }

    pub fn begin_comments_loading(&mut self, story_short_id: String, loading_title: String)
        requires
            old(self).wf(),
        ensures
            final(self).wf(),
            final(self).comments@.len() == 0,
            final(self).collapsed_comment_ids@.len() == 0,
            final(self).wrapped_comments@.len() == 0,
            final(self).status@ == "Loading comments..."@,
            *final(self) == (App {
                comments_loading: true,
                pending_comment_story_id: Some(story_short_id),
                story_detail_title: loading_title,
                comments: final(self).comments,
                comment_selected: 0,
                collapsed_comment_ids: final(self).collapsed_comment_ids,
                wrapped_comments_width: None,
                wrapped_comments: final(self).wrapped_comments,
                flow: AppFlowState::Comments,
                status: final(self).status,
                filtered_indices_dirty: true,
                comments_version: next_version(old(self).comments_version),
                needs_redraw: true,
                ..*old(self)
            }),
    {
        self.comments_loading = true;
        self.pending_comment_story_id = Some(story_short_id);
        self.story_detail_title = loading_title;
        self.comments.clear();
        self.comment_selected = 0;
        self.collapsed_comment_ids.clear();
        self.clear_wrapped_comments();
        self.flow = AppFlowState::Comments;
        self.status = owned("Loading comments...");
        self.mark_filtered_indices_dirty();
        self.comments_version = bump(self.comments_version);
        self.needs_redraw = true;
        assert(self.collapsed_ids() =~= seq![]);
    }

    pub fn load_comments_detail(&mut self, detail: StoryDetail)
        requires
            old(self).wf(),
        ensures
            final(self).wf(),
            final(self).collapsed_comment_ids@.len() == 0,
            final(self).wrapped_comments@.len() == 0,
            final(self).status@ == decimal(detail.comments@.len()) + " comments"@,
            *final(self) == (App {
                story_detail_title: detail.title,
                comments: detail.comments,
                comment_selected: 0,
                collapsed_comment_ids: final(self).collapsed_comment_ids,
                wrapped_comments_width: None,
                wrapped_comments: final(self).wrapped_comments,
                flow: AppFlowState::Comments,
                comments_loading: false,
                pending_comment_story_id: None,
                status: final(self).status,
                filtered_indices_dirty: true,
                comments_version: next_version(old(self).comments_version),
                needs_redraw: true,
                ..*old(self)
            }),
    {
        self.story_detail_title = detail.title;
        self.comments = detail.comments;
        self.comment_selected = 0;
        self.collapsed_comment_ids.clear();
        self.clear_wrapped_comments();
        self.flow = AppFlowState::Comments;
        self.clear_comments_loading();
        let mut out: Vec<char> = Vec::new();
        push_decimal(&mut out, self.comments.len() as u128);
        push_str(&mut out, " comments");
        self.status = string_of(&out);
        self.mark_filtered_indices_dirty();
        self.comments_version = bump(self.comments_version);
        self.needs_redraw = true;
        assert(self.collapsed_ids() =~= seq![]);
    }

    /// Shows the comments loaded so far, keeping the selection where it was as far as the
    /// list now reaches.
    pub fn load_comments_partial(&mut self, detail: StoryDetail)
        ensures
            final(self).wrapped_comments@.len() == 0,
            *final(self) == (App {
                story_detail_title: detail.title,
                comments: detail.comments,
                comment_selected: if detail.comments@.len() == 0 {
                    0
                } else {
                    min_usize(old(self).comment_selected, (detail.comments@.len() - 1) as usize)
                },
                wrapped_comments_width: None,
                wrapped_comments: final(self).wrapped_comments,
                flow: AppFlowState::Comments,
                filtered_indices_dirty: true,
                comments_version: next_version(old(self).comments_version),
                needs_redraw: true,
                ..*old(self)
            }),
    {
        let previous_selected = self.comment_selected;
        self.story_detail_title = detail.title;
        self.comments = detail.comments;
        self.comment_selected = if self.comments.len() == 0 {
            0
        } else {
            let last = self.comments.len() - 1;
            if previous_selected <= last {
                previous_selected
            } else {
                last
            }
        };
        self.clear_wrapped_comments();
        self.flow = AppFlowState::Comments;
        self.mark_filtered_indices_dirty();
        self.comments_version = bump(self.comments_version);
        self.needs_redraw = true;
    }

    /// A copy of the cached detail of story `short_id`, if cached.
    #[must_use]
    pub fn cached_story_detail(&self, short_id: &str) -> (r: Option<StoryDetail>)
        requires
            self.wf(),
        ensures
            match find(self.detail_cache(), short_id@) {
                Some(d) => r is Some && r->0@ == d,
                None => r is None,
            },
    {
        proof {
            lemma_find_none(self.detail_cache(), short_id@);
        }
        match detail_index(&self.comments_cache, short_id) {
            Some(i) => {
                proof {
                    lemma_find_at(self.detail_cache(), short_id@, i as int);
                }
                Some(self.comments_cache[i].1.duplicate())
            },
            None => None,
        }
    }

    /// Caches the detail of story `short_id` as the newest entry; the oldest entry goes
    /// when the cache is full.
    pub fn cache_story_detail(&mut self, short_id: String, detail: StoryDetail)
        requires
            old(self).wf(),
        ensures
            final(self).wf(),
            final(self).detail_cache() == insert_newest(
                old(self).detail_cache(),
                short_id@,
                detail@,
                COMMENTS_CACHE_CAPACITY as nat,
            ),
            *final(self) == (App { comments_cache: final(self).comments_cache, ..*old(self) }),
    {
        insert_detail(&mut self.comments_cache, short_id, detail);
    }

    /// Forgets the cached detail of story `short_id`.
    pub fn invalidate_story_cache(&mut self, short_id: &str)
        requires
            old(self).wf(),
        ensures
            final(self).wf(),
            final(self).detail_cache() == without(old(self).detail_cache(), short_id@),
            *final(self) == (App { comments_cache: final(self).comments_cache, ..*old(self) }),
    {
        let ghost v0 = self.detail_cache();
        proof {
            lemma_without(v0, short_id@);
            lemma_find_none(v0, short_id@);
        }
        match detail_index(&self.comments_cache, short_id) {
            Some(i) => {
                proof {
                    lemma_without_at(v0, short_id@, i as int);
                    lemma_detail_views_remove(self.comments_cache@, i as int);
                }
                self.comments_cache.remove(i);
            },
            None => {},
        }
    }

    #[must_use]
    pub fn wrapped_comment_lines(&self, index: usize) -> (r: Option<&Vec<String>>)
        ensures
            match r {
                Some(v) => index < self.wrapped_comments@.len() && *v == self.wrapped_comments@[index as int],
                None => index >= self.wrapped_comments@.len(),
            },
    {
        if index < self.wrapped_comments.len() {
            Some(&self.wrapped_comments[index])
        } else {
            None
        }
    }

    fn wrap_one(comment: &Comment, inner_width: usize, max_indent_level: usize) -> (r: Vec<String>)
        requires
            min_usize(comment.depth, max_indent_level) <= 6,
        ensures
            crate::api::string_views(r@) == comment_wrap(comment@, inner_width, max_indent_level),
    {
        let d = if comment.depth <= max_indent_level { comment.depth } else { max_indent_level };
        let indent = spaces(2 * (d + 1));
        let wrap_width = if inner_width > indent.len() { inner_width - indent.len() } else { 1 };
        wrap_comment_text(comment.comment_plain.as_str(), comment.is_deleted, &indent, wrap_width)
    }

    /// Brings the wrapped comment lines up to date for a pane `inner_width` columns wide:
    /// nothing to do when they are, only the comments that arrived since when the width is
    /// unchanged, else all of them.
    pub fn ensure_wrapped_comments(&mut self, inner_width: usize, max_indent_level: usize)
        requires
            forall|i: int|
                0 <= i < old(self).comments@.len() ==> min_usize(
                    #[trigger] old(self).comments@[i].depth,
                    max_indent_level,
                ) <= 6,
        ensures
            comments_wrapped(*old(self), *final(self), inner_width, max_indent_level),
    {
        if self.wrapped_comments_width == Some(inner_width) && self.wrapped_comments.len()
            == self.comments.len() {
            return;
        }
        let keep = if self.wrapped_comments_width == Some(inner_width) && self.wrapped_comments.len()
            < self.comments.len() {
            self.wrapped_comments.len()
        } else {
            self.wrapped_comments.clear();
            0
        };
        let ghost w0 = self.wrapped();
        let n = self.comments.len();
        let mut i = keep;
        while i < n
            invariant
                keep <= i <= n,
                n == self.comments@.len(),
                self.comments == old(self).comments,
                self.wrapped().len() == i,
                forall|k: int| 0 <= k < keep ==> #[trigger] self.wrapped()[k] == w0[k],
                forall|k: int|
                    keep <= k < i ==> #[trigger] self.wrapped()[k] == comment_wrap(
                        self.comments@[k]@,
                        inner_width,
                        max_indent_level,
                    ),
                forall|k: int|
                    0 <= k < self.comments@.len() ==> min_usize(
                        #[trigger] self.comments@[k].depth,
                        max_indent_level,
                    ) <= 6,
                w0.len() >= keep,
                *self == (App { wrapped_comments: self.wrapped_comments, ..*old(self) }),
            decreases n - i,
        {
            let lines = Self::wrap_one(&self.comments[i], inner_width, max_indent_level);
            let ghost pre = self.wrapped();
            self.wrapped_comments.push(lines);
            assert(self.wrapped() =~= pre.push(crate::api::string_views(lines@)));
            i = i + 1;
        }
        self.wrapped_comments_width = Some(inner_width);
    }
}


proof fn lemma_high_score_offset(
    f: Seq<usize>,
    cs: Seq<CommentView>,
    start: int,
    min: i32,
    o: int,
)
    requires
        0 <= o,
    ensures
        match high_score_offset(f, cs, start, min, o) {
            Some(k) => o <= k < f.len() && ({
                let idx = f[(start + k) % (f.len() as int)];
                idx < cs.len() && cs[idx as int].score >= min
            }),
            None => true,
        },
    decreases f.len() - o,
{
    if o < f.len() {
        lemma_high_score_offset(f, cs, start, min, o + 1);
    }
}

impl App {
    /// The indices of the comments the current search shows, and where the selection
    /// stands among them.
    #[must_use]
    pub fn comment_display_data(&mut self) -> (r: (Vec<usize>, Option<usize>))
        ensures
            r.0@ == old(self).current_filtered(),
            match r.1 {
                Some(p) => index_of(r.0@, old(self).comment_selected) == Some(p as int),
                None => index_of(r.0@, old(self).comment_selected) is None,
            },
            final(self).settled_from(*old(self)),
    {
        let indices = self.filtered_comment_indices();
        let pos = position_of(&indices, self.comment_selected);
        (indices, pos)
    }

    /// Collapses the selected comment, or expands it when it is collapsed.
    pub fn toggle_selected_comment_collapsed(&mut self)
        requires
            old(self).wf(),
        ensures
            final(self).wf(),
            collapse_toggled(*old(self), *final(self)),
    {
        if self.comment_selected >= self.comments.len() {
            return;
        }
        let short_id = self.comments[self.comment_selected].short_id.clone();
        toggle_text(&mut self.collapsed_comment_ids, short_id);
        self.comments_version = bump(self.comments_version);
        self.needs_redraw = true;
    }

    /// Whether the comment at `actual_index` is collapsed.
    pub fn is_comment_collapsed(&self, actual_index: usize) -> (r: bool)
        ensures
            r == (actual_index < self.comments@.len() && text_set(self.collapsed_ids()).contains(
                self.comments@[actual_index as int].short_id@,
            )),
    {
        if actual_index >= self.comments.len() {
            return false;
        }
        let found = text_index(
            &self.collapsed_comment_ids,
            self.comments[actual_index].short_id.as_str(),
        );
        proof {
            let id = self.comments@[actual_index as int].short_id@;
            match found {
                Some(i) => {
                    assert(self.collapsed_ids()[i as int] == id);
                },
                None => {
                    if self.collapsed_ids().contains(id) {
                        let j = choose|j: int| 0 <= j < self.collapsed_ids().len() && self.collapsed_ids()[j] == id;
                        assert(self.collapsed_comment_ids@[j]@ == id);
                    }
                },
            }
        }
        found.is_some()
    }

    /// Enters search mode from the comments view, editing the active query.
    pub fn start_search_mode(&mut self)
        ensures
            search_started(*old(self), *final(self)),
    {
        if self.flow == AppFlowState::Comments {
            self.flow = AppFlowState::SearchingComments;
            self.search_input = match &self.active_search {
                Some(q) => q.clone(),
                None => String::new(),
            };
            self.needs_redraw = true;
        }
    }

    /// Applies the typed query: trimmed and lowered, an empty one clears the search. The
    /// selection moves to the first comment shown, if any.
    pub fn apply_search(&mut self)
        ensures
            search_applied(*old(self), *final(self)),
    {
        let trimmed = trim_str(self.search_input.as_str());
        let query = to_lowercase(string_of(&trimmed).as_str());
        self.active_search = if chars_of(query.as_str()).len() == 0 {
            None
        } else {
            Some(query)
        };
        self.flow = match self.flow {
            AppFlowState::SearchingComments => AppFlowState::Comments,
            AppFlowState::HelpSearchingComments => AppFlowState::HelpComments,
            flow => flow,
        };
        self.mark_filtered_indices_dirty();
        let f = self.filtered_comment_indices();
        if f.len() > 0 {
            self.comment_selected = f[0];
        }
        self.needs_redraw = true;
    }

    /// Leaves search mode without applying the typed query.
    pub fn clear_search_mode(&mut self)
        ensures
            search_cleared(*old(self), *final(self)),
    {
        self.flow = match self.flow {
            AppFlowState::SearchingComments => AppFlowState::Comments,
            AppFlowState::HelpSearchingComments => AppFlowState::HelpComments,
            flow => flow,
        };
        self.search_input = String::new();
        self.needs_redraw = true;
    }

    /// Moves to the next comment the search shows, wrapping round to the first.
    pub fn next_matching_comment(&mut self)
        ensures
            moved_to_next_match(*old(self), *final(self)),
    {
        let filtered = self.filtered_comment_indices();
        if filtered.len() == 0 {
            return;
        }
        let current_pos = match position_of(&filtered, self.comment_selected) {
            Some(p) => p,
            None => 0,
        };
        let next_pos = (current_pos + 1) % filtered.len();
        self.comment_selected = filtered[next_pos];
        self.needs_redraw = true;
    }

    /// Where the walk for a high-scoring comment starts: just after the selection, or at
    /// the top when the selection is not shown.
    pub open spec fn high_score_start(&self) -> int {
        match index_of(self.current_filtered(), self.comment_selected) {
            Some(p) => p + 1,
            None => 0,
        }
    }

    /// How far round from the start the next shown comment scoring at least `min` lies.
    pub open spec fn high_score_target(&self, min: i32) -> Option<int> {
        if self.current_filtered().len() == 0 {
            None
        } else {
            high_score_offset(
                self.current_filtered(),
                comment_views(self.comments@),
                self.high_score_start(),
                min,
                0,
            )
        }
    }

    /// Moves to the next shown comment, round from the selection, that scores at least
    /// `min_score`; false when there is none.
    pub fn next_high_score_comment(&mut self, min_score: i32) -> (r: bool)
        requires
            old(self).current_filtered().len() < usize::MAX / 2,
        ensures
            moved_to_high_score(*old(self), *final(self), min_score, r),
    {
        let filtered = self.filtered_comment_indices();
        if filtered.len() == 0 {
            return false;
        }
        let start_pos = match position_of(&filtered, self.comment_selected) {
            Some(p) => p + 1,
            None => 0,
        };
        assert(start_pos as int == old(self).high_score_start());
        let ghost cs = comment_views(self.comments@);
        assert(cs == comment_views(old(self).comments@));
        let ghost f = filtered@;
        let n = filtered.len();
        let mut offset: usize = 0;
        while offset < n
            invariant
                n == f.len(),
                f == filtered@,
                n > 0,
                n < usize::MAX / 2,
                start_pos <= n,
                offset <= n,
                cs == comment_views(self.comments@),
                self.comment_selected == old(self).comment_selected,
                high_score_offset(f, cs, start_pos as int, min_score, 0) == high_score_offset(
                    f,
                    cs,
                    start_pos as int,
                    min_score,
                    offset as int,
                ),
                *self == (App {
                    filtered_indices_cache: self.filtered_indices_cache,
                    filtered_indices_dirty: false,
                    ..*old(self)
                }),
                self.filtered_indices_cache@ == old(self).current_filtered(),
                f == old(self).current_filtered(),
                start_pos as int == old(self).high_score_start(),
                cs == comment_views(old(self).comments@),
            decreases n - offset,
        {
            let pos = (start_pos + offset) % n;
            let idx = filtered[pos];
            if idx < self.comments.len() && self.comments[idx].score >= min_score {
                assert(pos as int == (start_pos as int + offset as int) % (n as int));
                assert(cs[idx as int].score == self.comments@[idx as int].score);
                assert(high_score_offset(f, cs, start_pos as int, min_score, offset as int) == Some(
                    offset as int,
                ));
                self.comment_selected = idx;
                self.needs_redraw = true;
                assert(high_score_offset(f, cs, start_pos as int, min_score, 0) == Some(offset as int));
                assert(f.len() != 0);
                assert(old(self).high_score_target(min_score) == Some(offset as int));
                assert(idx == f[(start_pos as int + offset as int) % (f.len() as int)]);
                assert(*self == (App {
                    filtered_indices_cache: self.filtered_indices_cache,
                    filtered_indices_dirty: false,
                    comment_selected: f[(start_pos as int + offset as int) % (f.len() as int)],
                    needs_redraw: true,
                    ..*old(self)
                }));
                return true;
            }
            assert(high_score_offset(f, cs, start_pos as int, min_score, offset as int)
                == high_score_offset(f, cs, start_pos as int, min_score, offset + 1)) by {
                assert(pos as int == (start_pos as int + offset as int) % (n as int));
                if idx < cs.len() {
                    assert(cs[idx as int].score == self.comments@[idx as int].score);
                }
            }
            offset = offset + 1;
        }
        false
    }
}

impl Default for App {
    fn default() -> (r: Self)
        ensures
            r.is_initial(),
    {
        Self::new()
    }
}

/// The selection moved by `delta`, within the list or the comments shown.
pub open spec fn moved_selection(a: App, b: App, delta: i32) -> bool {
    &&& view_of(a.flow) == View::List ==> if a.stories@.len() == 0 {
        b == a
    } else {
        b == (App {
            selected: clamp(
                a.selected + delta,
                0,
                a.stories@.len() - 1,
            ) as usize,
            needs_redraw: true,
            ..a
        })
    }
    &&& view_of(a.flow) == View::Comments ==> {
        let f = a.current_filtered();
        &&& b.filtered_indices_cache@ == f
        &&& if f.len() == 0 {
            b == (App {
                filtered_indices_cache: b.filtered_indices_cache,
                filtered_indices_dirty: false,
                ..a
            })
        } else {
            b == (App {
                filtered_indices_cache: b.filtered_indices_cache,
                filtered_indices_dirty: false,
                comment_selected: f[clamp(
                    cur_pos(f, a.comment_selected) + delta,
                    0,
                    f.len() - 1,
                )],
                needs_redraw: true,
                ..a
            })
        }
    }
}

/// The selection went to the first story, or the first comment shown.
pub open spec fn jumped_top(a: App, b: App) -> bool {
    &&& view_of(a.flow) == View::List ==> b == (App {
        selected: 0,
        needs_redraw: true,
        ..a
    })
    &&& view_of(a.flow) == View::Comments ==> {
        let f = a.current_filtered();
        &&& b.filtered_indices_cache@ == f
        &&& b == (App {
            filtered_indices_cache: b.filtered_indices_cache,
            filtered_indices_dirty: false,
            comment_selected: if f.len() == 0 {
                a.comment_selected
            } else {
                f[0]
            },
            needs_redraw: true,
            ..a
        })
    }
}

/// The selection went to the last story, or the last comment shown.
pub open spec fn jumped_bottom(a: App, b: App) -> bool {
    &&& view_of(a.flow) == View::List ==> b == (App {
        selected: if a.stories@.len() == 0 {
            a.selected
        } else {
            (a.stories@.len() - 1) as usize
        },
        needs_redraw: true,
        ..a
    })
    &&& view_of(a.flow) == View::Comments ==> {
        let f = a.current_filtered();
        &&& b.filtered_indices_cache@ == f
        &&& b == (App {
            filtered_indices_cache: b.filtered_indices_cache,
            filtered_indices_dirty: false,
            comment_selected: if f.len() == 0 {
                a.comment_selected
            } else {
                f.last()
            },
            needs_redraw: true,
            ..a
        })
    }
}

/// The selected comment's collapsed mark flipped.
pub open spec fn collapse_toggled(a: App, b: App) -> bool {
    &&& a.comment_selected >= a.comments@.len() ==> b == a
    &&& a.comment_selected < a.comments@.len() ==> {
        let id = a.comments@[a.comment_selected as int].short_id@;
        &&& text_set(b.collapsed_ids()) == if text_set(
            a.collapsed_ids(),
        ).contains(id) {
            text_set(a.collapsed_ids()).remove(id)
        } else {
            text_set(a.collapsed_ids()).insert(id)
        }
        &&& b == (App {
            collapsed_comment_ids: b.collapsed_comment_ids,
            comments_version: next_version(a.comments_version),
            needs_redraw: true,
            ..a
        })
    }
}

/// Search mode began from the comments view, editing the active query.
pub open spec fn search_started(a: App, b: App) -> bool {
    &&& a.flow != AppFlowState::Comments ==> b == a
    &&& a.flow == AppFlowState::Comments ==> {
        &&& b.search_input@ == match a.active_search {
            Some(q) => q@,
            None => Seq::<char>::empty(),
        }
        &&& b == (App {
            flow: AppFlowState::SearchingComments,
            search_input: b.search_input,
            needs_redraw: true,
            ..a
        })
    }
}

/// The typed query became the active search, and the selection moved to the first comment shown.
pub open spec fn search_applied(a: App, b: App) -> bool {
    &&& ({
        let q = lowercase(trim(a.search_input@));
        let f = filtered_indices(
            comment_views(a.comments@),
            if q.len() == 0 {
                None
            } else {
                Some(q)
            },
        );
        &&& search_view(b.active_search) == if q.len() == 0 {
            None
        } else {
            Some(q)
        }
        &&& b.filtered_indices_cache@ == f
        &&& b == (App {
            active_search: b.active_search,
            flow: search_left(a.flow),
            filtered_indices_cache: b.filtered_indices_cache,
            filtered_indices_dirty: false,
            comment_selected: if f.len() == 0 {
                a.comment_selected
            } else {
                f[0]
            },
            needs_redraw: true,
            ..a
        })
    })
}

/// Search mode ended with the typed query dropped.
pub open spec fn search_cleared(a: App, b: App) -> bool {
    &&& b.search_input@.len() == 0
    &&& b == (App {
        flow: search_left(a.flow),
        search_input: b.search_input,
        needs_redraw: true,
        ..a
    })
}

/// The selection moved to the next comment shown, round to the first.
pub open spec fn moved_to_next_match(a: App, b: App) -> bool {
    &&& ({
        let f = a.current_filtered();
        &&& b.filtered_indices_cache@ == f
        &&& b == if f.len() == 0 {
            App {
                filtered_indices_cache: b.filtered_indices_cache,
                filtered_indices_dirty: false,
                ..a
            }
        } else {
            App {
                filtered_indices_cache: b.filtered_indices_cache,
                filtered_indices_dirty: false,
                comment_selected: f[(cur_pos(f, a.comment_selected) + 1) % (
                f.len() as int)],
                needs_redraw: true,
                ..a
            }
        }
    })
}

/// The selection moved to the next shown comment scoring at least `min_score`, when there is one, as `r` says.
pub open spec fn moved_to_high_score(a: App, b: App, min_score: i32, r: bool) -> bool {
    &&& b.filtered_indices_cache@ == a.current_filtered()
    &&& r == a.high_score_target(min_score) is Some
    &&& b == match a.high_score_target(min_score) {
        Some(k) => App {
            filtered_indices_cache: b.filtered_indices_cache,
            filtered_indices_dirty: false,
            comment_selected: a.current_filtered()[(a.high_score_start() + k)
                % (a.current_filtered().len() as int)],
            needs_redraw: true,
            ..a
        },
        None => App {
            filtered_indices_cache: b.filtered_indices_cache,
            filtered_indices_dirty: false,
            ..a
        },
    }
}

/// The app switched to feed `next`, keeping the current feed's stories, page and selection and restoring `next`'s, if kept.
pub open spec fn switched_feed(a: App, b: App, next: Feed) -> bool {
    &&& next == a.feed ==> b == a
    &&& next != a.feed ==> {
        let saved = FeedState {
            stories: a.stories,
            page: a.page,
            selected: a.selected,
        };
        let kept = without(a.feed_states@, a.feed).push(
            (a.feed, saved),
        );
        &&& b.feed_states@ == without(kept, next)
        &&& match find(a.feed_states@, next) {
            Some(st) => {
                &&& b.stories == st.stories
                &&& b.page == st.page
                &&& b.selected == if st.selected < st.stories@.len() || st.stories@.len() == 0 {
                    if st.stories@.len() == 0 { 0 } else { st.selected }
                } else {
                    (st.stories@.len() - 1) as usize
                }
            },
            None => {
                &&& b.stories@.len() == 0
                &&& b.page == 1
                &&& b.selected == 0
            },
        }
        &&& feed_set(b.prefetch_started_feeds@) == feed_set(
            a.prefetch_started_feeds@,
        ).remove(next)
        &&& b == (App {
            feed: next,
            stories: b.stories,
            page: b.page,
            selected: b.selected,
            feed_states: b.feed_states,
            prefetch_started_feeds: b.prefetch_started_feeds,
            pending_stories_request_id: next_version(a.pending_stories_request_id),
            stories_loading: false,
            stories_version: next_version(a.stories_version),
            needs_redraw: true,
            ..a
        })
    }
}

/// The list emptied back to page one, with the feed's kept state and prefetch mark dropped.
pub open spec fn stories_reset(a: App, b: App) -> bool {
    &&& b.stories@.len() == 0
    &&& b.feed_states@ == without(a.feed_states@, a.feed)
    &&& feed_set(b.prefetch_started_feeds@) == feed_set(
        a.prefetch_started_feeds@,
    ).remove(a.feed)
    &&& b == (App {
        stories: b.stories,
        selected: 0,
        page: 1,
        feed_states: b.feed_states,
        prefetch_started_feeds: b.prefetch_started_feeds,
        stories_version: next_version(a.stories_version),
        needs_redraw: true,
        ..a
    })
}

/// Every cached page of `feed`, its prefetch mark and its kept state are gone.
pub open spec fn feed_invalidated(a: App, b: App, feed: Feed) -> bool {
    &&& b.stories_cache@ == drop_feed(a.stories_cache@, feed)
    &&& feed_set(b.prefetch_started_feeds@) == feed_set(
        a.prefetch_started_feeds@,
    ).remove(feed)
    &&& b.feed_states@ == without(a.feed_states@, feed)
    &&& b == (App {
        stories_cache: b.stories_cache,
        prefetch_started_feeds: b.prefetch_started_feeds,
        feed_states: b.feed_states,
        ..a
    })
}

/// The navigation mode flipped, and the list emptied back to page one, to load again.
pub open spec fn nav_mode_toggled(a: App, b: App) -> bool {
    &&& b.nav_mode == other_nav_mode(a.nav_mode)
    &&& b.stories@.len() == 0
    &&& b.feed_states@.len() == 0
    &&& b.status@ == "Navigation mode: "@ + nav_name(b.nav_mode)
    &&& b == (App {
        nav_mode: b.nav_mode,
        stories: b.stories,
        selected: 0,
        page: 1,
        feed_states: b.feed_states,
        needs_initial_load: true,
        status: b.status,
        stories_version: next_version(a.stories_version),
        needs_redraw: true,
        ..a
    })
}

} // verus!
