use vstd::prelude::*;

use crate::api::{copy_stories, feed_name, story_views, Feed, Story, StoryView};
use crate::text::{decimal, push_decimal, push_str, string_of};

verus! {

/// Cache entries younger than this many milliseconds are fresh: served with no fetch.
pub const TTL_FRESH_MS: u128 = 60_000;

/// Entries younger than this, but not fresh, are served while a refresh runs behind them.
pub const TTL_STALE_MAX_MS: u128 = 300_000;

/// Entries older than this are ignored entirely.
pub const TTL_EXPIRED_MS: u128 = 900_000;

#[verifier::external_type_specification]
#[verifier::external_body]
pub struct ExInstant(std::time::Instant);

/// std's `Instant::now`: the current instant, of which nothing is stated.
#[verifier::external_body]
fn instant_now() -> std::time::Instant {
    std::time::Instant::now()
}

/// std's `Instant::elapsed`, in whole milliseconds. It depends on the clock, so nothing is
/// stated of it.
#[verifier::external_body]
fn elapsed_ms(at: &std::time::Instant) -> u128 {
    at.elapsed().as_millis()
}

/// How usable a cached page is, by its age.
#[derive(Clone, Copy, Debug, PartialEq, Eq, Structural)]
pub enum Freshness {
    Fresh,
    StaleButUsable,
    Expired,
}

pub open spec fn freshness_of(age_ms: u128) -> Freshness {
    if age_ms < TTL_FRESH_MS {
        Freshness::Fresh
    } else if age_ms < TTL_STALE_MAX_MS {
        Freshness::StaleButUsable
    } else {
        Freshness::Expired
    }
}

/// The freshness of a cache entry that is `age_ms` milliseconds old.
pub fn freshness_for_age(age_ms: u128) -> (r: Freshness)
    ensures
        r == freshness_of(age_ms),
{
    if age_ms < TTL_FRESH_MS {
        Freshness::Fresh
    } else if age_ms < TTL_STALE_MAX_MS {
        Freshness::StaleButUsable
    } else {
        Freshness::Expired
    }
}

/// Freshness only ever decays as an entry ages.
pub proof fn lemma_freshness_monotone(a: u128, b: u128)
    requires
        a <= b,
    ensures
        freshness_of(b) == Freshness::Fresh ==> freshness_of(a) == Freshness::Fresh,
        freshness_of(a) == Freshness::Expired ==> freshness_of(b) == Freshness::Expired,
{
}

#[derive(Debug)]
pub struct CachedStories {
    pub stories: Vec<Story>,
    cached_at: std::time::Instant,
}

impl CachedStories {
    /// The stories held.
    pub closed spec fn held(&self) -> Seq<StoryView> {
        story_views(self.stories@)
    }

    /// When the stories were cached.
    pub closed spec fn cached_at(&self) -> std::time::Instant {
        self.cached_at
    }

    /// A page of stories, cached now.
    pub fn new(stories: Vec<Story>) -> (r: Self)
        ensures
            r.held() == story_views(stories@),
    {
        CachedStories { stories, cached_at: instant_now() }
    }

    /// A copy of this entry, with the same time of caching.
    pub fn duplicate(&self) -> (r: Self)
        ensures
            r.held() == self.held(),
            r.cached_at() == self.cached_at(),
    {
        CachedStories { stories: copy_stories(self.stories.as_slice()), cached_at: self.cached_at }
    }

    /// The stories held, taken out of the entry.
    pub fn into_stories(self) -> (r: Vec<Story>)
        ensures
            story_views(r@) == self.held(),
    {
        self.stories
    }

    /// How usable the entry is now; each call reads the clock.
    pub fn freshness(&self) -> Freshness {
        freshness_for_age(elapsed_ms(&self.cached_at))
    }

    /// Fresh enough to serve without any background fetch.
    pub fn is_fresh(&self) -> bool {
        self.freshness() == Freshness::Fresh
    }

    /// Stale but still usable: serve now, refresh in background.
    pub fn is_stale_but_usable(&self) -> bool {
        self.freshness() == Freshness::StaleButUsable
    }

    /// Too old: treat as cache miss, show loading.
    pub fn is_expired(&self) -> bool {
        self.freshness() == Freshness::Expired
    }
}

/// The file a page of stories is kept in on disk.
pub fn stories_cache_file(feed: Feed, page: u32) -> (r: String)
    ensures
        r@ == "stories_"@ + feed_name(feed) + "_p"@ + decimal(page as nat) + ".json"@,
{
    let mut out: Vec<char> = Vec::new();
    push_str(&mut out, "stories_");
    push_str(&mut out, feed.as_str());
    push_str(&mut out, "_p");
    push_decimal(&mut out, page as u128);
    push_str(&mut out, ".json");
    string_of(&out)
}

/// The file a story's comments are kept in on disk.
pub fn comments_cache_file(short_id: &str) -> (r: String)
    ensures
        r@ == "comments_"@ + short_id@ + ".json"@,
{
    let mut out: Vec<char> = Vec::new();
    push_str(&mut out, "comments_");
    push_str(&mut out, short_id);
    push_str(&mut out, ".json");
    string_of(&out)
}

} // verus!
