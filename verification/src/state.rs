use vstd::prelude::*;

use crate::api::Feed;

verus! {

/// What is kept between runs: the feed, its page and the selected story.
#[derive(Debug, Clone)]
pub struct PersistedState {
    pub feed: Feed,
    pub page: u32,
    pub selected: usize,
}

} // verus!
