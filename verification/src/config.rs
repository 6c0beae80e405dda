use vstd::prelude::*;

use crate::keymap::KeymapPreset;

verus! {

/// The user's configuration file, section by section; every setting is optional.
#[derive(Debug, Clone, Default)]
pub struct PersistedConfig {
    pub keymap: Option<KeymapPreset>,
    pub startup: Option<StartupConfig>,
    pub performance: Option<PerformanceConfig>,
    pub network: Option<NetworkConfig>,
    pub ui: Option<UiConfig>,
}

#[derive(Debug, Clone, Default)]
pub struct StartupConfig {
    pub feed: Option<String>,
    pub page: Option<u32>,
    pub restore_feed_page: Option<bool>,
    pub nav_mode: Option<String>,
}

#[derive(Debug, Clone, Default)]
pub struct PerformanceConfig {
    pub prefetch_max_pages: Option<u32>,
    pub hn_progressive_initial_comments: Option<usize>,
    pub hn_progressive_step_comments: Option<usize>,
    pub hn_comments_fetch_concurrency: Option<usize>,
}

#[derive(Debug, Clone, Default)]
pub struct NetworkConfig {
    pub connect_timeout_ms: Option<u64>,
    pub request_timeout_ms: Option<u64>,
    pub retry_attempts: Option<usize>,
    pub retry_backoff_ms: Option<u64>,
}

#[derive(Debug, Clone, Default)]
pub struct UiConfig {
    pub high_contrast: Option<bool>,
}

} // verus!
