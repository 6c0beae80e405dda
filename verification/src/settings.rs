use vstd::prelude::*;

use crate::api::{parse_feed, unknown_feed_message, Feed};
use crate::app::{App, NavMode};
use crate::config::{NetworkConfig, PerformanceConfig, PersistedConfig, StartupConfig};
use crate::keymap::{parse_preset, unknown_preset_message, Keymap, KeymapPreset, preset_name};
use crate::text::{ascii_lower, ascii_lower_chars, chars_of, push_chars, push_str, string_of, trim, trim_str};
use crate::markup::seq_eq;

verus! {

pub const DEFAULT_PREFETCH_MAX_PAGES: u32 = 20;

pub const DEFAULT_HN_PROGRESSIVE_INITIAL_COMMENTS: usize = 10;

pub const DEFAULT_HN_PROGRESSIVE_STEP_COMMENTS: usize = 20;

pub const ENV_KEYMAP: &'static str = "PINCER_KEYMAP";

pub const ENV_STARTUP_FEED: &'static str = "PINCER_STARTUP_FEED";

pub const ENV_STARTUP_PAGE: &'static str = "PINCER_STARTUP_PAGE";

pub const ENV_STARTUP_RESTORE_FEED_PAGE: &'static str = "PINCER_STARTUP_RESTORE_FEED_PAGE";

pub const ENV_HIGH_CONTRAST: &'static str = "PINCER_HIGH_CONTRAST";

pub const ENV_PREFETCH_MAX_PAGES: &'static str = "PINCER_PREFETCH_MAX_PAGES";

pub const ENV_HN_PROGRESSIVE_INITIAL_COMMENTS: &'static str = "PINCER_HN_PROGRESSIVE_INITIAL_COMMENTS";

pub const ENV_HN_PROGRESSIVE_STEP_COMMENTS: &'static str = "PINCER_HN_PROGRESSIVE_STEP_COMMENTS";

pub const ENV_HN_COMMENTS_FETCH_CONCURRENCY: &'static str = "PINCER_HN_COMMENTS_FETCH_CONCURRENCY";

pub const ENV_HTTP_CONNECT_TIMEOUT_MS: &'static str = "PINCER_HTTP_CONNECT_TIMEOUT_MS";

pub const ENV_HTTP_REQUEST_TIMEOUT_MS: &'static str = "PINCER_HTTP_REQUEST_TIMEOUT_MS";

pub const ENV_HTTP_RETRY_ATTEMPTS: &'static str = "PINCER_HTTP_RETRY_ATTEMPTS";

pub const ENV_HTTP_RETRY_BACKOFF_MS: &'static str = "PINCER_HTTP_RETRY_BACKOFF_MS";

#[derive(Clone, Copy, Debug)]
pub struct RuntimeSettings {
    pub startup_feed: Feed,
    pub startup_page: u32,
    pub restore_feed_page: bool,
    pub high_contrast: bool,
    pub prefetch_max_pages: u32,
    pub hn_progressive_initial_comments: usize,
    pub hn_progressive_step_comments: usize,
    pub connect_timeout_ms: u64,
    pub request_timeout_ms: u64,
    pub retry_attempts: usize,
    pub retry_backoff_ms: u64,
    pub hn_comments_fetch_concurrency: usize,
}

/// The values of the environment variables that override the configuration file, each
/// `None` when the variable is not set.
#[derive(Clone, Debug, Default)]
pub struct EnvOverrides {
    pub keymap: Option<String>,
    pub startup_feed: Option<String>,
    pub startup_page: Option<String>,
    pub startup_restore_feed_page: Option<String>,
    pub high_contrast: Option<String>,
    pub prefetch_max_pages: Option<String>,
    pub hn_progressive_initial_comments: Option<String>,
    pub hn_progressive_step_comments: Option<String>,
    pub hn_comments_fetch_concurrency: Option<String>,
    pub http_connect_timeout_ms: Option<String>,
    pub http_request_timeout_ms: Option<String>,
    pub http_retry_attempts: Option<String>,
    pub http_retry_backoff_ms: Option<String>,
}

// ---------------------------------------------------------------------------
// Reading values
// ---------------------------------------------------------------------------

pub open spec fn is_digit(c: char) -> bool {
    '0' <= c <= '9'
}

pub open spec fn digits_value(d: Seq<char>) -> nat
    decreases d.len(),
{
    if d.len() == 0 {
        0
    } else {
        digits_value(d.drop_last()) * 10 + ((d.last() as u32) - 48) as nat
    }
}

/// What the text of an unsigned decimal number reads as, with no bound: an optional `+`
/// followed by one or more ASCII digits.
pub open spec fn unsigned_value(s: Seq<char>) -> Option<nat> {
    let d = if s.len() > 0 && s[0] == '+' {
        s.drop_first()
    } else {
        s
    };
    if d.len() > 0 && forall|i: int| 0 <= i < d.len() ==> is_digit(#[trigger] d[i]) {
        Some(digits_value(d))
    } else {
        None
    }
}

/// The message of the error `u32::from_str` gives for `s`.
pub uninterp spec fn u32_parse_error(s: Seq<char>) -> Seq<char>;

/// The message of the error `u64::from_str` gives for `s`.
pub uninterp spec fn u64_parse_error(s: Seq<char>) -> Seq<char>;

/// The message of the error `usize::from_str` gives for `s`.
pub uninterp spec fn usize_parse_error(s: Seq<char>) -> Seq<char>;

/// std's `u32::from_str`: an optional `+` and decimal digits whose value fits read as that
/// value; anything else is an error, whose message is `u32_parse_error` of the text.
#[verifier::external_body]
fn parse_u32(s: &str) -> (r: Result<u32, String>)
    ensures
        match unsigned_value(s@) {
            Some(v) => if v <= u32::MAX {
                r == Ok::<u32, String>(v as u32)
            } else {
                r is Err && r->Err_0@ == u32_parse_error(s@)
            },
            None => r is Err && r->Err_0@ == u32_parse_error(s@),
        },
{
    s.parse::<u32>().map_err(|e| e.to_string())
}

/// std's `u64::from_str`, stated as `parse_u32` is.
#[verifier::external_body]
pub(crate) fn parse_u64(s: &str) -> (r: Result<u64, String>)
    ensures
        match unsigned_value(s@) {
            Some(v) => if v <= u64::MAX {
                r == Ok::<u64, String>(v as u64)
            } else {
                r is Err && r->Err_0@ == u64_parse_error(s@)
            },
            None => r is Err && r->Err_0@ == u64_parse_error(s@),
        },
{
    s.parse::<u64>().map_err(|e| e.to_string())
}

/// std's `usize::from_str`, stated as `parse_u32` is.
#[verifier::external_body]
fn parse_usize(s: &str) -> (r: Result<usize, String>)
    ensures
        match unsigned_value(s@) {
            Some(v) => if v <= usize::MAX {
                r == Ok::<usize, String>(v as usize)
            } else {
                r is Err && r->Err_0@ == usize_parse_error(s@)
            },
            None => r is Err && r->Err_0@ == usize_parse_error(s@),
        },
{
    s.parse::<usize>().map_err(|e| e.to_string())
}

/// What a boolean setting reads as, trimmed and ASCII-lowered.
pub open spec fn parse_flag(s: Seq<char>) -> Option<bool> {
    let n = ascii_lower(trim(s));
    if n == "1"@ || n == "true"@ || n == "yes"@ || n == "on"@ {
        Some(true)
    } else if n == "0"@ || n == "false"@ || n == "no"@ || n == "off"@ {
        Some(false)
    } else {
        None
    }
}

pub fn parse_bool_text(s: &str) -> (r: Option<bool>)
    ensures
        r == parse_flag(s@),
{
    let n = ascii_lower_chars(&trim_str(s));
    if seq_eq(&n, &chars_of("1")) || seq_eq(&n, &chars_of("true")) || seq_eq(&n, &chars_of("yes"))
        || seq_eq(&n, &chars_of("on")) {
        Some(true)
    } else if seq_eq(&n, &chars_of("0")) || seq_eq(&n, &chars_of("false")) || seq_eq(
        &n,
        &chars_of("no"),
    ) || seq_eq(&n, &chars_of("off")) {
        Some(false)
    } else {
        None
    }
}

/// Whether a flag variable with value `value` is on: set, and reading as true.
pub fn flag_enabled(value: Option<&str>) -> (r: bool)
    ensures
        r == match value {
            Some(v) => parse_flag(v@) == Some(true),
            None => false,
        },
{
    match value {
        Some(v) => match parse_bool_text(v) {
            Some(b) => b,
            None => false,
        },
        None => false,
    }
}

pub open spec fn at_least_one(v: nat) -> nat {
    if v < 1 {
        1
    } else {
        v
    }
}

pub open spec fn opt_text(o: Option<String>) -> Option<Seq<char>> {
    match o {
        Some(s) => Some(s@),
        None => None,
    }
}


/// The environment variable holds text that does not read as a number that fits.
pub open spec fn bad_number(env: Option<Seq<char>>, max: nat) -> bool {
    match env {
        Some(t) => match unsigned_value(t) {
            Some(v) => v > max,
            None => true,
        },
        None => false,
    }
}

pub open spec fn bad_flag(env: Option<Seq<char>>) -> bool {
    match env {
        Some(t) => parse_flag(t) is None,
        None => false,
    }
}

pub open spec fn u32_opt(o: Option<u32>) -> Option<nat> {
    match o {
        Some(v) => Some(v as nat),
        None => None,
    }
}

pub open spec fn u64_opt(o: Option<u64>) -> Option<nat> {
    match o {
        Some(v) => Some(v as nat),
        None => None,
    }
}

pub open spec fn usize_opt(o: Option<usize>) -> Option<nat> {
    match o {
        Some(v) => Some(v as nat),
        None => None,
    }
}

/// The parts of the configuration file, each `None` when absent.
pub ghost struct ConfigParts {
    pub keymap: Option<KeymapPreset>,
    pub feed: Option<Seq<char>>,
    pub page: Option<nat>,
    pub restore: Option<bool>,
    pub nav_mode: Option<Seq<char>>,
    pub prefetch: Option<nat>,
    pub initial: Option<nat>,
    pub step: Option<nat>,
    pub concurrency: Option<nat>,
    pub connect: Option<nat>,
    pub request: Option<nat>,
    pub retries: Option<nat>,
    pub backoff: Option<nat>,
    pub high_contrast: Option<bool>,
}

pub open spec fn config_parts(cfg: Option<PersistedConfig>) -> ConfigParts {
    match cfg {
        None => ConfigParts {
            keymap: None,
            feed: None,
            page: None,
            restore: None,
            nav_mode: None,
            prefetch: None,
            initial: None,
            step: None,
            concurrency: None,
            connect: None,
            request: None,
            retries: None,
            backoff: None,
            high_contrast: None,
        },
        Some(c) => ConfigParts {
            keymap: c.keymap,
            feed: match c.startup {
                Some(st) => opt_text(st.feed),
                None => None,
            },
            page: match c.startup {
                Some(st) => u32_opt(st.page),
                None => None,
            },
            restore: match c.startup {
                Some(st) => st.restore_feed_page,
                None => None,
            },
            nav_mode: match c.startup {
                Some(st) => opt_text(st.nav_mode),
                None => None,
            },
            prefetch: match c.performance {
                Some(p) => u32_opt(p.prefetch_max_pages),
                None => None,
            },
            initial: match c.performance {
                Some(p) => usize_opt(p.hn_progressive_initial_comments),
                None => None,
            },
            step: match c.performance {
                Some(p) => usize_opt(p.hn_progressive_step_comments),
                None => None,
            },
            concurrency: match c.performance {
                Some(p) => usize_opt(p.hn_comments_fetch_concurrency),
                None => None,
            },
            connect: match c.network {
                Some(n) => u64_opt(n.connect_timeout_ms),
                None => None,
            },
            request: match c.network {
                Some(n) => u64_opt(n.request_timeout_ms),
                None => None,
            },
            retries: match c.network {
                Some(n) => usize_opt(n.retry_attempts),
                None => None,
            },
            backoff: match c.network {
                Some(n) => u64_opt(n.retry_backoff_ms),
                None => None,
            },
            high_contrast: match c.ui {
                Some(u) => u.high_contrast,
                None => None,
            },
        },
    }
}

/// A number from the configuration file: the default when absent; with `floor_one`, a
/// value below one counts as one.
pub open spec fn cfg_number(default: nat, cfg: Option<nat>, floor_one: bool) -> nat {
    match cfg {
        Some(v) => if floor_one {
            at_least_one(v)
        } else {
            v
        },
        None => default,
    }
}

/// A number from an environment variable, replacing `base` when its text reads as a number
/// no greater than `max`; with `floor_one`, a value below one counts as one.
pub open spec fn env_number(base: nat, env: Option<Seq<char>>, max: nat, floor_one: bool) -> nat {
    match env {
        Some(t) => match unsigned_value(t) {
            Some(v) => if v <= max {
                if floor_one {
                    at_least_one(v)
                } else {
                    v
                }
            } else {
                base
            },
            None => base,
        },
        None => base,
    }
}

pub open spec fn cfg_flag(default: bool, cfg: Option<bool>) -> bool {
    match cfg {
        Some(v) => v,
        None => default,
    }
}

/// A flag from an environment variable, replacing `base` when its text reads as a boolean.
pub open spec fn env_flag_value(base: bool, env: Option<Seq<char>>) -> bool {
    match env {
        Some(t) => match parse_flag(t) {
            Some(b) => b,
            None => base,
        },
        None => base,
    }
}

pub open spec fn base_preset(cfg: ConfigParts) -> KeymapPreset {
    match cfg.keymap {
        Some(p) => p,
        None => KeymapPreset::Vim,
    }
}

pub open spec fn env_preset(base: KeymapPreset, env: Option<Seq<char>>) -> KeymapPreset {
    match env {
        Some(v) => match parse_preset(v) {
            Some(p) => p,
            None => base,
        },
        None => base,
    }
}

pub open spec fn env_feed(base: Feed, env: Option<Seq<char>>) -> Feed {
    match env {
        Some(v) => match parse_feed(v) {
            Some(x) => x,
            None => base,
        },
        None => base,
    }
}

pub open spec fn resolved_preset(cfg: ConfigParts, env: EnvOverrides) -> KeymapPreset {
    env_preset(base_preset(cfg), opt_text(env.keymap))
}

/// The navigation mode a configured value asks for: `infinite`, in any ASCII case, for
/// infinite scrolling, any other value for pages; unchanged when there is none.
pub open spec fn nav_from(current: NavMode, value: Option<Seq<char>>) -> NavMode {
    match value {
        Some(m) => if ascii_lower(m) == "infinite"@ {
            NavMode::Infinite
        } else {
            NavMode::Paged
        },
        None => current,
    }
}

pub open spec fn resolved_nav(current: NavMode, cfg: ConfigParts) -> NavMode {
    nav_from(current, cfg.nav_mode)
}

/// The settings the defaults and the configuration file give, before the environment.
pub open spec fn config_settings(high_contrast: bool, cfg: ConfigParts) -> RuntimeSettings {
    RuntimeSettings {
        startup_feed: env_feed(Feed::Hottest, cfg.feed),
        startup_page: cfg_number(1, cfg.page, true) as u32,
        restore_feed_page: cfg_flag(false, cfg.restore),
        high_contrast: cfg_flag(high_contrast, cfg.high_contrast),
        prefetch_max_pages: cfg_number(20, cfg.prefetch, true) as u32,
        hn_progressive_initial_comments: cfg_number(10, cfg.initial, true) as usize,
        hn_progressive_step_comments: cfg_number(20, cfg.step, true) as usize,
        connect_timeout_ms: cfg_number(5000, cfg.connect, true) as u64,
        request_timeout_ms: cfg_number(12000, cfg.request, true) as u64,
        retry_attempts: cfg_number(2, cfg.retries, true) as usize,
        retry_backoff_ms: cfg_number(200, cfg.backoff, false) as u64,
        hn_comments_fetch_concurrency: cfg_number(12, cfg.concurrency, true) as usize,
    }
}

/// `base` with each setting whose environment variable reads replaced by its value.
pub open spec fn env_settings(base: RuntimeSettings, env: EnvOverrides) -> RuntimeSettings {
    RuntimeSettings {
        startup_feed: env_feed(base.startup_feed, opt_text(env.startup_feed)),
        startup_page: env_number(base.startup_page as nat, opt_text(env.startup_page), u32::MAX as nat, true) as u32,
        restore_feed_page: env_flag_value(base.restore_feed_page, opt_text(env.startup_restore_feed_page)),
        high_contrast: env_flag_value(base.high_contrast, opt_text(env.high_contrast)),
        prefetch_max_pages: env_number(base.prefetch_max_pages as nat, opt_text(env.prefetch_max_pages), u32::MAX as nat, true) as u32,
        hn_progressive_initial_comments: env_number(base.hn_progressive_initial_comments as nat, opt_text(env.hn_progressive_initial_comments), usize::MAX as nat, true) as usize,
        hn_progressive_step_comments: env_number(base.hn_progressive_step_comments as nat, opt_text(env.hn_progressive_step_comments), usize::MAX as nat, true) as usize,
        connect_timeout_ms: env_number(base.connect_timeout_ms as nat, opt_text(env.http_connect_timeout_ms), u64::MAX as nat, true) as u64,
        request_timeout_ms: env_number(base.request_timeout_ms as nat, opt_text(env.http_request_timeout_ms), u64::MAX as nat, true) as u64,
        retry_attempts: env_number(base.retry_attempts as nat, opt_text(env.http_retry_attempts), usize::MAX as nat, true) as usize,
        retry_backoff_ms: env_number(base.retry_backoff_ms as nat, opt_text(env.http_retry_backoff_ms), u64::MAX as nat, false) as u64,
        hn_comments_fetch_concurrency: env_number(base.hn_comments_fetch_concurrency as nat, opt_text(env.hn_comments_fetch_concurrency), usize::MAX as nat, true) as usize,
    }
}

pub open spec fn resolved_settings(high_contrast: bool, cfg: ConfigParts, env: EnvOverrides) -> RuntimeSettings {
    env_settings(config_settings(high_contrast, cfg), env)
}

pub open spec fn note_if(prev: Seq<char>, cond: bool, msg: Seq<char>) -> Seq<char> {
    if cond {
        msg
    } else {
        prev
    }
}

pub open spec fn warning(text: Seq<char>) -> Seq<char> {
    "Config warning: "@ + text
}

pub open spec fn feed_warning(prev: Seq<char>, env: Option<Seq<char>>) -> Seq<char> {
    match env {
        Some(v) => note_if(prev, parse_feed(v) is None, warning(unknown_feed_message(v))),
        None => prev,
    }
}

pub open spec fn env_text(env: Option<Seq<char>>) -> Seq<char> {
    match env {
        Some(t) => t,
        None => Seq::empty(),
    }
}

pub open spec fn number_note(prev: Seq<char>, env: Option<Seq<char>>, max: nat, name: Seq<char>, err: Seq<char>) -> Seq<char> {
    note_if(prev, bad_number(env, max), warning("invalid "@ + name + ": "@ + err))
}

pub open spec fn u32_note(prev: Seq<char>, env: Option<Seq<char>>, name: Seq<char>) -> Seq<char> {
    number_note(prev, env, u32::MAX as nat, name, u32_parse_error(env_text(env)))
}

pub open spec fn u64_note(prev: Seq<char>, env: Option<Seq<char>>, name: Seq<char>) -> Seq<char> {
    number_note(prev, env, u64::MAX as nat, name, u64_parse_error(env_text(env)))
}

pub open spec fn usize_note(prev: Seq<char>, env: Option<Seq<char>>, name: Seq<char>) -> Seq<char> {
    number_note(prev, env, usize::MAX as nat, name, usize_parse_error(env_text(env)))
}

pub open spec fn flag_note(prev: Seq<char>, env: Option<Seq<char>>, name: Seq<char>) -> Seq<char> {
    note_if(prev, bad_flag(env), warning("invalid boolean for "@ + name))
}

/// The status line after the keymap, the feed, the page and the two flags of the
/// environment are read: each value that does not read replaces it with a warning.
pub open spec fn env_status_first(start: Seq<char>, env: EnvOverrides) -> Seq<char> {
    let s1 = match opt_text(env.keymap) {
        Some(v) => note_if(start, parse_preset(v) is None, warning(unknown_preset_message(v))),
        None => start,
    };
    let s2 = feed_warning(s1, opt_text(env.startup_feed));
    let s3 = u32_note(s2, opt_text(env.startup_page), "startup page"@);
    let s4 = flag_note(s3, opt_text(env.startup_restore_feed_page), ENV_STARTUP_RESTORE_FEED_PAGE@);
    flag_note(s4, opt_text(env.high_contrast), ENV_HIGH_CONTRAST@)
}

/// The status line after the numeric environment variables are read.
pub open spec fn env_status_rest(start: Seq<char>, env: EnvOverrides) -> Seq<char> {
    let s1 = u32_note(start, opt_text(env.prefetch_max_pages), ENV_PREFETCH_MAX_PAGES@);
    let s2 = usize_note(s1, opt_text(env.hn_progressive_initial_comments), ENV_HN_PROGRESSIVE_INITIAL_COMMENTS@);
    let s3 = usize_note(s2, opt_text(env.hn_progressive_step_comments), ENV_HN_PROGRESSIVE_STEP_COMMENTS@);
    let s4 = usize_note(s3, opt_text(env.hn_comments_fetch_concurrency), ENV_HN_COMMENTS_FETCH_CONCURRENCY@);
    let s5 = u64_note(s4, opt_text(env.http_connect_timeout_ms), ENV_HTTP_CONNECT_TIMEOUT_MS@);
    let s6 = u64_note(s5, opt_text(env.http_request_timeout_ms), ENV_HTTP_REQUEST_TIMEOUT_MS@);
    let s7 = usize_note(s6, opt_text(env.http_retry_attempts), ENV_HTTP_RETRY_ATTEMPTS@);
    u64_note(s7, opt_text(env.http_retry_backoff_ms), ENV_HTTP_RETRY_BACKOFF_MS@)
}

/// The status line after resolving: each value that does not read replaces it with a
/// warning, in the order the values are read, and a preset other than vim announces
/// itself last.
pub open spec fn resolved_status(start: Seq<char>, cfg: ConfigParts, env: EnvOverrides) -> Seq<char> {
    let s = env_status_rest(env_status_first(feed_warning(start, cfg.feed), env), env);
    let preset = resolved_preset(cfg, env);
    note_if(s, preset != KeymapPreset::Vim, "Loaded "@ + preset_name(preset) + " keymap preset"@)
}

// ---------------------------------------------------------------------------
// Resolution
// ---------------------------------------------------------------------------

/// Replaces the status line with `Config warning: ` and the given text.
fn set_warning(status: &mut String, text: &Vec<char>)
    ensures
        final(status)@ == warning(text@),
{
    let mut out: Vec<char> = Vec::new();
    push_str(&mut out, "Config warning: ");
    push_chars(&mut out, text);
    *status = string_of(&out);
}

fn max1_u32(v: u32) -> (r: u32)
    ensures
        r == at_least_one(v as nat),
{
    if v < 1 { 1 } else { v }
}

fn max1_u64(v: u64) -> (r: u64)
    ensures
        r == at_least_one(v as nat),
{
    if v < 1 { 1 } else { v }
}

fn max1_usize(v: usize) -> (r: usize)
    ensures
        r == at_least_one(v as nat),
{
    if v < 1 { 1 } else { v }
}

/// The text `invalid <name>: <err>`.
fn invalid_text(name: &str, err: &String) -> (r: Vec<char>)
    ensures
        r@ == "invalid "@ + name@ + ": "@ + err@,
{
    let mut parts: Vec<char> = Vec::new();
    push_str(&mut parts, "invalid ");
    push_str(&mut parts, name);
    push_str(&mut parts, ": ");
    push_str(&mut parts, err.as_str());
    parts
}

/// Reads an environment number of type `u32`; a value that does not read leaves `value`
/// as it is and writes a warning naming the variable.
fn env_u32(env: &Option<String>, name: &str, floor_one: bool, value: &mut u32, status: &mut String)
    ensures
        *final(value) as nat == env_number(*old(value) as nat, opt_text(*env), u32::MAX as nat, floor_one),
        final(status)@ == u32_note(old(status)@, opt_text(*env), name@),
{
    if let Some(text) = env {
        match parse_u32(text.as_str()) {
            Ok(v) => *value = if floor_one { max1_u32(v) } else { v },
            Err(e) => set_warning(status, &invalid_text(name, &e)),
        }
    }
}

fn env_u64(env: &Option<String>, name: &str, floor_one: bool, value: &mut u64, status: &mut String)
    ensures
        *final(value) as nat == env_number(*old(value) as nat, opt_text(*env), u64::MAX as nat, floor_one),
        final(status)@ == u64_note(old(status)@, opt_text(*env), name@),
{
    if let Some(text) = env {
        match parse_u64(text.as_str()) {
            Ok(v) => *value = if floor_one { max1_u64(v) } else { v },
            Err(e) => set_warning(status, &invalid_text(name, &e)),
        }
    }
}

fn env_usize(env: &Option<String>, name: &str, floor_one: bool, value: &mut usize, status: &mut String)
    ensures
        *final(value) as nat == env_number(*old(value) as nat, opt_text(*env), usize::MAX as nat, floor_one),
        final(status)@ == usize_note(old(status)@, opt_text(*env), name@),
{
    if let Some(text) = env {
        match parse_usize(text.as_str()) {
            Ok(v) => *value = if floor_one { max1_usize(v) } else { v },
            Err(e) => set_warning(status, &invalid_text(name, &e)),
        }
    }
}

fn env_flag(env: &Option<String>, name: &str, value: &mut bool, status: &mut String)
    ensures
        *final(value) == env_flag_value(*old(value), opt_text(*env)),
        final(status)@ == flag_note(old(status)@, opt_text(*env), name@),
{
    if let Some(text) = env {
        match parse_bool_text(text.as_str()) {
            Some(b) => *value = b,
            None => {
                let mut parts: Vec<char> = Vec::new();
                push_str(&mut parts, "invalid boolean for ");
                push_str(&mut parts, name);
                set_warning(status, &parts);
            },
        }
    }
}

fn env_feed_value(env: &Option<String>, feed: &mut Feed, status: &mut String)
    ensures
        *final(feed) == env_feed(*old(feed), opt_text(*env)),
        final(status)@ == feed_warning(old(status)@, opt_text(*env)),
{
    if let Some(text) = env {
        match Feed::parse(text.as_str()) {
            Ok(parsed) => *feed = parsed,
            Err(err) => set_warning(status, &chars_of(err.as_str())),
        }
    }
}

fn nav_value(value: &Option<String>, current: NavMode) -> (r: NavMode)
    ensures
        r == nav_from(current, opt_text(*value)),
{
    match value {
        Some(mode_str) => {
            let lowered = ascii_lower_chars(&chars_of(mode_str.as_str()));
            if seq_eq(&lowered, &chars_of("infinite")) {
                NavMode::Infinite
            } else {
                NavMode::Paged
            }
        },
        None => current,
    }
}

/// Applies the startup section of the configuration file.
fn startup_values(st: &StartupConfig, s: &mut RuntimeSettings, app: &mut App)
    ensures
        *final(s) == (RuntimeSettings {
            startup_feed: env_feed(old(s).startup_feed, opt_text(st.feed)),
            startup_page: cfg_number(old(s).startup_page as nat, u32_opt(st.page), true) as u32,
            restore_feed_page: cfg_flag(old(s).restore_feed_page, st.restore_feed_page),
            ..*old(s)
        }),
        final(app).status@ == feed_warning(old(app).status@, opt_text(st.feed)),
        *final(app) == (App {
            status: final(app).status,
            nav_mode: nav_from(old(app).nav_mode, opt_text(st.nav_mode)),
            ..*old(app)
        }),
{
    env_feed_value(&st.feed, &mut s.startup_feed, &mut app.status);
    if let Some(page) = st.page {
        s.startup_page = max1_u32(page);
    }
    if let Some(restore) = st.restore_feed_page {
        s.restore_feed_page = restore;
    }
    app.nav_mode = nav_value(&st.nav_mode, app.nav_mode);
}

/// Applies the performance section of the configuration file.
fn performance_values(p: &PerformanceConfig, s: &mut RuntimeSettings)
    ensures
        *final(s) == (RuntimeSettings {
            prefetch_max_pages: cfg_number(old(s).prefetch_max_pages as nat, u32_opt(p.prefetch_max_pages), true) as u32,
            hn_progressive_initial_comments: cfg_number(old(s).hn_progressive_initial_comments as nat, usize_opt(p.hn_progressive_initial_comments), true) as usize,
            hn_progressive_step_comments: cfg_number(old(s).hn_progressive_step_comments as nat, usize_opt(p.hn_progressive_step_comments), true) as usize,
            hn_comments_fetch_concurrency: cfg_number(old(s).hn_comments_fetch_concurrency as nat, usize_opt(p.hn_comments_fetch_concurrency), true) as usize,
            ..*old(s)
        }),
{
    if let Some(value) = p.prefetch_max_pages {
        s.prefetch_max_pages = max1_u32(value);
    }
    if let Some(value) = p.hn_progressive_initial_comments {
        s.hn_progressive_initial_comments = max1_usize(value);
    }
    if let Some(value) = p.hn_progressive_step_comments {
        s.hn_progressive_step_comments = max1_usize(value);
    }
    if let Some(value) = p.hn_comments_fetch_concurrency {
        s.hn_comments_fetch_concurrency = max1_usize(value);
    }
}

/// Applies the network section of the configuration file.
fn network_values(n: &NetworkConfig, s: &mut RuntimeSettings)
    ensures
        *final(s) == (RuntimeSettings {
            connect_timeout_ms: cfg_number(old(s).connect_timeout_ms as nat, u64_opt(n.connect_timeout_ms), true) as u64,
            request_timeout_ms: cfg_number(old(s).request_timeout_ms as nat, u64_opt(n.request_timeout_ms), true) as u64,
            retry_attempts: cfg_number(old(s).retry_attempts as nat, usize_opt(n.retry_attempts), true) as usize,
            retry_backoff_ms: cfg_number(old(s).retry_backoff_ms as nat, u64_opt(n.retry_backoff_ms), false) as u64,
            ..*old(s)
        }),
{
    if let Some(value) = n.connect_timeout_ms {
        s.connect_timeout_ms = max1_u64(value);
    }
    if let Some(value) = n.request_timeout_ms {
        s.request_timeout_ms = max1_u64(value);
    }
    if let Some(value) = n.retry_attempts {
        s.retry_attempts = max1_usize(value);
    }
    if let Some(value) = n.retry_backoff_ms {
        s.retry_backoff_ms = value;
    }
}

/// The settings the defaults and the configuration file give; the file may also set the
/// navigation mode, and an unknown feed in it writes a warning.
fn config_values(app: &mut App, persisted_config: Option<&PersistedConfig>) -> (r: (KeymapPreset, RuntimeSettings))
    ensures
        ({
            let cfg = config_parts(match persisted_config {
                Some(c) => Some(*c),
                None => None,
            });
            &&& r.0 == base_preset(cfg)
            &&& r.1 == config_settings(old(app).high_contrast, cfg)
            &&& final(app).status@ == feed_warning(old(app).status@, cfg.feed)
            &&& *final(app) == (App {
                status: final(app).status,
                nav_mode: resolved_nav(old(app).nav_mode, cfg),
                ..*old(app)
            })
        }),
{
    let mut preset = KeymapPreset::Vim;
    let mut s = RuntimeSettings {
        startup_feed: Feed::Hottest,
        startup_page: 1u32,
        restore_feed_page: false,
        high_contrast: app.high_contrast,
        prefetch_max_pages: DEFAULT_PREFETCH_MAX_PAGES,
        hn_progressive_initial_comments: DEFAULT_HN_PROGRESSIVE_INITIAL_COMMENTS,
        hn_progressive_step_comments: DEFAULT_HN_PROGRESSIVE_STEP_COMMENTS,
        connect_timeout_ms: 5_000u64,
        request_timeout_ms: 12_000u64,
        retry_attempts: 2usize,
        retry_backoff_ms: 200u64,
        hn_comments_fetch_concurrency: 12usize,
    };
    if let Some(cfg) = persisted_config {
        if let Some(config_preset) = cfg.keymap {
            preset = config_preset;
        }
        if let Some(startup) = &cfg.startup {
            startup_values(startup, &mut s, app);
        }
        if let Some(ui) = &cfg.ui {
            if let Some(cfg_high_contrast) = ui.high_contrast {
                s.high_contrast = cfg_high_contrast;
            }
        }
        if let Some(perf) = &cfg.performance {
            performance_values(perf, &mut s);
        }
        if let Some(network) = &cfg.network {
            network_values(network, &mut s);
        }
    }
    (preset, s)
}

/// Applies the keymap, the feed, the page and the two flags of the environment.
fn env_values_first(env: &EnvOverrides, preset: &mut KeymapPreset, s: &mut RuntimeSettings, status: &mut String)
    ensures
        *final(preset) == env_preset(*old(preset), opt_text(env.keymap)),
        final(s).startup_feed == env_settings(*old(s), *env).startup_feed,
        final(s).startup_page == env_settings(*old(s), *env).startup_page,
        final(s).restore_feed_page == env_settings(*old(s), *env).restore_feed_page,
        final(s).high_contrast == env_settings(*old(s), *env).high_contrast,
        *final(s) == (RuntimeSettings {
            startup_feed: final(s).startup_feed,
            startup_page: final(s).startup_page,
            restore_feed_page: final(s).restore_feed_page,
            high_contrast: final(s).high_contrast,
            ..*old(s)
        }),
        final(status)@ == env_status_first(old(status)@, *env),
{
    if let Some(value) = &env.keymap {
        match KeymapPreset::parse(value.as_str()) {
            Ok(parsed) => *preset = parsed,
            Err(err) => set_warning(status, &chars_of(err.as_str())),
        }
    }
    env_feed_value(&env.startup_feed, &mut s.startup_feed, status);
    env_u32(&env.startup_page, "startup page", true, &mut s.startup_page, status);
    env_flag(&env.startup_restore_feed_page, ENV_STARTUP_RESTORE_FEED_PAGE, &mut s.restore_feed_page, status);
    env_flag(&env.high_contrast, ENV_HIGH_CONTRAST, &mut s.high_contrast, status);
}

/// Applies the numeric environment variables.
fn env_values_rest(env: &EnvOverrides, s: &mut RuntimeSettings, status: &mut String)
    ensures
        *final(s) == (RuntimeSettings {
            startup_feed: old(s).startup_feed,
            startup_page: old(s).startup_page,
            restore_feed_page: old(s).restore_feed_page,
            high_contrast: old(s).high_contrast,
            ..env_settings(*old(s), *env)
        }),
        final(status)@ == env_status_rest(old(status)@, *env),
{
    env_u32(&env.prefetch_max_pages, ENV_PREFETCH_MAX_PAGES, true, &mut s.prefetch_max_pages, status);
    env_usize(&env.hn_progressive_initial_comments, ENV_HN_PROGRESSIVE_INITIAL_COMMENTS, true, &mut s.hn_progressive_initial_comments, status);
    env_usize(&env.hn_progressive_step_comments, ENV_HN_PROGRESSIVE_STEP_COMMENTS, true, &mut s.hn_progressive_step_comments, status);
    env_usize(&env.hn_comments_fetch_concurrency, ENV_HN_COMMENTS_FETCH_CONCURRENCY, true, &mut s.hn_comments_fetch_concurrency, status);
    env_u64(&env.http_connect_timeout_ms, ENV_HTTP_CONNECT_TIMEOUT_MS, true, &mut s.connect_timeout_ms, status);
    env_u64(&env.http_request_timeout_ms, ENV_HTTP_REQUEST_TIMEOUT_MS, true, &mut s.request_timeout_ms, status);
    env_usize(&env.http_retry_attempts, ENV_HTTP_RETRY_ATTEMPTS, true, &mut s.retry_attempts, status);
    env_u64(&env.http_retry_backoff_ms, ENV_HTTP_RETRY_BACKOFF_MS, false, &mut s.retry_backoff_ms, status);
}

/// Resolves the runtime settings from the defaults, the configuration file and the
/// environment variables, whose values `env` holds. Warnings, and a keymap other than vim,
/// are reported in the app's status line; the configuration file may set the navigation
/// mode.
pub fn resolve(app: &mut App, persisted_config: Option<&PersistedConfig>, env: &EnvOverrides) -> (r: (Keymap, RuntimeSettings))
    ensures
        ({
            let cfg = config_parts(match persisted_config {
                Some(c) => Some(*c),
                None => None,
            });
            &&& r.0.preset == resolved_preset(cfg, *env)
            &&& r.1 == resolved_settings(old(app).high_contrast, cfg, *env)
            &&& final(app).status@ == resolved_status(old(app).status@, cfg, *env)
            &&& *final(app) == (App {
                status: final(app).status,
                nav_mode: resolved_nav(old(app).nav_mode, cfg),
                ..*old(app)
            })
        }),
{
    let (mut preset, mut s) = config_values(app, persisted_config);
    env_values_first(env, &mut preset, &mut s, &mut app.status);
    env_values_rest(env, &mut s, &mut app.status);
    let keymap = Keymap::new(preset);
    if keymap.preset() != KeymapPreset::Vim {
        let mut out: Vec<char> = Vec::new();
        push_str(&mut out, "Loaded ");
        push_str(&mut out, keymap.preset().as_str());
        push_str(&mut out, " keymap preset");
        app.status = string_of(&out);
    }
    (keymap, s)
}

} // verus!
