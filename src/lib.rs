//! Bang resolution for a quick-launcher: a directory of search shortcuts
//! built from a feed and user overrides, the refresh and merge rules, and the
//! resolver that turns a typed query into a URL.

pub mod directory;
pub mod keys;
pub mod model;
pub mod parser;
pub mod policy;
pub mod resolver;
pub mod state;
pub mod text;

pub use directory::{get_all_bangs, BangDirectory};
pub use keys::{normalize_keys, ChordHook, KeyAction, KeyListener};
pub use model::{Bang, BangView, DuckDuckGoBang, DuckDuckGoBangView};
pub use parser::{collect_bangs, parse_duckduckgo_bangs, ParseError, ParseReport, ParsedFeed};
pub use policy::{
    add_custom_bang, apply_fetch, cache_is_stale, delete_custom_bang, fallback_bangs,
    finish_refresh, merge_user_bangs, plan_load, BangCache, BangError, FetchError, FetchOutcome,
    LoadPlan, RefreshPolicy, CACHE_MAX_AGE_SECS, MIN_REPLACE_COUNT,
};
pub use resolver::{
    bang_url_with, default_search_url, ensure_url_scheme, get_bang_redirect_url, get_bang_url,
    is_url, resolve, split_bang, substitute_placeholder,
};
pub use state::BangState;
pub use text::{contains_char, contains_str, matches_at, replace_all, rfind_char, trim};
