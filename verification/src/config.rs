//! Application settings and the rules that bring a loaded configuration back into range.
use vstd::prelude::*;

verus! {

pub const DEFAULT_MAX_LOG_ENTRIES: usize = 100_000;
pub const DEFAULT_SEARCH_DEBOUNCE_MS: u64 = 300;
pub const DEFAULT_LIVE_BATCH_INTERVAL_MS: u64 = 500;
pub const DEFAULT_WINDOW_WIDTH: i32 = 1200;
pub const DEFAULT_WINDOW_HEIGHT: i32 = 800;
pub const DEFAULT_SIDEBAR_WIDTH: i32 = 220;
pub const DEFAULT_JOURNAL_BOOT_LIMIT: usize = 5000;
pub const MIN_WINDOW_WIDTH: i32 = 640;
pub const MIN_WINDOW_HEIGHT: i32 = 480;
pub const MAX_LOG_ENTRIES_LIMIT: usize = 1_000_000;
pub const MIN_LOG_ENTRIES_LIMIT: usize = 100;
pub const MAX_JOURNAL_BOOT_LIMIT: usize = 500_000;
pub const MIN_JOURNAL_BOOT_LIMIT: usize = 10;
pub const MIN_SIDEBAR_WIDTH: i32 = 100;
pub const MAX_SIDEBAR_WIDTH: i32 = 600;

/// The colour scheme the user picked.
#[derive(Debug, Clone, Copy, PartialEq, Eq, Structural)]
pub enum ColorScheme {
    Default,
    Light,
    Dark,
}

impl Default for ColorScheme {
    fn default() -> (c: Self)
        ensures
            c == ColorScheme::Default,
    {
        ColorScheme::Default
    }
}

/// The persisted settings of the application.
#[derive(Debug, Clone)]
pub struct AppConfig {
    pub max_log_entries: usize,
    pub search_debounce_ms: u64,
    pub live_batch_interval_ms: u64,
    pub window_width: i32,
    pub window_height: i32,
    pub window_maximized: bool,
    pub sidebar_width: i32,
    pub show_debug_logs: bool,
    pub auto_scroll: bool,
    pub export_directory: Option<String>,
    pub color_scheme: ColorScheme,
    pub journal_boot_limit: usize,
}

/// The settings a fresh installation starts with.
pub open spec fn default_config() -> AppConfig {
    AppConfig {
        max_log_entries: DEFAULT_MAX_LOG_ENTRIES,
        search_debounce_ms: DEFAULT_SEARCH_DEBOUNCE_MS,
        live_batch_interval_ms: DEFAULT_LIVE_BATCH_INTERVAL_MS,
        window_width: DEFAULT_WINDOW_WIDTH,
        window_height: DEFAULT_WINDOW_HEIGHT,
        window_maximized: false,
        sidebar_width: DEFAULT_SIDEBAR_WIDTH,
        show_debug_logs: false,
        auto_scroll: true,
        export_directory: None,
        color_scheme: ColorScheme::Default,
        journal_boot_limit: DEFAULT_JOURNAL_BOOT_LIMIT,
    }
}

/// A setting kept when it lies in `[lo, hi]`, else replaced by `default`.
pub open spec fn within_or(v: int, lo: int, hi: int, default: int) -> int {
    if v < lo || v > hi {
        default
    } else {
        v
    }
}

/// A setting kept when it is not zero, else replaced by `default`.
pub open spec fn nonzero_or(v: u64, default: u64) -> u64 {
    if v == 0 {
        default
    } else {
        v
    }
}

/// A setting raised to `lo` when it lies below it.
pub open spec fn at_least(v: i32, lo: i32) -> i32 {
    if v < lo {
        lo
    } else {
        v
    }
}

/// A loaded configuration with every out-of-range setting repaired: entry limits out of
/// their range fall back to their defaults, window sizes are raised to their minimum,
/// zero intervals fall back to their defaults, an out-of-range sidebar width falls back
/// to its default; every other setting is kept.
pub open spec fn validated_config(c: AppConfig) -> AppConfig {
    AppConfig {
        max_log_entries: within_or(
            c.max_log_entries as int,
            MIN_LOG_ENTRIES_LIMIT as int,
            MAX_LOG_ENTRIES_LIMIT as int,
            DEFAULT_MAX_LOG_ENTRIES as int,
        ) as usize,
        search_debounce_ms: nonzero_or(c.search_debounce_ms, DEFAULT_SEARCH_DEBOUNCE_MS),
        live_batch_interval_ms: nonzero_or(c.live_batch_interval_ms, DEFAULT_LIVE_BATCH_INTERVAL_MS),
        window_width: at_least(c.window_width, MIN_WINDOW_WIDTH),
        window_height: at_least(c.window_height, MIN_WINDOW_HEIGHT),
        window_maximized: c.window_maximized,
        sidebar_width: within_or(
            c.sidebar_width as int,
            MIN_SIDEBAR_WIDTH as int,
            MAX_SIDEBAR_WIDTH as int,
            DEFAULT_SIDEBAR_WIDTH as int,
        ) as i32,
        show_debug_logs: c.show_debug_logs,
        auto_scroll: c.auto_scroll,
        export_directory: c.export_directory,
        color_scheme: c.color_scheme,
        journal_boot_limit: within_or(
            c.journal_boot_limit as int,
            MIN_JOURNAL_BOOT_LIMIT as int,
            MAX_JOURNAL_BOOT_LIMIT as int,
            DEFAULT_JOURNAL_BOOT_LIMIT as int,
        ) as usize,
    }
}

/// Every setting lies in the range that `validated` enforces.
pub open spec fn config_in_range(c: AppConfig) -> bool {
    &&& MIN_LOG_ENTRIES_LIMIT <= c.max_log_entries <= MAX_LOG_ENTRIES_LIMIT
    &&& MIN_JOURNAL_BOOT_LIMIT <= c.journal_boot_limit <= MAX_JOURNAL_BOOT_LIMIT
    &&& c.window_width >= MIN_WINDOW_WIDTH
    &&& c.window_height >= MIN_WINDOW_HEIGHT
    &&& c.search_debounce_ms > 0
    &&& c.live_batch_interval_ms > 0
    &&& MIN_SIDEBAR_WIDTH <= c.sidebar_width <= MAX_SIDEBAR_WIDTH
}

impl Default for AppConfig {
    fn default() -> (c: Self)
        ensures
            c == default_config(),
    {
        AppConfig {
            max_log_entries: DEFAULT_MAX_LOG_ENTRIES,
            search_debounce_ms: DEFAULT_SEARCH_DEBOUNCE_MS,
            live_batch_interval_ms: DEFAULT_LIVE_BATCH_INTERVAL_MS,
            window_width: DEFAULT_WINDOW_WIDTH,
            window_height: DEFAULT_WINDOW_HEIGHT,
            window_maximized: false,
            sidebar_width: DEFAULT_SIDEBAR_WIDTH,
            show_debug_logs: false,
            auto_scroll: true,
            export_directory: None,
            color_scheme: ColorScheme::Default,
            journal_boot_limit: DEFAULT_JOURNAL_BOOT_LIMIT,
        }
    }
}

impl AppConfig {
    /// Repairs the settings that lie out of range (see `validated_config`).
    pub fn validated(self) -> (res: AppConfig)
        ensures
            res == validated_config(self),
    {
        let mut c = self;
        if c.max_log_entries < MIN_LOG_ENTRIES_LIMIT || c.max_log_entries > MAX_LOG_ENTRIES_LIMIT {
            c.max_log_entries = DEFAULT_MAX_LOG_ENTRIES;
        }
        if c.journal_boot_limit < MIN_JOURNAL_BOOT_LIMIT || c.journal_boot_limit
            > MAX_JOURNAL_BOOT_LIMIT {
            c.journal_boot_limit = DEFAULT_JOURNAL_BOOT_LIMIT;
        }
        if c.window_width < MIN_WINDOW_WIDTH {
            c.window_width = MIN_WINDOW_WIDTH;
        }
        if c.window_height < MIN_WINDOW_HEIGHT {
            c.window_height = MIN_WINDOW_HEIGHT;
        }
        if c.search_debounce_ms == 0 {
            c.search_debounce_ms = DEFAULT_SEARCH_DEBOUNCE_MS;
        }
        if c.live_batch_interval_ms == 0 {
            c.live_batch_interval_ms = DEFAULT_LIVE_BATCH_INTERVAL_MS;
        }
        if c.sidebar_width < MIN_SIDEBAR_WIDTH || c.sidebar_width > MAX_SIDEBAR_WIDTH {
            c.sidebar_width = DEFAULT_SIDEBAR_WIDTH;
        }
        c
    }
}

/// Validation brings every setting into range.
pub proof fn lemma_validated_in_range(c: AppConfig)
    ensures
        config_in_range(validated_config(c)),
{
}

/// Validating twice changes nothing more than validating once.
pub proof fn lemma_validated_idempotent(c: AppConfig)
    ensures
        validated_config(validated_config(c)) == validated_config(c),
{
}

/// A configuration already in range is left exactly as it is.
pub proof fn lemma_validated_keeps_valid(c: AppConfig)
    requires
        config_in_range(c),
    ensures
        validated_config(c) == c,
{
}

/// The default settings are in range.
pub proof fn lemma_default_in_range()
    ensures
        config_in_range(default_config()),
        validated_config(default_config()) == default_config(),
{
}

} // verus!
