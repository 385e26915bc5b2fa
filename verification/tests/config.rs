use system_logs_diagnostic::config::{AppConfig, ColorScheme};

#[test]
fn default_config_values() {
    let c = AppConfig::default();
    assert_eq!(c.max_log_entries, 100_000);
    assert_eq!(c.search_debounce_ms, 300);
    assert_eq!(c.live_batch_interval_ms, 500);
    assert_eq!(c.window_width, 1200);
    assert_eq!(c.window_height, 800);
    assert_eq!(c.sidebar_width, 220);
    assert_eq!(c.journal_boot_limit, 5000);
    assert!(c.auto_scroll);
    assert!(!c.window_maximized);
    assert_eq!(c.color_scheme, ColorScheme::Default);
    assert_eq!(c.export_directory, None);
}

#[test]
fn validated_repairs_out_of_range_settings() {
    let mut c = AppConfig::default();
    c.max_log_entries = 50;
    c.journal_boot_limit = 600_000;
    c.window_width = 100;
    c.window_height = -5;
    c.search_debounce_ms = 0;
    c.live_batch_interval_ms = 0;
    c.sidebar_width = 601;
    c.export_directory = Some("/tmp".to_string());
    c.color_scheme = ColorScheme::Dark;
    let v = c.validated();
    assert_eq!(v.max_log_entries, 100_000);
    assert_eq!(v.journal_boot_limit, 5000);
    assert_eq!(v.window_width, 640);
    assert_eq!(v.window_height, 480);
    assert_eq!(v.search_debounce_ms, 300);
    assert_eq!(v.live_batch_interval_ms, 500);
    assert_eq!(v.sidebar_width, 220);
    assert_eq!(v.export_directory, Some("/tmp".to_string()));
    assert_eq!(v.color_scheme, ColorScheme::Dark);
}

#[test]
fn validated_keeps_values_on_range_edges() {
    let mut c = AppConfig::default();
    c.max_log_entries = 100;
    c.journal_boot_limit = 500_000;
    c.window_width = 640;
    c.window_height = 480;
    c.sidebar_width = 100;
    c.search_debounce_ms = 1;
    let v = c.validated();
    assert_eq!(v.max_log_entries, 100);
    assert_eq!(v.journal_boot_limit, 500_000);
    assert_eq!(v.window_width, 640);
    assert_eq!(v.window_height, 480);
    assert_eq!(v.sidebar_width, 100);
    assert_eq!(v.search_debounce_ms, 1);
}

#[test]
fn validated_twice_is_validated_once() {
    let mut c = AppConfig::default();
    c.max_log_entries = 2_000_000;
    c.sidebar_width = 50;
    c.window_width = 10;
    let once = c.validated();
    let twice = once.clone().validated();
    assert_eq!(once.max_log_entries, twice.max_log_entries);
    assert_eq!(once.sidebar_width, twice.sidebar_width);
    assert_eq!(once.window_width, twice.window_width);
    assert_eq!(once.journal_boot_limit, twice.journal_boot_limit);
}

#[test]
fn color_scheme_default_is_default() {
    assert_eq!(ColorScheme::default(), ColorScheme::Default);
}
