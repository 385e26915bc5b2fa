use std::collections::HashSet;
use std::path::PathBuf;
use system_logs_diagnostic::models::filter::FilterState;
use system_logs_diagnostic::models::log_entry::{LogEntry, Severity, Tags};
use system_logs_diagnostic::processing::cache::LogCache;
use system_logs_diagnostic::processing::debounce::{settled_after, Debouncer};
use system_logs_diagnostic::processing::pipeline::{apply_filter, lowered_field_contains, matches_section_of, query_passes};
use system_logs_diagnostic::processing::search::{filter_by_seq_ids, next_str_prefix, plan_query, search_document};
use system_logs_diagnostic::processing::sort::{apply_sort, SortKey};
use system_logs_diagnostic::processing::view::{live_batch_action, query_is_blank, refresh_view, LiveBatchAction};
use system_logs_diagnostic::processing::watch::{watch_events_for, FsChange, WatchEvent};
use system_logs_diagnostic::ui::navigation::SidebarSection;

fn log(seq: u64, ts: i64, prio: u8, process: &str, unit: Option<&str>, transport: Option<&str>, message: &str) -> LogEntry {
    LogEntry::new_with_seq(
        seq,
        ts,
        prio,
        process.to_string(),
        Some(seq as u32),
        unit.map(|s| s.to_string()),
        transport.map(|s| s.to_string()),
        Some("host".to_string()),
        None,
        message.to_string(),
        Severity::from_priority(prio),
        Tags::new(),
    )
}

fn ids(v: &[LogEntry]) -> Vec<u64> {
    v.iter().map(|e| e.seq_id).collect()
}

#[test]
fn cache_evicts_oldest_at_capacity() {
    let mut c = LogCache::with_capacity(3);
    for i in 0..5 {
        c.push(log(i, 0, 6, "p", None, None, "m"));
    }
    assert_eq!(c.len(), 3);
    assert_eq!(ids(&c.all()), vec![2, 3, 4]);
}

#[test]
fn cache_batch_keeps_most_recent() {
    let mut c = LogCache::with_capacity(4);
    c.push(log(100, 0, 6, "p", None, None, "m"));
    c.push_batch((0..6).map(|i| log(i, 0, 6, "p", None, None, "m")).collect());
    assert_eq!(ids(&c.all()), vec![2, 3, 4, 5]);
    assert_eq!(ids(&c.snapshot_recent(2)), vec![4, 5]);
    assert_eq!(ids(&c.snapshot_recent(10)), vec![2, 3, 4, 5]);
    assert_eq!(c.snapshot_recent(0).len(), 0);
}

#[test]
fn cache_replace_and_clear() {
    let mut c = LogCache::with_capacity(2);
    c.replace((0..5).map(|i| log(i, 0, 6, "p", None, None, "m")).collect());
    assert_eq!(ids(&c.all()), vec![3, 4]);
    c.push(log(9, 0, 6, "p", None, None, "m"));
    assert_eq!(ids(&c.all()), vec![4, 9]);
    let mut roomy = LogCache::with_capacity(10);
    roomy.replace((0..3).map(|i| log(i, 0, 6, "p", None, None, "m")).collect());
    assert_eq!(ids(&roomy.all()), vec![0, 1, 2]);
    let mut none = LogCache::with_capacity(0);
    none.replace((0..3).map(|i| log(i, 0, 6, "p", None, None, "m")).collect());
    assert!(none.is_empty());
    c.clear();
    assert!(c.is_empty());
    let d = LogCache::default();
    assert!(d.is_empty());
}

#[test]
fn cache_of_zero_capacity_holds_last_entry() {
    let mut c = LogCache::with_capacity(0);
    c.push(log(1, 0, 6, "p", None, None, "m"));
    c.push(log(2, 0, 6, "p", None, None, "m"));
    assert_eq!(ids(&c.all()), vec![2]);
}

#[test]
fn next_prefix_bumps_last_char() {
    assert_eq!(next_str_prefix("abc"), Some("abd".to_string()));
    assert_eq!(next_str_prefix("a\u{10FFFF}"), Some("b".to_string()));
    assert_eq!(next_str_prefix("x\u{D7FF}"), Some("y".to_string()));
    assert_eq!(next_str_prefix("\u{10FFFF}"), None);
    assert_eq!(next_str_prefix(""), None);
}

#[test]
fn plan_of_query() {
    assert!(plan_query("   ").is_none());
    assert!(plan_query("").is_none());
    let p = plan_query("  SSHD  Failed pw ").unwrap();
    assert_eq!(p.keyword.term, "sshd  failed pw");
    assert_eq!(p.keyword.prefix_end.as_deref(), Some("sshd  failed px"));
    assert!(p.keyword.fuzzy);
    let words: Vec<(&str, bool)> = p.words.iter().map(|w| (w.word.as_str(), w.fuzzy)).collect();
    assert_eq!(words, vec![("sshd", true), ("failed", true), ("pw", false)]);
    let q = plan_query("ABC").unwrap();
    assert!(!q.keyword.fuzzy);
    assert_eq!(q.keyword.term, "abc");
}

#[test]
fn hits_select_entries_in_cache_order() {
    let cache: Vec<LogEntry> = (0..6).map(|i| log(i, 0, 6, "p", None, None, "m")).collect();
    let hits: HashSet<u64> = [4u64, 1, 9].into_iter().collect();
    assert_eq!(ids(&filter_by_seq_ids(&hits, &cache)), vec![1, 4]);
}

#[test]
fn document_of_entry() {
    let e = log(5, 77, 4, "nginx", Some("nginx.service"), None, "slow");
    let d = search_document(&e);
    assert_eq!(d.seq_id, 5);
    assert_eq!(d.timestamp, 77);
    assert_eq!(d.priority, 4);
    assert_eq!(d.severity, "warning");
    assert_eq!(d.unit.as_deref(), Some("nginx.service"));
    assert_eq!(d.executable, None);
}

#[test]
fn sections_filter_entries() {
    let k = log(1, 0, 6, "KERNEL", None, None, "usb attached");
    let s = log(2, 0, 6, "sudo", Some("sudo.service"), Some("syslog"), "session opened");
    let n = log(3, 0, 3, "dhclient", Some("systemd-networkd.service"), Some("journal"), "DHCP lease");
    let d = log(4, 0, 6, "app", None, None, "Permission denied for user");
    assert!(matches_section_of(&k, SidebarSection::Kernel));
    assert!(matches_section_of(&k, SidebarSection::BootLogs));
    assert!(!matches_section_of(&s, SidebarSection::Kernel));
    assert!(matches_section_of(&s, SidebarSection::Security));
    assert!(matches_section_of(&d, SidebarSection::Security));
    assert!(matches_section_of(&s, SidebarSection::Services));
    assert!(matches_section_of(&s, SidebarSection::LiveLogs));
    assert!(matches_section_of(&n, SidebarSection::Networking));
    assert!(matches_section_of(&n, SidebarSection::BootLogs));
    assert!(matches_section_of(&n, SidebarSection::Critical));
    assert!(!matches_section_of(&k, SidebarSection::Critical));
    assert!(!matches_section_of(&k, SidebarSection::PowerAudit));
    assert!(matches_section_of(&k, SidebarSection::AllLogs));
}

#[test]
fn filter_applies_fields_and_query() {
    let logs = vec![
        log(1, 0, 3, "sshd", Some("ssh.service"), None, "Failed password"),
        log(2, 0, 6, "cron", Some("cron.service"), None, "job done"),
        log(3, 0, 3, "sshd", None, None, "Accepted key"),
    ];
    let mut f = FilterState::default();
    f.severity = Some(Severity::Error);
    assert_eq!(ids(&apply_filter(&logs, &f)), vec![1, 3]);
    f.unit = Some("SSH".to_string());
    assert_eq!(ids(&apply_filter(&logs, &f)), vec![1]);
    let mut g = FilterState::default();
    g.query = "ACCEPTED".to_string();
    assert_eq!(ids(&apply_filter(&logs, &g)), vec![3]);
    g.query = "^job".to_string();
    g.regex_mode = true;
    assert_eq!(ids(&apply_filter(&logs, &g)), vec![]);
    g.query = "cron job".to_string();
    assert_eq!(ids(&apply_filter(&logs, &g)), vec![2]);
    g.query = "[".to_string();
    assert_eq!(ids(&apply_filter(&logs, &g)), vec![]);
}

#[test]
fn sort_orders() {
    let mut logs = vec![
        log(1, 30, 6, "beta", Some("b.service"), None, "m"),
        log(2, 10, 2, "Alpha", None, None, "m"),
        log(3, 20, 4, "gamma", Some("a.service"), None, "m"),
    ];
    apply_sort(&mut logs, &SortKey::TimeNewest);
    assert_eq!(ids(&logs), vec![1, 3, 2]);
    apply_sort(&mut logs, &SortKey::TimeOldest);
    assert_eq!(ids(&logs), vec![2, 3, 1]);
    apply_sort(&mut logs, &SortKey::SeverityHighLow);
    assert_eq!(ids(&logs), vec![2, 3, 1]);
    apply_sort(&mut logs, &SortKey::ProcessAZ);
    assert_eq!(ids(&logs), vec![2, 1, 3]);
    apply_sort(&mut logs, &SortKey::UnitAZ);
    assert_eq!(ids(&logs), vec![3, 1, 2]);
    apply_sort(&mut logs, &SortKey::PidDescending);
    assert_eq!(ids(&logs), vec![3, 2, 1]);
}

#[test]
fn view_refresh_combines_search_filter_sort() {
    let logs = vec![
        log(1, 10, 3, "a", None, None, "m"),
        log(2, 30, 6, "b", None, None, "m"),
        log(3, 20, 3, "c", None, None, "m"),
        log(4, 40, 3, "d", None, None, "m"),
    ];
    let mut f = FilterState::default();
    f.severity = Some(Severity::Error);
    let hits: HashSet<u64> = [1u64, 2, 3].into_iter().collect();
    assert_eq!(ids(&refresh_view(&logs, &f, Some(&hits), SortKey::TimeNewest)), vec![3, 1]);
    assert_eq!(ids(&refresh_view(&logs, &f, None, SortKey::TimeOldest)), vec![1, 3, 4]);
}

#[test]
fn blank_queries() {
    assert!(query_is_blank(""));
    assert!(query_is_blank(" \t\n"));
    assert!(!query_is_blank(" a "));
}

#[test]
fn live_batches_call_for_actions() {
    assert_eq!(live_batch_action(true, false, SidebarSection::AllLogs, true, SortKey::TimeNewest), LiveBatchAction::Ignore);
    assert_eq!(live_batch_action(false, true, SidebarSection::AllLogs, true, SortKey::TimeNewest), LiveBatchAction::Ignore);
    assert_eq!(live_batch_action(false, false, SidebarSection::PowerAudit, true, SortKey::TimeNewest), LiveBatchAction::CacheOnly);
    assert_eq!(live_batch_action(false, false, SidebarSection::AllLogs, true, SortKey::TimeNewest), LiveBatchAction::RecentOnly);
    assert_eq!(live_batch_action(false, false, SidebarSection::Critical, true, SortKey::TimeNewest), LiveBatchAction::FullRefresh);
    assert_eq!(live_batch_action(false, false, SidebarSection::AllLogs, false, SortKey::TimeNewest), LiveBatchAction::FullRefresh);
    assert_eq!(live_batch_action(false, false, SidebarSection::AllLogs, true, SortKey::TimeOldest), LiveBatchAction::FullRefresh);
}

#[test]
fn debouncer_settles_only_after_trigger() {
    let mut d = Debouncer::new(0);
    assert!(!d.is_settled());
    d.trigger();
    assert!(d.is_settled());
    d.reset();
    assert!(!d.is_settled());
    let mut long = Debouncer::new(60_000);
    long.trigger();
    assert!(!long.is_settled());
    assert!(settled_after(true, 300, 300));
    assert!(!settled_after(true, 299, 300));
    assert!(!settled_after(false, 1000, 300));
}

#[test]
fn watch_events_follow_change_kind() {
    let paths = vec![PathBuf::from("/var/log/a"), PathBuf::from("/var/log/b")];
    let evs = watch_events_for(FsChange::Created, paths.clone());
    assert_eq!(evs.len(), 2);
    assert!(matches!(&evs[0], WatchEvent::LogFileCreated(p) if p == &PathBuf::from("/var/log/a")));
    assert!(matches!(&evs[1], WatchEvent::LogFileCreated(p) if p == &PathBuf::from("/var/log/b")));
    let evs = watch_events_for(FsChange::Removed, vec![PathBuf::from("/x")]);
    assert!(matches!(&evs[0], WatchEvent::LogFileRemoved(_)));
    let evs = watch_events_for(FsChange::Modified, vec![PathBuf::from("/x")]);
    assert!(matches!(&evs[0], WatchEvent::LogFileChanged(_)));
    assert!(watch_events_for(FsChange::Other, paths).is_empty());
}

#[test]
fn sort_keeps_order_of_ties() {
    let mut logs = vec![
        log(1, 50, 6, "a", None, None, "m"),
        log(2, 10, 3, "b", None, None, "m"),
        log(3, 40, 6, "c", None, None, "m"),
        log(4, 30, 3, "d", None, None, "m"),
        log(5, 20, 5, "e", None, None, "m"),
    ];
    apply_sort(&mut logs, &SortKey::SeverityHighLow);
    assert_eq!(ids(&logs), vec![2, 4, 1, 3, 5]);
    apply_sort(&mut logs, &SortKey::SeverityLowHigh);
    assert_eq!(ids(&logs), vec![1, 3, 5, 2, 4]);
}

#[test]
fn open_filter_keeps_everything() {
    let logs: Vec<LogEntry> = (0..4).map(|i| log(i, 0, (i * 2) as u8, "p", None, None, "m")).collect();
    assert_eq!(ids(&apply_filter(&logs, &FilterState::default())), vec![0, 1, 2, 3]);
}

#[test]
fn query_given_lowered_text_and_regex_outcome() {
    let e = log(1, 0, 6, "Sshd", Some("ssh.service"), None, "Accepted key");
    assert!(query_passes(&e, "", None));
    assert!(query_passes(&e, "", Some(false)));
    assert!(query_passes(&e, "accepted", None));
    assert!(!query_passes(&e, "ACCEPTED", None));
    assert!(query_passes(&e, "sshd", None));
    assert!(!query_passes(&e, "kernel", None));
    assert!(query_passes(&e, "kernel", Some(true)));
    assert!(!query_passes(&e, "accepted", Some(false)));
    assert!(lowered_field_contains(&Some("ssh.service".to_string()), "ssh"));
    assert!(!lowered_field_contains(&Some("ssh.service".to_string()), "cron"));
    assert!(!lowered_field_contains(&None, ""));
}
