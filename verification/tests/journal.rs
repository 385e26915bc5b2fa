use system_logs_diagnostic::clock::{current_micros, micros_of_offset, EARLIEST_MICROS, LATEST_MICROS};
use system_logs_diagnostic::journal::live::LiveStreamHandle;
use system_logs_diagnostic::journal::parser::{entry_from_fields, parse_entry, JournalFields};
use system_logs_diagnostic::journal::reader::{
    boot_entry, check_journalctl_available, journal_query_args, journalctl_missing_message, journalctl_path,
};
use system_logs_diagnostic::journal::stream::{should_flush, StreamBatcher};
use system_logs_diagnostic::models::log_entry::{LogEntry, Severity, Tags};

fn fields(message: Option<&str>) -> JournalFields {
    JournalFields {
        message: message.map(|s| s.to_string()),
        priority: None,
        realtime_timestamp: None,
        comm: None,
        syslog_identifier: None,
        systemd_unit: None,
        pid: None,
        transport: None,
        hostname: None,
        exe: None,
    }
}

fn plain(seq: u64) -> LogEntry {
    LogEntry::new_with_seq(seq, 0, 6, "p".to_string(), None, None, None, None, None, "m".to_string(), Severity::Info, Tags::new())
}

#[test]
fn record_without_message_gives_nothing() {
    assert!(entry_from_fields(fields(None), 1, 0).is_none());
    assert!(parse_entry(fields(None), 1).is_none());
}

#[test]
fn record_fields_become_entry() {
    let mut f = fields(Some("Started Session 3"));
    f.priority = Some("3".to_string());
    f.realtime_timestamp = Some("1700000000123456".to_string());
    f.comm = Some("systemd".to_string());
    f.syslog_identifier = Some("ignored".to_string());
    f.systemd_unit = Some("session-3.scope".to_string());
    f.pid = Some("1".to_string());
    f.transport = Some("journal".to_string());
    f.hostname = Some("box".to_string());
    f.exe = Some("/usr/lib/systemd/systemd".to_string());
    let e = entry_from_fields(f, 9, 5).unwrap();
    assert_eq!(e.seq_id, 9);
    assert_eq!(e.timestamp, 1_700_000_000_123_456);
    assert_eq!(e.priority, 3);
    assert_eq!(e.severity, Severity::Error);
    assert_eq!(e.process, "systemd");
    assert_eq!(e.pid, Some(1));
    assert_eq!(e.systemd_unit.as_deref(), Some("session-3.scope"));
    assert_eq!(e.transport.as_deref(), Some("journal"));
    assert_eq!(e.hostname.as_deref(), Some("box"));
    assert_eq!(e.executable.as_deref(), Some("/usr/lib/systemd/systemd"));
    assert_eq!(e.message, "Started Session 3");
    assert_eq!(e.tags.to_vec(), vec!["systemd".to_string(), "alert".to_string()]);
}

#[test]
fn record_defaults_apply() {
    let mut f = fields(Some("hello"));
    f.priority = Some("high".to_string());
    f.pid = Some("-4".to_string());
    f.syslog_identifier = Some("tool".to_string());
    let e = entry_from_fields(f, 2, 77).unwrap();
    assert_eq!(e.priority, 6);
    assert_eq!(e.severity, Severity::Info);
    assert_eq!(e.timestamp, 0);
    assert_eq!(e.process, "tool");
    assert_eq!(e.pid, None);
    assert!(e.tags.to_vec().is_empty());
    let e2 = entry_from_fields(fields(Some("x")), 3, 0).unwrap();
    assert_eq!(e2.process, "unknown");
}

#[test]
fn unrepresentable_stamp_falls_back() {
    let mut f = fields(Some("late"));
    f.realtime_timestamp = Some("9223372036854775807".to_string());
    let e = entry_from_fields(f, 4, 123).unwrap();
    assert_eq!(e.timestamp, 123);
    let mut g = fields(Some("plus"));
    g.realtime_timestamp = Some("+42".to_string());
    g.priority = Some("+2".to_string());
    let e2 = parse_entry(g, 5).unwrap();
    assert_eq!(e2.timestamp, 42);
    assert_eq!(e2.priority, 2);
    assert_eq!(e2.severity, Severity::Critical);
}

#[test]
fn journalctl_is_looked_up_in_order() {
    assert_eq!(journalctl_path(&[true, true, true]), Some("/usr/bin/journalctl"));
    assert_eq!(journalctl_path(&[false, true, true]), Some("/bin/journalctl"));
    assert_eq!(journalctl_path(&[false, false, true]), Some("journalctl"));
    assert_eq!(journalctl_path(&[false, false, false]), None);
    assert!(check_journalctl_available(&[false, true, false]));
    assert!(!check_journalctl_available(&[false, false, false]));
    assert_eq!(journalctl_missing_message(), "journalctl not found. This application requires systemd.");
}

#[test]
fn query_args_for_boots() {
    assert_eq!(journal_query_args(0, 5000), vec!["-b", "0", "-n", "5000", "-o", "json", "--no-pager"]);
    assert_eq!(journal_query_args(-2, 10), vec!["-b", "-2", "-n", "10", "-o", "json", "--no-pager"]);
}

#[test]
fn boot_list_lines() {
    assert_eq!(
        boot_entry(Some(-1), Some("Mon 2024-01-01".to_string()), Some("abc".to_string())),
        Some((-1, "Mon 2024-01-01".to_string()))
    );
    assert_eq!(boot_entry(Some(0), None, Some("abc".to_string())), Some((0, "abc".to_string())));
    assert_eq!(boot_entry(None, Some("x".to_string()), None), None);
    assert_eq!(boot_entry(Some(3), None, None), None);
    assert_eq!(boot_entry(Some(4_294_967_297), Some("t".to_string()), None), Some((1, "t".to_string())));
}

#[test]
fn flush_is_due_when_full_or_late() {
    assert!(!should_flush(99, 499));
    assert!(should_flush(100, 0));
    assert!(should_flush(1, 500));
}

#[test]
fn batcher_keeps_every_entry_in_order() {
    let mut b = StreamBatcher::new();
    let mut handed: Vec<u64> = Vec::new();
    for i in 0..250u64 {
        let parsed = if i % 50 == 7 { None } else { Some(plain(i)) };
        if let Some(batch) = b.accept(parsed, 0) {
            assert!(batch.len() <= 100);
            handed.extend(batch.iter().map(|e| e.seq_id));
        }
    }
    if let Some(rest) = b.finish(true) {
        handed.extend(rest.iter().map(|e| e.seq_id));
    }
    let expected: Vec<u64> = (0..250u64).filter(|i| i % 50 != 7).collect();
    assert_eq!(handed, expected);
}

#[test]
fn batcher_flushes_on_interval_and_stops_cleanly() {
    let mut b = StreamBatcher::new();
    assert!(b.accept(Some(plain(1)), 10).is_none());
    let out = b.accept(None, 600).unwrap();
    assert_eq!(out.len(), 1);
    assert!(b.accept(None, 600).is_none());
    assert!(b.accept(Some(plain(2)), 0).is_none());
    assert!(b.finish(false).is_none());
}

#[test]
fn live_handle_stops() {
    let h = LiveStreamHandle::new();
    assert!(h.is_running());
    let flag = h.flag();
    h.stop();
    assert!(!h.is_running());
    assert!(!flag.load(std::sync::atomic::Ordering::Acquire));
}

#[test]
fn unreadable_stamp_is_stamped_now() {
    let before = std::time::SystemTime::now()
        .duration_since(std::time::UNIX_EPOCH)
        .unwrap()
        .as_micros() as i64;
    let mut f = fields(Some("late"));
    f.realtime_timestamp = Some("-9223372036854775808".to_string());
    let e = parse_entry(f, 6).unwrap();
    let after = std::time::SystemTime::now()
        .duration_since(std::time::UNIX_EPOCH)
        .unwrap()
        .as_micros() as i64;
    assert!(before <= e.timestamp && e.timestamp <= after);
}

#[test]
fn stamps_at_the_edges_of_chrono_range() {
    for (stamp, kept) in [
        (LATEST_MICROS, true),
        (LATEST_MICROS + 1, false),
        (EARLIEST_MICROS, true),
        (EARLIEST_MICROS - 1, false),
    ] {
        let mut f = fields(Some("edge"));
        f.realtime_timestamp = Some(stamp.to_string());
        let e = entry_from_fields(f, 1, 7).unwrap();
        assert_eq!(e.timestamp == stamp, kept);
        if !kept {
            assert_eq!(e.timestamp, 7);
        }
    }
}

#[test]
fn clock_offsets_become_stamps() {
    assert_eq!(micros_of_offset(Ok(5)), 5);
    assert_eq!(micros_of_offset(Err(5)), -5);
    assert_eq!(micros_of_offset(Ok(u128::MAX)), LATEST_MICROS);
    assert_eq!(micros_of_offset(Err(u128::MAX)), EARLIEST_MICROS);
    let t = current_micros();
    assert!(t > 1_600_000_000_000_000);
}
