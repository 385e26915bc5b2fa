use system_logs_diagnostic::models::filter::FilterState;
use system_logs_diagnostic::models::log_entry::{LogEntry, Severity, Tags};

fn entry(seq: u64, process: &str, message: &str, unit: Option<&str>) -> LogEntry {
    LogEntry::new_with_seq(
        seq,
        1_700_000_000_000_000,
        6,
        process.to_string(),
        Some(42),
        unit.map(|u| u.to_string()),
        Some("journal".to_string()),
        Some("host-A".to_string()),
        Some("/usr/bin/app".to_string()),
        message.to_string(),
        Severity::Info,
        Tags::new(),
    )
}

#[test]
fn severity_from_priority_maps_syslog_levels() {
    let expected = [
        Severity::Critical,
        Severity::Critical,
        Severity::Critical,
        Severity::Error,
        Severity::Warning,
        Severity::Info,
        Severity::Info,
        Severity::Debug,
        Severity::Debug,
    ];
    for (p, s) in expected.iter().enumerate() {
        assert_eq!(Severity::from_priority(p as u8), *s);
    }
    assert_eq!(Severity::from_priority(255), Severity::Debug);
}

#[test]
fn severity_priority_round_trip() {
    for s in [Severity::Critical, Severity::Error, Severity::Warning, Severity::Info, Severity::Debug] {
        assert_eq!(Severity::from_priority(s.priority_value()), s);
    }
    assert_eq!(Severity::Critical.priority_value(), 2);
    assert_eq!(Severity::Debug.priority_value(), 7);
}

#[test]
fn severity_names_and_classes() {
    assert_eq!(Severity::Warning.to_string(), "warning");
    assert_eq!(Severity::Critical.css_class(), "severity-critical");
    assert_eq!(Severity::Info.icon_name(), "emblem-ok-symbolic");
    assert_eq!(Severity::Debug.icon_name(), "system-run-symbolic");
    assert_eq!(Severity::Error.as_str(), "error");
}

#[test]
fn new_entry_keeps_lowercase_copies() {
    let e = entry(7, "NetworkManager", "Link UP on eth0", None);
    assert_eq!(e.seq_id, 7);
    assert_eq!(e.process_lower(), "networkmanager");
    assert_eq!(e.message_lower(), "link up on eth0");
}

#[test]
fn matches_text_is_case_insensitive_over_fields() {
    let e = entry(1, "sshd", "Accepted publickey", Some("ssh.service"));
    assert!(e.matches_text("ACCEPTED"));
    assert!(e.matches_text("SSH.SERV"));
    assert!(e.matches_text("host-a"));
    assert!(e.matches_text("/usr/bin"));
    assert!(!e.matches_text("kernel"));
    assert!(e.matches_text(""));
}

#[test]
fn search_bytes_match_finds_lowercase_needle() {
    let e = entry(1, "Kernel", "USB device attached", None);
    assert!(e.search_bytes_match(b"usb device"));
    assert!(e.search_bytes_match(b"kernel"));
    assert!(!e.search_bytes_match(b"USB"));
    assert!(!e.search_bytes_match(b"ssh.service"));
}

#[test]
fn cloned_entry_is_equal_field_by_field() {
    let e = entry(3, "cron", "job ran", Some("cron.service"));
    let c = e.clone();
    assert_eq!(c.seq_id, e.seq_id);
    assert_eq!(c.process, e.process);
    assert_eq!(c.systemd_unit, e.systemd_unit);
    assert_eq!(c.process_lower(), "cron");
}

#[test]
fn default_filter_is_empty() {
    let f = FilterState::default();
    assert!(f.is_empty());
    let mut g = FilterState::default();
    g.process = Some("ssh".to_string());
    assert!(!g.is_empty());
}

#[test]
fn tags_keep_their_order() {
    let mut t = Tags::new();
    t.push("systemd".to_string());
    t.push("alert".to_string());
    assert_eq!(t.to_vec(), vec!["systemd".to_string(), "alert".to_string()]);
    let many = Tags::from_vec((0..6).map(|i| format!("t{}", i)).collect());
    assert_eq!(many.to_vec().len(), 6);
    assert_eq!(many.to_vec()[5], "t5");
    let mut e = entry(9, "p", "m", None);
    e.tags = Tags::from_vec(vec!["a".to_string(), "b".to_string()]);
    assert_eq!(e.clone().tags.to_vec(), vec!["a".to_string(), "b".to_string()]);
}
