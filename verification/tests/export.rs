use system_logs_diagnostic::export::{csv_escape, csv_record_text, csv_text};
use system_logs_diagnostic::models::log_entry::{LogEntry, Severity, Tags};

fn entry(process: &str, pid: Option<u32>, unit: Option<&str>, host: Option<&str>, message: &str) -> LogEntry {
    LogEntry::new_with_seq(
        1,
        0,
        3,
        process.to_string(),
        pid,
        unit.map(|s| s.to_string()),
        None,
        host.map(|s| s.to_string()),
        None,
        message.to_string(),
        Severity::Error,
        Tags::new(),
    )
}

#[test]
fn csv_escape_leaves_plain_fields() {
    assert_eq!(csv_escape("sshd"), "sshd");
    assert_eq!(csv_escape(""), "");
    assert_eq!(csv_escape("a b;c"), "a b;c");
}

#[test]
fn csv_escape_quotes_special_fields() {
    assert_eq!(csv_escape("a,b"), "\"a,b\"");
    assert_eq!(csv_escape("say \"hi\""), "\"say \"\"hi\"\"\"");
    assert_eq!(csv_escape("two\nlines"), "\"two\nlines\"");
}

#[test]
fn csv_text_of_no_entries_is_the_header() {
    assert_eq!(
        csv_text(&[]),
        "timestamp,priority,severity,process,pid,systemd_unit,hostname,message\n"
    );
}

#[test]
fn csv_text_renders_each_record() {
    let logs = vec![
        entry("sshd", Some(12), Some("ssh.service"), Some("box"), "said \"no\""),
        entry("a,b", None, None, None, "plain"),
    ];
    let text = csv_text(&logs);
    let expected = "timestamp,priority,severity,process,pid,systemd_unit,hostname,message\n\
1970-01-01T00:00:00+00:00,3,error,sshd,12,ssh.service,box,\"said \"\"no\"\"\"\n\
1970-01-01T00:00:00+00:00,3,error,\"a,b\",,,,\"plain\"\n";
    assert_eq!(text, expected);
}

fn read_field(f: &str) -> String {
    if f.len() >= 2 && f.starts_with('"') && f.ends_with('"') {
        f[1..f.len() - 1].replace("\"\"", "\"")
    } else {
        f.to_string()
    }
}

#[test]
fn escaped_fields_read_back() {
    for s in ["", "plain", "a,b", "\"", "\"\"", "x\"y\nz", "end\"", ",\""] {
        assert_eq!(read_field(&csv_escape(s)), s);
    }
}

#[test]
fn record_with_given_stamp() {
    let e = entry("cron", Some(7), None, Some("box"), "ran \"job\"");
    assert_eq!(csv_record_text(&e, "STAMP"), "STAMP,3,error,cron,7,,box,\"ran \"\"job\"\"\"\n");
}
