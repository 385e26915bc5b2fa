use system_logs_diagnostic::diagnostics::analyzer::{analyze_with_scores, count_window, window_samples};
use system_logs_diagnostic::diagnostics::power_audit::{
    analyze_power_cycles, mark_unclean_shutdowns, parse_power_record, power_cycles_from_output,
    power_diagnostic_from_samples, power_diagnostic_from_score, power_entry_from_record, select_power_lines, PowerCycleEntry, PowerEventKind,
};
use system_logs_diagnostic::diagnostics::result::{aggregate_worst_case, DiagnosticResult, HealthStatus};
use system_logs_diagnostic::models::log_entry::{LogEntry, Severity, Tags};

const NOW: i64 = 1_700_000_000_000_000;
const HOUR: i64 = 3_600_000_000;

fn at(seq: u64, ts: i64, prio: u8) -> LogEntry {
    LogEntry::new_with_seq(seq, ts, prio, "p".to_string(), None, None, None, None, None, "m".to_string(), Severity::from_priority(prio), Tags::new())
}

fn result(score: u8, critical: usize, total: usize) -> DiagnosticResult {
    let mut r = DiagnosticResult::empty();
    r.title = format!("score {}", score);
    r.score = score;
    r.critical_count = critical;
    r.total_count = total;
    r.status = HealthStatus::from_score(score);
    r
}

#[test]
fn health_status_thresholds() {
    assert_eq!(HealthStatus::from_score(0), HealthStatus::Critical);
    assert_eq!(HealthStatus::from_score(30), HealthStatus::Critical);
    assert_eq!(HealthStatus::from_score(31), HealthStatus::Degraded);
    assert_eq!(HealthStatus::from_score(60), HealthStatus::Degraded);
    assert_eq!(HealthStatus::from_score(61), HealthStatus::Warning);
    assert_eq!(HealthStatus::from_score(85), HealthStatus::Warning);
    assert_eq!(HealthStatus::from_score(86), HealthStatus::Healthy);
    assert_eq!(HealthStatus::from_score(100), HealthStatus::Healthy);
    assert_eq!(HealthStatus::Degraded.css_class(), "health-degraded");
    assert_eq!(HealthStatus::Healthy.icon_name(), "emblem-ok-symbolic");
}

#[test]
fn empty_result_values() {
    let r = DiagnosticResult::empty();
    assert_eq!(r.title, "No Data Available");
    assert_eq!(r.description, "System diagnostics inactive due to empty log stream.");
    assert_eq!(r.score, 100);
    assert_eq!(r.total_count, 0);
    assert_eq!(r.status, HealthStatus::Healthy);
}

#[test]
fn worst_case_takes_lowest_score_and_sums_counts() {
    let rs = vec![result(90, 1, 10), result(40, 2, 5), result(40, 0, 1)];
    let w = aggregate_worst_case(&rs);
    assert_eq!(w.score, 40);
    assert_eq!(w.title, "score 40");
    assert_eq!(w.critical_count, 3);
    assert_eq!(w.total_count, 16);
    assert_eq!(w.status, HealthStatus::Degraded);
    let e = aggregate_worst_case(&[]);
    assert_eq!(e.title, "No Data Available");
}

#[test]
fn window_counts_by_severity() {
    let logs = vec![
        at(1, NOW - HOUR, 2),
        at(2, NOW - 30 * HOUR, 3),
        at(3, NOW - 2 * HOUR, 4),
        at(4, NOW + HOUR, 6),
        at(5, NOW, 7),
    ];
    let c = count_window(&logs, NOW, 86_400);
    assert_eq!((c.critical, c.error, c.warning, c.info, c.debug, c.total), (1, 0, 1, 0, 1, 3));
    let s = window_samples(&logs, NOW, 7_200);
    assert_eq!(s, vec![(3600, Severity::Critical), (7200, Severity::Warning), (0, Severity::Debug)]);
}

#[test]
fn analysis_reports_lower_score_and_count_status() {
    let logs = vec![at(1, NOW - HOUR, 3), at(2, NOW, 6)];
    let r = analyze_with_scores(&logs, NOW, 86_400, 90, 70);
    assert_eq!(r.score, 70);
    assert_eq!(r.status, HealthStatus::Degraded);
    assert_eq!(r.title, "Operational Errors Detected");
    assert_eq!(r.description, "Critical: 0 | Errors: 1 | Warnings: 0 | Info: 1 | Total: 2 | Health: 70% (short:90% / long:70%)");
    let empty = analyze_with_scores(&[], NOW, 86_400, 10, 10);
    assert_eq!(empty.title, "No Data Available");
}

#[test]
fn last_lines_are_selected_and_parsed() {
    let out: Vec<String> = vec![
        "reboot   system boot  6.8.0-45 Tue Oct  1 09:15   still running".to_string(),
        "".to_string(),
        "shutdown system down  6.8.0-45 Mon Sep 30 23:01 - 09:15  (10:13)".to_string(),
        "user     pts/0        :0       Mon Sep 30 20:00 - 22:00  (02:00)".to_string(),
        "  reboot system boot  6.8.0-45 Mon Sep 30 08:00   2023".to_string(),
        "wtmp begins Sun Sep  1 2024".to_string(),
    ];
    let sel = select_power_lines(&out);
    assert_eq!(sel.len(), 3);
    let r = parse_power_record(&out[4], 2024).unwrap();
    assert_eq!(r.kind, PowerEventKind::Reboot);
    assert_eq!(r.user, "reboot");
    assert_eq!(r.terminal, "system");
    assert_eq!((r.civil.year, r.civil.month, r.civil.day, r.civil.hour, r.civil.minute), (2023, 9, 30, 8, 0));
    let e = power_entry_from_record(&out[4], r, None);
    assert_eq!(e.timestamp, 1_696_060_800_000_000);
    assert!(!e.is_unclean);
    assert!(parse_power_record(&out[3], 2024).is_none());
    let s = parse_power_record(&out[2], 2024).unwrap();
    assert_eq!(s.kind, PowerEventKind::Shutdown);
    assert_eq!((s.civil.year, s.civil.month, s.civil.day, s.civil.hour, s.civil.minute), (2024, 9, 30, 23, 1));
}

#[test]
fn bad_dates_fall_back() {
    let r = parse_power_record("reboot system boot 6.8 Fri Feb 30 25:70 2023", 2024).unwrap();
    assert_eq!((r.civil.year, r.civil.month, r.civil.day, r.civil.hour, r.civil.minute), (2024, 1, 1, 0, 0));
    let short = parse_power_record("shutdown", 2022).unwrap();
    assert_eq!(short.terminal, "system");
    assert_eq!((short.civil.year, short.civil.month, short.civil.day), (2022, 1, 1));
}

fn cycle(kind: PowerEventKind, raw: &str) -> PowerCycleEntry {
    PowerCycleEntry {
        kind,
        user: kind.as_str().to_lowercase(),
        terminal: "system".to_string(),
        timestamp: 0,
        raw_line: raw.to_string(),
        is_unclean: false,
    }
}

#[test]
fn reboot_without_preceding_shutdown_is_unclean() {
    let lines: Vec<String> = vec![
        "reboot system boot A".to_string(),
        "shutdown system down B".to_string(),
        "reboot system boot C".to_string(),
        "reboot system boot D".to_string(),
    ];
    let mut entries: Vec<PowerCycleEntry> = vec![
        cycle(PowerEventKind::Reboot, &lines[0]),
        cycle(PowerEventKind::Shutdown, &lines[1]),
        cycle(PowerEventKind::Reboot, &lines[2]),
        cycle(PowerEventKind::Reboot, &lines[3]),
    ];
    mark_unclean_shutdowns(&mut entries, &lines);
    let flags: Vec<bool> = entries.iter().map(|e| e.is_unclean).collect();
    assert_eq!(flags, vec![false, false, false, true]);
    let audit = analyze_power_cycles(&entries);
    assert_eq!(audit.total_count, 4);
    assert_eq!(audit.unclean_count, 1);
    assert_eq!(audit.title, "Unclean Shutdown Detected (1)");
    assert_eq!(
        audit.description,
        "Power Audit detected 1 unclean shutdown event(s) out of 4 total power cycles."
    );
    let d = power_diagnostic_from_score(&audit, 20);
    assert_eq!(d.critical_count, 1);
    assert_eq!(d.info_count, 3);
    assert_eq!(d.status, HealthStatus::Critical);
}

#[test]
fn last_line_reboot_after_reboot_is_unclean() {
    let out: Vec<String> = vec![
        "reboot   system boot  6.8.0 Tue Oct  1 09:15 2024".to_string(),
        "reboot   system boot  6.8.0 Mon Sep 30 08:00 2024".to_string(),
    ];
    let cycles = power_cycles_from_output(&out, 2024);
    assert_eq!(cycles.len(), 2);
    assert!(!cycles[0].is_unclean);
    assert!(cycles[1].is_unclean);
}

#[test]
fn audit_of_nothing() {
    let audit = analyze_power_cycles(&vec![]);
    assert_eq!(audit.total_count, 0);
    assert_eq!(audit.title, "No Power Cycle Data");
    let d = power_diagnostic_from_score(&audit, 50);
    assert_eq!(d.title, "No Data Available");
}

#[test]
fn power_result_needs_samples_in_window() {
    let lines: Vec<String> = vec!["reboot system boot A".to_string()];
    let entries = vec![cycle(PowerEventKind::Reboot, &lines[0])];
    let audit = analyze_power_cycles(&entries);
    let none = power_diagnostic_from_samples(&audit, &vec![], 40);
    assert_eq!(none.title, "No Data Available");
    let some = power_diagnostic_from_samples(&audit, &vec![(10, false)], 40);
    assert_eq!(some.score, 40);
    assert_eq!(some.total_count, 1);
    assert_eq!(some.status, HealthStatus::Degraded);
}
