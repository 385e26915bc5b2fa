use system_logs_diagnostic::diagnostics::power_audit::{PowerAuditResult, PowerCycleEntry, PowerEventKind};
use system_logs_diagnostic::diagnostics::result::DiagnosticResult;
use system_logs_diagnostic::models::log_entry::{LogEntry, Severity, Tags};
use system_logs_diagnostic::processing::sort::SortKey;
use system_logs_diagnostic::ui::navigation::SidebarSection;
use system_logs_diagnostic::ui::presentation::{
    critical_focus_description, detail_or_na, message_row_class, pid_detail, power_clean_count,
    power_event_badge, power_status_badge, process_cell_text, score_text, severity_badge_text,
};
use system_logs_diagnostic::utils::colors::{priority_to_css_class, score_to_css_class, severity_to_css_class};

fn cycle(kind: PowerEventKind, unclean: bool) -> PowerCycleEntry {
    PowerCycleEntry {
        kind,
        user: "reboot".to_string(),
        terminal: "system".to_string(),
        timestamp: 0,
        raw_line: String::new(),
        is_unclean: unclean,
    }
}

#[test]
fn sidebar_sections_in_order() {
    let all = SidebarSection::all();
    assert_eq!(all.len(), 10);
    for (i, s) in all.iter().enumerate() {
        assert_eq!(SidebarSection::from_index(i as i32), *s);
    }
    assert_eq!(SidebarSection::from_index(-1), SidebarSection::AllLogs);
    assert_eq!(SidebarSection::from_index(10), SidebarSection::AllLogs);
    assert_eq!(SidebarSection::from_index(9), SidebarSection::PowerAudit);
    assert!(SidebarSection::PowerAudit.is_power_audit());
    assert!(SidebarSection::Critical.is_critical());
    assert!(!SidebarSection::Kernel.is_critical());
    assert_eq!(SidebarSection::Critical.label(), "Critical + Errors");
    assert_eq!(SidebarSection::Storage.icon_name(), "drive-harddisk-symbolic");
    assert_eq!(SidebarSection::default(), SidebarSection::AllLogs);
}

#[test]
fn sort_keys_and_labels() {
    let all = SortKey::all();
    assert_eq!(all.len(), 12);
    assert_eq!(all[0], SortKey::TimeNewest);
    assert_eq!(SortKey::default(), SortKey::TimeNewest);
    assert_eq!(SortKey::SeverityHighLow.label(), "Severity: High → Low");
    assert_eq!(SortKey::PidDescending.action_name(), "win.sort_pid_desc");
}

#[test]
fn css_classes_follow_severity_and_score() {
    assert_eq!(severity_to_css_class(&Severity::Warning), "severity-warning");
    assert_eq!(priority_to_css_class(0), "severity-critical");
    assert_eq!(priority_to_css_class(5), "severity-info");
    assert_eq!(score_to_css_class(30), "health-critical");
    assert_eq!(score_to_css_class(86), "health-ok");
}

#[test]
fn power_badges() {
    let b = power_event_badge(&cycle(PowerEventKind::Reboot, true));
    assert_eq!((b.icon, b.text, b.css_class), ("system-reboot-symbolic", "REBOOT (UNCLEAN)", "power-unclean"));
    let b = power_event_badge(&cycle(PowerEventKind::Reboot, false));
    assert_eq!(b.text, "REBOOT");
    let b = power_event_badge(&cycle(PowerEventKind::Shutdown, false));
    assert_eq!((b.icon, b.text, b.css_class), ("system-shutdown-symbolic", "SHUTDOWN", "power-shutdown"));
    let s = power_status_badge(&cycle(PowerEventKind::Reboot, true));
    assert_eq!(s.text, "Unclean — no preceding shutdown");
    let s = power_status_badge(&cycle(PowerEventKind::Reboot, false));
    assert_eq!((s.icon, s.text, s.css_class), ("emblem-ok-symbolic", "Clean", "power-clean"));
}

#[test]
fn entry_cells() {
    let mut e = LogEntry::new_with_seq(1, 0, 4, "sshd".to_string(), Some(812), None, None, None, None, "m".to_string(), Severity::Warning, Tags::new());
    assert_eq!(process_cell_text(&e), "sshd [812]");
    assert_eq!(severity_badge_text(e.severity), "WARNING");
    assert_eq!(message_row_class(e.severity), Some("row-warning"));
    assert_eq!(message_row_class(Severity::Info), None);
    e.pid = None;
    assert_eq!(process_cell_text(&e), "sshd");
    assert_eq!(pid_detail(None), "N/A");
    assert_eq!(pid_detail(Some(0)), "0");
    assert_eq!(detail_or_na(&None), "N/A");
    assert_eq!(detail_or_na(&Some("box".to_string())), "box");
}

#[test]
fn stats_texts() {
    assert_eq!(score_text(7), "7%");
    let mut r = DiagnosticResult::empty();
    r.critical_count = 2;
    r.error_count = 13;
    r.total_count = 120;
    assert_eq!(critical_focus_description(&r), "Critical: 2 | Errors: 13 | Total: 120");
    let mut a = PowerAuditResult::default();
    a.total_count = 5;
    a.unclean_count = 2;
    assert_eq!(power_clean_count(&a), 3);
    a.unclean_count = 9;
    assert_eq!(power_clean_count(&a), 0);
}
