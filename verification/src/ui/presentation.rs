//! The texts, icons and style classes that the views show for entries and results.
use crate::diagnostics::power_audit::{PowerAuditResult, PowerCycleEntry, PowerEventKind};
use crate::diagnostics::result::DiagnosticResult;
use crate::models::log_entry::{severity_name, LogEntry, Severity};
use crate::text::{append_text, ascii_upper, decimal, push_decimal, string_from_chars, to_ascii_uppercase};
use vstd::prelude::*;

verus! {

/// How a badge looks: its icon, its text and its style class.
pub struct Badge {
    pub icon: &'static str,
    pub text: &'static str,
    pub css_class: &'static str,
}

/// The badge of a power event: a reboot, marked when it was unclean, or a shutdown.
pub open spec fn power_event_badge_spec(kind: PowerEventKind, unclean: bool) -> (Seq<char>, Seq<char>, Seq<char>) {
    match kind {
        PowerEventKind::Reboot => if unclean {
            ("system-reboot-symbolic"@, "REBOOT (UNCLEAN)"@, "power-unclean"@)
        } else {
            ("system-reboot-symbolic"@, "REBOOT"@, "power-reboot"@)
        },
        PowerEventKind::Shutdown => ("system-shutdown-symbolic"@, "SHUTDOWN"@, "power-shutdown"@),
    }
}

/// The badge of the event column of the power audit.
pub fn power_event_badge(e: &PowerCycleEntry) -> (b: Badge)
    ensures
        (b.icon@, b.text@, b.css_class@) == power_event_badge_spec(e.kind, e.is_unclean),
{
    match e.kind {
        PowerEventKind::Reboot => if e.is_unclean {
            Badge { icon: "system-reboot-symbolic", text: "REBOOT (UNCLEAN)", css_class: "power-unclean" }
        } else {
            Badge { icon: "system-reboot-symbolic", text: "REBOOT", css_class: "power-reboot" }
        },
        PowerEventKind::Shutdown => Badge {
            icon: "system-shutdown-symbolic",
            text: "SHUTDOWN",
            css_class: "power-shutdown",
        },
    }
}

/// The badge of the status column of the power audit: unclean or clean.
pub open spec fn power_status_badge_spec(unclean: bool) -> (Seq<char>, Seq<char>, Seq<char>) {
    if unclean {
        ("dialog-error-symbolic"@, "Unclean — no preceding shutdown"@, "power-unclean"@)
    } else {
        ("emblem-ok-symbolic"@, "Clean"@, "power-clean"@)
    }
}

/// The badge of the status column of the power audit.
pub fn power_status_badge(e: &PowerCycleEntry) -> (b: Badge)
    ensures
        (b.icon@, b.text@, b.css_class@) == power_status_badge_spec(e.is_unclean),
{
    if e.is_unclean {
        Badge {
            icon: "dialog-error-symbolic",
            text: "Unclean — no preceding shutdown",
            css_class: "power-unclean",
        }
    } else {
        Badge { icon: "emblem-ok-symbolic", text: "Clean", css_class: "power-clean" }
    }
}

/// The severity as the severity column prints it: its name in upper case.
pub fn severity_badge_text(s: Severity) -> (res: String)
    ensures
        res@ == ascii_upper(severity_name(s)),
{
    to_ascii_uppercase(s.as_str())
}

/// The style class that marks the message of a critical, error or warning entry.
pub open spec fn message_row_class_spec(s: Severity) -> Option<Seq<char>> {
    match s {
        Severity::Critical => Some("row-critical"@),
        Severity::Error => Some("row-error"@),
        Severity::Warning => Some("row-warning"@),
        _ => None,
    }
}

/// The style class of the message cell of an entry, if it has one.
pub fn message_row_class(s: Severity) -> (res: Option<&'static str>)
    ensures
        match message_row_class_spec(s) {
            Some(c) => res matches Some(r) && r@ == c,
            None => res is None,
        },
{
    match s {
        Severity::Critical => Some("row-critical"),
        Severity::Error => Some("row-error"),
        Severity::Warning => Some("row-warning"),
        _ => None,
    }
}

/// The process cell: the process name, followed by its pid in brackets when it has one.
pub open spec fn process_cell_spec(process: Seq<char>, pid: Option<u32>) -> Seq<char> {
    match pid {
        Some(p) => process + " ["@ + decimal(p as nat) + "]"@,
        None => process,
    }
}

/// The text of the process cell of an entry.
pub fn process_cell_text(log: &LogEntry) -> (res: String)
    ensures
        res@ == process_cell_spec(log.process@, log.pid),
{
    let mut out: Vec<char> = Vec::new();
    append_text(&mut out, log.process.as_str());
    match log.pid {
        Some(p) => {
            let ghost a = out@;
            append_text(&mut out, " [");
            let ghost b = out@;
            push_decimal(p as u64, &mut out);
            let ghost c = out@;
            append_text(&mut out, "]");
            assert(out@ == log.process@ + " ["@ + decimal(p as nat) + "]"@);
        },
        None => {},
    }
    string_from_chars(out.as_slice())
}

/// An optional detail as the detail panel shows it: the value, or `N/A`.
pub fn detail_or_na(o: &Option<String>) -> (res: String)
    ensures
        res@ == match o {
            Some(s) => s@,
            None => "N/A"@,
        },
{
    match o {
        Some(s) => s.clone(),
        None => String::from_str("N/A"),
    }
}

/// The pid as the detail panel shows it: its decimal digits, or `N/A`.
pub fn pid_detail(pid: Option<u32>) -> (res: String)
    ensures
        res@ == match pid {
            Some(p) => decimal(p as nat),
            None => "N/A"@,
        },
{
    match pid {
        Some(p) => {
            let mut out: Vec<char> = Vec::new();
            push_decimal(p as u64, &mut out);
            assert(out@ == Seq::<char>::empty() + decimal(p as nat));
            string_from_chars(out.as_slice())
        },
        None => String::from_str("N/A"),
    }
}

/// The health score as the statistics bar shows it: the number followed by `%`.
pub fn score_text(score: u8) -> (res: String)
    ensures
        res@ == decimal(score as nat) + "%"@,
{
    let mut out: Vec<char> = Vec::new();
    push_decimal(score as u64, &mut out);
    append_text(&mut out, "%");
    assert(out@ == Seq::<char>::empty() + decimal(score as nat) + "%"@);
    string_from_chars(out.as_slice())
}

/// The summary shown for the critical section.
pub open spec fn critical_focus_spec(r: DiagnosticResult) -> Seq<char> {
    "Critical: "@ + decimal(r.critical_count as nat) + " | Errors: "@ + decimal(r.error_count as nat)
        + " | Total: "@ + decimal(r.total_count as nat)
}

/// The summary shown for the critical section: its critical, error and total counts.
pub fn critical_focus_description(r: &DiagnosticResult) -> (res: String)
    ensures
        res@ == critical_focus_spec(*r),
{
    let mut out: Vec<char> = Vec::new();
    append_text(&mut out, "Critical: ");
    let ghost a = out@;
    push_decimal(r.critical_count as u64, &mut out);
    let ghost b = out@;
    append_text(&mut out, " | Errors: ");
    let ghost c = out@;
    push_decimal(r.error_count as u64, &mut out);
    let ghost d = out@;
    append_text(&mut out, " | Total: ");
    let ghost e = out@;
    push_decimal(r.total_count as u64, &mut out);
    assert(out@ == critical_focus_spec(*r));
    string_from_chars(out.as_slice())
}

/// The number of clean power cycles of an audit: all but the unclean ones (none when
/// the counts disagree).
pub fn power_clean_count(a: &PowerAuditResult) -> (res: usize)
    ensures
        res == if a.unclean_count <= a.total_count {
            a.total_count - a.unclean_count
        } else {
            0
        },
{
    a.total_count.saturating_sub(a.unclean_count)
}

} // verus!
