//! The counting side of the health analysis: which entries fall in a time window,
//! how many there are per severity, and the result that the window scores give.
use crate::clock::{elapsed_seconds, seconds_between, timestamp_in_range};
use crate::diagnostics::result::{DiagnosticResult, HealthStatus};
use crate::models::log_entry::{all_wf, entries_view, LogEntry, LogEntryView, Severity};
use crate::text::{append_text, decimal, push_decimal, string_from_chars};
use vstd::prelude::*;

verus! {

/// Counts per severity of the entries inside an analysis window.
#[derive(Debug, Clone, Copy, PartialEq, Eq, Structural)]
pub struct WindowCounts {
    pub critical: usize,
    pub error: usize,
    pub warning: usize,
    pub info: usize,
    pub debug: usize,
    pub total: usize,
}

/// An entry stamped `ts` lies in the window of `window_seconds` that ends at `now`:
/// its age in whole seconds is neither negative nor larger than the window.
pub open spec fn in_window(now: int, ts: int, window_seconds: int) -> bool {
    let age = elapsed_seconds(now, ts);
    0 <= age && age <= window_seconds
}

/// Where the window's edges lie: an entry stamped no later than `now` and at most
/// `window_seconds` seconds before it is inside; one stamped a whole second or more
/// after `now`, or `window_seconds + 1` seconds or more before it, is outside.
pub proof fn lemma_window_edges(now: int, ts: int, window_seconds: int)
    ensures
        (0 <= window_seconds && ts <= now && now - ts <= window_seconds * 1_000_000) ==> in_window(
            now,
            ts,
            window_seconds,
        ),
        ts - now >= 1_000_000 ==> !in_window(now, ts, window_seconds),
        (0 <= window_seconds && now - ts >= (window_seconds + 1) * 1_000_000) ==> !in_window(
            now,
            ts,
            window_seconds,
        ),
{
    let d = now - ts;
    if 0 <= window_seconds && ts <= now && d <= window_seconds * 1_000_000 {
        assert(d / 1_000_000 <= window_seconds) by (nonlinear_arith)
            requires
                0 <= d <= window_seconds * 1_000_000,
        ;
    }
    if 0 <= window_seconds && d >= (window_seconds + 1) * 1_000_000 {
        assert(d / 1_000_000 >= window_seconds + 1) by (nonlinear_arith)
            requires
                0 <= window_seconds,
                d >= (window_seconds + 1) * 1_000_000,
        ;
    }
}

/// The entries of `s` inside the window.
pub open spec fn window_entries(s: Seq<LogEntryView>, now: int, window_seconds: int) -> Seq<LogEntryView> {
    s.filter(|e: LogEntryView| in_window(now, e.timestamp as int, window_seconds))
}

/// The entries of `s` inside the window with the given severity.
pub open spec fn window_count(s: Seq<LogEntryView>, now: int, window_seconds: int, sev: Severity) -> nat {
    window_entries(s, now, window_seconds).filter(|e: LogEntryView| e.severity == sev).len()
}

/// The counts the analysis reports for a window.
pub open spec fn counts_match(c: WindowCounts, s: Seq<LogEntryView>, now: int, window_seconds: int) -> bool {
    &&& c.critical == window_count(s, now, window_seconds, Severity::Critical)
    &&& c.error == window_count(s, now, window_seconds, Severity::Error)
    &&& c.warning == window_count(s, now, window_seconds, Severity::Warning)
    &&& c.info == window_count(s, now, window_seconds, Severity::Info)
    &&& c.debug == window_count(s, now, window_seconds, Severity::Debug)
    &&& c.total == window_entries(s, now, window_seconds).len()
}

proof fn lemma_filter_step<A>(s: Seq<A>, i: int, p: spec_fn(A) -> bool)
    requires
        0 <= i < s.len(),
    ensures
        s.take(i + 1).filter(p) == if p(s[i]) {
            s.take(i).filter(p).push(s[i])
        } else {
            s.take(i).filter(p)
        },
{
    reveal(Seq::filter);
    assert(s.take(i + 1).drop_last() == s.take(i));
}

proof fn lemma_filter_len_le<A>(s: Seq<A>, p: spec_fn(A) -> bool)
    ensures
        s.filter(p).len() <= s.len(),
{
    s.lemma_filter_len(p);
}

/// Counts per severity of the entries of `logs` inside the window of `window_seconds`
/// that ends at `now`.
pub fn count_window(logs: &[LogEntry], now: i64, window_seconds: i64) -> (c: WindowCounts)
    requires
        all_wf(logs@),
        timestamp_in_range(now as int),
    ensures
        counts_match(c, entries_view(logs@), now as int, window_seconds as int),
{
    let ghost v = entries_view(logs@);
    let ghost inw = |e: LogEntryView| in_window(now as int, e.timestamp as int, window_seconds as int);
    let ghost pc = |e: LogEntryView| e.severity == Severity::Critical;
    let ghost pe = |e: LogEntryView| e.severity == Severity::Error;
    let ghost pw = |e: LogEntryView| e.severity == Severity::Warning;
    let ghost pi = |e: LogEntryView| e.severity == Severity::Info;
    let ghost pd = |e: LogEntryView| e.severity == Severity::Debug;
    let mut c = WindowCounts { critical: 0, error: 0, warning: 0, info: 0, debug: 0, total: 0 };
    let mut i: usize = 0;
    proof {
        reveal(Seq::filter);
        assert(v.take(0) == Seq::<LogEntryView>::empty());
    }
    while i < logs.len()
        invariant
            i <= logs.len(),
            v == entries_view(logs@),
            all_wf(logs@),
            timestamp_in_range(now as int),
            inw == (|e: LogEntryView| in_window(now as int, e.timestamp as int, window_seconds as int)),
            pc == (|e: LogEntryView| e.severity == Severity::Critical),
            pe == (|e: LogEntryView| e.severity == Severity::Error),
            pw == (|e: LogEntryView| e.severity == Severity::Warning),
            pi == (|e: LogEntryView| e.severity == Severity::Info),
            pd == (|e: LogEntryView| e.severity == Severity::Debug),
            c.total == v.take(i as int).filter(inw).len(),
            c.critical == v.take(i as int).filter(inw).filter(pc).len(),
            c.error == v.take(i as int).filter(inw).filter(pe).len(),
            c.warning == v.take(i as int).filter(inw).filter(pw).len(),
            c.info == v.take(i as int).filter(inw).filter(pi).len(),
            c.debug == v.take(i as int).filter(inw).filter(pd).len(),
        decreases logs.len() - i,
    {
        let e = &logs[i];
        let age = seconds_between(now, e.timestamp);
        let ghost w = v.take(i as int).filter(inw);
        proof {
            assert(v[i as int] == e@);
            lemma_filter_step(v, i as int, inw);
            lemma_filter_len_le(v.take(i as int), inw);
            lemma_filter_len_le(w, pc);
            lemma_filter_len_le(w, pe);
            lemma_filter_len_le(w, pw);
            lemma_filter_len_le(w, pi);
            lemma_filter_len_le(w, pd);
        }
        if age >= 0 && age <= window_seconds {
            proof {
                reveal(Seq::filter);
                assert(w.push(e@).drop_last() == w);
            }
            c.total = c.total + 1;
            match e.severity {
                Severity::Critical => c.critical = c.critical + 1,
                Severity::Error => c.error = c.error + 1,
                Severity::Warning => c.warning = c.warning + 1,
                Severity::Info => c.info = c.info + 1,
                Severity::Debug => c.debug = c.debug + 1,
            }
        }
        i = i + 1;
    }
    assert(v.take(logs.len() as int) == v);
    c
}

/// Age in whole seconds and severity of every entry inside the window, in order:
/// what the decay-weighted score is computed from.
pub fn window_samples(logs: &[LogEntry], now: i64, window_seconds: i64) -> (res: Vec<(i64, Severity)>)
    requires
        all_wf(logs@),
        timestamp_in_range(now as int),
    ensures
        res@ == window_entries(entries_view(logs@), now as int, window_seconds as int).map_values(
            |e: LogEntryView| (elapsed_seconds(now as int, e.timestamp as int) as i64, e.severity),
        ),
{
    let ghost v = entries_view(logs@);
    let ghost inw = |e: LogEntryView| in_window(now as int, e.timestamp as int, window_seconds as int);
    let ghost f = |e: LogEntryView| (elapsed_seconds(now as int, e.timestamp as int) as i64, e.severity);
    let mut res: Vec<(i64, Severity)> = Vec::new();
    let mut i: usize = 0;
    proof {
        reveal(Seq::filter);
        assert(v.take(0) == Seq::<LogEntryView>::empty());
    }
    while i < logs.len()
        invariant
            i <= logs.len(),
            v == entries_view(logs@),
            all_wf(logs@),
            timestamp_in_range(now as int),
            inw == (|e: LogEntryView| in_window(now as int, e.timestamp as int, window_seconds as int)),
            f == (|e: LogEntryView| (elapsed_seconds(now as int, e.timestamp as int) as i64, e.severity)),
            res@ == v.take(i as int).filter(inw).map_values(f),
        decreases logs.len() - i,
    {
        let e = &logs[i];
        let age = seconds_between(now, e.timestamp);
        proof {
            assert(v[i as int] == e@);
            lemma_filter_step(v, i as int, inw);
        }
        if age >= 0 && age <= window_seconds {
            res.push((age, e.severity));
            assert(v.take(i + 1).filter(inw).map_values(f) =~= v.take(i as int).filter(inw).map_values(f).push(f(e@)));
        }
        i = i + 1;
    }
    assert(v.take(logs.len() as int) == v);
    res
}

/// The headline for a status read from the long-window counts.
pub open spec fn title_for(s: HealthStatus) -> Seq<char> {
    match s {
        HealthStatus::Critical => "Critical Failures Detected"@,
        HealthStatus::Degraded => "Operational Errors Detected"@,
        HealthStatus::Warning => "Warnings Recorded"@,
        HealthStatus::Healthy => "System Integrity Verified"@,
    }
}

/// The status follows the counts, not the score: any critical entry makes it Critical,
/// else any error Degraded, else any warning Warning, else Healthy.
pub open spec fn status_from_counts(c: WindowCounts) -> HealthStatus {
    if c.critical > 0 {
        HealthStatus::Critical
    } else if c.error > 0 {
        HealthStatus::Degraded
    } else if c.warning > 0 {
        HealthStatus::Warning
    } else {
        HealthStatus::Healthy
    }
}

/// Whatever the score, a critical entry in the long window makes the status Critical,
/// an error makes it at least Degraded, and the status is Healthy only when the window
/// holds no critical entry, no error and no warning.
pub proof fn lemma_problems_surface(c: WindowCounts)
    ensures
        c.critical > 0 ==> status_from_counts(c) == HealthStatus::Critical,
        c.error > 0 ==> (status_from_counts(c) == HealthStatus::Critical || status_from_counts(c)
            == HealthStatus::Degraded),
        status_from_counts(c) == HealthStatus::Healthy <==> (c.critical == 0 && c.error == 0
            && c.warning == 0),
{
}

/// The window holds an entry of severity `sev`.
pub open spec fn window_has(s: Seq<LogEntryView>, now: int, window_seconds: int, sev: Severity) -> bool {
    exists|i: int|
        0 <= i < s.len() && in_window(now, (#[trigger] s[i]).timestamp as int, window_seconds)
            && s[i].severity == sev
}

/// A severity count of the window is positive exactly when the window holds an entry of
/// that severity.
proof fn lemma_count_positive(s: Seq<LogEntryView>, now: int, window_seconds: int, sev: Severity)
    ensures
        window_count(s, now, window_seconds, sev) > 0 <==> window_has(s, now, window_seconds, sev),
{
    let inw = |e: LogEntryView| in_window(now, e.timestamp as int, window_seconds);
    let ps = |e: LogEntryView| e.severity == sev;
    let w = s.filter(inw);
    let f = w.filter(ps);
    assert(window_entries(s, now, window_seconds) == w);
    if window_has(s, now, window_seconds, sev) {
        let i = choose|i: int|
            0 <= i < s.len() && in_window(now, (#[trigger] s[i]).timestamp as int, window_seconds)
                && s[i].severity == sev;
        s.lemma_filter_contains(inw, i);
        let j = choose|j: int| 0 <= j < w.len() && w[j] == s[i];
        w.lemma_filter_contains(ps, j);
    }
    if f.len() > 0 {
        w.lemma_filter_pred(ps, 0);
        assert(f.contains(f[0]));
        w.lemma_filter_contains_rev(ps, f[0]);
        let j = choose|j: int| 0 <= j < w.len() && w[j] == f[0];
        s.lemma_filter_pred(inw, j);
        assert(w.contains(w[j]));
        s.lemma_filter_contains_rev(inw, w[j]);
        let i = choose|i: int| 0 <= i < s.len() && s[i] == w[j];
        assert(in_window(now, s[i].timestamp as int, window_seconds) && s[i].severity == sev);
    }
}

/// What the analysis reports of a window, read off its entries: Critical, headed
/// "Critical Failures Detected", exactly when the window holds a critical entry;
/// Degraded, headed "Operational Errors Detected", exactly when it holds an error and
/// no critical entry; Warning, headed "Warnings Recorded", exactly when it holds a
/// warning and neither a critical entry nor an error; otherwise Healthy, headed
/// "System Integrity Verified".
pub proof fn lemma_status_reads_window(c: WindowCounts, s: Seq<LogEntryView>, now: int, window_seconds: int)
    requires
        counts_match(c, s, now, window_seconds),
    ensures
        status_from_counts(c) == HealthStatus::Critical <==> window_has(
            s,
            now,
            window_seconds,
            Severity::Critical,
        ),
        status_from_counts(c) == HealthStatus::Degraded <==> (!window_has(
            s,
            now,
            window_seconds,
            Severity::Critical,
        ) && window_has(s, now, window_seconds, Severity::Error)),
        status_from_counts(c) == HealthStatus::Warning <==> (!window_has(
            s,
            now,
            window_seconds,
            Severity::Critical,
        ) && !window_has(s, now, window_seconds, Severity::Error) && window_has(
            s,
            now,
            window_seconds,
            Severity::Warning,
        )),
        status_from_counts(c) == HealthStatus::Healthy <==> (!window_has(
            s,
            now,
            window_seconds,
            Severity::Critical,
        ) && !window_has(s, now, window_seconds, Severity::Error) && !window_has(
            s,
            now,
            window_seconds,
            Severity::Warning,
        )),
        title_for(HealthStatus::Critical) == "Critical Failures Detected"@,
        title_for(HealthStatus::Degraded) == "Operational Errors Detected"@,
        title_for(HealthStatus::Warning) == "Warnings Recorded"@,
        title_for(HealthStatus::Healthy) == "System Integrity Verified"@,
{
    lemma_count_positive(s, now, window_seconds, Severity::Critical);
    lemma_count_positive(s, now, window_seconds, Severity::Error);
    lemma_count_positive(s, now, window_seconds, Severity::Warning);
}

/// The description line of an analysis.
pub open spec fn analysis_description(c: WindowCounts, score: u8, short_score: u8, long_score: u8) -> Seq<char> {
    "Critical: "@ + decimal(c.critical as nat) + " | Errors: "@ + decimal(c.error as nat)
        + " | Warnings: "@ + decimal(c.warning as nat) + " | Info: "@ + decimal(c.info as nat)
        + " | Total: "@ + decimal(c.total as nat) + " | Health: "@ + decimal(score as nat)
        + "% (short:"@ + decimal(short_score as nat) + "% / long:"@ + decimal(long_score as nat)
        + "%)"@
}

pub open spec fn min_u8(a: u8, b: u8) -> u8 {
    if a <= b {
        a
    } else {
        b
    }
}

/// The analysis result of a non-empty entry set, given its long-window counts and the
/// health scores of the short and the long window. The reported score is the lower of
/// the two; the status and the headline follow the long-window counts.
pub fn diagnostic_from_scores(long_counts: &WindowCounts, short_score: u8, long_score: u8) -> (r: DiagnosticResult)
    ensures
        r.score == min_u8(short_score, long_score),
        r.status == status_from_counts(*long_counts),
        r.title@ == title_for(r.status),
        r.description@ == analysis_description(*long_counts, r.score, short_score, long_score),
        r.critical_count == long_counts.critical,
        r.error_count == long_counts.error,
        r.warning_count == long_counts.warning,
        r.info_count == long_counts.info,
        r.debug_count == long_counts.debug,
        r.total_count == long_counts.total,
{
    let score = if short_score <= long_score {
        short_score
    } else {
        long_score
    };
    let status = if long_counts.critical > 0 {
        HealthStatus::Critical
    } else if long_counts.error > 0 {
        HealthStatus::Degraded
    } else if long_counts.warning > 0 {
        HealthStatus::Warning
    } else {
        HealthStatus::Healthy
    };
    let title = match status {
        HealthStatus::Critical => String::from_str("Critical Failures Detected"),
        HealthStatus::Degraded => String::from_str("Operational Errors Detected"),
        HealthStatus::Warning => String::from_str("Warnings Recorded"),
        HealthStatus::Healthy => String::from_str("System Integrity Verified"),
    };
    let mut d: Vec<char> = Vec::new();
    append_text(&mut d, "Critical: ");
    push_decimal(long_counts.critical as u64, &mut d);
    append_text(&mut d, " | Errors: ");
    push_decimal(long_counts.error as u64, &mut d);
    append_text(&mut d, " | Warnings: ");
    push_decimal(long_counts.warning as u64, &mut d);
    append_text(&mut d, " | Info: ");
    push_decimal(long_counts.info as u64, &mut d);
    append_text(&mut d, " | Total: ");
    push_decimal(long_counts.total as u64, &mut d);
    append_text(&mut d, " | Health: ");
    push_decimal(score as u64, &mut d);
    append_text(&mut d, "% (short:");
    push_decimal(short_score as u64, &mut d);
    append_text(&mut d, "% / long:");
    push_decimal(long_score as u64, &mut d);
    append_text(&mut d, "%)");
    let description = string_from_chars(d.as_slice());
    assert(description@ =~= analysis_description(*long_counts, score, short_score, long_score));
    DiagnosticResult {
        title,
        description,
        score,
        critical_count: long_counts.critical,
        error_count: long_counts.error,
        warning_count: long_counts.warning,
        info_count: long_counts.info,
        debug_count: long_counts.debug,
        total_count: long_counts.total,
        status,
    }
}

/// The health analysis of `logs` at `now`, given the health scores that the short and
/// the long window were given: the empty result for no entries, else the result that
/// the long-window counts and the two scores give.
pub fn analyze_with_scores(
    logs: &[LogEntry],
    now: i64,
    long_window_seconds: i64,
    short_score: u8,
    long_score: u8,
) -> (r: DiagnosticResult)
    requires
        all_wf(logs@),
        timestamp_in_range(now as int),
    ensures
        logs@.len() == 0 ==> crate::diagnostics::result::is_empty_result(r),
        logs@.len() > 0 ==> exists|c: WindowCounts|
            {
                &&& counts_match(c, entries_view(logs@), now as int, long_window_seconds as int)
                &&& r.score == min_u8(short_score, long_score)
                &&& r.status == status_from_counts(c)
                &&& r.title@ == title_for(r.status)
                &&& r.description@ == analysis_description(c, r.score, short_score, long_score)
                &&& r.critical_count == c.critical
                &&& r.error_count == c.error
                &&& r.warning_count == c.warning
                &&& r.info_count == c.info
                &&& r.debug_count == c.debug
                &&& r.total_count == c.total
            },
{
    if logs.len() == 0 {
        return DiagnosticResult::empty();
    }
    let c = count_window(logs, now, long_window_seconds);
    diagnostic_from_scores(&c, short_score, long_score)
}

} // verus!
