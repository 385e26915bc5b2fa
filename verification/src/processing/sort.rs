//! Sort orders of the log view.
use crate::models::log_entry::{
    all_wf, entries_view, lower_opt, opt_text, severity_rank, LogEntry, LogEntryView,
};
use crate::text::{ascii_lower, chars_of};
use vstd::prelude::*;

verus! {

broadcast use vstd::seq_lib::group_to_multiset_ensures;

/// The order in which the log view lists entries.
#[derive(Debug, Clone, Copy, PartialEq, Eq, Structural)]
pub enum SortKey {
    TimeNewest,
    TimeOldest,
    SeverityHighLow,
    SeverityLowHigh,
    ProcessAZ,
    ProcessZA,
    UnitAZ,
    UnitZA,
    HostnameAZ,
    HostnameZA,
    PidAscending,
    PidDescending,
}

impl Default for SortKey {
    fn default() -> (k: Self)
        ensures
            k == SortKey::TimeNewest,
    {
        SortKey::TimeNewest
    }
}

pub open spec fn sort_key_order() -> Seq<SortKey> {
    seq![
        SortKey::TimeNewest,
        SortKey::TimeOldest,
        SortKey::SeverityHighLow,
        SortKey::SeverityLowHigh,
        SortKey::ProcessAZ,
        SortKey::ProcessZA,
        SortKey::UnitAZ,
        SortKey::UnitZA,
        SortKey::HostnameAZ,
        SortKey::HostnameZA,
        SortKey::PidAscending,
        SortKey::PidDescending,
    ]
}

pub open spec fn sort_label(k: SortKey) -> Seq<char> {
    match k {
        SortKey::TimeNewest => "Time: Newest First"@,
        SortKey::TimeOldest => "Time: Oldest First"@,
        SortKey::SeverityHighLow => "Severity: High → Low"@,
        SortKey::SeverityLowHigh => "Severity: Low → High"@,
        SortKey::ProcessAZ => "Process: A → Z"@,
        SortKey::ProcessZA => "Process: Z → A"@,
        SortKey::UnitAZ => "Unit: A → Z"@,
        SortKey::UnitZA => "Unit: Z → A"@,
        SortKey::HostnameAZ => "Hostname: A → Z"@,
        SortKey::HostnameZA => "Hostname: Z → A"@,
        SortKey::PidAscending => "PID: Ascending"@,
        SortKey::PidDescending => "PID: Descending"@,
    }
}

pub open spec fn sort_action(k: SortKey) -> Seq<char> {
    match k {
        SortKey::TimeNewest => "win.sort_time_newest"@,
        SortKey::TimeOldest => "win.sort_time_oldest"@,
        SortKey::SeverityHighLow => "win.sort_sev_high_low"@,
        SortKey::SeverityLowHigh => "win.sort_sev_low_high"@,
        SortKey::ProcessAZ => "win.sort_process_az"@,
        SortKey::ProcessZA => "win.sort_process_za"@,
        SortKey::UnitAZ => "win.sort_unit_az"@,
        SortKey::UnitZA => "win.sort_unit_za"@,
        SortKey::HostnameAZ => "win.sort_hostname_az"@,
        SortKey::HostnameZA => "win.sort_hostname_za"@,
        SortKey::PidAscending => "win.sort_pid_asc"@,
        SortKey::PidDescending => "win.sort_pid_desc"@,
    }
}

impl SortKey {
    pub fn label(&self) -> (res: &'static str)
        ensures
            res@ == sort_label(*self),
    {
        match self {
            SortKey::TimeNewest => "Time: Newest First",
            SortKey::TimeOldest => "Time: Oldest First",
            SortKey::SeverityHighLow => "Severity: High → Low",
            SortKey::SeverityLowHigh => "Severity: Low → High",
            SortKey::ProcessAZ => "Process: A → Z",
            SortKey::ProcessZA => "Process: Z → A",
            SortKey::UnitAZ => "Unit: A → Z",
            SortKey::UnitZA => "Unit: Z → A",
            SortKey::HostnameAZ => "Hostname: A → Z",
            SortKey::HostnameZA => "Hostname: Z → A",
            SortKey::PidAscending => "PID: Ascending",
            SortKey::PidDescending => "PID: Descending",
        }
    }

    pub fn action_name(&self) -> (res: &'static str)
        ensures
            res@ == sort_action(*self),
    {
        match self {
            SortKey::TimeNewest => "win.sort_time_newest",
            SortKey::TimeOldest => "win.sort_time_oldest",
            SortKey::SeverityHighLow => "win.sort_sev_high_low",
            SortKey::SeverityLowHigh => "win.sort_sev_low_high",
            SortKey::ProcessAZ => "win.sort_process_az",
            SortKey::ProcessZA => "win.sort_process_za",
            SortKey::UnitAZ => "win.sort_unit_az",
            SortKey::UnitZA => "win.sort_unit_za",
            SortKey::HostnameAZ => "win.sort_hostname_az",
            SortKey::HostnameZA => "win.sort_hostname_za",
            SortKey::PidAscending => "win.sort_pid_asc",
            SortKey::PidDescending => "win.sort_pid_desc",
        }
    }

    /// Every sort order, in menu order.
    pub fn all() -> (res: Vec<SortKey>)
        ensures
            res@ == sort_key_order(),
    {
        vec![
            SortKey::TimeNewest,
            SortKey::TimeOldest,
            SortKey::SeverityHighLow,
            SortKey::SeverityLowHigh,
            SortKey::ProcessAZ,
            SortKey::ProcessZA,
            SortKey::UnitAZ,
            SortKey::UnitZA,
            SortKey::HostnameAZ,
            SortKey::HostnameZA,
            SortKey::PidAscending,
            SortKey::PidDescending,
        ]
    }
}

// ---------------------------------------------------------------------------
// The orders
// ---------------------------------------------------------------------------

/// Lexicographic order of texts by character code (how `String` compares; a prefix
/// comes first).
pub open spec fn lex_le(a: Seq<char>, b: Seq<char>) -> bool
    decreases a.len(),
{
    if a.len() == 0 {
        true
    } else if b.len() == 0 {
        false
    } else if a[0] == b[0] {
        lex_le(a.drop_first(), b.drop_first())
    } else {
        (a[0] as int) < (b[0] as int)
    }
}

/// Ascending text order in which empty texts come after every other text.
pub open spec fn le_empty_last(a: Seq<char>, b: Seq<char>) -> bool {
    if a.len() == 0 {
        b.len() == 0
    } else if b.len() == 0 {
        true
    } else {
        lex_le(a, b)
    }
}

/// `Option` order: absent first, then by value.
pub open spec fn opt_u32_le(a: Option<u32>, b: Option<u32>) -> bool {
    match (a, b) {
        (None, _) => true,
        (Some(_), None) => false,
        (Some(x), Some(y)) => x <= y,
    }
}

/// Whether `a` may stand before `b` in the order `key`.
pub open spec fn key_le(key: SortKey, a: LogEntryView, b: LogEntryView) -> bool {
    match key {
        SortKey::TimeNewest => a.timestamp >= b.timestamp,
        SortKey::TimeOldest => a.timestamp <= b.timestamp,
        SortKey::SeverityHighLow => severity_rank(a.severity) <= severity_rank(b.severity),
        SortKey::SeverityLowHigh => severity_rank(a.severity) >= severity_rank(b.severity),
        SortKey::ProcessAZ => lex_le(ascii_lower(a.process), ascii_lower(b.process)),
        SortKey::ProcessZA => lex_le(ascii_lower(b.process), ascii_lower(a.process)),
        SortKey::UnitAZ => le_empty_last(
            ascii_lower(opt_text(a.systemd_unit)),
            ascii_lower(opt_text(b.systemd_unit)),
        ),
        SortKey::UnitZA => lex_le(
            ascii_lower(opt_text(b.systemd_unit)),
            ascii_lower(opt_text(a.systemd_unit)),
        ),
        SortKey::HostnameAZ => lex_le(
            ascii_lower(opt_text(a.hostname)),
            ascii_lower(opt_text(b.hostname)),
        ),
        SortKey::HostnameZA => lex_le(
            ascii_lower(opt_text(b.hostname)),
            ascii_lower(opt_text(a.hostname)),
        ),
        SortKey::PidAscending => opt_u32_le(a.pid, b.pid),
        SortKey::PidDescending => opt_u32_le(b.pid, a.pid),
    }
}

/// Each entry may stand before every later one in the order `key`.
pub open spec fn sorted_for(key: SortKey, s: Seq<LogEntryView>) -> bool {
    forall|i: int, j: int| 0 <= i < j < s.len() ==> key_le(key, #[trigger] s[i], #[trigger] s[j])
}

/// Two entries rank the same for `key`: each may stand before the other.
pub open spec fn same_rank(key: SortKey, x: LogEntryView, y: LogEntryView) -> bool {
    key_le(key, x, y) && key_le(key, y, x)
}

/// The entries of `s` that rank the same as `e` for `key`, in their order in `s`.
pub open spec fn rank_class(key: SortKey, s: Seq<LogEntryView>, e: LogEntryView) -> Seq<LogEntryView> {
    s.filter(|x: LogEntryView| same_rank(key, x, e))
}

// ---------------------------------------------------------------------------
// Lemmas
// ---------------------------------------------------------------------------

proof fn lemma_rank_class_push(key: SortKey, s: Seq<LogEntryView>, x: LogEntryView, e: LogEntryView)
    ensures
        rank_class(key, s.push(x), e) == if same_rank(key, x, e) {
            rank_class(key, s, e).push(x)
        } else {
            rank_class(key, s, e)
        },
{
    s.lemma_filter_push(x, |y: LogEntryView| same_rank(key, y, e));
}

proof fn lemma_rank_class_none(key: SortKey, s: Seq<LogEntryView>, e: LogEntryView)
    requires
        forall|k: int| 0 <= k < s.len() ==> !same_rank(key, #[trigger] s[k], e),
    ensures
        rank_class(key, s, e).len() == 0,
{
    let pred = |y: LogEntryView| same_rank(key, y, e);
    assert(s.all(|y: LogEntryView| !pred(y)));
    s.lemma_all_neg_filter_empty(pred);
}

pub proof fn lemma_lex_total(a: Seq<char>, b: Seq<char>)
    ensures
        lex_le(a, b) || lex_le(b, a),
    decreases a.len(),
{
    if a.len() > 0 && b.len() > 0 {
        if a[0] == b[0] {
            lemma_lex_total(a.drop_first(), b.drop_first());
        } else {
            assert((a[0] as int) != (b[0] as int));
        }
    }
}

pub proof fn lemma_lex_trans(a: Seq<char>, b: Seq<char>, c: Seq<char>)
    requires
        lex_le(a, b),
        lex_le(b, c),
    ensures
        lex_le(a, c),
    decreases a.len(),
{
    if a.len() > 0 && b.len() > 0 && c.len() > 0 && a[0] == b[0] && b[0] == c[0] {
        lemma_lex_trans(a.drop_first(), b.drop_first(), c.drop_first());
    }
}

/// Comparing from a common prefix on is comparing the whole texts.
pub proof fn lemma_lex_skip(a: Seq<char>, b: Seq<char>, i: int)
    requires
        0 <= i <= a.len(),
        i <= b.len(),
        a.take(i) == b.take(i),
    ensures
        lex_le(a, b) == lex_le(a.skip(i), b.skip(i)),
    decreases i,
{
    if i > 0 {
        assert(a[0] == a.take(i)[0]);
        assert(b[0] == b.take(i)[0]);
        assert(a.drop_first().take(i - 1) == a.take(i).drop_first());
        assert(b.drop_first().take(i - 1) == b.take(i).drop_first());
        lemma_lex_skip(a.drop_first(), b.drop_first(), i - 1);
        assert(a.drop_first().skip(i - 1) == a.skip(i));
        assert(b.drop_first().skip(i - 1) == b.skip(i));
    } else {
        assert(a.skip(0) == a);
        assert(b.skip(0) == b);
    }
}

pub proof fn lemma_key_total(key: SortKey, a: LogEntryView, b: LogEntryView)
    ensures
        key_le(key, a, b) || key_le(key, b, a),
{
    match key {
        SortKey::ProcessAZ | SortKey::ProcessZA => lemma_lex_total(
            ascii_lower(a.process),
            ascii_lower(b.process),
        ),
        SortKey::UnitAZ | SortKey::UnitZA => lemma_lex_total(
            ascii_lower(opt_text(a.systemd_unit)),
            ascii_lower(opt_text(b.systemd_unit)),
        ),
        SortKey::HostnameAZ | SortKey::HostnameZA => lemma_lex_total(
            ascii_lower(opt_text(a.hostname)),
            ascii_lower(opt_text(b.hostname)),
        ),
        _ => {},
    }
}

pub proof fn lemma_key_trans(key: SortKey, a: LogEntryView, b: LogEntryView, c: LogEntryView)
    requires
        key_le(key, a, b),
        key_le(key, b, c),
    ensures
        key_le(key, a, c),
{
    match key {
        SortKey::ProcessAZ => lemma_lex_trans(
            ascii_lower(a.process),
            ascii_lower(b.process),
            ascii_lower(c.process),
        ),
        SortKey::ProcessZA => lemma_lex_trans(
            ascii_lower(c.process),
            ascii_lower(b.process),
            ascii_lower(a.process),
        ),
        SortKey::UnitAZ => {
            let (x, y, z) = (
                ascii_lower(opt_text(a.systemd_unit)),
                ascii_lower(opt_text(b.systemd_unit)),
                ascii_lower(opt_text(c.systemd_unit)),
            );
            if x.len() > 0 && y.len() > 0 && z.len() > 0 {
                lemma_lex_trans(x, y, z);
            }
        },
        SortKey::UnitZA => lemma_lex_trans(
            ascii_lower(opt_text(c.systemd_unit)),
            ascii_lower(opt_text(b.systemd_unit)),
            ascii_lower(opt_text(a.systemd_unit)),
        ),
        SortKey::HostnameAZ => lemma_lex_trans(
            ascii_lower(opt_text(a.hostname)),
            ascii_lower(opt_text(b.hostname)),
            ascii_lower(opt_text(c.hostname)),
        ),
        SortKey::HostnameZA => lemma_lex_trans(
            ascii_lower(opt_text(c.hostname)),
            ascii_lower(opt_text(b.hostname)),
            ascii_lower(opt_text(a.hostname)),
        ),
        _ => {},
    }
}

proof fn lemma_view_push(s: Seq<LogEntry>, x: LogEntry)
    ensures
        entries_view(s.push(x)) == entries_view(s).push(x@),
{
    assert(entries_view(s.push(x)) =~= entries_view(s).push(x@));
}

proof fn lemma_view_add(s: Seq<LogEntry>, t: Seq<LogEntry>)
    ensures
        entries_view(s + t) == entries_view(s) + entries_view(t),
{
    assert(entries_view(s + t) =~= entries_view(s) + entries_view(t));
}

/// `x` comes no later than `y` by character code: at every position up to which the two
/// agree, `x` either ends or holds a character no larger than the one `y` holds there.
pub open spec fn char_order_le(x: Seq<char>, y: Seq<char>) -> bool {
    forall|n: int|
        0 <= n <= x.len() && n <= y.len() && #[trigger] x.take(n) == y.take(n) ==> n == x.len() || (n
            < y.len() && (x[n] as int) <= (y[n] as int))
}

/// The text order is the order by character code, a prefix first.
pub proof fn lemma_lex_char_order(x: Seq<char>, y: Seq<char>)
    requires
        lex_le(x, y),
    ensures
        char_order_le(x, y),
{
    assert forall|n: int|
        0 <= n <= x.len() && n <= y.len() && #[trigger] x.take(n) == y.take(n) implies n == x.len() || (n
            < y.len() && (x[n] as int) <= (y[n] as int)) by {
        lemma_lex_skip(x, y, n);
        if n < x.len() && n < y.len() {
            assert(x.skip(n)[0] == x[n]);
            assert(y.skip(n)[0] == y[n]);
        }
    }
}

/// What a sorted list looks like, pair by pair. For any two entries, the first one
/// earlier in the list: newest first puts the later-stamped one first and oldest first
/// the earlier-stamped one; high to low never puts an entry after a less severe one, and
/// low to high never after a more severe one; PID ascending puts entries without a PID
/// first and then smaller PIDs before larger ones, and PID descending puts larger PIDs
/// first and entries without a PID last; process A to Z puts the lower-cased process names
/// in character order and Z to A in the reverse one, and likewise for hostnames (an absent
/// one read as empty); unit A to Z puts the lower-cased unit names in character order with
/// entries without a unit last, and unit Z to A in the reverse order.
pub proof fn lemma_sorted_pairs(key: SortKey, s: Seq<LogEntryView>, i: int, j: int)
    requires
        sorted_for(key, s),
        0 <= i < j < s.len(),
    ensures
        key == SortKey::TimeNewest ==> s[i].timestamp >= s[j].timestamp,
        key == SortKey::TimeOldest ==> s[i].timestamp <= s[j].timestamp,
        key == SortKey::SeverityHighLow ==> {
            &&& s[i].severity is Debug ==> s[j].severity is Debug
            &&& s[i].severity is Info ==> (s[j].severity is Info || s[j].severity is Debug)
            &&& s[j].severity is Error ==> (s[i].severity is Critical || s[i].severity is Error)
            &&& s[j].severity is Critical ==> s[i].severity is Critical
            &&& s[i].severity is Warning ==> !(s[j].severity is Critical || s[j].severity is Error)
        },
        key == SortKey::SeverityLowHigh ==> {
            &&& s[j].severity is Debug ==> s[i].severity is Debug
            &&& s[j].severity is Info ==> (s[i].severity is Info || s[i].severity is Debug)
            &&& s[i].severity is Error ==> (s[j].severity is Critical || s[j].severity is Error)
            &&& s[i].severity is Critical ==> s[j].severity is Critical
            &&& s[j].severity is Warning ==> !(s[i].severity is Critical || s[i].severity is Error)
        },
        key == SortKey::PidAscending ==> {
            &&& (s[i].pid is Some && s[j].pid is Some) ==> s[i].pid.unwrap() <= s[j].pid.unwrap()
            &&& s[j].pid is None ==> s[i].pid is None
        },
        key == SortKey::PidDescending ==> {
            &&& (s[i].pid is Some && s[j].pid is Some) ==> s[i].pid.unwrap() >= s[j].pid.unwrap()
            &&& s[i].pid is None ==> s[j].pid is None
        },
        key == SortKey::ProcessAZ ==> char_order_le(ascii_lower(s[i].process), ascii_lower(s[j].process)),
        key == SortKey::ProcessZA ==> char_order_le(ascii_lower(s[j].process), ascii_lower(s[i].process)),
        key == SortKey::HostnameAZ ==> char_order_le(
            ascii_lower(opt_text(s[i].hostname)),
            ascii_lower(opt_text(s[j].hostname)),
        ),
        key == SortKey::HostnameZA ==> char_order_le(
            ascii_lower(opt_text(s[j].hostname)),
            ascii_lower(opt_text(s[i].hostname)),
        ),
        key == SortKey::UnitAZ ==> {
            &&& opt_text(s[i].systemd_unit).len() == 0 ==> opt_text(s[j].systemd_unit).len() == 0
            &&& opt_text(s[j].systemd_unit).len() > 0 ==> char_order_le(
                ascii_lower(opt_text(s[i].systemd_unit)),
                ascii_lower(opt_text(s[j].systemd_unit)),
            )
        },
        key == SortKey::UnitZA ==> char_order_le(
            ascii_lower(opt_text(s[j].systemd_unit)),
            ascii_lower(opt_text(s[i].systemd_unit)),
        ),
{
    assert(key_le(key, s[i], s[j]));
    let (a, b) = (s[i], s[j]);
    match key {
        SortKey::ProcessAZ => lemma_lex_char_order(ascii_lower(a.process), ascii_lower(b.process)),
        SortKey::ProcessZA => lemma_lex_char_order(ascii_lower(b.process), ascii_lower(a.process)),
        SortKey::HostnameAZ => lemma_lex_char_order(
            ascii_lower(opt_text(a.hostname)),
            ascii_lower(opt_text(b.hostname)),
        ),
        SortKey::HostnameZA => lemma_lex_char_order(
            ascii_lower(opt_text(b.hostname)),
            ascii_lower(opt_text(a.hostname)),
        ),
        SortKey::UnitAZ => {
            if opt_text(b.systemd_unit).len() > 0 && opt_text(a.systemd_unit).len() > 0 {
                lemma_lex_char_order(
                    ascii_lower(opt_text(a.systemd_unit)),
                    ascii_lower(opt_text(b.systemd_unit)),
                );
            }
        },
        SortKey::UnitZA => lemma_lex_char_order(
            ascii_lower(opt_text(b.systemd_unit)),
            ascii_lower(opt_text(a.systemd_unit)),
        ),
        _ => {},
    }
}

/// Each descending order is its ascending order turned around: `a` may stand before `b`
/// newest first exactly when `b` may stand before `a` oldest first, and likewise for
/// severity, process name, hostname and PID.
pub proof fn lemma_orders_reverse(a: LogEntryView, b: LogEntryView)
    ensures
        key_le(SortKey::TimeNewest, a, b) == key_le(SortKey::TimeOldest, b, a),
        key_le(SortKey::SeverityHighLow, a, b) == key_le(SortKey::SeverityLowHigh, b, a),
        key_le(SortKey::ProcessAZ, a, b) == key_le(SortKey::ProcessZA, b, a),
        key_le(SortKey::HostnameAZ, a, b) == key_le(SortKey::HostnameZA, b, a),
        key_le(SortKey::PidAscending, a, b) == key_le(SortKey::PidDescending, b, a),
        key_le(SortKey::PidAscending, a, b) == match (a.pid, b.pid) {
            (None, _) => true,
            (Some(_), None) => false,
            (Some(x), Some(y)) => x <= y,
        },
        key_le(SortKey::TimeOldest, a, b) == (a.timestamp <= b.timestamp),
{
}

// ---------------------------------------------------------------------------
// Implementation
// ---------------------------------------------------------------------------

/// Lexicographic comparison of two texts.
fn lex_le_text(a: &str, b: &str) -> (res: bool)
    ensures
        res == lex_le(a@, b@),
{
    let va = chars_of(a);
    let vb = chars_of(b);
    let mut i: usize = 0;
    while i < va.len() && i < vb.len() && va[i] == vb[i]
        invariant
            i <= va.len(),
            i <= vb.len(),
            va@.take(i as int) == vb@.take(i as int),
        decreases va.len() - i,
    {
        assert(va@.take(i + 1) == va@.take(i as int).push(va@[i as int]));
        assert(vb@.take(i + 1) == vb@.take(i as int).push(vb@[i as int]));
        i = i + 1;
    }
    proof {
        lemma_lex_skip(va@, vb@, i as int);
    }
    if i == va.len() {
        true
    } else if i == vb.len() {
        false
    } else {
        assert(va@.skip(i as int)[0] == va@[i as int]);
        assert(vb@.skip(i as int)[0] == vb@[i as int]);
        va[i] < vb[i]
    }
}

fn opt_u32_le_exec(a: Option<u32>, b: Option<u32>) -> (res: bool)
    ensures
        res == opt_u32_le(a, b),
{
    match (a, b) {
        (None, _) => true,
        (Some(_), None) => false,
        (Some(x), Some(y)) => x <= y,
    }
}

/// Whether `a` may stand before `b` in the order `key`.
pub fn entry_le(key: SortKey, a: &LogEntry, b: &LogEntry) -> (res: bool)
    requires
        a.wf(),
        b.wf(),
    ensures
        res == key_le(key, a@, b@),
{
    match key {
        SortKey::TimeNewest => a.timestamp >= b.timestamp,
        SortKey::TimeOldest => a.timestamp <= b.timestamp,
        SortKey::SeverityHighLow => a.severity.rank() <= b.severity.rank(),
        SortKey::SeverityLowHigh => a.severity.rank() >= b.severity.rank(),
        SortKey::ProcessAZ => lex_le_text(a.process_lower(), b.process_lower()),
        SortKey::ProcessZA => lex_le_text(b.process_lower(), a.process_lower()),
        SortKey::UnitAZ => {
            let x = lower_opt(&a.systemd_unit);
            let y = lower_opt(&b.systemd_unit);
            if x.as_str().is_empty() {
                y.as_str().is_empty()
            } else if y.as_str().is_empty() {
                true
            } else {
                lex_le_text(x.as_str(), y.as_str())
            }
        },
        SortKey::UnitZA => {
            let x = lower_opt(&a.systemd_unit);
            let y = lower_opt(&b.systemd_unit);
            lex_le_text(y.as_str(), x.as_str())
        },
        SortKey::HostnameAZ => {
            let x = lower_opt(&a.hostname);
            let y = lower_opt(&b.hostname);
            lex_le_text(x.as_str(), y.as_str())
        },
        SortKey::HostnameZA => {
            let x = lower_opt(&a.hostname);
            let y = lower_opt(&b.hostname);
            lex_le_text(y.as_str(), x.as_str())
        },
        SortKey::PidAscending => opt_u32_le_exec(a.pid, b.pid),
        SortKey::PidDescending => opt_u32_le_exec(b.pid, a.pid),
    }
}

/// Merges two runs that are sorted for `key` into one.
fn merge(a: &Vec<LogEntry>, b: &Vec<LogEntry>, key: SortKey) -> (res: Vec<LogEntry>)
    requires
        all_wf(a@),
        all_wf(b@),
        sorted_for(key, entries_view(a@)),
        sorted_for(key, entries_view(b@)),
    ensures
        all_wf(res@),
        sorted_for(key, entries_view(res@)),
        entries_view(res@).to_multiset() == entries_view(a@).to_multiset().add(
            entries_view(b@).to_multiset(),
        ),
        forall|e: LogEntryView| #[trigger] rank_class(key, entries_view(res@), e) == rank_class(key, entries_view(a@), e)
            + rank_class(key, entries_view(b@), e),
{
    let ghost av = entries_view(a@);
    let ghost bv = entries_view(b@);
    let mut res: Vec<LogEntry> = Vec::new();
    let mut i: usize = 0;
    let mut j: usize = 0;
    while i < a.len() || j < b.len()
        invariant
            i <= a.len(),
            j <= b.len(),
            all_wf(a@),
            all_wf(b@),
            sorted_for(key, entries_view(a@)),
            sorted_for(key, entries_view(b@)),
            all_wf(res@),
            sorted_for(key, entries_view(res@)),
            entries_view(res@).to_multiset() == entries_view(a@.take(i as int)).to_multiset().add(
                entries_view(b@.take(j as int)).to_multiset(),
            ),
            res@.len() > 0 && i < a.len() ==> key_le(key, res@.last()@, a@[i as int]@),
            res@.len() > 0 && j < b.len() ==> key_le(key, res@.last()@, b@[j as int]@),
            av == entries_view(a@),
            bv == entries_view(b@),
            forall|k: int, m: int| 0 <= k < j && i <= m < a.len() ==> !key_le(key, #[trigger] av[m], #[trigger] bv[k]),
            forall|e: LogEntryView| #[trigger] rank_class(key, entries_view(res@), e) == rank_class(key, av.take(i as int), e)
                + rank_class(key, bv.take(j as int), e),
        decreases a.len() + b.len() - i - j,
    {
        let take_a = if i == a.len() {
            false
        } else if j == b.len() {
            true
        } else {
            entry_le(key, &a[i], &b[j])
        };
        let ghost prev = res@;
        let x = if take_a {
            a[i].clone()
        } else {
            b[j].clone()
        };
        proof {
            if !take_a && i < a.len() {
                lemma_key_total(key, a@[i as int]@, b@[j as int]@);
            }
            // x may follow everything already placed
            assert forall|p: int, q: int|
                0 <= p < q < prev.len() + 1 implies key_le(
                key,
                #[trigger] entries_view(prev.push(x))[p],
                #[trigger] entries_view(prev.push(x))[q],
            ) by {
                lemma_view_push(prev, x);
                if q == prev.len() {
                    if p < prev.len() - 1 {
                        assert(key_le(key, entries_view(prev)[p], entries_view(prev)[prev.len() - 1]));
                        lemma_key_trans(key, prev[p]@, prev.last()@, x@);
                    }
                } else {
                    assert(key_le(key, entries_view(prev)[p], entries_view(prev)[q]));
                }
            }
        }
        res.push(x);
        proof {
            lemma_view_push(prev, x);
            let rv = entries_view(prev);
            if take_a {
                assert(av.take(i + 1) == av.take(i as int).push(av[i as int]));
                assert(x@ == av[i as int]);
                assert forall|e: LogEntryView| #[trigger] rank_class(key, entries_view(res@), e) == rank_class(key, av.take(i + 1), e)
                    + rank_class(key, bv.take(j as int), e) by {
                    lemma_rank_class_push(key, rv, x@, e);
                    lemma_rank_class_push(key, av.take(i as int), x@, e);
                    if same_rank(key, x@, e) {
                        assert forall|k: int| 0 <= k < bv.take(j as int).len() implies !same_rank(key, #[trigger] bv.take(j as int)[k], e) by {
                            if same_rank(key, bv[k], e) {
                                lemma_key_trans(key, av[i as int], e, bv[k]);
                            }
                        }
                        lemma_rank_class_none(key, bv.take(j as int), e);
                        assert(rank_class(key, bv.take(j as int), e) =~= Seq::<LogEntryView>::empty());
                    }
                }
            } else {
                assert(bv.take(j + 1) == bv.take(j as int).push(bv[j as int]));
                assert(x@ == bv[j as int]);
                assert forall|e: LogEntryView| #[trigger] rank_class(key, entries_view(res@), e) == rank_class(key, av.take(i as int), e)
                    + rank_class(key, bv.take(j + 1), e) by {
                    lemma_rank_class_push(key, rv, x@, e);
                    lemma_rank_class_push(key, bv.take(j as int), x@, e);
                }
                assert forall|k: int, m: int| 0 <= k < j + 1 && i <= m < a.len() implies !key_le(key, #[trigger] av[m], #[trigger] bv[k]) by {
                    if k == j && key_le(key, av[m], bv[k]) {
                        if m > i {
                            assert(key_le(key, av[i as int], av[m]));
                            lemma_key_trans(key, av[i as int], av[m], bv[k]);
                        }
                    }
                }
            }
            if take_a {
                assert(a@.take(i + 1) == a@.take(i as int).push(a@[i as int]));
                lemma_view_push(a@.take(i as int), a@[i as int]);
                if i + 1 < a.len() {
                    assert(key_le(key, entries_view(a@)[i as int], entries_view(a@)[i + 1]));
                }
            } else {
                assert(b@.take(j + 1) == b@.take(j as int).push(b@[j as int]));
                lemma_view_push(b@.take(j as int), b@[j as int]);
                if j + 1 < b.len() {
                    assert(key_le(key, entries_view(b@)[j as int], entries_view(b@)[j + 1]));
                }
            }
        }
        if take_a {
            i = i + 1;
        } else {
            j = j + 1;
        }
    }
    assert(a@.take(a.len() as int) == a@);
    assert(b@.take(b.len() as int) == b@);
    assert(av.take(a.len() as int) == av);
    assert(bv.take(b.len() as int) == bv);
    res
}

/// Sorts the entries for `key` (merge sort).
fn merge_sort(v: Vec<LogEntry>, key: SortKey) -> (res: Vec<LogEntry>)
    requires
        all_wf(v@),
    ensures
        all_wf(res@),
        sorted_for(key, entries_view(res@)),
        entries_view(res@).to_multiset() == entries_view(v@).to_multiset(),
        forall|e: LogEntryView| #[trigger] rank_class(key, entries_view(res@), e) == rank_class(key, entries_view(v@), e),
    decreases v.len(),
{
    if v.len() <= 1 {
        return v;
    }
    let ghost whole = v@;
    let mut left = v;
    let mid = left.len() / 2;
    let right = left.split_off(mid);
    proof {
        assert(whole == left@ + right@);
        lemma_view_add(left@, right@);
        vstd::seq_lib::lemma_multiset_commutative(entries_view(left@), entries_view(right@));
    }
    let ghost lv = entries_view(left@);
    let ghost rv = entries_view(right@);
    let l = merge_sort(left, key);
    let r = merge_sort(right, key);
    let res = merge(&l, &r, key);
    proof {
        assert forall|e: LogEntryView| #[trigger] rank_class(key, entries_view(res@), e) == rank_class(key, entries_view(whole), e) by {
            Seq::filter_distributes_over_add(lv, rv, |x: LogEntryView| same_rank(key, x, e));
        }
    }
    res
}

/// Sorts `logs` in place for `key`: afterwards they hold the same entries, each of
/// which may stand before every later one in the order `key`; entries that rank the
/// same keep their order (the sort is stable).
pub fn apply_sort(logs: &mut Vec<LogEntry>, key: &SortKey)
    requires
        all_wf(old(logs)@),
    ensures
        all_wf(final(logs)@),
        sorted_for(*key, entries_view(final(logs)@)),
        entries_view(final(logs)@).to_multiset() == entries_view(old(logs)@).to_multiset(),
        forall|e: LogEntryView| #[trigger] rank_class(*key, entries_view(final(logs)@), e) == rank_class(
            *key,
            entries_view(old(logs)@),
            e,
        ),
{
    let mut tmp: Vec<LogEntry> = Vec::new();
    std::mem::swap(&mut tmp, logs);
    let sorted = merge_sort(tmp, *key);
    *logs = sorted;
}

} // verus!
