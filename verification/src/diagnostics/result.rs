//! The outcome of a diagnostic run.
use vstd::prelude::*;

verus! {

/// Overall health of what was analysed.
#[derive(Debug, Clone, Copy, PartialEq, Eq, Structural)]
pub enum HealthStatus {
    Critical,
    Degraded,
    Warning,
    Healthy,
}

/// The status that a health score (0..=100) falls in.
pub open spec fn status_of_score(score: u8) -> HealthStatus {
    if score <= 30 {
        HealthStatus::Critical
    } else if score <= 60 {
        HealthStatus::Degraded
    } else if score <= 85 {
        HealthStatus::Warning
    } else {
        HealthStatus::Healthy
    }
}

pub open spec fn status_css(s: HealthStatus) -> Seq<char> {
    match s {
        HealthStatus::Critical => "health-critical"@,
        HealthStatus::Degraded => "health-degraded"@,
        HealthStatus::Warning => "health-warning"@,
        HealthStatus::Healthy => "health-ok"@,
    }
}

pub open spec fn status_icon(s: HealthStatus) -> Seq<char> {
    match s {
        HealthStatus::Critical => "dialog-error-symbolic"@,
        HealthStatus::Degraded => "dialog-warning-symbolic"@,
        HealthStatus::Warning => "dialog-information-symbolic"@,
        HealthStatus::Healthy => "emblem-ok-symbolic"@,
    }
}

pub open spec fn status_label(s: HealthStatus) -> Seq<char> {
    match s {
        HealthStatus::Critical => "Critical"@,
        HealthStatus::Degraded => "Degraded"@,
        HealthStatus::Warning => "Warning"@,
        HealthStatus::Healthy => "Healthy"@,
    }
}

impl HealthStatus {
    pub fn from_score(score: u8) -> (s: HealthStatus)
        ensures
            s == status_of_score(score),
    {
        match score {
            0..=30 => HealthStatus::Critical,
            31..=60 => HealthStatus::Degraded,
            61..=85 => HealthStatus::Warning,
            _ => HealthStatus::Healthy,
        }
    }

    pub fn css_class(&self) -> (res: &'static str)
        ensures
            res@ == status_css(*self),
    {
        match self {
            HealthStatus::Critical => "health-critical",
            HealthStatus::Degraded => "health-degraded",
            HealthStatus::Warning => "health-warning",
            HealthStatus::Healthy => "health-ok",
        }
    }

    pub fn icon_name(&self) -> (res: &'static str)
        ensures
            res@ == status_icon(*self),
    {
        match self {
            HealthStatus::Critical => "dialog-error-symbolic",
            HealthStatus::Degraded => "dialog-warning-symbolic",
            HealthStatus::Warning => "dialog-information-symbolic",
            HealthStatus::Healthy => "emblem-ok-symbolic",
        }
    }

    /// The name of the status (what `Display` prints).
    pub fn to_string(&self) -> (res: String)
        ensures
            res@ == status_label(*self),
    {
        match self {
            HealthStatus::Critical => String::from_str("Critical"),
            HealthStatus::Degraded => String::from_str("Degraded"),
            HealthStatus::Warning => String::from_str("Warning"),
            HealthStatus::Healthy => String::from_str("Healthy"),
        }
    }
}

/// Health scores grow through the statuses: a higher score never has a worse status.
pub proof fn lemma_status_monotone(a: u8, b: u8)
    requires
        a <= b,
    ensures
        status_rank(status_of_score(a)) <= status_rank(status_of_score(b)),
{
}

/// The score bands of the statuses: 0 to 30 is Critical, 31 to 60 Degraded, 61 to 85
/// Warning and 86 and above Healthy.
pub proof fn lemma_score_bands(score: u8)
    ensures
        status_of_score(score) == HealthStatus::Critical <==> score <= 30,
        status_of_score(score) == HealthStatus::Degraded <==> 31 <= score <= 60,
        status_of_score(score) == HealthStatus::Warning <==> 61 <= score <= 85,
        status_of_score(score) == HealthStatus::Healthy <==> 86 <= score,
{
}

/// The position of a status from the worst to the best.
pub open spec fn status_rank(s: HealthStatus) -> int {
    match s {
        HealthStatus::Critical => 0,
        HealthStatus::Degraded => 1,
        HealthStatus::Warning => 2,
        HealthStatus::Healthy => 3,
    }
}

/// A diagnostic outcome: its headline, counts per severity, health score and status.
pub struct DiagnosticResult {
    pub title: String,
    pub description: String,
    pub score: u8,
    pub critical_count: usize,
    pub error_count: usize,
    pub warning_count: usize,
    pub info_count: usize,
    pub debug_count: usize,
    pub total_count: usize,
    pub status: HealthStatus,
}

pub open spec fn no_data_title() -> Seq<char> {
    "No Data Available"@
}

pub open spec fn no_data_description() -> Seq<char> {
    "System diagnostics inactive due to empty log stream."@
}

/// The result of analysing nothing.
pub open spec fn is_empty_result(r: DiagnosticResult) -> bool {
    &&& r.title@ == no_data_title()
    &&& r.description@ == no_data_description()
    &&& r.score == 100
    &&& r.critical_count == 0
    &&& r.error_count == 0
    &&& r.warning_count == 0
    &&& r.info_count == 0
    &&& r.debug_count == 0
    &&& r.total_count == 0
    &&& r.status == HealthStatus::Healthy
}

impl DiagnosticResult {
    pub fn empty() -> (r: Self)
        ensures
            is_empty_result(r),
    {
        DiagnosticResult {
            title: String::from_str("No Data Available"),
            description: String::from_str("System diagnostics inactive due to empty log stream."),
            score: 100,
            critical_count: 0,
            error_count: 0,
            warning_count: 0,
            info_count: 0,
            debug_count: 0,
            total_count: 0,
            status: HealthStatus::Healthy,
        }
    }
}

impl Clone for DiagnosticResult {
    fn clone(&self) -> (r: Self)
        ensures
            r == *self,
    {
        DiagnosticResult {
            title: self.title.clone(),
            description: self.description.clone(),
            score: self.score,
            critical_count: self.critical_count,
            error_count: self.error_count,
            warning_count: self.warning_count,
            info_count: self.info_count,
            debug_count: self.debug_count,
            total_count: self.total_count,
            status: self.status,
        }
    }
}

/// The sum of one count over a sequence of results.
pub open spec fn sum_counts(s: Seq<DiagnosticResult>, count: spec_fn(DiagnosticResult) -> usize) -> nat
    decreases s.len(),
{
    if s.len() == 0 {
        0
    } else {
        sum_counts(s.drop_last(), count) + count(s.last()) as nat
    }
}

pub open spec fn critical_of(r: DiagnosticResult) -> usize {
    r.critical_count
}

pub open spec fn error_of(r: DiagnosticResult) -> usize {
    r.error_count
}

pub open spec fn warning_of(r: DiagnosticResult) -> usize {
    r.warning_count
}

pub open spec fn info_of(r: DiagnosticResult) -> usize {
    r.info_count
}

pub open spec fn debug_of(r: DiagnosticResult) -> usize {
    r.debug_count
}

pub open spec fn total_of(r: DiagnosticResult) -> usize {
    r.total_count
}

/// Every count summed over the results fits in a `usize`.
pub open spec fn sums_fit(s: Seq<DiagnosticResult>) -> bool {
    &&& sum_counts(s, |r: DiagnosticResult| critical_of(r)) <= usize::MAX
    &&& sum_counts(s, |r: DiagnosticResult| error_of(r)) <= usize::MAX
    &&& sum_counts(s, |r: DiagnosticResult| warning_of(r)) <= usize::MAX
    &&& sum_counts(s, |r: DiagnosticResult| info_of(r)) <= usize::MAX
    &&& sum_counts(s, |r: DiagnosticResult| debug_of(r)) <= usize::MAX
    &&& sum_counts(s, |r: DiagnosticResult| total_of(r)) <= usize::MAX
}

/// `w` is the first position holding the lowest score.
pub open spec fn is_first_lowest(s: Seq<DiagnosticResult>, w: int) -> bool {
    &&& 0 <= w < s.len()
    &&& forall|k: int| 0 <= k < s.len() ==> s[w].score <= (#[trigger] s[k]).score
    &&& forall|k: int| 0 <= k < w ==> s[w].score < (#[trigger] s[k]).score
}

/// A sum over a prefix is at most the sum over the whole sequence.
pub proof fn lemma_sum_prefix(s: Seq<DiagnosticResult>, count: spec_fn(DiagnosticResult) -> usize, i: int)
    requires
        0 <= i <= s.len(),
    ensures
        sum_counts(s.take(i), count) <= sum_counts(s, count),
    decreases s.len(),
{
    if i < s.len() {
        lemma_sum_prefix(s.drop_last(), count, i);
        assert(s.drop_last().take(i) == s.take(i));
    } else {
        assert(s.take(i) == s);
    }
}

proof fn lemma_sum_step(s: Seq<DiagnosticResult>, count: spec_fn(DiagnosticResult) -> usize, i: int)
    requires
        0 <= i < s.len(),
    ensures
        sum_counts(s.take(i + 1), count) == sum_counts(s.take(i), count) + count(s[i]) as nat,
{
    assert(s.take(i + 1).drop_last() == s.take(i));
}

/// Combines results: the headline, score and status of the first result with the
/// lowest score, and every count summed over all results. No result gives the empty result.
pub fn aggregate_worst_case(results: &[DiagnosticResult]) -> (r: DiagnosticResult)
    requires
        sums_fit(results@),
    ensures
        results@.len() == 0 ==> is_empty_result(r),
        results@.len() > 0 ==> exists|w: int|
            {
                &&& is_first_lowest(results@, w)
                &&& r.title@ == results@[w].title@
                &&& r.description@ == results@[w].description@
                &&& r.score == results@[w].score
                &&& r.status == results@[w].status
            },
        results@.len() > 0 ==> {
            &&& r.critical_count == sum_counts(results@, |x: DiagnosticResult| critical_of(x))
            &&& r.error_count == sum_counts(results@, |x: DiagnosticResult| error_of(x))
            &&& r.warning_count == sum_counts(results@, |x: DiagnosticResult| warning_of(x))
            &&& r.info_count == sum_counts(results@, |x: DiagnosticResult| info_of(x))
            &&& r.debug_count == sum_counts(results@, |x: DiagnosticResult| debug_of(x))
            &&& r.total_count == sum_counts(results@, |x: DiagnosticResult| total_of(x))
        },
{
    if results.len() == 0 {
        return DiagnosticResult::empty();
    }
    let ghost s = results@;
    let ghost fc = |x: DiagnosticResult| critical_of(x);
    let ghost fe = |x: DiagnosticResult| error_of(x);
    let ghost fw = |x: DiagnosticResult| warning_of(x);
    let ghost fi = |x: DiagnosticResult| info_of(x);
    let ghost fd = |x: DiagnosticResult| debug_of(x);
    let ghost ft = |x: DiagnosticResult| total_of(x);
    let mut worst: usize = 0;
    let mut critical: usize = 0;
    let mut error: usize = 0;
    let mut warning: usize = 0;
    let mut info: usize = 0;
    let mut debug: usize = 0;
    let mut total: usize = 0;
    let mut i: usize = 0;
    assert(s.take(0) == Seq::<DiagnosticResult>::empty());
    while i < results.len()
        invariant
            s == results@,
            sums_fit(s),
            i <= s.len(),
            s.len() > 0,
            worst < s.len(),
            i > 0 ==> worst < i,
            forall|k: int| 0 <= k < i ==> s[worst as int].score <= (#[trigger] s[k]).score,
            forall|k: int| 0 <= k < worst ==> s[worst as int].score < (#[trigger] s[k]).score,
            i == 0 ==> worst == 0,
            fc == (|x: DiagnosticResult| critical_of(x)),
            fe == (|x: DiagnosticResult| error_of(x)),
            fw == (|x: DiagnosticResult| warning_of(x)),
            fi == (|x: DiagnosticResult| info_of(x)),
            fd == (|x: DiagnosticResult| debug_of(x)),
            ft == (|x: DiagnosticResult| total_of(x)),
            critical == sum_counts(s.take(i as int), fc),
            error == sum_counts(s.take(i as int), fe),
            warning == sum_counts(s.take(i as int), fw),
            info == sum_counts(s.take(i as int), fi),
            debug == sum_counts(s.take(i as int), fd),
            total == sum_counts(s.take(i as int), ft),
        decreases s.len() - i,
    {
        let r = &results[i];
        if i > 0 && r.score < results[worst].score {
            worst = i;
        }
        proof {
            lemma_sum_step(s, fc, i as int);
            lemma_sum_step(s, fe, i as int);
            lemma_sum_step(s, fw, i as int);
            lemma_sum_step(s, fi, i as int);
            lemma_sum_step(s, fd, i as int);
            lemma_sum_step(s, ft, i as int);
            lemma_sum_prefix(s, fc, i + 1);
            lemma_sum_prefix(s, fe, i + 1);
            lemma_sum_prefix(s, fw, i + 1);
            lemma_sum_prefix(s, fi, i + 1);
            lemma_sum_prefix(s, fd, i + 1);
            lemma_sum_prefix(s, ft, i + 1);
        }
        critical = critical + r.critical_count;
        error = error + r.error_count;
        warning = warning + r.warning_count;
        info = info + r.info_count;
        debug = debug + r.debug_count;
        total = total + r.total_count;
        i = i + 1;
    }
    assert(s.take(s.len() as int) == s);
    let w = &results[worst];
    let r = DiagnosticResult {
        title: w.title.clone(),
        description: w.description.clone(),
        score: w.score,
        critical_count: critical,
        error_count: error,
        warning_count: warning,
        info_count: info,
        debug_count: debug,
        total_count: total,
        status: w.status,
    };
    assert(is_first_lowest(results@, worst as int));
    r
}

} // verus!
