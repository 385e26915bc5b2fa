//! A journal entry and its severity.
use crate::clock::timestamp_in_range;
use crate::text::{ascii_lower, contains_seq, occurs_at, str_contains, to_ascii_lowercase};
use smallvec::SmallVec;
use vstd::prelude::*;
use vstd::utf8::encode_utf8;

verus! {

/// The tags of an entry: a small list that keeps up to four tags inline.
#[verifier::external_body]
pub struct Tags {
    inner: SmallVec<[String; 4]>,
}

/// The texts a list of tags holds, in order.
pub uninterp spec fn tag_texts(tags: Tags) -> Seq<Seq<char>>;

impl Tags {
    /// `SmallVec::new`: a list that holds no tag.
    #[verifier::external_body]
    pub fn new() -> (res: Tags)
        ensures
            tag_texts(res) == Seq::<Seq<char>>::empty(),
    {
        Tags { inner: SmallVec::new() }
    }

    /// `SmallVec::push`: the tag is appended after those held. While fewer tags than the
    /// inline capacity are held, the push stays inline and cannot fail.
    #[verifier::external_body]
    pub fn push(&mut self, tag: String)
        requires
            tag_texts(*old(self)).len() < 4,
        ensures
            tag_texts(*final(self)) == tag_texts(*old(self)).push(tag@),
    {
        self.inner.push(tag)
    }

    /// `SmallVec::from_vec`: a list that holds the given tags, in order.
    #[verifier::external_body]
    pub fn from_vec(tags: Vec<String>) -> (res: Tags)
        ensures
            tag_texts(res) == tags.deep_view(),
    {
        Tags { inner: SmallVec::from_vec(tags) }
    }

    /// `SmallVec::to_vec`: the tags held, in order.
    #[verifier::external_body]
    pub fn to_vec(&self) -> (res: Vec<String>)
        ensures
            res.deep_view() == tag_texts(*self),
    {
        self.inner.to_vec()
    }
}

/// `Clone::clone` of a list of tags: a list that holds clones of the same texts, in order.
#[verifier::external_body]
fn clone_tags(tags: &Tags) -> (res: Tags)
    ensures
        tag_texts(res) == tag_texts(*tags),
{
    Tags { inner: tags.inner.clone() }
}

/// Severity of a journal entry, from the most to the least severe.
#[derive(Debug, Clone, Copy, PartialEq, Eq, Structural)]
pub enum Severity {
    Critical,
    Error,
    Warning,
    Info,
    Debug,
}

/// The severity that a syslog priority (0 = emergency .. 7 = debug) maps to.
pub open spec fn severity_of_priority(prio: u8) -> Severity {
    if prio <= 2 {
        Severity::Critical
    } else if prio == 3 {
        Severity::Error
    } else if prio == 4 {
        Severity::Warning
    } else if prio <= 6 {
        Severity::Info
    } else {
        Severity::Debug
    }
}

/// The position of a severity in the order Critical < Error < Warning < Info < Debug.
pub open spec fn severity_rank(s: Severity) -> int {
    match s {
        Severity::Critical => 0,
        Severity::Error => 1,
        Severity::Warning => 2,
        Severity::Info => 3,
        Severity::Debug => 4,
    }
}

/// The syslog priority that stands for a severity.
pub open spec fn priority_of_severity(s: Severity) -> u8 {
    match s {
        Severity::Critical => 2,
        Severity::Error => 3,
        Severity::Warning => 4,
        Severity::Info => 6,
        Severity::Debug => 7,
    }
}

/// The lower-case name of a severity.
pub open spec fn severity_name(s: Severity) -> Seq<char> {
    match s {
        Severity::Critical => "critical"@,
        Severity::Error => "error"@,
        Severity::Warning => "warning"@,
        Severity::Info => "info"@,
        Severity::Debug => "debug"@,
    }
}

pub open spec fn severity_css(s: Severity) -> Seq<char> {
    match s {
        Severity::Critical => "severity-critical"@,
        Severity::Error => "severity-error"@,
        Severity::Warning => "severity-warning"@,
        Severity::Info => "severity-info"@,
        Severity::Debug => "severity-debug"@,
    }
}

pub open spec fn severity_icon(s: Severity) -> Seq<char> {
    match s {
        Severity::Critical => "dialog-error-symbolic"@,
        Severity::Error => "dialog-error-symbolic"@,
        Severity::Warning => "dialog-warning-symbolic"@,
        Severity::Info => "emblem-ok-symbolic"@,
        Severity::Debug => "system-run-symbolic"@,
    }
}

impl Severity {
    pub fn from_priority(prio: u8) -> (s: Severity)
        ensures
            s == severity_of_priority(prio),
    {
        match prio {
            0..=2 => Severity::Critical,
            3 => Severity::Error,
            4 => Severity::Warning,
            5..=6 => Severity::Info,
            _ => Severity::Debug,
        }
    }

    pub fn priority_value(&self) -> (p: u8)
        ensures
            p == priority_of_severity(*self),
    {
        match self {
            Severity::Critical => 2,
            Severity::Error => 3,
            Severity::Warning => 4,
            Severity::Info => 6,
            Severity::Debug => 7,
        }
    }

    /// The position of the severity, most severe first.
    pub fn rank(&self) -> (r: u8)
        ensures
            r == severity_rank(*self),
    {
        match self {
            Severity::Critical => 0,
            Severity::Error => 1,
            Severity::Warning => 2,
            Severity::Info => 3,
            Severity::Debug => 4,
        }
    }

    pub fn css_class(&self) -> (res: &'static str)
        ensures
            res@ == severity_css(*self),
    {
        match self {
            Severity::Critical => "severity-critical",
            Severity::Error => "severity-error",
            Severity::Warning => "severity-warning",
            Severity::Info => "severity-info",
            Severity::Debug => "severity-debug",
        }
    }

    pub fn icon_name(&self) -> (res: &'static str)
        ensures
            res@ == severity_icon(*self),
    {
        match self {
            Severity::Critical => "dialog-error-symbolic",
            Severity::Error => "dialog-error-symbolic",
            Severity::Warning => "dialog-warning-symbolic",
            Severity::Info => "emblem-ok-symbolic",
            Severity::Debug => "system-run-symbolic",
        }
    }

    /// The lower-case name of the severity (what `Display` prints).
    pub fn as_str(&self) -> (res: &'static str)
        ensures
            res@ == severity_name(*self),
    {
        match self {
            Severity::Critical => "critical",
            Severity::Error => "error",
            Severity::Warning => "warning",
            Severity::Info => "info",
            Severity::Debug => "debug",
        }
    }

    pub fn to_string(&self) -> (res: String)
        ensures
            res@ == severity_name(*self),
    {
        String::from_str(self.as_str())
    }
}

/// The syslog priorities of each severity: emergency, alert and critical (0 to 2) are
/// Critical, error (3) is Error, warning (4) is Warning, notice and informational (5 and
/// 6) are Info, and debug (7) and anything above it are Debug.
pub proof fn lemma_priority_bands(prio: u8)
    ensures
        severity_of_priority(prio) == Severity::Critical <==> prio <= 2,
        severity_of_priority(prio) == Severity::Error <==> prio == 3,
        severity_of_priority(prio) == Severity::Warning <==> prio == 4,
        severity_of_priority(prio) == Severity::Info <==> (prio == 5 || prio == 6),
        severity_of_priority(prio) == Severity::Debug <==> prio >= 7,
{
}

/// Whether the priority of a severity maps back to that severity.
pub proof fn lemma_priority_round_trip(s: Severity)
    ensures
        severity_of_priority(priority_of_severity(s)) == s,
{
}

/// One journal entry.
///
/// `timestamp` counts microseconds since the Unix epoch (UTC).
pub struct LogEntry {
    pub seq_id: u64,
    pub timestamp: i64,
    pub priority: u8,
    pub process: String,
    pub pid: Option<u32>,
    pub systemd_unit: Option<String>,
    pub transport: Option<String>,
    pub hostname: Option<String>,
    pub executable: Option<String>,
    pub message: String,
    pub severity: Severity,
    pub tags: Tags,
    /// `process`, ASCII lower-cased (kept for case-insensitive matching).
    pub process_lc: String,
    /// `message`, ASCII lower-cased (kept for case-insensitive matching).
    pub message_lc: String,
}

/// What an entry holds, its texts taken as character sequences.
pub struct LogEntryView {
    pub seq_id: u64,
    pub timestamp: i64,
    pub priority: u8,
    pub process: Seq<char>,
    pub pid: Option<u32>,
    pub systemd_unit: Option<Seq<char>>,
    pub transport: Option<Seq<char>>,
    pub hostname: Option<Seq<char>>,
    pub executable: Option<Seq<char>>,
    pub message: Seq<char>,
    pub severity: Severity,
    pub tags: Seq<Seq<char>>,
}

impl View for LogEntry {
    type V = LogEntryView;

    open spec fn view(&self) -> LogEntryView {
        LogEntryView {
            seq_id: self.seq_id,
            timestamp: self.timestamp,
            priority: self.priority,
            process: self.process@,
            pid: self.pid,
            systemd_unit: self.systemd_unit.deep_view(),
            transport: self.transport.deep_view(),
            hostname: self.hostname.deep_view(),
            executable: self.executable.deep_view(),
            message: self.message@,
            severity: self.severity,
            tags: tag_texts(self.tags),
        }
    }
}

/// The views of a sequence of entries.
pub open spec fn entries_view(s: Seq<LogEntry>) -> Seq<LogEntryView> {
    s.map_values(|e: LogEntry| e@)
}

/// Every entry of the sequence is well formed.
pub open spec fn all_wf(s: Seq<LogEntry>) -> bool {
    forall|i: int| 0 <= i < s.len() ==> (#[trigger] s[i]).wf()
}

/// The text of an optional field, the empty text where it is absent.
pub open spec fn opt_text(o: Option<Seq<char>>) -> Seq<char> {
    match o {
        Some(s) => s,
        None => Seq::empty(),
    }
}

/// `needle` occurs in the UTF-8 bytes of the ASCII lower-cased `field`.
pub open spec fn bytes_occur(field: Seq<char>, needle: Seq<u8>) -> bool {
    contains_seq(encode_utf8(ascii_lower(field)), needle)
}

/// `needle` occurs in the UTF-8 bytes of the ASCII lower-cased optional `field`.
pub open spec fn opt_bytes_occur(field: Option<Seq<char>>, needle: Seq<u8>) -> bool {
    match field {
        Some(s) => bytes_occur(s, needle),
        None => false,
    }
}

/// The needle occurs in the bytes of the lower-cased process, message, unit,
/// hostname or executable of the entry.
pub open spec fn entry_bytes_match(e: LogEntryView, needle: Seq<u8>) -> bool {
    ||| bytes_occur(e.process, needle)
    ||| bytes_occur(e.message, needle)
    ||| opt_bytes_occur(e.systemd_unit, needle)
    ||| opt_bytes_occur(e.hostname, needle)
    ||| opt_bytes_occur(e.executable, needle)
}

/// The lower-cased query occurs in the lower-cased process, message, unit, hostname or
/// executable of the entry (an absent field counts as empty).
pub open spec fn entry_text_match(e: LogEntryView, query: Seq<char>) -> bool {
    let q = ascii_lower(query);
    ||| contains_seq(ascii_lower(e.process), q)
    ||| contains_seq(ascii_lower(e.message), q)
    ||| contains_seq(ascii_lower(opt_text(e.systemd_unit)), q)
    ||| contains_seq(ascii_lower(opt_text(e.hostname)), q)
    ||| contains_seq(ascii_lower(opt_text(e.executable)), q)
}

impl LogEntry {
    /// The cached lower-case copies agree with the fields they copy, and the
    /// timestamp is an instant that `chrono` represents.
    pub open spec fn wf(&self) -> bool {
        &&& self.process_lc@ == ascii_lower(self.process@)
        &&& self.message_lc@ == ascii_lower(self.message@)
        &&& timestamp_in_range(self.timestamp as int)
    }

    /// Builds an entry with the given sequence number.
    pub fn new_with_seq(
        seq_id: u64,
        timestamp: i64,
        priority: u8,
        process: String,
        pid: Option<u32>,
        systemd_unit: Option<String>,
        transport: Option<String>,
        hostname: Option<String>,
        executable: Option<String>,
        message: String,
        severity: Severity,
        tags: Tags,
    ) -> (e: LogEntry)
        requires
            timestamp_in_range(timestamp as int),
        ensures
            e.wf(),
            e.seq_id == seq_id,
            e.timestamp == timestamp,
            e.priority == priority,
            e.process == process,
            e.pid == pid,
            e.systemd_unit == systemd_unit,
            e.transport == transport,
            e.hostname == hostname,
            e.executable == executable,
            e.message == message,
            e.severity == severity,
            e.tags == tags,
            e@.tags == tag_texts(tags),
    {
        let process_lc = to_ascii_lowercase(process.as_str());
        let message_lc = to_ascii_lowercase(message.as_str());
        LogEntry {
            seq_id,
            timestamp,
            priority,
            process,
            pid,
            systemd_unit,
            transport,
            hostname,
            executable,
            message,
            severity,
            tags,
            process_lc,
            message_lc,
        }
    }

    pub fn process_lower(&self) -> (res: &str)
        requires
            self.wf(),
        ensures
            res@ == ascii_lower(self.process@),
    {
        self.process_lc.as_str()
    }

    pub fn message_lower(&self) -> (res: &str)
        requires
            self.wf(),
        ensures
            res@ == ascii_lower(self.message@),
    {
        self.message_lc.as_str()
    }

    /// Whether `needle` occurs in the UTF-8 bytes of the lower-cased process, message,
    /// unit, hostname or executable.
    pub fn search_bytes_match(&self, needle: &[u8]) -> (res: bool)
        requires
            self.wf(),
        ensures
            res == entry_bytes_match(self@, needle@),
    {
        if bytes_contain(self.process_lc.as_str().as_bytes(), needle) {
            return true;
        }
        if bytes_contain(self.message_lc.as_str().as_bytes(), needle) {
            return true;
        }
        if let Some(u) = &self.systemd_unit {
            let u_lower = to_ascii_lowercase(u.as_str());
            if bytes_contain(u_lower.as_str().as_bytes(), needle) {
                return true;
            }
        }
        if let Some(h) = &self.hostname {
            let h_lower = to_ascii_lowercase(h.as_str());
            if bytes_contain(h_lower.as_str().as_bytes(), needle) {
                return true;
            }
        }
        if let Some(x) = &self.executable {
            let x_lower = to_ascii_lowercase(x.as_str());
            if bytes_contain(x_lower.as_str().as_bytes(), needle) {
                return true;
            }
        }
        false
    }

    /// Whether the ASCII lower-cased `query` occurs in the lower-cased process, message,
    /// unit, hostname or executable (an absent field counts as empty).
    pub fn matches_text(&self, query: &str) -> (res: bool)
        requires
            self.wf(),
        ensures
            res == entry_text_match(self@, query@),
    {
        let q = to_ascii_lowercase(query);
        if str_contains(self.process_lc.as_str(), q.as_str()) {
            return true;
        }
        if str_contains(self.message_lc.as_str(), q.as_str()) {
            return true;
        }
        let u = lower_opt(&self.systemd_unit);
        if str_contains(u.as_str(), q.as_str()) {
            return true;
        }
        let h = lower_opt(&self.hostname);
        if str_contains(h.as_str(), q.as_str()) {
            return true;
        }
        let x = lower_opt(&self.executable);
        str_contains(x.as_str(), q.as_str())
    }
}

/// A byte search looks in every searchable field: a needle found in the UTF-8 bytes of
/// the ASCII lower-cased process, message, unit, hostname or executable makes the entry
/// match, and an entry matches only where one of them holds the needle. Other fields
/// (the transport, the tags) are not searched.
pub proof fn lemma_byte_search_fields(e: LogEntryView, needle: Seq<u8>)
    ensures
        contains_seq(encode_utf8(ascii_lower(e.process)), needle) ==> entry_bytes_match(e, needle),
        contains_seq(encode_utf8(ascii_lower(e.message)), needle) ==> entry_bytes_match(e, needle),
        forall|u: Seq<char>|
            e.systemd_unit == Some(u) && #[trigger] contains_seq(encode_utf8(ascii_lower(u)), needle)
                ==> entry_bytes_match(e, needle),
        forall|h: Seq<char>|
            e.hostname == Some(h) && #[trigger] contains_seq(encode_utf8(ascii_lower(h)), needle)
                ==> entry_bytes_match(e, needle),
        forall|x: Seq<char>|
            e.executable == Some(x) && #[trigger] contains_seq(encode_utf8(ascii_lower(x)), needle)
                ==> entry_bytes_match(e, needle),
        entry_bytes_match(e, needle) ==> {
            ||| contains_seq(encode_utf8(ascii_lower(e.process)), needle)
            ||| contains_seq(encode_utf8(ascii_lower(e.message)), needle)
            ||| (e.systemd_unit is Some && contains_seq(
                encode_utf8(ascii_lower(e.systemd_unit.unwrap())),
                needle,
            ))
            ||| (e.hostname is Some && contains_seq(encode_utf8(ascii_lower(e.hostname.unwrap())), needle))
            ||| (e.executable is Some && contains_seq(
                encode_utf8(ascii_lower(e.executable.unwrap())),
                needle,
            ))
        },
        forall|t: Seq<Seq<char>>, tr: Option<Seq<char>>|
            entry_bytes_match(e, needle) == #[trigger] entry_bytes_match(
                (LogEntryView { tags: t, transport: tr, ..e }),
                needle,
            ),
{
}

/// A text search looks in every searchable field: the ASCII lower-cased query found in
/// the lower-cased process, message, unit, hostname or executable makes the entry match,
/// and an entry matches only where one of them holds it.
pub proof fn lemma_text_search_fields(e: LogEntryView, query: Seq<char>)
    ensures
        contains_seq(ascii_lower(e.process), ascii_lower(query)) ==> entry_text_match(e, query),
        contains_seq(ascii_lower(e.message), ascii_lower(query)) ==> entry_text_match(e, query),
        forall|u: Seq<char>|
            e.systemd_unit == Some(u) && #[trigger] contains_seq(ascii_lower(u), ascii_lower(query))
                ==> entry_text_match(e, query),
        forall|h: Seq<char>|
            e.hostname == Some(h) && #[trigger] contains_seq(ascii_lower(h), ascii_lower(query))
                ==> entry_text_match(e, query),
        forall|x: Seq<char>|
            e.executable == Some(x) && #[trigger] contains_seq(ascii_lower(x), ascii_lower(query))
                ==> entry_text_match(e, query),
        entry_text_match(e, query) ==> {
            ||| contains_seq(ascii_lower(e.process), ascii_lower(query))
            ||| contains_seq(ascii_lower(e.message), ascii_lower(query))
            ||| contains_seq(ascii_lower(opt_text(e.systemd_unit)), ascii_lower(query))
            ||| contains_seq(ascii_lower(opt_text(e.hostname)), ascii_lower(query))
            ||| contains_seq(ascii_lower(opt_text(e.executable)), ascii_lower(query))
        },
{
}

/// The ASCII lower-cased text of an optional field, empty where it is absent.
pub fn lower_opt(o: &Option<String>) -> (res: String)
    ensures
        res@ == ascii_lower(opt_text(o.deep_view())),
{
    match o {
        Some(s) => {
            assert(opt_text(o.deep_view()) == s@);
            to_ascii_lowercase(s.as_str())
        },
        None => {
            let e = String::new();
            to_ascii_lowercase(e.as_str())
        },
    }
}

/// `memchr::memmem::find`: the index of the first occurrence of `needle` in
/// `haystack`, or `None` where it does not occur.
#[verifier::external_body]
fn memmem_find(haystack: &[u8], needle: &[u8]) -> (res: Option<usize>)
    ensures
        match res {
            Some(i) => occurs_at(haystack@, needle@, i as int) && forall|j: int|
                0 <= j < i ==> !occurs_at(haystack@, needle@, j),
            None => !contains_seq(haystack@, needle@),
        },
{
    memchr::memmem::find(haystack, needle)
}

/// Whether `needle` occurs in `haystack`.
fn bytes_contain(haystack: &[u8], needle: &[u8]) -> (res: bool)
    ensures
        res == contains_seq(haystack@, needle@),
{
    match memmem_find(haystack, needle) {
        Some(_) => true,
        None => false,
    }
}


/// A copy of an optional text field.
fn clone_opt(o: &Option<String>) -> (res: Option<String>)
    ensures
        res.deep_view() == o.deep_view(),
{
    match o {
        Some(s) => Some(s.clone()),
        None => None,
    }
}

impl Clone for LogEntry {
    fn clone(&self) -> (res: Self)
        ensures
            res@ == self@,
            self.wf() ==> res.wf(),
    {
        LogEntry {
            seq_id: self.seq_id,
            timestamp: self.timestamp,
            priority: self.priority,
            process: self.process.clone(),
            pid: self.pid,
            systemd_unit: clone_opt(&self.systemd_unit),
            transport: clone_opt(&self.transport),
            hostname: clone_opt(&self.hostname),
            executable: clone_opt(&self.executable),
            message: self.message.clone(),
            severity: self.severity,
            tags: clone_tags(&self.tags),
            process_lc: self.process_lc.clone(),
            message_lc: self.message_lc.clone(),
        }
    }
}

} // verus!
