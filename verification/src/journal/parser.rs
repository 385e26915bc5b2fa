//! Turning the fields of one `journalctl -o json` record into a log entry.
use crate::clock::{current_micros, timestamp_in_range, timestamp_representable};
use crate::models::log_entry::{severity_of_priority, LogEntry, LogEntryView, Tags};
use crate::text::{chars_of, parse_i64, parse_i64_chars, parse_unsigned, parse_unsigned_chars};
use vstd::prelude::*;

verus! {

/// The string-valued fields of a journal record that an entry is built from; a field
/// that is missing, or whose JSON value is not a string, is `None`.
pub struct JournalFields {
    pub message: Option<String>,
    pub priority: Option<String>,
    pub realtime_timestamp: Option<String>,
    pub comm: Option<String>,
    pub syslog_identifier: Option<String>,
    pub systemd_unit: Option<String>,
    pub pid: Option<String>,
    pub transport: Option<String>,
    pub hostname: Option<String>,
    pub exe: Option<String>,
}

/// The fields of a journal record as character sequences.
pub struct JournalFieldsView {
    pub message: Option<Seq<char>>,
    pub priority: Option<Seq<char>>,
    pub realtime_timestamp: Option<Seq<char>>,
    pub comm: Option<Seq<char>>,
    pub syslog_identifier: Option<Seq<char>>,
    pub systemd_unit: Option<Seq<char>>,
    pub pid: Option<Seq<char>>,
    pub transport: Option<Seq<char>>,
    pub hostname: Option<Seq<char>>,
    pub exe: Option<Seq<char>>,
}

impl View for JournalFields {
    type V = JournalFieldsView;

    open spec fn view(&self) -> JournalFieldsView {
        JournalFieldsView {
            message: self.message.deep_view(),
            priority: self.priority.deep_view(),
            realtime_timestamp: self.realtime_timestamp.deep_view(),
            comm: self.comm.deep_view(),
            syslog_identifier: self.syslog_identifier.deep_view(),
            systemd_unit: self.systemd_unit.deep_view(),
            pid: self.pid.deep_view(),
            transport: self.transport.deep_view(),
            hostname: self.hostname.deep_view(),
            exe: self.exe.deep_view(),
        }
    }
}

/// The priority of a record: its `PRIORITY` read as a `u8`, else 6 (informational).
pub open spec fn record_priority(f: JournalFieldsView) -> u8 {
    match f.priority {
        Some(t) => match parse_unsigned(t, 255) {
            Some(v) => v as u8,
            None => 6,
        },
        None => 6,
    }
}

/// The realtime stamp of a record: its `__REALTIME_TIMESTAMP` read as an `i64`, else 0.
pub open spec fn record_realtime(f: JournalFieldsView) -> int {
    match f.realtime_timestamp {
        Some(t) => match parse_i64(t) {
            Some(v) => v,
            None => 0,
        },
        None => 0,
    }
}

/// The process of a record: `_COMM`, else `SYSLOG_IDENTIFIER`, else `unknown`.
pub open spec fn record_process(f: JournalFieldsView) -> Seq<char> {
    match f.comm {
        Some(c) => c,
        None => match f.syslog_identifier {
            Some(s) => s,
            None => "unknown"@,
        },
    }
}

/// The process id of a record: `_PID` where it reads as a `u32`.
pub open spec fn record_pid(f: JournalFieldsView) -> Option<u32> {
    match f.pid {
        Some(t) => match parse_unsigned(t, 0xffff_ffff) {
            Some(v) => Some(v as u32),
            None => None,
        },
        None => None,
    }
}

/// The tags of a record: `systemd` when it names a unit, then `alert` when its
/// priority is 3 (error) or more severe.
pub open spec fn record_tags(f: JournalFieldsView) -> Seq<Seq<char>> {
    let unit_tag: Seq<Seq<char>> = if f.systemd_unit is Some {
        seq!["systemd"@]
    } else {
        Seq::empty()
    };
    if record_priority(f) <= 3 {
        unit_tag.push("alert"@)
    } else {
        unit_tag
    }
}

/// The entry a record with a message becomes. Its timestamp is the record's realtime
/// stamp where chrono represents that instant, else `fallback` (the time of reading).
pub open spec fn record_entry(f: JournalFieldsView, seq_id: u64, fallback: int) -> LogEntryView {
    let prio = record_priority(f);
    let rt = record_realtime(f);
    LogEntryView {
        seq_id,
        timestamp: (if timestamp_in_range(rt) {
            rt
        } else {
            fallback
        }) as i64,
        priority: prio,
        process: record_process(f),
        pid: record_pid(f),
        systemd_unit: f.systemd_unit,
        transport: f.transport,
        hostname: f.hostname,
        executable: f.exe,
        message: f.message.unwrap(),
        severity: severity_of_priority(prio),
        tags: record_tags(f),
    }
}

fn field_priority(f: &JournalFields) -> (p: u8)
    ensures
        p == record_priority(f@),
{
    match &f.priority {
        Some(t) => match parse_unsigned_chars(&chars_of(t.as_str()), 255) {
            Some(v) => v as u8,
            None => 6,
        },
        None => 6,
    }
}

fn field_realtime(f: &JournalFields) -> (r: i64)
    ensures
        r == record_realtime(f@),
{
    match &f.realtime_timestamp {
        Some(t) => match parse_i64_chars(&chars_of(t.as_str())) {
            Some(v) => v,
            None => 0,
        },
        None => 0,
    }
}

fn field_pid(f: &JournalFields) -> (p: Option<u32>)
    ensures
        p == record_pid(f@),
{
    match &f.pid {
        Some(t) => match parse_unsigned_chars(&chars_of(t.as_str()), 0xffff_ffff) {
            Some(v) => Some(v as u32),
            None => None,
        },
        None => None,
    }
}

/// Builds the entry of a record, using `fallback` as its timestamp where the record's
/// realtime stamp is not an instant chrono represents. A record without a message
/// gives no entry.
pub fn entry_from_fields(f: JournalFields, seq_id: u64, fallback: i64) -> (res: Option<LogEntry>)
    requires
        timestamp_in_range(fallback as int),
    ensures
        res is None <==> f@.message is None,
        res matches Some(e) ==> e.wf() && e@ == record_entry(f@, seq_id, fallback as int),
{
    let ghost fv = f@;
    let prio = field_priority(&f);
    let realtime = field_realtime(&f);
    let pid = field_pid(&f);
    let timestamp = if timestamp_representable(realtime) {
        realtime
    } else {
        fallback
    };
    let JournalFields {
        message,
        priority: _,
        realtime_timestamp: _,
        comm,
        syslog_identifier,
        systemd_unit,
        pid: _,
        transport,
        hostname,
        exe,
    } = f;
    let message = match message {
        Some(m) => m,
        None => {
            return None;
        },
    };
    let process = match comm {
        Some(c) => c,
        None => match syslog_identifier {
            Some(s) => s,
            None => String::from_str("unknown"),
        },
    };
    let mut tags = Tags::new();
    if systemd_unit.is_some() {
        tags.push(String::from_str("systemd"));
    }
    if prio <= 3 {
        tags.push(String::from_str("alert"));
    }
    proof {
        reveal_strlit("systemd");
        reveal_strlit("alert");
        reveal_strlit("unknown");
    }
    let sev = crate::models::log_entry::Severity::from_priority(prio);
    let e = LogEntry::new_with_seq(
        seq_id,
        timestamp,
        prio,
        process,
        pid,
        systemd_unit,
        transport,
        hostname,
        exe,
        message,
        sev,
        tags,
    );
    assert(e@.tags == record_tags(fv));
    assert(e@ == record_entry(fv, seq_id, fallback as int));
    Some(e)
}

/// Builds the entry of a record; where the record's realtime stamp is not an instant
/// chrono represents, the entry is stamped with the current time (`current_micros`). A record without a
/// message gives no entry. Every other field is as `record_entry` states.
pub fn parse_entry(f: JournalFields, seq_id: u64) -> (res: Option<LogEntry>)
    ensures
        res is None <==> f@.message is None,
        res matches Some(e) ==> e.wf() && exists|now: int|
            timestamp_in_range(now) && e@ == record_entry(f@, seq_id, now),
        res matches Some(e) ==> (timestamp_in_range(record_realtime(f@)) ==> e.timestamp
            == record_realtime(f@)),
{
    let realtime = field_realtime(&f);
    let fallback = if timestamp_representable(realtime) {
        realtime
    } else {
        current_micros()
    };
    entry_from_fields(f, seq_id, fallback)
}

} // verus!
