//! The CSV rendering of log entries, shared by the CSV export and the archive export.
use crate::clock::{rfc3339_text, to_rfc3339};
use crate::models::log_entry::{all_wf, entries_view, opt_text, severity_name, LogEntry, LogEntryView};
use crate::text::{append_text, chars_of, decimal, push_decimal, string_from_chars};
use vstd::prelude::*;

verus! {

/// `s` with every double quote doubled (`str::replace('"', "\"\"")`).
pub open spec fn double_quotes(s: Seq<char>) -> Seq<char>
    decreases s.len(),
{
    if s.len() == 0 {
        Seq::empty()
    } else if s.last() == '"' {
        double_quotes(s.drop_last()) + seq!['"', '"']
    } else {
        double_quotes(s.drop_last()).push(s.last())
    }
}

/// Undoes the doubling of double quotes: a pair of double quotes becomes one.
pub open spec fn undouble_quotes(s: Seq<char>) -> Seq<char>
    decreases s.len(),
{
    if s.len() == 0 {
        Seq::empty()
    } else if s.len() >= 2 && s.last() == '"' && s[s.len() - 2] == '"' {
        undouble_quotes(s.subrange(0, s.len() - 2)).push('"')
    } else {
        undouble_quotes(s.drop_last()).push(s.last())
    }
}

/// How a reader of RFC 4180 takes a field back: a field enclosed in double quotes loses
/// them and has its doubled quotes undone; any other field is read as it is.
pub open spec fn csv_field_value(f: Seq<char>) -> Seq<char> {
    if f.len() >= 2 && f[0] == '"' && f.last() == '"' {
        undouble_quotes(f.subrange(1, f.len() - 1))
    } else {
        f
    }
}

/// A field must be quoted when it holds a comma, a double quote or a line feed.
pub open spec fn needs_quoting(s: Seq<char>) -> bool {
    s.contains(',') || s.contains('"') || s.contains('\n')
}

/// A field as it is written into a CSV record: quoted, with its quotes doubled, where it
/// needs quoting, else as it is.
pub open spec fn csv_escaped(s: Seq<char>) -> Seq<char> {
    if needs_quoting(s) {
        seq!['"'] + double_quotes(s) + seq!['"']
    } else {
        s
    }
}

/// The process id as written into a record: its decimal digits, or nothing.
pub open spec fn pid_text(pid: Option<u32>) -> Seq<char> {
    match pid {
        Some(p) => decimal(p as nat),
        None => Seq::empty(),
    }
}

/// The first line of a CSV export (without its line feed).
pub open spec fn csv_header_text() -> Seq<char> {
    "timestamp,priority,severity,process,pid,systemd_unit,hostname,message"@
}

/// One record of the CSV export, line feed included: the RFC 3339 timestamp, the
/// priority, the severity name, the escaped process, the pid, the escaped unit and
/// hostname (empty where absent), and the message, always quoted.
pub open spec fn csv_record(e: LogEntryView) -> Seq<char> {
    csv_record_with(e, rfc3339_text(e.timestamp as int))
}

/// The record of an entry whose timestamp is written as `stamp`.
pub open spec fn csv_record_with(e: LogEntryView, stamp: Seq<char>) -> Seq<char> {
    record_head(e, stamp) + record_tail(e)
}

/// The timestamp (written as `stamp`), priority, severity, process and pid fields of a
/// record, each followed by a comma.
pub open spec fn record_head(e: LogEntryView, stamp: Seq<char>) -> Seq<char> {
    record_stamp(e, stamp) + record_source(e)
}

/// The timestamp (written as `stamp`) and priority fields of a record, each followed by a comma.
pub open spec fn record_stamp(e: LogEntryView, stamp: Seq<char>) -> Seq<char> {
    stamp + seq![','] + decimal(e.priority as nat) + seq![',']
}

/// The severity, process and pid fields of a record, each followed by a comma.
pub open spec fn record_source(e: LogEntryView) -> Seq<char> {
    severity_name(e.severity) + seq![','] + csv_escaped(e.process) + seq![','] + pid_text(e.pid)
        + seq![',']
}

/// The unit, hostname and message fields of a record, and its line feed.
pub open spec fn record_tail(e: LogEntryView) -> Seq<char> {
    csv_escaped(opt_text(e.systemd_unit)) + seq![','] + csv_escaped(opt_text(e.hostname))
        + seq![','] + seq!['"'] + double_quotes(e.message) + seq!['"', '\n']
}

/// The records of the entries, in order.
pub open spec fn csv_records(s: Seq<LogEntryView>) -> Seq<char>
    decreases s.len(),
{
    if s.len() == 0 {
        Seq::empty()
    } else {
        csv_records(s.drop_last()) + csv_record(s.last())
    }
}

/// The whole CSV export: the header line, then one record per entry.
pub open spec fn csv_document(s: Seq<LogEntryView>) -> Seq<char> {
    csv_header_text() + seq!['\n'] + csv_records(s)
}

/// Doubling the quotes of a text and undoing it gives the text back.
pub proof fn lemma_undouble_double(s: Seq<char>)
    ensures
        undouble_quotes(double_quotes(s)) == s,
    decreases s.len(),
{
    if s.len() > 0 {
        let init = s.drop_last();
        lemma_undouble_double(init);
        let d = double_quotes(s);
        if s.last() == '"' {
            assert(d.subrange(0, d.len() - 2) == double_quotes(init));
        } else {
            lemma_double_quotes_last(init);
            assert(d.drop_last() == double_quotes(init));
            assert(!(d.len() >= 2 && d.last() == '"'));
        }
        assert(s == init.push(s.last()));
    }
}

/// The doubled text ends in a quote only where the text itself does.
proof fn lemma_double_quotes_last(s: Seq<char>)
    ensures
        double_quotes(s).len() >= s.len(),
        s.len() > 0 ==> double_quotes(s).last() == s.last(),
        s.len() == 0 ==> double_quotes(s).len() == 0,
    decreases s.len(),
{
    if s.len() > 0 {
        lemma_double_quotes_last(s.drop_last());
    }
}

/// A text without double quotes is its own doubling.
proof fn lemma_double_quotes_plain(s: Seq<char>)
    requires
        !s.contains('"'),
    ensures
        double_quotes(s) == s,
    decreases s.len(),
{
    if s.len() > 0 {
        let init = s.drop_last();
        assert(!init.contains('"')) by {
            if init.contains('"') {
                let k = choose|k: int| 0 <= k < init.len() && init[k] == '"';
                assert(s[k] == '"');
            }
        }
        lemma_double_quotes_plain(init);
        assert(s.last() == s[s.len() - 1]);
        assert(s == init.push(s.last()));
    }
}

/// A field written by the export reads back as the value it was written from.
pub proof fn lemma_csv_field_round_trip(s: Seq<char>)
    ensures
        csv_field_value(csv_escaped(s)) == s,
{
    if needs_quoting(s) {
        let f = csv_escaped(s);
        assert(f.subrange(1, f.len() - 1) == double_quotes(s));
        lemma_undouble_double(s);
    } else {
        if s.len() >= 2 && s[0] == '"' {
            assert(s.contains('"'));
        }
    }
}

/// Appends `v[..]` with every double quote doubled.
fn push_doubled_quotes(out: &mut Vec<char>, v: &Vec<char>)
    ensures
        final(out)@ == old(out)@ + double_quotes(v@),
{
    let mut i: usize = 0;
    while i < v.len()
        invariant
            i <= v.len(),
            out@ == old(out)@ + double_quotes(v@.take(i as int)),
        decreases v.len() - i,
    {
        let c = v[i];
        proof {
            let t = v@.take(i + 1);
            assert(t.drop_last() == v@.take(i as int));
            assert(t.last() == c);
        }
        if c == '"' {
            out.push('"');
            out.push('"');
        } else {
            out.push(c);
        }
        i = i + 1;
    }
    assert(v@.take(v.len() as int) == v@);
}

/// Whether `c` occurs in `v`.
fn holds_char(v: &Vec<char>, c: char) -> (res: bool)
    ensures
        res == v@.contains(c),
{
    let mut i: usize = 0;
    while i < v.len()
        invariant
            i <= v.len(),
            forall|k: int| 0 <= k < i ==> v@[k] != c,
        decreases v.len() - i,
    {
        if v[i] == c {
            return true;
        }
        i = i + 1;
    }
    false
}

/// Appends `s` as a CSV field.
fn push_escaped(out: &mut Vec<char>, s: &str)
    ensures
        final(out)@ == old(out)@ + csv_escaped(s@),
{
    let v = chars_of(s);
    if holds_char(&v, ',') || holds_char(&v, '"') || holds_char(&v, '\n') {
        out.push('"');
        push_doubled_quotes(out, &v);
        out.push('"');
        assert(out@ == old(out)@ + (seq!['"'] + double_quotes(s@) + seq!['"']));
    } else {
        append_text(out, s);
    }
}

/// Escapes one CSV field: a field holding a comma, a double quote or a line feed is
/// quoted, with its double quotes doubled; any other field is returned as it is.
pub fn csv_escape(s: &str) -> (res: String)
    ensures
        res@ == csv_escaped(s@),
{
    let mut out: Vec<char> = Vec::new();
    push_escaped(&mut out, s);
    assert(out@ == csv_escaped(s@));
    string_from_chars(out.as_slice())
}

/// Appends an optional text field as a CSV field, the empty field where it is absent.
fn push_escaped_opt(out: &mut Vec<char>, o: &Option<String>)
    ensures
        final(out)@ == old(out)@ + csv_escaped(opt_text(o.deep_view())),
{
    match o {
        Some(s) => push_escaped(out, s.as_str()),
        None => {
            proof {
                reveal_strlit("");
            }
            push_escaped(out, "");
        },
    }
}

/// Appends the timestamp and priority fields of a record.
fn push_record_stamp(out: &mut Vec<char>, e: &LogEntry, stamp: &str)
    ensures
        final(out)@ == old(out)@ + record_stamp(e@, stamp@),
{
    let ghost o = out@;
    append_text(out, stamp);
    out.push(',');
    let ghost a = out@;
    assert(a == o + (stamp@ + seq![',']));
    push_decimal(e.priority as u64, out);
    out.push(',');
    assert(out@ == a + (decimal(e.priority as nat) + seq![',']));
    assert(out@ == o + record_stamp(e@, stamp@));
}

/// Appends the severity, process and pid fields of a record.
fn push_record_source(out: &mut Vec<char>, e: &LogEntry)
    ensures
        final(out)@ == old(out)@ + record_source(e@),
{
    let ghost o = out@;
    append_text(out, e.severity.as_str());
    out.push(',');
    let ghost b = out@;
    assert(b == o + (severity_name(e.severity) + seq![',']));
    push_escaped(out, e.process.as_str());
    out.push(',');
    let ghost c = out@;
    assert(c == b + (csv_escaped(e.process@) + seq![',']));
    match e.pid {
        Some(p) => push_decimal(p as u64, out),
        None => {},
    }
    out.push(',');
    assert(out@ == c + (pid_text(e.pid) + seq![',']));
    assert(out@ == o + record_source(e@));
}

/// Appends the timestamp, priority, severity, process and pid fields of a record.
fn push_record_head(out: &mut Vec<char>, e: &LogEntry, stamp: &str)
    ensures
        final(out)@ == old(out)@ + record_head(e@, stamp@),
{
    let ghost o = out@;
    push_record_stamp(out, e, stamp);
    push_record_source(out, e);
    assert(out@ == o + record_head(e@, stamp@));
}

/// Appends the unit, hostname and message fields of a record, and its line feed.
fn push_record_tail(out: &mut Vec<char>, e: &LogEntry)
    ensures
        final(out)@ == old(out)@ + record_tail(e@),
{
    let ghost o = out@;
    push_escaped_opt(out, &e.systemd_unit);
    out.push(',');
    let ghost a = out@;
    assert(a == o + (csv_escaped(opt_text(e@.systemd_unit)) + seq![',']));
    push_escaped_opt(out, &e.hostname);
    out.push(',');
    out.push('"');
    let ghost b = out@;
    assert(b == a + (csv_escaped(opt_text(e@.hostname)) + seq![','] + seq!['"']));
    let m = chars_of(e.message.as_str());
    push_doubled_quotes(out, &m);
    out.push('"');
    out.push('\n');
    assert(out@ == b + (double_quotes(e.message@) + seq!['"', '\n']));
    assert(out@ == o + record_tail(e@));
}

/// Appends the CSV record of one entry whose timestamp is written as `stamp`.
fn push_record_with(out: &mut Vec<char>, e: &LogEntry, stamp: &str)
    ensures
        final(out)@ == old(out)@ + csv_record_with(e@, stamp@),
{
    let ghost o = out@;
    push_record_head(out, e, stamp);
    push_record_tail(out, e);
    assert(out@ == o + csv_record_with(e@, stamp@));
}

/// The CSV record of one entry, line feed included, its timestamp written as `stamp`
/// (the RFC 3339 text of the entry's time).
pub fn csv_record_text(e: &LogEntry, stamp: &str) -> (res: String)
    ensures
        res@ == csv_record_with(e@, stamp@),
{
    let mut out: Vec<char> = Vec::new();
    push_record_with(&mut out, e, stamp);
    assert(out@ == csv_record_with(e@, stamp@));
    string_from_chars(out.as_slice())
}

/// Appends the CSV record of one entry.
fn push_record(out: &mut Vec<char>, e: &LogEntry)
    requires
        e.wf(),
    ensures
        final(out)@ == old(out)@ + csv_record(e@),
{
    let stamp = to_rfc3339(e.timestamp);
    push_record_with(out, e, stamp.as_str());
}

/// The CSV export of the entries: the header line, then one record per entry, in order.
pub fn csv_text(logs: &[LogEntry]) -> (res: String)
    requires
        all_wf(logs@),
    ensures
        res@ == csv_document(entries_view(logs@)),
{
    let mut out: Vec<char> = Vec::new();
    append_text(&mut out, "timestamp,priority,severity,process,pid,systemd_unit,hostname,message");
    out.push('\n');
    let ghost head = out@;
    assert(head == csv_header_text() + seq!['\n']);
    let mut i: usize = 0;
    while i < logs.len()
        invariant
            i <= logs.len(),
            all_wf(logs@),
            head == csv_header_text() + seq!['\n'],
            out@ == head + csv_records(entries_view(logs@.take(i as int))),
        decreases logs.len() - i,
    {
        assert(logs@[i as int].wf());
        push_record(&mut out, &logs[i]);
        proof {
            let t = entries_view(logs@.take(i + 1));
            assert(t.drop_last() == entries_view(logs@.take(i as int)));
            assert(t.last() == logs@[i as int]@);
        }
        i = i + 1;
    }
    assert(logs@.take(logs.len() as int) == logs@);
    string_from_chars(out.as_slice())
}

} // verus!
