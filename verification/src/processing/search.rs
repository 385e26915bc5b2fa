//! What a search query asks of the full-text index, and how its hits select entries.
use crate::models::log_entry::{all_wf, entries_view, severity_name, LogEntry, LogEntryView};
use crate::text::{
    chars_of, split_words, string_from_chars, to_lowercase, trim, trim_chars, unicode_lower, words,
};
use std::collections::HashSet;
use vstd::prelude::*;

verus! {

/// Queries of at least this many characters also match terms one edit away.
pub const FUZZY_MIN_QUERY_LEN: usize = 4;

/// `n` is the code of a Unicode scalar value (a `char`).
pub open spec fn is_char_code(n: int) -> bool {
    (0 <= n <= 0xD7FF) || (0xE000 <= n <= 0x10FFFF)
}

/// `char::from_u32`: the character whose code is `n`, or none when `n` is a surrogate
/// or lies beyond the last code point.
#[verifier::external_body]
fn char_from_code(n: u32) -> (res: Option<char>)
    ensures
        match res {
            Some(c) => is_char_code(n as int) && c == (n as int) as char,
            None => !is_char_code(n as int),
        },
{
    char::from_u32(n)
}

/// The least text that is greater than every text starting with `s`: `s` with its last
/// character replaced by the next one; a last character that has no successor is
/// dropped and the one before it is tried. None when no character has a successor.
pub open spec fn prefix_upper_bound(s: Seq<char>) -> Option<Seq<char>>
    decreases s.len(),
{
    if s.len() == 0 {
        None
    } else if is_char_code((s.last() as u32) + 1) {
        Some(s.drop_last().push(((s.last() as u32) + 1) as char))
    } else {
        prefix_upper_bound(s.drop_last())
    }
}

/// The exclusive upper end of the range of terms that begin with `s`.
pub fn next_str_prefix(s: &str) -> (res: Option<String>)
    ensures
        match prefix_upper_bound(s@) {
            Some(t) => res matches Some(r) && r@ == t,
            None => res is None,
        },
{
    let mut chars = chars_of(s);
    let ghost orig = s@;
    while chars.len() > 0
        invariant
            orig == s@,
            chars@.len() <= orig.len(),
            chars@ == orig.take(chars@.len() as int),
            prefix_upper_bound(orig) == prefix_upper_bound(chars@),
        decreases chars@.len(),
    {
        let last = chars.len() - 1;
        let c = chars[last];
        let n = c as u32;
        let next = if n < 0xFFFF_FFFF {
            char_from_code(n + 1)
        } else {
            None
        };
        match next {
            Some(nc) => {
                let ghost before = chars@;
                assert(before.last() == c);
                assert(is_char_code((before.last() as u32) + 1));
                chars.set(last, nc);
                assert(chars@ == before.drop_last().push(((before.last() as u32) + 1) as char));
                assert(prefix_upper_bound(before) == Some(chars@));
                return Some(string_from_chars(chars.as_slice()));
            },
            None => {
                let ghost before = chars@;
                chars.pop();
                assert(chars@ == before.drop_last());
                assert(chars@ == orig.take(chars@.len() as int));
            },
        }
    }
    None
}

/// A query as it is matched: lower-cased, then trimmed of white space at both ends.
pub open spec fn cleaned_query(q: Seq<char>) -> Seq<char> {
    trim(unicode_lower(q))
}

/// The part of a query matched against the keyword fields (process, unit, hostname,
/// executable, severity): the whole cleaned query as one term, the range of terms it
/// begins (when it has an upper end), and, for a long enough query, terms one edit away.
pub struct KeywordPlan {
    pub term: String,
    pub prefix_end: Option<String>,
    pub fuzzy: bool,
}

/// One word of a query, matched against the message: the word itself and, for a long
/// enough word, terms one edit away.
pub struct WordPlan {
    pub word: String,
    pub fuzzy: bool,
}

/// How a query is matched: an entry is a hit when it matches the keyword part, or when
/// its message matches every word.
pub struct QueryPlan {
    pub keyword: KeywordPlan,
    pub words: Vec<WordPlan>,
}

/// The plan is the one `cleaned` calls for.
pub open spec fn plan_matches(p: QueryPlan, cleaned: Seq<char>) -> bool {
    &&& p.keyword.term@ == cleaned
    &&& match prefix_upper_bound(cleaned) {
        Some(t) => p.keyword.prefix_end matches Some(e) && e@ == t,
        None => p.keyword.prefix_end is None,
    }
    &&& p.keyword.fuzzy == (cleaned.len() >= FUZZY_MIN_QUERY_LEN)
    &&& p.words@.len() == words(cleaned).len()
    &&& forall|i: int|
        0 <= i < p.words@.len() ==> {
            &&& (#[trigger] p.words@[i]).word@ == words(cleaned)[i]
            &&& p.words@[i].fuzzy == (words(cleaned)[i].len() >= FUZZY_MIN_QUERY_LEN)
        }
}

/// The plan of a query; none for a query that is empty once cleaned (it matches nothing).
pub fn plan_query(query: &str) -> (res: Option<QueryPlan>)
    ensures
        res is None <==> cleaned_query(query@).len() == 0,
        res matches Some(p) ==> plan_matches(p, cleaned_query(query@)),
{
    let lower = to_lowercase(query);
    let lower_chars = chars_of(lower.as_str());
    let cleaned_chars = trim_chars(&lower_chars);
    let ghost cleaned = cleaned_chars@;
    assert(cleaned == cleaned_query(query@));
    if cleaned_chars.len() == 0 {
        return None;
    }
    let term = string_from_chars(cleaned_chars.as_slice());
    let prefix_end = next_str_prefix(term.as_str());
    let fuzzy = cleaned_chars.len() >= FUZZY_MIN_QUERY_LEN;
    let split = split_words(&cleaned_chars);
    let mut plans: Vec<WordPlan> = Vec::new();
    let mut i: usize = 0;
    while i < split.len()
        invariant
            i <= split.len(),
            split@.len() == words(cleaned).len(),
            forall|k: int| 0 <= k < split@.len() ==> (#[trigger] split@[k])@ == words(cleaned)[k],
            plans@.len() == i,
            forall|k: int|
                0 <= k < i ==> {
                    &&& (#[trigger] plans@[k]).word@ == words(cleaned)[k]
                    &&& plans@[k].fuzzy == (words(cleaned)[k].len() >= FUZZY_MIN_QUERY_LEN)
                },
        decreases split.len() - i,
    {
        let w = string_from_chars(split[i].as_slice());
        let f = split[i].len() >= FUZZY_MIN_QUERY_LEN;
        plans.push(WordPlan { word: w, fuzzy: f });
        i = i + 1;
    }
    Some(QueryPlan { keyword: KeywordPlan { term, prefix_end, fuzzy }, words: plans })
}

/// What the index holds of one entry: its sequence number, timestamp and priority,
/// its process, message and severity name, and its unit, hostname and executable where
/// it has them.
pub struct SearchDocument {
    pub seq_id: u64,
    pub timestamp: i64,
    pub priority: u64,
    pub process: String,
    pub message: String,
    pub severity: String,
    pub unit: Option<String>,
    pub hostname: Option<String>,
    pub executable: Option<String>,
}

/// The document that indexes an entry.
pub fn search_document(e: &LogEntry) -> (d: SearchDocument)
    ensures
        d.seq_id == e.seq_id,
        d.timestamp == e.timestamp,
        d.priority == e.priority as u64,
        d.process@ == e.process@,
        d.message@ == e.message@,
        d.severity@ == severity_name(e.severity),
        d.unit.deep_view() == e.systemd_unit.deep_view(),
        d.hostname.deep_view() == e.hostname.deep_view(),
        d.executable.deep_view() == e.executable.deep_view(),
{
    SearchDocument {
        seq_id: e.seq_id,
        timestamp: e.timestamp,
        priority: e.priority as u64,
        process: e.process.clone(),
        message: e.message.clone(),
        severity: e.severity.to_string(),
        unit: clone_text(&e.systemd_unit),
        hostname: clone_text(&e.hostname),
        executable: clone_text(&e.executable),
    }
}

fn clone_text(o: &Option<String>) -> (res: Option<String>)
    ensures
        res.deep_view() == o.deep_view(),
{
    match o {
        Some(s) => Some(s.clone()),
        None => None,
    }
}

/// The entries of `cache` whose sequence number is among the hits, in cache order.
pub fn filter_by_seq_ids(matched_ids: &HashSet<u64>, cache: &[LogEntry]) -> (res: Vec<LogEntry>)
    ensures
        entries_view(res@) == entries_view(cache@).filter(|e: LogEntryView| matched_ids@.contains(e.seq_id)),
        all_wf(cache@) ==> all_wf(res@),
{
    broadcast use vstd::std_specs::hash::group_hash_axioms;

    let ghost pred = |e: LogEntryView| matched_ids@.contains(e.seq_id);
    let mut out: Vec<LogEntry> = Vec::new();
    let mut i: usize = 0;
    while i < cache.len()
        invariant
            i <= cache.len(),
            pred == (|e: LogEntryView| matched_ids@.contains(e.seq_id)),
            entries_view(out@) == entries_view(cache@.take(i as int)).filter(pred),
            all_wf(cache@) ==> all_wf(out@),
        decreases cache.len() - i,
    {
        let keep = matched_ids.contains(&cache[i].seq_id);
        let ghost prev = out@;
        if keep {
            let c = cache[i].clone();
            out.push(c);
            assert(entries_view(out@) =~= entries_view(prev).push(c@));
            assert(all_wf(cache@) ==> cache@[i as int].wf());
        }
        proof {
            reveal(Seq::filter);
            let pre = entries_view(cache@.take(i as int));
            let post = entries_view(cache@.take(i + 1));
            assert(post.drop_last() =~= pre);
            assert(post.last() == cache@[i as int]@);
            assert(pred(post.last()) == keep);
            if keep {
                assert(post.filter(pred) == pre.filter(pred).push(post.last()));
            } else {
                assert(post.filter(pred) == pre.filter(pred));
            }
        }
        i = i + 1;
    }
    assert(cache@.take(cache.len() as int) =~= cache@);
    out
}

} // verus!
