//! How the live stream groups parsed entries into batches before handing them on.
use crate::models::log_entry::{entries_view, LogEntry, LogEntryView};
use vstd::prelude::*;

verus! {

/// A batch is handed on at the latest this many milliseconds after the previous one.
pub const BATCH_INTERVAL_MS: u64 = 500;

/// A batch is handed on as soon as it holds this many entries.
pub const BATCH_MAX_SIZE: usize = 100;

/// A batch of `batch_len` entries is due when it is full or when `elapsed_ms`
/// milliseconds have passed since the previous one was handed on.
pub open spec fn flush_due(batch_len: int, elapsed_ms: int) -> bool {
    batch_len >= BATCH_MAX_SIZE || elapsed_ms >= BATCH_INTERVAL_MS
}

/// Whether a batch of `batch_len` entries is due `elapsed_ms` milliseconds after the previous one.
pub fn should_flush(batch_len: usize, elapsed_ms: u64) -> (res: bool)
    ensures
        res == flush_due(batch_len as int, elapsed_ms as int),
{
    batch_len >= BATCH_MAX_SIZE || elapsed_ms >= BATCH_INTERVAL_MS
}

/// The entry, if any, as a sequence of zero or one views.
pub open spec fn optional_entry(e: Option<LogEntry>) -> Seq<LogEntryView> {
    match e {
        Some(x) => seq![x@],
        None => Seq::empty(),
    }
}

/// The entries read since the last batch was handed on.
pub struct StreamBatcher {
    batch: Vec<LogEntry>,
}

impl StreamBatcher {
    /// The entries waiting to be handed on, oldest first.
    pub closed spec fn pending(&self) -> Seq<LogEntryView> {
        entries_view(self.batch@)
    }

    pub fn new() -> (b: Self)
        ensures
            b.pending().len() == 0,
    {
        StreamBatcher { batch: Vec::new() }
    }

    /// Takes the entry read from one line (none where the line did not parse), then hands
    /// on the whole batch when it is due and not empty. What is handed on, followed by
    /// what stays pending, is exactly what was pending followed by the new entry.
    pub fn accept(&mut self, entry: Option<LogEntry>, elapsed_ms: u64) -> (flushed: Option<Vec<LogEntry>>)
        ensures
            ({
                let grown = old(self).pending() + optional_entry(entry);
                if flush_due(grown.len() as int, elapsed_ms as int) && grown.len() > 0 {
                    flushed matches Some(b) && entries_view(b@) == grown && final(self).pending().len() == 0
                } else {
                    flushed is None && final(self).pending() == grown
                }
            }),
    {
        let ghost before = self.batch@;
        match entry {
            Some(e) => {
                self.batch.push(e);
                assert(entries_view(self.batch@) == entries_view(before) + optional_entry(entry));
            },
            None => {
                assert(entries_view(self.batch@) == entries_view(before) + optional_entry(entry));
            },
        }
        if should_flush(self.batch.len(), elapsed_ms) && self.batch.len() > 0 {
            let mut out: Vec<LogEntry> = Vec::new();
            std::mem::swap(&mut out, &mut self.batch);
            Some(out)
        } else {
            None
        }
    }

    /// When the stream ends: the entries still pending, handed on if there are any and
    /// the stream is still meant to run.
    pub fn finish(self, running: bool) -> (rest: Option<Vec<LogEntry>>)
        ensures
            rest is Some <==> (running && self.pending().len() > 0),
            rest matches Some(b) ==> entries_view(b@) == self.pending(),
    {
        if running && self.batch.len() > 0 {
            Some(self.batch)
        } else {
            None
        }
    }
}

/// A batch that was not full before an entry arrived is either handed on or still not full.
pub proof fn lemma_pending_stays_below_capacity(pending: Seq<LogEntryView>, entry: Seq<LogEntryView>, elapsed_ms: int)
    requires
        pending.len() < BATCH_MAX_SIZE,
        entry.len() <= 1,
    ensures
        ({
            let grown = pending + entry;
            !(flush_due(grown.len() as int, elapsed_ms) && grown.len() > 0) ==> grown.len() < BATCH_MAX_SIZE
        }),
{
}

} // verus!
