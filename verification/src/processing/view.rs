//! What the log view shows: the entries that match the search, pass the filters, in the
//! chosen order; and what a batch from the live stream calls for.
use crate::models::filter::{FilterState, FilterStateView};
use crate::models::log_entry::{all_wf, entries_view, LogEntry, LogEntryView};
use crate::processing::pipeline::{apply_filter, entry_passes};
use crate::processing::search::filter_by_seq_ids;
use crate::processing::sort::{apply_sort, rank_class, sorted_for, SortKey};
use crate::text::{chars_of, trim, trim_chars};
use crate::ui::navigation::SidebarSection;
use std::collections::HashSet;
use vstd::prelude::*;

verus! {

/// The entries a search with the given hits keeps: every entry when there was no
/// search, else those whose sequence number is a hit.
pub open spec fn search_kept(s: Seq<LogEntryView>, hits: Option<Set<u64>>) -> Seq<LogEntryView> {
    match hits {
        None => s,
        Some(h) => s.filter(|e: LogEntryView| h.contains(e.seq_id)),
    }
}

/// The entries the view shows, before ordering: those the search keeps that pass the filters.
pub open spec fn view_entries(s: Seq<LogEntryView>, f: FilterStateView, hits: Option<Set<u64>>) -> Seq<LogEntryView> {
    search_kept(s, hits).filter(|e: LogEntryView| entry_passes(e, f))
}

/// A query that is empty once trimmed asks for no search.
pub fn query_is_blank(q: &str) -> (res: bool)
    ensures
        res == (trim(q@).len() == 0),
{
    let v = chars_of(q);
    trim_chars(&v).len() == 0
}

/// The hits of a search as a set, if there was a search.
pub open spec fn hits_view(hits: Option<&HashSet<u64>>) -> Option<Set<u64>> {
    match hits {
        Some(h) => Some(h@),
        None => None,
    }
}

/// The entries the view shows: of `logs`, those among the search hits (all of them
/// when there was no search) that pass the filters, sorted for `key`, entries that
/// rank the same in their order in `logs`.
pub fn refresh_view(logs: &[LogEntry], filter: &FilterState, hits: Option<&HashSet<u64>>, key: SortKey) -> (res: Vec<LogEntry>)
    requires
        all_wf(logs@),
    ensures
        all_wf(res@),
        sorted_for(key, entries_view(res@)),
        entries_view(res@).to_multiset() == view_entries(entries_view(logs@), filter@, hits_view(hits)).to_multiset(),
        forall|e: LogEntryView| #[trigger] rank_class(key, entries_view(res@), e) == rank_class(
            key,
            view_entries(entries_view(logs@), filter@, hits_view(hits)),
            e,
        ),
{
    let mut results = match hits {
        None => apply_filter(logs, filter),
        Some(h) => {
            let matched = filter_by_seq_ids(h, logs);
            apply_filter(matched.as_slice(), filter)
        },
    };
    apply_sort(&mut results, &key);
    results
}

/// What the view does with a batch from the live stream.
#[derive(Debug, Clone, Copy, PartialEq, Eq, Structural)]
pub enum LiveBatchAction {
    /// Drop the batch: the stream is paused or the batch is empty.
    Ignore,
    /// Keep the batch in the cache only: the power audit is on screen.
    CacheOnly,
    /// Show the most recent entries that pass the filters, newest first as they come.
    RecentOnly,
    /// Search, filter and sort the most recent entries again.
    FullRefresh,
}

/// The action a batch calls for: nothing while paused or for an empty batch; caching
/// alone while the power audit is shown; the quick view of the latest entries when there
/// is no query, the order is newest first and the critical section is not shown; a full
/// refresh otherwise.
pub open spec fn live_action(paused: bool, batch_empty: bool, section: SidebarSection, query_blank: bool, key: SortKey) -> LiveBatchAction {
    if paused || batch_empty {
        LiveBatchAction::Ignore
    } else if section == SidebarSection::PowerAudit {
        LiveBatchAction::CacheOnly
    } else if query_blank && key == SortKey::TimeNewest && section != SidebarSection::Critical {
        LiveBatchAction::RecentOnly
    } else {
        LiveBatchAction::FullRefresh
    }
}

/// Decides what the view does with a batch from the live stream.
pub fn live_batch_action(paused: bool, batch_empty: bool, section: SidebarSection, query_blank: bool, key: SortKey) -> (a: LiveBatchAction)
    ensures
        a == live_action(paused, batch_empty, section, query_blank, key),
{
    if paused || batch_empty {
        LiveBatchAction::Ignore
    } else if section.is_power_audit() {
        LiveBatchAction::CacheOnly
    } else if query_blank && key == SortKey::TimeNewest && !section.is_critical() {
        LiveBatchAction::RecentOnly
    } else {
        LiveBatchAction::FullRefresh
    }
}

} // verus!
