//! The file-system changes under a watched log directory that the application reports.
use std::path::PathBuf;
use vstd::prelude::*;

verus! {

#[verifier::external_type_specification]
#[verifier::external_body]
pub struct ExPathBuf(PathBuf);

/// A change to a file under a watched directory.
pub enum WatchEvent {
    LogFileChanged(PathBuf),
    LogFileCreated(PathBuf),
    LogFileRemoved(PathBuf),
}

/// The kind of a file-system notification, as far as it matters here.
#[derive(Debug, Clone, Copy, PartialEq, Eq, Structural)]
pub enum FsChange {
    Modified,
    Created,
    Removed,
    Other,
}

/// The event that a change of `kind` to `path` is reported as; other kinds of change are not reported.
pub open spec fn event_for(kind: FsChange, path: PathBuf) -> Option<WatchEvent> {
    match kind {
        FsChange::Modified => Some(WatchEvent::LogFileChanged(path)),
        FsChange::Created => Some(WatchEvent::LogFileCreated(path)),
        FsChange::Removed => Some(WatchEvent::LogFileRemoved(path)),
        FsChange::Other => None,
    }
}

/// The events one notification is reported as: one per path it names, in order, when
/// it is a modification, a creation or a removal; none otherwise.
pub fn watch_events_for(kind: FsChange, paths: Vec<PathBuf>) -> (res: Vec<WatchEvent>)
    ensures
        kind == FsChange::Other ==> res@.len() == 0,
        kind != FsChange::Other ==> res@.len() == paths@.len() && forall|i: int|
            0 <= i < paths@.len() ==> event_for(kind, #[trigger] paths@[i]) == Some(res@[i]),
{
    let ghost all = paths@;
    let mut out: Vec<WatchEvent> = Vec::new();
    if kind == FsChange::Other {
        return out;
    }
    for p in it: paths.into_iter()
        invariant
            it.seq() == all,
            kind != FsChange::Other,
            out@.len() == it.index(),
            forall|i: int| 0 <= i < it.index() ==> event_for(kind, #[trigger] all[i]) == Some(out@[i]),
    {
        let ev = match kind {
            FsChange::Modified => WatchEvent::LogFileChanged(p),
            FsChange::Created => WatchEvent::LogFileCreated(p),
            _ => WatchEvent::LogFileRemoved(p),
        };
        out.push(ev);
    }
    out
}

} // verus!
