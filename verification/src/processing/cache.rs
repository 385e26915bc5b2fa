//! The in-memory window of the most recent log entries.
use crate::models::log_entry::{entries_view, LogEntry, LogEntryView};
use std::collections::VecDeque;
use vstd::prelude::*;

verus! {

/// How many entries a cache keeps when no capacity is given.
pub const DEFAULT_CAPACITY: usize = 100_000;

/// The contents after one entry arrives: when the cache is at capacity its oldest
/// entry is dropped first.
pub open spec fn pushed(s: Seq<LogEntryView>, cap: nat, x: LogEntryView) -> Seq<LogEntryView> {
    (if s.len() >= cap && s.len() > 0 {
        s.drop_first()
    } else {
        s
    }).push(x)
}

/// The contents after the entries `xs` arrive one after another.
pub open spec fn pushed_all(s: Seq<LogEntryView>, cap: nat, xs: Seq<LogEntryView>) -> Seq<LogEntryView>
    decreases xs.len(),
{
    if xs.len() == 0 {
        s
    } else {
        pushed(pushed_all(s, cap, xs.drop_last()), cap, xs.last())
    }
}

/// The last `n` entries of `s` (all of them when it holds fewer).
pub open spec fn last_n(s: Seq<LogEntryView>, n: nat) -> Seq<LogEntryView> {
    if s.len() <= n {
        s
    } else {
        s.skip(s.len() - n)
    }
}

/// A bounded window of log entries, oldest first.
pub struct LogCache {
    entries: VecDeque<LogEntry>,
    capacity: usize,
}

impl LogCache {
    /// The entries held, oldest first.
    pub closed spec fn contents(&self) -> Seq<LogEntryView> {
        entries_view(self.entries@)
    }

    /// The number of entries the cache keeps at most (at least one entry is always kept).
    pub closed spec fn cap(&self) -> nat {
        self.capacity as nat
    }

    /// An empty cache of the default capacity.
    pub fn new() -> (c: Self)
        ensures
            c.contents().len() == 0,
            c.cap() == DEFAULT_CAPACITY,
    {
        Self::with_capacity(DEFAULT_CAPACITY)
    }

    /// An empty cache that keeps at most `capacity` entries.
    pub fn with_capacity(capacity: usize) -> (c: Self)
        ensures
            c.contents().len() == 0,
            c.cap() == capacity,
    {
        let n = if capacity < DEFAULT_CAPACITY {
            capacity
        } else {
            DEFAULT_CAPACITY
        };
        let c = LogCache { entries: VecDeque::with_capacity(n), capacity };
        assert(c.contents() =~= Seq::empty());
        c
    }

    /// Replaces the contents by the newest `capacity` entries of `logs` (all of them when
    /// there are no more), in order.
    pub fn replace(&mut self, logs: Vec<LogEntry>)
        ensures
            final(self).contents() == last_n(entries_view(logs@), old(self).cap()),
            final(self).cap() == old(self).cap(),
    {
        let ghost all = logs@;
        let n = logs.len();
        let skip: usize = if n > self.capacity {
            n - self.capacity
        } else {
            0
        };
        let mut replacement: VecDeque<LogEntry> = VecDeque::new();
        let mut i: usize = 0;
        for e in it: logs.into_iter()
            invariant
                it.seq() == all,
                n == all.len(),
                skip <= n,
                i == it.index(),
                replacement@ == if i <= skip {
                    Seq::<LogEntry>::empty()
                } else {
                    all.subrange(skip as int, i as int)
                },
        {
            proof {
                if i >= skip {
                    assert(all.subrange(skip as int, i + 1) == all.subrange(skip as int, i as int).push(e));
                }
            }
            if i >= skip {
                replacement.push_back(e);
            }
            i = i + 1;
        }
        proof {
            let v = entries_view(all);
            if n > skip {
                assert(entries_view(all.subrange(skip as int, n as int)) == last_n(v, self.capacity as nat));
            } else {
                assert(entries_view(Seq::<LogEntry>::empty()) == last_n(v, self.capacity as nat));
            }
        }
        self.entries = replacement;
    }

    /// Appends one entry; when the cache is full its oldest entry is dropped first.
    pub fn push(&mut self, log: LogEntry)
        ensures
            final(self).contents() == pushed(old(self).contents(), old(self).cap(), log@),
            final(self).cap() == old(self).cap(),
    {
        let ghost before = self.entries@;
        if self.entries.len() >= self.capacity {
            self.entries.pop_front();
        }
        self.entries.push_back(log);
        proof {
            if before.len() >= self.capacity && before.len() > 0 {
                assert(entries_view(before).drop_first() == entries_view(before.subrange(1, before.len() as int)));
            }
            assert(self.contents() == pushed(entries_view(before), self.capacity as nat, log@));
        }
    }

    /// Appends the entries of `logs` one after another, as `push` would.
    pub fn push_batch(&mut self, logs: Vec<LogEntry>)
        ensures
            final(self).contents() == pushed_all(old(self).contents(), old(self).cap(), entries_view(logs@)),
            final(self).cap() == old(self).cap(),
    {
        let ghost start = self.contents();
        let ghost cap0 = self.cap();
        let ghost all = logs@;
        for e in it: logs.into_iter()
            invariant
                it.seq() == all,
                self.cap() == cap0,
                self.contents() == pushed_all(start, self.cap(), entries_view(all.take(it.index() as int))),
        {
            proof {
                let t = entries_view(all.take(it.index() + 1));
                assert(t.drop_last() == entries_view(all.take(it.index() as int)));
                assert(t.last() == e@);
            }
            self.push(e);
        }
        assert(all.take(all.len() as int) == all);
    }

    /// A copy of every entry held, oldest first.
    pub fn all(&self) -> (res: Vec<LogEntry>)
        ensures
            entries_view(res@) == self.contents(),
    {
        self.snapshot_recent(self.entries.len())
    }

    pub fn len(&self) -> (n: usize)
        ensures
            n == self.contents().len(),
    {
        self.entries.len()
    }

    pub fn is_empty(&self) -> (b: bool)
        ensures
            b == (self.contents().len() == 0),
    {
        self.entries.len() == 0
    }

    /// Drops every entry.
    pub fn clear(&mut self)
        ensures
            final(self).contents().len() == 0,
            final(self).cap() == old(self).cap(),
    {
        self.entries = VecDeque::new();
        assert(self.contents() =~= Seq::empty());
    }

    /// A copy of the `n` most recent entries (all of them when fewer are held), oldest first.
    pub fn snapshot_recent(&self, n: usize) -> (res: Vec<LogEntry>)
        ensures
            entries_view(res@) == last_n(self.contents(), n as nat),
    {
        let len = self.entries.len();
        let start: usize = if len > n {
            len - n
        } else {
            0
        };
        let mut res: Vec<LogEntry> = Vec::new();
        let mut i = start;
        while i < len
            invariant
                start <= i <= len,
                len == self.entries@.len(),
                entries_view(res@) == entries_view(self.entries@).subrange(start as int, i as int),
            decreases len - i,
        {
            let ghost old_res = res@;
            let e = self.entries[i].clone();
            proof {
                let c = entries_view(self.entries@);
                assert(e@ == c[i as int]);
                assert(c.subrange(start as int, i + 1) == c.subrange(start as int, i as int).push(c[i as int]));
            }
            res.push(e);
            proof {
                assert(entries_view(res@) == entries_view(old_res).push(e@));
            }
            i = i + 1;
        }
        proof {
            let c = entries_view(self.entries@);
            assert(c.subrange(start as int, len as int) == last_n(c, n as nat));
        }
        res
    }
}

impl Default for LogCache {
    fn default() -> (c: Self)
        ensures
            c.contents().len() == 0,
            c.cap() == DEFAULT_CAPACITY,
    {
        Self::new()
    }
}

/// A cache that holds no more than its capacity still does after one more entry.
pub proof fn lemma_push_respects_capacity(s: Seq<LogEntryView>, cap: nat, x: LogEntryView)
    requires
        cap >= 1,
        s.len() <= cap,
    ensures
        pushed(s, cap, x).len() <= cap,
        pushed(s, cap, x).last() == x,
{
}

/// After a batch the cache holds the most recent entries: the last `capacity` of what
/// it held followed by the batch (all of them when there are fewer).
pub proof fn lemma_push_batch_keeps_most_recent(s: Seq<LogEntryView>, cap: nat, xs: Seq<LogEntryView>)
    requires
        cap >= 1,
        s.len() <= cap,
    ensures
        pushed_all(s, cap, xs) == last_n(s + xs, cap),
    decreases xs.len(),
{
    if xs.len() == 0 {
        assert(s + xs == s);
    } else {
        let init = xs.drop_last();
        lemma_push_batch_keeps_most_recent(s, cap, init);
        let before = last_n(s + init, cap);
        let whole = s + xs;
        assert(whole == (s + init).push(xs.last()));
        if (s + init).len() < cap {
            assert(before == s + init);
            assert(pushed(before, cap, xs.last()) == whole);
        } else {
            assert(before.len() == cap);
            assert(pushed(before, cap, xs.last()) =~= last_n(whole, cap));
        }
    }
}

} // verus!
