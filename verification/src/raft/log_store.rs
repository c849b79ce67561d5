//! The registry's consensus log, kept in memory: entries by index, the last
//! purged entry, the vote and the committed position.
//!
//! Entries are kept in increasing index order; appending an entry at an
//! index that is present replaces it.

use vstd::prelude::*;

verus! {

/// A log entry's id: the term and node of the leader that wrote it, and the
/// entry's index.
#[derive(Clone, Copy, Debug, PartialEq, Eq, Structural)]
pub struct LogId {
    pub term: u64,
    pub node_id: u64,
    pub index: u64,
}

/// Where the log stands: the last purged entry, and the last entry (the
/// last purged one when no entry is left).
#[derive(Clone, Copy, Debug, PartialEq, Eq, Structural)]
pub struct LogState {
    pub last_purged_log_id: Option<LogId>,
    pub last_log_id: Option<LogId>,
}

/// The entries of a log, in storage order.
pub type LogEntries<E> = Seq<(LogId, E)>;

/// Whether the entries are in strictly increasing index order.
pub open spec fn in_index_order<E>(s: LogEntries<E>) -> bool {
    forall|i: int, j: int| 0 <= i < j < s.len() ==> (#[trigger] s[i]).0.index < (#[trigger] s[j]).0.index
}

/// The number of leading entries whose index is below `k`.
pub open spec fn count_below<E>(s: LogEntries<E>, k: int) -> nat
    decreases s.len(),
{
    if s.len() == 0 {
        0
    } else if s[0].0.index < k {
        1 + count_below(s.drop_first(), k)
    } else {
        0
    }
}

/// In an ordered log, the entries below `k` are exactly the first
/// `count_below(s, k)`.
pub proof fn lemma_count_below<E>(s: LogEntries<E>, k: int)
    requires
        in_index_order(s),
    ensures
        count_below(s, k) <= s.len(),
        forall|j: int| 0 <= j < count_below(s, k) ==> (#[trigger] s[j]).0.index < k,
        forall|j: int| count_below(s, k) <= j < s.len() ==> (#[trigger] s[j]).0.index >= k,
    decreases s.len(),
{
    if s.len() > 0 {
        let t = s.drop_first();
        assert forall|i: int, j: int| 0 <= i < j < t.len() implies (#[trigger] t[i]).0.index < (#[trigger] t[j]).0.index by {
            assert(t[i] == s[i + 1] && t[j] == s[j + 1]);
        }
        lemma_count_below(t, k);
        if s[0].0.index < k {
            assert forall|j: int| 0 <= j < count_below(s, k) implies (#[trigger] s[j]).0.index < k by {
                if j > 0 {
                    assert(s[j] == t[j - 1]);
                }
            }
            assert forall|j: int| count_below(s, k) <= j < s.len() implies (#[trigger] s[j]).0.index >= k by {
                assert(s[j] == t[j - 1]);
            }
        } else {
            assert forall|j: int| 0 <= j < s.len() implies (#[trigger] s[j]).0.index >= k by {
                if j > 0 {
                    assert(s[0].0.index < s[j].0.index);
                }
            }
        }
    }
}

/// The entry stored at index `k` of an ordered log, if any.
pub open spec fn entry_at<E>(s: LogEntries<E>, k: u64) -> Option<(LogId, E)> {
    let p = count_below(s, k as int) as int;
    if p < s.len() && s[p].0.index == k {
        Some(s[p])
    } else {
        None
    }
}

/// In an ordered log, `entry_at` finds the one entry with the index, and
/// nothing when no entry has it.
pub proof fn lemma_entry_at<E>(s: LogEntries<E>, k: u64)
    requires
        in_index_order(s),
    ensures
        forall|j: int| 0 <= j < s.len() && (#[trigger] s[j]).0.index == k ==> entry_at(s, k) == Some(s[j]),
        (forall|j: int| 0 <= j < s.len() ==> (#[trigger] s[j]).0.index != k) ==> entry_at(s, k) is None,
{
    lemma_count_below(s, k as int);
    let c = count_below(s, k as int) as int;
    assert forall|j: int| 0 <= j < s.len() && (#[trigger] s[j]).0.index == k implies entry_at(s, k) == Some(s[j]) by {
        if j > c {
            assert(s[c].0.index < s[j].0.index);
        }
    }
}

/// The log after storing `x` at its index, replacing what was there.
pub open spec fn with_entry<E>(s: LogEntries<E>, x: (LogId, E)) -> LogEntries<E> {
    s.take(count_below(s, x.0.index as int) as int) + seq![x] + s.skip(count_below(s, x.0.index + 1) as int)
}

/// The log after storing `xs` in order.
pub open spec fn with_entries<E>(s: LogEntries<E>, xs: Seq<(LogId, E)>) -> LogEntries<E>
    decreases xs.len(),
{
    if xs.len() == 0 {
        s
    } else {
        with_entry(with_entries(s, xs.drop_last()), xs.last())
    }
}

/// The last entry's id, or the last purged one when no entry is left.
pub open spec fn log_state_spec<E>(s: LogEntries<E>, last_purged: Option<LogId>) -> LogState {
    LogState {
        last_purged_log_id: last_purged,
        last_log_id: if s.len() > 0 {
            Some(s.last().0)
        } else {
            last_purged
        },
    }
}

/// The log kept in memory, with the vote (of type `V`) and committed position.
pub struct LogStore<E, V> {
    log: Vec<(LogId, E)>,
    last_purged_log_id: Option<LogId>,
    vote: Option<V>,
    committed: Option<LogId>,
}

impl<E, V> LogStore<E, V> {
    /// The entries, in index order.
    pub closed spec fn entries(&self) -> LogEntries<E> {
        self.log@
    }

    /// The last purged entry.
    pub closed spec fn last_purged(&self) -> Option<LogId> {
        self.last_purged_log_id
    }

    /// The saved vote.
    pub closed spec fn vote_spec(&self) -> Option<V> {
        self.vote
    }

    /// The saved committed position.
    pub closed spec fn committed_spec(&self) -> Option<LogId> {
        self.committed
    }

    /// Whether the entries are in increasing index order.
    pub open spec fn wf(&self) -> bool {
        in_index_order(self.entries())
    }

    /// An empty log: no entry, nothing purged, no vote, nothing committed.
    pub fn new() -> (r: Self)
        ensures
            r.wf(),
            r.entries().len() == 0,
            r.last_purged() is None,
            r.vote_spec() is None,
            r.committed_spec() is None,
    {
        LogStore { log: Vec::new(), last_purged_log_id: None, vote: None, committed: None }
    }

    /// The position of the first entry whose index is at least `k`.
    fn lower_bound(&self, k: u64) -> (p: usize)
        requires
            self.wf(),
        ensures
            p == count_below(self.entries(), k as int),
    {
        proof {
            lemma_count_below(self.log@, k as int);
        }
        let mut p: usize = 0;
        while p < self.log.len() && self.log[p].0.index < k
            invariant
                p <= self.log@.len(),
                count_below(self.log@, k as int) <= self.log@.len(),
                forall|j: int| 0 <= j < p ==> (#[trigger] self.log@[j]).0.index < k,
                forall|j: int| 0 <= j < count_below(self.log@, k as int) ==> (#[trigger] self.log@[j]).0.index < k,
                forall|j: int|
                    count_below(self.log@, k as int) <= j < self.log@.len() ==> (#[trigger] self.log@[j]).0.index >= k,
            decreases self.log@.len() - p,
        {
            p = p + 1;
        }
        proof {
            let c = count_below(self.log@, k as int) as int;
            if p < c {
                assert(self.log@[p as int].0.index < k);
            }
            if p > c {
                assert(self.log@[c].0.index >= k);
                assert(self.log@[c].0.index < k);
            }
        }
        p
    }

    /// The position past the last entry whose index is at most `k`.
    fn upper_bound(&self, k: u64) -> (p: usize)
        requires
            self.wf(),
        ensures
            p == count_below(self.entries(), k + 1),
    {
        proof {
            lemma_count_below(self.log@, k + 1);
        }
        let mut p: usize = 0;
        while p < self.log.len() && self.log[p].0.index <= k
            invariant
                p <= self.log@.len(),
                count_below(self.log@, k + 1) <= self.log@.len(),
                forall|j: int| 0 <= j < p ==> (#[trigger] self.log@[j]).0.index <= k,
                forall|j: int| 0 <= j < count_below(self.log@, k + 1) ==> (#[trigger] self.log@[j]).0.index < k + 1,
                forall|j: int| count_below(self.log@, k + 1) <= j < self.log@.len() ==> (#[trigger] self.log@[j]).0.index >= k + 1,
            decreases self.log@.len() - p,
        {
            p = p + 1;
        }
        proof {
            let c = count_below(self.log@, k + 1) as int;
            if p < c {
                assert(self.log@[p as int].0.index < k + 1);
            }
            if p > c {
                assert(self.log@[c].0.index >= k + 1);
                assert(self.log@[c].0.index <= k);
            }
        }
        p
    }
}

/// Storing `x` keeps an ordered log ordered.
proof fn lemma_with_entry_ordered<E>(s: LogEntries<E>, x: (LogId, E))
    requires
        in_index_order(s),
    ensures
        in_index_order(with_entry(s, x)),
        with_entry(s, x).len() <= s.len() + 1,
        forall|j: int|
            0 <= j < with_entry(s, x).len() ==> (#[trigger] with_entry(s, x)[j] == x || (with_entry(s, x)[j].0.index
                != x.0.index && s.contains(with_entry(s, x)[j]))),
        forall|j: int|
            0 <= j < s.len() && (#[trigger] s[j]).0.index != x.0.index ==> with_entry(s, x).contains(s[j]),
{
    let k = x.0.index;
    lemma_count_below(s, k as int);
    lemma_count_below(s, k + 1);
    let c1 = count_below(s, k as int) as int;
    let c2 = count_below(s, k + 1) as int;
    if c2 < c1 {
        assert(s[c2].0.index >= k + 1);
        assert(s[c2].0.index < k);
    }
    let a = s.take(c1);
    let b = s.skip(c2);
    let t = a + seq![x] + b;
    assert(t.len() == c1 + 1 + (s.len() - c2));
    assert forall|j: int| 0 <= j < t.len() implies #[trigger] t[j] == (if j < c1 {
        s[j]
    } else if j == c1 {
        x
    } else {
        s[j - c1 - 1 + c2]
    }) by {}
    assert forall|i: int, j: int| 0 <= i < j < t.len() implies (#[trigger] t[i]).0.index < (#[trigger] t[j]).0.index by {
        if j < c1 {
        } else if j == c1 {
            assert(t[i] == s[i]);
        } else if i < c1 {
            assert(t[i] == s[i] && t[j] == s[j - c1 - 1 + c2]);
        } else if i == c1 {
            assert(t[j] == s[j - c1 - 1 + c2]);
        } else {
            assert(t[i] == s[i - c1 - 1 + c2] && t[j] == s[j - c1 - 1 + c2]);
        }
    }
    assert forall|j: int| 0 <= j < t.len() implies (#[trigger] t[j] == x || (t[j].0.index != x.0.index && s.contains(t[j]))) by {
        if j < c1 {
            assert(s[j] == t[j]);
        } else if j > c1 {
            assert(s[j - c1 - 1 + c2] == t[j]);
        }
    }
    assert forall|j: int| 0 <= j < s.len() && (#[trigger] s[j]).0.index != x.0.index implies t.contains(s[j]) by {
        if j < c1 {
            assert(t[j] == s[j]);
        } else {
            if j < c2 {
                assert(s[j].0.index >= k && s[j].0.index < k + 1);
            }
            assert(t[j - c2 + c1 + 1] == s[j]);
        }
    }
}

impl<E, V> LogStore<E, V> {
    /// Stores `entry` at its index, replacing any entry there.
    fn store_entry(&mut self, entry: (LogId, E))
        requires
            old(self).wf(),
        ensures
            final(self).wf(),
            final(self).entries() == with_entry(old(self).entries(), entry),
            final(self).last_purged() == old(self).last_purged(),
            final(self).vote_spec() == old(self).vote_spec(),
            final(self).committed_spec() == old(self).committed_spec(),
    {
        let ghost before = self.log@;
        let k = entry.0.index;
        let lo = self.lower_bound(k);
        let hi = self.upper_bound(k);
        proof {
            lemma_count_below(before, k as int);
            lemma_count_below(before, k + 1);
            if hi < lo {
                assert(before[hi as int].0.index >= k + 1);
                assert(before[hi as int].0.index < k);
            }
            lemma_with_entry_ordered(before, entry);
        }
        let ghost e = entry;
        let mut rest = self.log.split_off(hi);
        self.log.truncate(lo);
        self.log.push(entry);
        self.log.append(&mut rest);
        assert(self.log@ =~= with_entry(before, e));
    }

    /// Stores the entries in order, each at its index (a later one replaces
    /// an earlier one at the same index).
    pub fn append(&mut self, entries: Vec<(LogId, E)>)
        requires
            old(self).wf(),
        ensures
            final(self).wf(),
            final(self).entries() == with_entries(old(self).entries(), entries@),
            final(self).last_purged() == old(self).last_purged(),
            final(self).vote_spec() == old(self).vote_spec(),
            final(self).committed_spec() == old(self).committed_spec(),
    {
        let ghost all = entries@;
        let ghost before = self.entries();
        let mut rest = entries;
        let n = rest.len();
        let mut i: usize = 0;
        assert(all.take(0) =~= Seq::<(LogId, E)>::empty());
        while i < n
            invariant
                n == all.len(),
                i <= n,
                rest@ == all.skip(i as int),
                self.wf(),
                self.entries() == with_entries(before, all.take(i as int)),
                self.last_purged() == old(self).last_purged(),
                self.vote_spec() == old(self).vote_spec(),
                self.committed_spec() == old(self).committed_spec(),
            decreases n - i,
        {
            proof {
                assert(rest@[0] == all[i as int]);
                assert(all.take(i + 1).drop_last() =~= all.take(i as int));
                assert(all.take(i + 1).last() == all[i as int]);
            }
            let x = rest.remove(0);
            proof {
                assert(rest@ =~= all.skip(i + 1));
            }
            self.store_entry(x);
            i = i + 1;
        }
        assert(all.take(n as int) =~= all);
    }

    /// Drops every entry at `log_id`'s index or after.
    pub fn truncate(&mut self, log_id: LogId)
        requires
            old(self).wf(),
        ensures
            final(self).wf(),
            final(self).entries() == old(self).entries().take(count_below(old(self).entries(), log_id.index as int) as int),
            final(self).last_purged() == old(self).last_purged(),
            final(self).vote_spec() == old(self).vote_spec(),
            final(self).committed_spec() == old(self).committed_spec(),
    {
        let p = self.lower_bound(log_id.index);
        proof {
            lemma_count_below(self.log@, log_id.index as int);
        }
        let ghost before = self.log@;
        self.log.truncate(p);
        assert(self.log@ =~= before.take(p as int));
    }

    /// Drops every entry up to and including `log_id`'s index, which
    /// becomes the last purged entry.
    pub fn purge(&mut self, log_id: LogId)
        requires
            old(self).wf(),
        ensures
            final(self).wf(),
            final(self).entries() == old(self).entries().skip(count_below(old(self).entries(), log_id.index + 1) as int),
            final(self).last_purged() == Some(log_id),
            final(self).vote_spec() == old(self).vote_spec(),
            final(self).committed_spec() == old(self).committed_spec(),
    {
        let p = self.upper_bound(log_id.index);
        proof {
            lemma_count_below(self.log@, log_id.index + 1);
        }
        let ghost before = self.log@;
        let keep = self.log.split_off(p);
        self.log = keep;
        self.last_purged_log_id = Some(log_id);
        assert forall|i: int, j: int| 0 <= i < j < self.log@.len() implies (#[trigger] self.log@[i]).0.index
            < (#[trigger] self.log@[j]).0.index by {
            assert(self.log@[i] == before[i + p] && self.log@[j] == before[j + p]);
        }
    }

    /// The last purged entry, and the last entry (or the last purged one
    /// when no entry is left).
    pub fn get_log_state(&self) -> (r: LogState)
        ensures
            r == log_state_spec(self.entries(), self.last_purged()),
    {
        let last = if self.log.len() > 0 {
            Some(self.log[self.log.len() - 1].0)
        } else {
            self.last_purged_log_id
        };
        LogState { last_purged_log_id: self.last_purged_log_id, last_log_id: last }
    }

    /// The positions `[start, end)` of the entries with `lo <= index` and,
    /// with `hi`, `index < hi`; empty when `hi` is not above `lo`.
    pub fn entries_between(&self, lo: u64, hi: Option<u64>) -> (r: (usize, usize))
        requires
            self.wf(),
        ensures
            r.0 == count_below(self.entries(), lo as int),
            r.1 == (match hi {
                Some(h) => if count_below(self.entries(), h as int) < r.0 {
                    r.0 as nat
                } else {
                    count_below(self.entries(), h as int)
                },
                None => self.entries().len(),
            }),
            r.0 <= r.1 <= self.entries().len(),
    {
        proof {
            lemma_count_below(self.log@, lo as int);
        }
        let a = self.lower_bound(lo);
        let b = match hi {
            Some(h) => {
                proof {
                    lemma_count_below(self.log@, h as int);
                }
                let b = self.lower_bound(h);
                if b < a {
                    a
                } else {
                    b
                }
            },
            None => self.log.len(),
        };
        (a, b)
    }

    /// The number of entries.
    pub fn len(&self) -> (n: usize)
        ensures
            n == self.entries().len(),
    {
        self.log.len()
    }

    /// The entry at position `i`.
    pub fn entry(&self, i: usize) -> (r: &(LogId, E))
        requires
            i < self.entries().len(),
        ensures
            *r == self.entries()[i as int],
    {
        &self.log[i]
    }

    /// Saves the vote.
    pub fn save_vote(&mut self, vote: V)
        ensures
            final(self).vote_spec() == Some(vote),
            final(self).entries() == old(self).entries(),
            final(self).last_purged() == old(self).last_purged(),
            final(self).committed_spec() == old(self).committed_spec(),
    {
        self.vote = Some(vote);
    }

    /// The saved vote.
    pub fn read_vote(&self) -> (r: Option<&V>)
        ensures
            match r {
                Some(v) => self.vote_spec() == Some(*v),
                None => self.vote_spec() is None,
            },
    {
        match &self.vote {
            Some(v) => Some(v),
            None => None,
        }
    }

    /// Saves the committed position.
    pub fn save_committed(&mut self, committed: Option<LogId>)
        ensures
            final(self).committed_spec() == committed,
            final(self).entries() == old(self).entries(),
            final(self).last_purged() == old(self).last_purged(),
            final(self).vote_spec() == old(self).vote_spec(),
    {
        self.committed = committed;
    }

    /// The saved committed position.
    pub fn read_committed(&self) -> (r: Option<LogId>)
        ensures
            r == self.committed_spec(),
    {
        self.committed
    }
}

/// What an append stores is read back: the entry at the appended index is
/// the appended one, and every other index keeps its entry.
pub proof fn law_append_then_read<E>(s: LogEntries<E>, x: (LogId, E), k: u64)
    requires
        in_index_order(s),
    ensures
        entry_at(with_entry(s, x), x.0.index) == Some(x),
        k != x.0.index ==> entry_at(with_entry(s, x), k) == entry_at(s, k),
{
    let t = with_entry(s, x);
    lemma_with_entry_ordered(s, x);
    lemma_entry_at(t, x.0.index);
    lemma_entry_at(t, k);
    lemma_entry_at(s, k);
    let c1 = count_below(s, x.0.index as int) as int;
    lemma_count_below(s, x.0.index as int);
    assert(t[c1] == x);
    if k != x.0.index {
        if exists|j: int| 0 <= j < s.len() && s[j].0.index == k {
            let j = choose|j: int| 0 <= j < s.len() && s[j].0.index == k;
            assert(t.contains(s[j]));
            let j2 = choose|j2: int| 0 <= j2 < t.len() && t[j2] == s[j];
            assert(t[j2].0.index == k);
        } else {
            assert forall|j: int| 0 <= j < t.len() implies (#[trigger] t[j]).0.index != k by {
                if t[j] != x {
                    assert(s.contains(t[j]));
                }
            }
        }
    }
}

/// Truncating at `i` leaves exactly the entries below `i`.
pub proof fn law_truncate_keeps_below<E>(s: LogEntries<E>, i: u64, k: u64)
    requires
        in_index_order(s),
    ensures
        entry_at(s.take(count_below(s, i as int) as int), k) == (if k < i {
            entry_at(s, k)
        } else {
            None
        }),
{
    lemma_count_below(s, i as int);
    let c = count_below(s, i as int) as int;
    let t = s.take(c);
    assert forall|a: int, b: int| 0 <= a < b < t.len() implies (#[trigger] t[a]).0.index < (#[trigger] t[b]).0.index by {
        assert(t[a] == s[a] && t[b] == s[b]);
    }
    lemma_entry_at(t, k);
    lemma_entry_at(s, k);
    if exists|j: int| 0 <= j < s.len() && s[j].0.index == k {
        let j = choose|j: int| 0 <= j < s.len() && s[j].0.index == k;
        if k < i {
            assert(j < c);
            assert(t[j] == s[j]);
        } else {
            assert forall|x: int| 0 <= x < t.len() implies (#[trigger] t[x]).0.index != k by {
                assert(t[x] == s[x]);
            }
        }
    } else {
        assert forall|x: int| 0 <= x < t.len() implies (#[trigger] t[x]).0.index != k by {
            assert(t[x] == s[x]);
        }
    }
}

/// Purging up to `i` leaves exactly the entries above `i`.
pub proof fn law_purge_keeps_above<E>(s: LogEntries<E>, i: u64, k: u64)
    requires
        in_index_order(s),
    ensures
        entry_at(s.skip(count_below(s, i + 1) as int), k) == (if k > i {
            entry_at(s, k)
        } else {
            None
        }),
{
    lemma_count_below(s, i + 1);
    let c = count_below(s, i + 1) as int;
    let t = s.skip(c);
    assert forall|a: int, b: int| 0 <= a < b < t.len() implies (#[trigger] t[a]).0.index < (#[trigger] t[b]).0.index by {
        assert(t[a] == s[a + c] && t[b] == s[b + c]);
    }
    lemma_entry_at(t, k);
    lemma_entry_at(s, k);
    if exists|j: int| 0 <= j < s.len() && s[j].0.index == k {
        let j = choose|j: int| 0 <= j < s.len() && s[j].0.index == k;
        if k > i {
            assert(j >= c);
            assert(t[j - c] == s[j]);
        } else {
            assert forall|x: int| 0 <= x < t.len() implies (#[trigger] t[x]).0.index != k by {
                assert(t[x] == s[x + c]);
            }
        }
    } else {
        assert forall|x: int| 0 <= x < t.len() implies (#[trigger] t[x]).0.index != k by {
            assert(t[x] == s[x + c]);
        }
    }
}

} // verus!
