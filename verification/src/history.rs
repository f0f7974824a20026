//! Bounded, tick-ordered history of authoritative snapshots, used for
//! presentation smoothing and for rewinding to a baseline before replaying
//! local predictions.

use vstd::prelude::*;

verus! {

/// One retained snapshot and the authoritative tick it was taken at.
pub struct TickedSnapshot<S> {
    pub tick: u64,
    pub snapshot: S,
}

/// Ticks strictly increase along the history.
pub open spec fn ticks_increasing<S>(s: Seq<TickedSnapshot<S>>) -> bool {
    forall|i: int, j: int| 0 <= i < j < s.len() ==> #[trigger] s[i].tick < #[trigger] s[j].tick
}

/// Sorted insertion: an entry with the same tick is replaced, otherwise the
/// new entry goes before the first entry with a larger tick.
pub open spec fn insert_by_tick<S>(s: Seq<TickedSnapshot<S>>, e: TickedSnapshot<S>) -> Seq<
    TickedSnapshot<S>,
>
    decreases s.len(),
{
    if s.len() == 0 {
        seq![e]
    } else if e.tick < s[0].tick {
        seq![e] + s
    } else if e.tick == s[0].tick {
        seq![e] + s.drop_first()
    } else {
        seq![s[0]] + insert_by_tick(s.drop_first(), e)
    }
}

/// Keeps the newest `limit` entries (drops from the front).
pub open spec fn keep_newest<S>(s: Seq<TickedSnapshot<S>>, limit: nat) -> Seq<TickedSnapshot<S>> {
    if s.len() > limit {
        s.skip(s.len() - limit)
    } else {
        s
    }
}

/// Index of the newest entry whose tick is at most `tick`, or -1.
pub open spec fn rewind_index<S>(s: Seq<TickedSnapshot<S>>, tick: u64) -> int
    decreases s.len(),
{
    if s.len() == 0 {
        -1
    } else if s.last().tick <= tick {
        s.len() - 1
    } else {
        rewind_index(s.drop_last(), tick)
    }
}

/// Bounded authoritative history for rendering/interpolating remote state.
pub struct SnapshotInterpolationBuffer<S> {
    history_limit: usize,
    snapshots: Vec<TickedSnapshot<S>>,
}

impl<S> SnapshotInterpolationBuffer<S> {
    /// The retained entries, oldest first.
    pub closed spec fn entries(self) -> Seq<TickedSnapshot<S>> {
        self.snapshots@
    }

    /// Maximum number of retained entries.
    pub closed spec fn limit(self) -> nat {
        self.history_limit as nat
    }

    /// Entries are ordered by strictly increasing tick and there are never
    /// more than the limit.
    pub open spec fn wf(self) -> bool {
        &&& ticks_increasing(self.entries())
        &&& self.entries().len() <= self.limit()
    }

    /// An empty history retaining at most `history_limit` snapshots.
    pub fn new(history_limit: usize) -> (res: Self)
        ensures
            res.wf(),
            res.entries() == Seq::<TickedSnapshot<S>>::empty(),
            res.limit() == history_limit,
    {
        SnapshotInterpolationBuffer { history_limit, snapshots: Vec::new() }
    }

    /// Drops every retained snapshot.
    pub fn clear(&mut self)
        ensures
            final(self).entries() == Seq::<TickedSnapshot<S>>::empty(),
            final(self).limit() == old(self).limit(),
            final(self).wf(),
    {
        self.snapshots = Vec::new();
    }

    /// Tick of the newest retained snapshot.
    pub fn latest_tick(&self) -> (res: Option<u64>)
        ensures
            self.entries().len() == 0 ==> res is None,
            self.entries().len() > 0 ==> res == Some(self.entries().last().tick),
    {
        if self.snapshots.len() == 0 {
            None
        } else {
            Some(self.snapshots[self.snapshots.len() - 1].tick)
        }
    }

    /// Tick of the oldest retained snapshot.
    pub fn oldest_tick(&self) -> (res: Option<u64>)
        ensures
            self.entries().len() == 0 ==> res is None,
            self.entries().len() > 0 ==> res == Some(self.entries()[0].tick),
    {
        if self.snapshots.len() == 0 {
            None
        } else {
            Some(self.snapshots[0].tick)
        }
    }

    /// Number of retained snapshots.
    pub fn snapshot_count(&self) -> (res: usize)
        ensures
            res == self.entries().len(),
    {
        self.snapshots.len()
    }

    /// Rewinds to the newest snapshot at or before `tick`; when `tick`
    /// predates the whole history, the oldest retained snapshot is returned
    /// instead. `None` only when nothing is retained.
    pub fn rewind_to(&self, tick: u64) -> (res: Option<&TickedSnapshot<S>>)
        ensures
            self.entries().len() == 0 ==> res is None,
            self.entries().len() > 0 && rewind_index(self.entries(), tick) >= 0 ==> (res matches Some(
                r,
            ) && *r == self.entries()[rewind_index(self.entries(), tick)]),
            self.entries().len() > 0 && rewind_index(self.entries(), tick) < 0 ==> (res matches Some(
                r,
            ) && *r == self.entries()[0]),
    {
        let n = self.snapshots.len();
        let mut i = n;
        proof {
            assert(self.snapshots@.take(n as int) =~= self.snapshots@);
        }
        while i > 0
            invariant
                i <= n,
                n == self.snapshots@.len(),
                rewind_index(self.snapshots@, tick) == rewind_index(self.snapshots@.take(i as int), tick),
            decreases i,
        {
            proof {
                assert(self.snapshots@.take(i as int).drop_last() =~= self.snapshots@.take(i - 1));
            }
            if self.snapshots[i - 1].tick <= tick {
                return Some(&self.snapshots[i - 1]);
            }
            i = i - 1;
        }
        proof {
            assert(self.snapshots@.take(0) =~= Seq::<TickedSnapshot<S>>::empty());
            assert(self.snapshots@.take(n as int) =~= self.snapshots@);
        }
        if n == 0 {
            None
        } else {
            Some(&self.snapshots[0])
        }
    }

    /// Records an authoritative snapshot: one with the same tick is replaced,
    /// otherwise it is inserted in tick order; then the oldest entries are
    /// dropped until at most the limit remain.
    pub fn push(&mut self, tick: u64, snapshot: S)
        requires
            old(self).wf(),
        ensures
            final(self).wf(),
            final(self).limit() == old(self).limit(),
            final(self).entries() == keep_newest(
                insert_by_tick(old(self).entries(), TickedSnapshot { tick, snapshot }),
                old(self).limit(),
            ),
    {
        let ghost old_entries = self.snapshots@;
        let entry = TickedSnapshot { tick, snapshot };
        let ghost e = entry;
        let n = self.snapshots.len();
        let mut i: usize = 0;
        while i < n && self.snapshots[i].tick < tick
            invariant
                i <= n,
                n == self.snapshots@.len(),
                self.snapshots@ == old_entries,
                ticks_increasing(old_entries),
                forall|j: int| 0 <= j < i ==> old_entries[j].tick < tick,
            decreases n - i,
        {
            i = i + 1;
        }
        proof {
            lemma_insert_at(old_entries, entry, i as int);
        }
        if i < n && self.snapshots[i].tick == tick {
            self.snapshots.set(i, entry);
        } else {
            self.snapshots.insert(i, entry);
        }
        proof {
            lemma_insert_keeps_order(old_entries, e);
            assert(self.snapshots@ == insert_by_tick(old_entries, e));
        }
        let ghost inserted = self.snapshots@;
        while self.snapshots.len() > self.history_limit
            invariant
                self.history_limit == old(self).history_limit,
                ticks_increasing(self.snapshots@),
                inserted.len() >= self.snapshots@.len(),
                self.snapshots@ == inserted.skip(inserted.len() - self.snapshots@.len()),
                self.snapshots@.len() > self.history_limit ==> inserted.len() > self.history_limit,
                inserted.len() > self.history_limit ==> self.snapshots@.len() >= self.history_limit,
                inserted.len() <= self.history_limit ==> self.snapshots@.len() == inserted.len(),
            decreases self.snapshots.len(),
        {
            self.snapshots.remove(0);
            proof {
                assert(self.snapshots@ =~= inserted.skip(inserted.len() - self.snapshots@.len()));
            }
        }
        proof {
            if inserted.len() <= self.history_limit {
                assert(inserted.skip(0) =~= inserted);
                assert(self.snapshots@ == inserted);
            } else {
                assert(self.snapshots@.len() == self.history_limit);
            }
            assert(self.snapshots@ == keep_newest(inserted, self.history_limit as nat));
            assert(e == TickedSnapshot { tick, snapshot });
        }
    }
}

impl<S> Default for SnapshotInterpolationBuffer<S> {
    /// A history retaining up to 32 snapshots.
    fn default() -> (res: Self)
        ensures
            res.wf(),
            res.entries() == Seq::<TickedSnapshot<S>>::empty(),
            res.limit() == 32,
    {
        Self::new(32)
    }
}

/// Sorted insertion at the first index whose tick is not below the new one.
proof fn lemma_insert_at<S>(s: Seq<TickedSnapshot<S>>, e: TickedSnapshot<S>, i: int)
    requires
        ticks_increasing(s),
        0 <= i <= s.len(),
        forall|j: int| 0 <= j < i ==> s[j].tick < e.tick,
        i < s.len() ==> s[i].tick >= e.tick,
    ensures
        i < s.len() && s[i].tick == e.tick ==> insert_by_tick(s, e) == s.update(i, e),
        !(i < s.len() && s[i].tick == e.tick) ==> insert_by_tick(s, e) == s.insert(i, e),
    decreases i,
{
    if s.len() == 0 {
        assert(s.insert(i, e) =~= seq![e]);
    } else if i == 0 {
        if e.tick == s[0].tick {
            assert(s.update(0, e) =~= seq![e] + s.drop_first());
        } else {
            assert(s.insert(0, e) =~= seq![e] + s);
        }
    } else {
        let t = s.drop_first();
        assert forall|a: int, b: int| 0 <= a < b < t.len() implies #[trigger] t[a].tick
            < #[trigger] t[b].tick by {
            assert(t[a] == s[a + 1]);
            assert(t[b] == s[b + 1]);
        }
        assert forall|j: int| 0 <= j < i - 1 implies t[j].tick < e.tick by {
            assert(t[j] == s[j + 1]);
        }
        lemma_insert_at(t, e, i - 1);
        if i < s.len() && s[i].tick == e.tick {
            assert(s.update(i, e) =~= seq![s[0]] + t.update(i - 1, e));
        } else {
            assert(s.insert(i, e) =~= seq![s[0]] + t.insert(i - 1, e));
        }
    }
}

/// Sorted insertion preserves the strict tick order.
pub proof fn lemma_insert_keeps_order<S>(s: Seq<TickedSnapshot<S>>, e: TickedSnapshot<S>)
    requires
        ticks_increasing(s),
    ensures
        ticks_increasing(insert_by_tick(s, e)),
        insert_by_tick(s, e).len() <= s.len() + 1,
        forall|k: int| 0 <= k < insert_by_tick(s, e).len() ==> #[trigger] insert_by_tick(s, e)[k] == e
            || s.contains(insert_by_tick(s, e)[k]),
        insert_by_tick(s, e).contains(e),
    decreases s.len(),
{
    let r = insert_by_tick(s, e);
    if s.len() == 0 {
        assert(r[0] == e);
    } else if e.tick < s[0].tick {
        assert(r[0] == e);
        assert forall|k: int| 0 <= k < r.len() implies #[trigger] r[k] == e || s.contains(r[k]) by {
            if k > 0 {
                assert(r[k] == s[k - 1]);
            }
        }
    } else if e.tick == s[0].tick {
        assert(r[0] == e);
        assert forall|k: int| 0 <= k < r.len() implies #[trigger] r[k] == e || s.contains(r[k]) by {
            if k > 0 {
                assert(r[k] == s[k]);
            }
        }
    } else {
        let t = s.drop_first();
        assert forall|a: int, b: int| 0 <= a < b < t.len() implies #[trigger] t[a].tick
            < #[trigger] t[b].tick by {
            assert(t[a] == s[a + 1]);
            assert(t[b] == s[b + 1]);
        }
        lemma_insert_keeps_order(t, e);
        let rt = insert_by_tick(t, e);
        assert(r == seq![s[0]] + rt);
        assert forall|k: int| 0 <= k < r.len() implies #[trigger] r[k] == e || s.contains(r[k]) by {
            if k > 0 {
                assert(r[k] == rt[k - 1]);
                if rt[k - 1] != e {
                    let m = choose|m: int| 0 <= m < t.len() && t[m] == rt[k - 1];
                    assert(s[m + 1] == t[m]);
                }
            } else {
                assert(s[0] == r[0]);
            }
        }
        assert forall|a: int, b: int| 0 <= a < b < r.len() implies #[trigger] r[a].tick
            < #[trigger] r[b].tick by {
            if a == 0 {
                assert(r[b] == rt[b - 1]);
                if rt[b - 1] == e {
                } else {
                    let m = choose|m: int| 0 <= m < t.len() && t[m] == rt[b - 1];
                    assert(t[m] == s[m + 1]);
                }
            } else {
                assert(r[a] == rt[a - 1]);
                assert(r[b] == rt[b - 1]);
            }
        }
        let w = choose|w: int| 0 <= w < rt.len() && rt[w] == e;
        assert(r[w + 1] == e);
    }
}

/// Rewinding picks the newest retained snapshot at or before the tick: its
/// tick is at most `tick` and every later snapshot is after `tick` (or,
/// with -1, every retained snapshot is after `tick`).
pub proof fn lemma_rewind_is_newest_at_or_before<S>(s: Seq<TickedSnapshot<S>>, tick: u64)
    ensures
        -1 <= rewind_index(s, tick) < s.len(),
        rewind_index(s, tick) >= 0 ==> s[rewind_index(s, tick)].tick <= tick,
        forall|j: int| rewind_index(s, tick) < j < s.len() ==> #[trigger] s[j].tick > tick,
    decreases s.len(),
{
    if s.len() > 0 && s.last().tick > tick {
        let t = s.drop_last();
        lemma_rewind_is_newest_at_or_before(t, tick);
        assert forall|j: int| rewind_index(s, tick) < j < s.len() implies #[trigger] s[j].tick > tick by {
            if j < s.len() - 1 {
                assert(s[j] == t[j]);
            }
        }
    }
}

/// Rewinding to the tick of any retained snapshot gives back exactly that
/// snapshot.
pub proof fn lemma_rewind_to_retained_tick<S>(s: Seq<TickedSnapshot<S>>, k: int)
    requires
        ticks_increasing(s),
        0 <= k < s.len(),
    ensures
        rewind_index(s, s[k].tick) == k,
{
    lemma_rewind_is_newest_at_or_before(s, s[k].tick);
    let r = rewind_index(s, s[k].tick);
    if r < k {
        assert(s[k].tick > s[k].tick);
    }
    if r > k {
        assert(s[k].tick < s[r].tick);
    }
}

/// Pushing a snapshot no older than anything retained either replaces the
/// newest entry (same tick) or appends it.
proof fn lemma_insert_newest<S>(s: Seq<TickedSnapshot<S>>, e: TickedSnapshot<S>)
    requires
        forall|j: int| 0 <= j < s.len() ==> #[trigger] s[j].tick <= e.tick,
        ticks_increasing(s),
    ensures
        insert_by_tick(s, e) == if s.len() > 0 && s.last().tick == e.tick {
            s.drop_last().push(e)
        } else {
            s.push(e)
        },
    decreases s.len(),
{
    if s.len() > 0 {
        let t = s.drop_first();
        assert forall|a: int, b: int| 0 <= a < b < t.len() implies #[trigger] t[a].tick < #[trigger] t[b].tick by {
            assert(t[a] == s[a + 1]);
            assert(t[b] == s[b + 1]);
        }
        assert forall|j: int| 0 <= j < t.len() implies #[trigger] t[j].tick <= e.tick by {
            assert(t[j] == s[j + 1]);
        }
        if e.tick == s[0].tick {
            if s.len() > 1 {
                assert(s[0].tick < s[1].tick);
            }
            assert(seq![e] + s.drop_first() =~= s.drop_last().push(e));
        } else {
            lemma_insert_newest(t, e);
            if t.len() > 0 && t.last().tick == e.tick {
                assert(seq![s[0]] + t.drop_last().push(e) =~= s.drop_last().push(e));
            } else {
                assert(seq![s[0]] + t.push(e) =~= s.push(e));
            }
        }
    }
}

/// What a read gives back of a write: after pushing the newest snapshot
/// into a history that keeps at least one entry, it is the newest retained
/// entry and rewinding to its tick returns it.
pub proof fn lemma_push_newest_then_rewind<S>(s: Seq<TickedSnapshot<S>>, tick: u64, snapshot: S, limit: nat)
    requires
        ticks_increasing(s),
        limit > 0,
        forall|j: int| 0 <= j < s.len() ==> #[trigger] s[j].tick <= tick,
    ensures
        ({
            let kept = keep_newest(insert_by_tick(s, TickedSnapshot { tick, snapshot }), limit);
            &&& kept.len() > 0
            &&& kept.last() == TickedSnapshot { tick, snapshot }
            &&& rewind_index(kept, tick) == kept.len() - 1
        }),
{
    let e = TickedSnapshot { tick, snapshot };
    lemma_insert_newest(s, e);
    let inserted = insert_by_tick(s, e);
    assert(inserted.last() == e);
    let kept = keep_newest(inserted, limit);
    if inserted.len() > limit {
        assert(kept.last() == inserted.last());
    }
}

/// The history only ever holds snapshots that were pushed: every retained
/// entry after a push is the pushed one or was retained before, the order
/// stays strict and the limit is respected.
pub proof fn lemma_push_keeps_invariant<S>(s: Seq<TickedSnapshot<S>>, e: TickedSnapshot<S>, limit: nat)
    requires
        ticks_increasing(s),
    ensures
        ({
            let kept = keep_newest(insert_by_tick(s, e), limit);
            &&& ticks_increasing(kept)
            &&& kept.len() <= limit || kept.len() <= s.len() + 1
            &&& forall|k: int| 0 <= k < kept.len() ==> #[trigger] kept[k] == e || s.contains(kept[k])
        }),
{
    lemma_insert_keeps_order(s, e);
    let inserted = insert_by_tick(s, e);
    let kept = keep_newest(inserted, limit);
    if inserted.len() > limit {
        let d = inserted.len() - limit;
        assert forall|a: int, b: int| 0 <= a < b < kept.len() implies #[trigger] kept[a].tick < #[trigger] kept[b].tick by {
            assert(kept[a] == inserted[a + d]);
            assert(kept[b] == inserted[b + d]);
        }
        assert forall|k: int| 0 <= k < kept.len() implies #[trigger] kept[k] == e || s.contains(kept[k]) by {
            assert(kept[k] == inserted[k + d]);
        }
    }
}

} // verus!
