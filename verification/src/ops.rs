//! Retained shard operations documents: the bounded in-memory history that
//! live subscribers can replay, and the snapshot of a persisted archive.

use vstd::prelude::*;
use crate::stdb_adapter::texts;

verus! {

/// The last `limit` items of `items` (all of them when there are fewer).
pub open spec fn keep_last<T>(items: Seq<T>, limit: nat) -> Seq<T> {
    if items.len() > limit {
        items.skip(items.len() - limit)
    } else {
        items
    }
}

/// Drops items from the front of `items` until at most `limit` remain.
fn retain_last(items: &mut Vec<String>, limit: usize)
    ensures
        final(items)@ == keep_last(old(items)@, limit as nat),
{
    if items.len() > limit {
        let start = items.len() - limit;
        let kept = items.split_off(start);
        *items = kept;
        assert(final(items)@ =~= keep_last(old(items)@, limit as nat));
    }
}

/// The bounded history of published operations documents, oldest first.
#[derive(Debug)]
pub struct OpsDocumentHistory {
    history_limit: usize,
    documents: Vec<String>,
}

impl OpsDocumentHistory {
    /// The retained documents' texts, oldest first.
    pub closed spec fn spec_documents(&self) -> Seq<Seq<char>> {
        texts(self.documents@)
    }

    /// How many documents the history keeps.
    pub closed spec fn spec_limit(&self) -> nat {
        self.history_limit as nat
    }

    /// An empty history that keeps the `history_limit` most recent documents.
    pub fn new(history_limit: usize) -> (res: Self)
        ensures
            res.spec_documents() == Seq::<Seq<char>>::empty(),
            res.spec_limit() == history_limit,
    {
        let res = OpsDocumentHistory { history_limit, documents: Vec::new() };
        assert(res.spec_documents() =~= Seq::<Seq<char>>::empty());
        res
    }

    /// A history restored from an archive: `documents` (the archive's most
    /// recent ones, oldest first) are retained as they are, and later
    /// publications trim to `history_limit`.
    pub fn restore(history_limit: usize, documents: Vec<String>) -> (res: Self)
        ensures
            res.spec_documents() == texts(documents@),
            res.spec_limit() == history_limit,
    {
        OpsDocumentHistory { history_limit, documents }
    }

    /// Appends `document`, then drops the oldest documents beyond the limit
    /// (a limit of 0 keeps nothing).
    pub fn publish(&mut self, document: String)
        ensures
            final(self).spec_documents() == keep_last(old(self).spec_documents().push(document@), old(self).spec_limit()),
            final(self).spec_limit() == old(self).spec_limit(),
    {
        let ghost before = self.documents@;
        self.documents.push(document);
        let ghost pushed = self.documents@;
        retain_last(&mut self.documents, self.history_limit);
        proof {
            assert(texts(pushed) =~= texts(before).push(document@));
            let n = pushed.len();
            let lim = self.history_limit as nat;
            if n > lim {
                assert(texts(pushed.skip(n - lim)) =~= texts(pushed).skip(n - lim));
            }
        }
    }

    /// Copies of the retained documents, oldest first.
    pub fn recent_documents(&self) -> (res: Vec<String>)
        ensures
            texts(res@) == self.spec_documents(),
    {
        let mut res: Vec<String> = Vec::new();
        let mut i: usize = 0;
        while i < self.documents.len()
            invariant
                i <= self.documents@.len(),
                texts(res@) == texts(self.documents@.take(i as int)),
            decreases self.documents@.len() - i,
        {
            res.push(self.documents[i].clone());
            proof {
                assert(texts(self.documents@.take(i + 1)) =~= texts(self.documents@.take(i as int)).push(
                    self.documents@[i as int]@,
                ));
                assert(texts(res@) =~= texts(self.documents@.take(i + 1)));
            }
            i = i + 1;
        }
        proof {
            assert(self.documents@.take(i as int) =~= self.documents@);
        }
        res
    }

    /// Number of retained documents.
    pub fn retained_document_count(&self) -> (res: usize)
        ensures
            res == self.spec_documents().len(),
    {
        self.documents.len()
    }
}

/// What a persisted operations archive holds: how many documents it has and
/// the most recent ones.
#[derive(Debug, Clone)]
pub struct OpsDocumentArchiveSnapshot {
    pub archive_path: String,
    pub persisted_document_count: usize,
    pub recent_documents: Vec<String>,
}

impl OpsDocumentArchiveSnapshot {
    /// The snapshot of the archive at `archive_path` whose persisted
    /// documents, read in order, are `persisted_documents`: all of them are
    /// counted and the last `recent_limit` are kept (none for a limit of 0).
    pub fn load(archive_path: String, persisted_documents: Vec<String>, recent_limit: usize) -> (res: Self)
        ensures
            res.archive_path@ == archive_path@,
            res.persisted_document_count == persisted_documents@.len(),
            texts(res.recent_documents@) == keep_last(texts(persisted_documents@), recent_limit as nat),
    {
        let ghost all = persisted_documents@;
        let persisted_document_count = persisted_documents.len();
        let mut recent_documents = persisted_documents;
        retain_last(&mut recent_documents, recent_limit);
        proof {
            let n = all.len();
            let lim = recent_limit as nat;
            if n > lim {
                assert(texts(all.skip(n - lim)) =~= texts(all).skip(n - lim));
            }
        }
        OpsDocumentArchiveSnapshot { archive_path, persisted_document_count, recent_documents }
    }
}

/// The history never holds more than its limit, and what it holds is the
/// most recent documents in publication order: after publishing `later` on
/// top of `earlier`, it holds the last `limit` of `earlier + later`.
pub proof fn lemma_history_keeps_most_recent(earlier: Seq<Seq<char>>, later: Seq<Seq<char>>, limit: nat)
    ensures
        keep_last(keep_last(earlier, limit) + later, limit) == keep_last(earlier + later, limit),
        keep_last(earlier + later, limit).len() <= limit || earlier.len() + later.len() <= limit,
{
    let kept = keep_last(earlier, limit);
    let all = earlier + later;
    let n = all.len();
    if kept.len() + later.len() > limit {
        let lhs = (kept + later).skip(kept.len() + later.len() - limit);
        let rhs = all.skip(n - limit);
        assert(lhs =~= rhs);
    } else if earlier.len() > limit {
        assert(later.len() == 0);
        assert(kept + later =~= kept);
        assert(all =~= earlier);
    } else {
        assert(kept =~= earlier);
    }
}

/// Publishing one document at a time is a special case: after publishing
/// `document`, the history holds the last `limit` of the old ones followed by
/// `document` (for a positive limit the newest document is always kept).
pub proof fn lemma_publish_keeps_newest(documents: Seq<Seq<char>>, document: Seq<char>, limit: nat)
    requires
        limit > 0,
    ensures
        keep_last(documents.push(document), limit).last() == document,
        keep_last(documents.push(document), limit).len() <= limit,
{
}

} // verus!
