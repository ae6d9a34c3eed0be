//! The per-session change cache: one entry per edited record, keyed by
//! the record's stable identity, coalescing repeated edits into a single
//! pending change.
//!
//! The cache performs no validation of display rows — callers supply a
//! row that is valid at call time, and it is not re-checked if the table
//! is later reordered.  The whole cache is discarded with its session.

use vstd::prelude::*;

verus! {

/// A pending change, to be applied to the store when the user confirms.
#[derive(Debug, PartialEq, Eq, Structural, Clone, Copy)]
pub enum Change {
    ChangeDistribution { vpin_id: i64, new_dist_id: i64 },
}

/// One cached edit: where the record is displayed, what it showed before
/// its first edit, and the change now pending for it.
struct CacheEntry {
    identity: i64,
    display_row: usize,
    original_value: String,
    change: Change,
}

/// The mapping a list of cache entries stands for: identity to (display
/// row, original value, pending change), later entries winning.
spec fn cache_map(es: Seq<CacheEntry>) -> Map<int, (int, Seq<char>, Change)>
    decreases es.len(),
{
    if es.len() == 0 {
        Map::empty()
    } else {
        cache_map(es.drop_last()).insert(
            es.last().identity as int,
            (es.last().display_row as int, es.last().original_value@, es.last().change),
        )
    }
}

/// Each identity appears in at most one entry.
spec fn unique_identities(es: Seq<CacheEntry>) -> bool {
    forall|i: int, j: int| 0 <= i < j < es.len() ==> es[i].identity != es[j].identity
}

proof fn lemma_cache_map_contains(es: Seq<CacheEntry>, id: int)
    ensures
        cache_map(es).contains_key(id) <==> exists|i: int|
            0 <= i < es.len() && es[i].identity as int == id,
    decreases es.len(),
{
    if es.len() == 0 {
    } else {
        lemma_cache_map_contains(es.drop_last(), id);
        if es.last().identity as int == id {
            assert(es[es.len() - 1].identity as int == id);
        } else if cache_map(es).contains_key(id) {
            let i = choose|i: int| 0 <= i < es.drop_last().len() && es.drop_last()[i].identity as int
                == id;
            assert(es[i].identity as int == id);
        } else if exists|i: int| 0 <= i < es.len() && es[i].identity as int == id {
            let i = choose|i: int| 0 <= i < es.len() && es[i].identity as int == id;
            assert(es.drop_last()[i].identity as int == id);
        }
    }
}

proof fn lemma_cache_map_len(es: Seq<CacheEntry>)
    requires
        unique_identities(es),
    ensures
        cache_map(es).dom().finite(),
        cache_map(es).len() == es.len(),
    decreases es.len(),
{
    if es.len() == 0 {
        assert(cache_map(es).dom() =~= Set::<int>::empty());
    } else {
        let pre = es.drop_last();
        assert forall|i: int, j: int| 0 <= i < j < pre.len() implies pre[i].identity
            != pre[j].identity by {
            assert(pre[i] == es[i]);
            assert(pre[j] == es[j]);
        }
        lemma_cache_map_len(pre);
        lemma_cache_map_contains(pre, es.last().identity as int);
        if exists|i: int| 0 <= i < pre.len() && pre[i].identity as int == es.last().identity as int {
            let i = choose|i: int| 0 <= i < pre.len() && pre[i].identity as int == es.last().identity
                as int;
            assert(es[i].identity == es[es.len() - 1].identity);
        }
    }
}

proof fn lemma_cache_map_index(es: Seq<CacheEntry>, k: int)
    requires
        unique_identities(es),
        0 <= k < es.len(),
    ensures
        cache_map(es).contains_key(es[k].identity as int),
        cache_map(es)[es[k].identity as int] == (
            es[k].display_row as int,
            es[k].original_value@,
            es[k].change,
        ),
    decreases es.len(),
{
    if k == es.len() - 1 {
    } else {
        let pre = es.drop_last();
        assert forall|i: int, j: int| 0 <= i < j < pre.len() implies pre[i].identity
            != pre[j].identity by {
            assert(pre[i] == es[i]);
            assert(pre[j] == es[j]);
        }
        assert(pre[k] == es[k]);
        lemma_cache_map_index(pre, k);
        assert(es[k].identity != es[es.len() - 1].identity);
    }
}

proof fn lemma_cache_map_update(es: Seq<CacheEntry>, k: int, e2: CacheEntry)
    requires
        unique_identities(es),
        0 <= k < es.len(),
        e2.identity == es[k].identity,
    ensures
        cache_map(es.update(k, e2)) == cache_map(es).insert(
            e2.identity as int,
            (e2.display_row as int, e2.original_value@, e2.change),
        ),
    decreases es.len(),
{
    let id = e2.identity as int;
    let t2 = (e2.display_row as int, e2.original_value@, e2.change);
    let post = es.update(k, e2);
    if k == es.len() - 1 {
        assert(post.drop_last() =~= es.drop_last());
        assert(post.last() == e2);
        assert(cache_map(es.drop_last()).insert(
            es.last().identity as int,
            (es.last().display_row as int, es.last().original_value@, es.last().change),
        ).insert(id, t2) =~= cache_map(es.drop_last()).insert(id, t2));
    } else {
        let pre = es.drop_last();
        assert forall|i: int, j: int| 0 <= i < j < pre.len() implies pre[i].identity
            != pre[j].identity by {
            assert(pre[i] == es[i]);
            assert(pre[j] == es[j]);
        }
        assert(pre[k] == es[k]);
        lemma_cache_map_update(pre, k, e2);
        assert(post.drop_last() =~= pre.update(k, e2));
        assert(post.last() == es.last());
        let last_id = es.last().identity as int;
        let last_t = (es.last().display_row as int, es.last().original_value@, es.last().change);
        assert(es[k].identity != es[es.len() - 1].identity);
        assert(cache_map(pre).insert(id, t2).insert(last_id, last_t) =~= cache_map(pre).insert(
            last_id,
            last_t,
        ).insert(id, t2));
    }
}

/// The per-session cache of pending edits, at most one entry per record
/// identity.  Its view is the mapping from identity to (display row,
/// original value, pending change).
pub struct PinChangesCache {
    entries: Vec<CacheEntry>,
}

impl View for PinChangesCache {
    type V = Map<int, (int, Seq<char>, Change)>;

    closed spec fn view(&self) -> Map<int, (int, Seq<char>, Change)> {
        cache_map(self.entries@)
    }
}

impl PinChangesCache {
    /// At most one entry per identity; established by `new`, kept by
    /// every operation.
    pub closed spec fn wf(&self) -> bool {
        unique_identities(self.entries@)
    }

    pub fn new() -> (r: PinChangesCache)
        ensures
            r.wf(),
            r@ == Map::<int, (int, Seq<char>, Change)>::empty(),
            r@.dom().finite(),
    {
        let r = PinChangesCache { entries: Vec::new() };
        proof {
            lemma_cache_map_len(r.entries@);
        }
        r
    }

    /// How many records have pending edits.
    pub fn count(&self) -> (r: usize)
        requires
            self.wf(),
        ensures
            r == self@.len(),
    {
        proof {
            lemma_cache_map_len(self.entries@);
        }
        self.entries.len()
    }

    /// Whether a record already has a cached edit.
    pub fn has(&self, identity: i64) -> (r: bool)
        ensures
            r == self@.contains_key(identity as int),
    {
        let mut k: usize = 0;
        let n = self.entries.len();
        while k < n
            invariant
                n == self.entries.len(),
                0 <= k <= n,
                forall|j: int| 0 <= j < k ==> self.entries@[j].identity != identity,
            decreases n - k,
        {
            if self.entries[k].identity == identity {
                proof {
                    lemma_cache_map_contains(self.entries@, identity as int);
                }
                return true;
            }
            k = k + 1;
        }
        proof {
            lemma_cache_map_contains(self.entries@, identity as int);
        }
        false
    }

    /// The display row recorded for a record, if it has a cached edit.
    pub fn row_for(&self, identity: i64) -> (r: Option<usize>)
        requires
            self.wf(),
        ensures
            match r {
                Some(row) => self@.contains_key(identity as int) && self@[identity as int].0 == row
                    as int,
                None => !self@.contains_key(identity as int),
            },
    {
        let mut k: usize = 0;
        let n = self.entries.len();
        while k < n
            invariant
                n == self.entries.len(),
                0 <= k <= n,
                self.wf(),
                forall|j: int| 0 <= j < k ==> self.entries@[j].identity != identity,
            decreases n - k,
        {
            if self.entries[k].identity == identity {
                proof {
                    lemma_cache_map_index(self.entries@, k as int);
                }
                return Some(self.entries[k].display_row);
            }
            k = k + 1;
        }
        proof {
            lemma_cache_map_contains(self.entries@, identity as int);
        }
        None
    }

    /// Records the first edit of a record in this session.
    pub fn record_first_edit(
        &mut self,
        identity: i64,
        original_value: String,
        display_row: usize,
        change: Change,
    )
        requires
            old(self).wf(),
            !old(self)@.contains_key(identity as int),
        ensures
            final(self).wf(),
            final(self)@ == old(self)@.insert(
                identity as int,
                (display_row as int, original_value@, change),
            ),
            final(self)@.len() == old(self)@.len() + 1,
            final(self)@.dom().finite(),
    {
        proof {
            lemma_cache_map_len(self.entries@);
            lemma_cache_map_contains(self.entries@, identity as int);
        }
        let ghost evs = self.entries@;
        self.entries.push(
            CacheEntry { identity, display_row, original_value, change },
        );
        proof {
            assert(self.entries@.drop_last() =~= evs);
            assert forall|i: int, j: int|
                0 <= i < j < self.entries@.len() implies self.entries@[i].identity
                != self.entries@[j].identity by {
                if j < self.entries@.len() - 1 {
                    assert(self.entries@[i] == evs[i]);
                    assert(self.entries@[j] == evs[j]);
                } else {
                    assert(self.entries@[i] == evs[i]);
                    if self.entries@[i].identity == identity {
                        assert(evs[i].identity as int == identity as int);
                    }
                }
            }
            lemma_cache_map_len(self.entries@);
        }
    }

    /// Replaces the pending change of a record already in the cache; the
    /// display row and original value stay as first recorded.
    pub fn update_existing(&mut self, identity: i64, change: Change)
        requires
            old(self).wf(),
            old(self)@.contains_key(identity as int),
        ensures
            final(self).wf(),
            final(self)@ == old(self)@.insert(
                identity as int,
                (old(self)@[identity as int].0, old(self)@[identity as int].1, change),
            ),
            final(self)@.len() == old(self)@.len(),
            final(self)@.dom().finite(),
    {
        proof {
            lemma_cache_map_len(self.entries@);
            lemma_cache_map_contains(self.entries@, identity as int);
        }
        let ghost evs = self.entries@;
        let mut k: usize = 0;
        let n = self.entries.len();
        while k < n
            invariant
                n == self.entries.len(),
                0 <= k <= n,
                self.entries@ == evs,
                evs == old(self).entries@,
                unique_identities(evs),
                cache_map(evs).len() == n,
                cache_map(evs).contains_key(identity as int),
                exists|i: int| k <= i < n && evs[i].identity == identity,
                forall|j: int| 0 <= j < k ==> evs[j].identity != identity,
            decreases n - k,
        {
            if self.entries[k].identity == identity {
                proof {
                    lemma_cache_map_index(evs, k as int);
                }
                let e = self.entries.remove(k);
                let e2 = CacheEntry {
                    identity: e.identity,
                    display_row: e.display_row,
                    original_value: e.original_value,
                    change,
                };
                self.entries.insert(k, e2);
                proof {
                    assert forall|j: int|
                        0 <= j < self.entries@.len() implies self.entries@[j] == evs.update(
                        k as int,
                        e2,
                    )[j] by {
                        if j != k {
                            assert(self.entries@[j] == evs[j]);
                        }
                    }
                    assert(self.entries@ =~= evs.update(k as int, e2));
                    lemma_cache_map_update(evs, k as int, e2);
                    assert forall|i: int, j: int|
                        0 <= i < j < self.entries@.len() implies self.entries@[i].identity
                        != self.entries@[j].identity by {
                        assert(self.entries@[i].identity == evs[i].identity);
                        assert(self.entries@[j].identity == evs[j].identity);
                    }
                    lemma_cache_map_len(self.entries@);
                }
                return ;
            }
            proof {
                let i = choose|i: int| k <= i < n && evs[i].identity == identity;
                assert(i >= k + 1);
                assert(evs[i].identity == identity);
            }
            k = k + 1;
        }
        proof {
            assert(false);
        }
    }
}

/// Recording edits to two distinct identities adds two entries, each
/// retrievable under its own identity.
pub proof fn lemma_distinct_edits_coexist(
    m: Map<int, (int, Seq<char>, Change)>,
    id1: int,
    id2: int,
    e1: (int, Seq<char>, Change),
    e2: (int, Seq<char>, Change),
)
    requires
        id1 != id2,
        m.dom().finite(),
        !m.contains_key(id1),
        !m.contains_key(id2),
    ensures
        m.insert(id1, e1).insert(id2, e2).len() == m.len() + 2,
        m.insert(id1, e1).insert(id2, e2)[id1] == e1,
        m.insert(id1, e1).insert(id2, e2)[id2] == e2,
{
}

/// Updating the pending change of an identity already cached never grows
/// the mapping.
pub proof fn lemma_update_keeps_count(
    m: Map<int, (int, Seq<char>, Change)>,
    id: int,
    e: (int, Seq<char>, Change),
)
    requires
        m.dom().finite(),
        m.contains_key(id),
    ensures
        m.insert(id, e).len() == m.len(),
{
}

} // verus!
