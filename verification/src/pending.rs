//! The pending-transaction set: the coordinator's table of live
//! candidate transactions, keyed by transaction hash.
//!
//! Backed by a vector whose entries carry pairwise distinct hashes;
//! viewed as a map from hash to transaction. Members are removed,
//! never updated, on confirmation.

use crate::types::{NewPendingTx, TxHash};
use vstd::prelude::*;

verus! {

/// Pairwise-distinct hashes across a sequence of pending
/// transactions.
pub open spec fn spec_unique_hashes(s: Seq<NewPendingTx>) -> bool {
    forall|i: int, j: int|
        0 <= i < j < s.len() ==> (#[trigger] s[i]).tx.hash != (#[trigger] s[j]).tx.hash
}

/// The map a sequence of pending transactions stands for, later
/// entries shadowing earlier ones with the same hash.
pub open spec fn spec_seq_to_map(s: Seq<NewPendingTx>) -> Map<TxHash, NewPendingTx>
    decreases s.len(),
{
    if s.len() == 0 {
        Map::empty()
    } else {
        spec_seq_to_map(s.drop_last()).insert(s.last().tx.hash, s.last())
    }
}

/// The map after an insertion attempt: unchanged when the hash is
/// already present (the dedup filter fires), extended otherwise.
pub open spec fn spec_insert_pending(m: Map<TxHash, NewPendingTx>, tx: NewPendingTx) -> Map<
    TxHash,
    NewPendingTx,
> {
    if m.contains_key(tx.tx.hash) {
        m
    } else {
        m.insert(tx.tx.hash, tx)
    }
}

/// Inserting a hash a second time leaves the pending set unchanged —
/// in particular its size: the dedup filter fires on the second
/// attempt, whatever body the duplicate carries.
pub proof fn lemma_insert_twice_unchanged(
    m: Map<TxHash, NewPendingTx>,
    tx1: NewPendingTx,
    tx2: NewPendingTx,
)
    requires
        tx1.tx.hash == tx2.tx.hash,
    ensures
        spec_insert_pending(spec_insert_pending(m, tx1), tx2) == spec_insert_pending(m, tx1),
        spec_insert_pending(spec_insert_pending(m, tx1), tx2).dom().len() == spec_insert_pending(
            m,
            tx1,
        ).dom().len(),
{
}

/// A sequence's map contains a hash exactly when some entry carries
/// it.
proof fn lemma_seq_map_contains(s: Seq<NewPendingTx>, h: TxHash)
    ensures
        spec_seq_to_map(s).contains_key(h) <==> exists|i: int|
            0 <= i < s.len() && (#[trigger] s[i]).tx.hash == h,
    decreases s.len(),
{
    if s.len() == 0 {
    } else {
        lemma_seq_map_contains(s.drop_last(), h);
        if s.last().tx.hash == h {
            assert(s[s.len() - 1].tx.hash == h);
        } else if spec_seq_to_map(s).contains_key(h) {
            let i = choose|i: int|
                0 <= i < s.drop_last().len() && (#[trigger] s.drop_last()[i]).tx.hash == h;
            assert(s[i].tx.hash == h);
        } else if exists|i: int| 0 <= i < s.len() && (#[trigger] s[i]).tx.hash == h {
            let i = choose|i: int| 0 <= i < s.len() && (#[trigger] s[i]).tx.hash == h;
            assert(i < s.len() - 1);
            assert(s.drop_last()[i].tx.hash == h);
        }
    }
}

/// Under pairwise-distinct hashes the map is as large as the
/// sequence, and finite.
proof fn lemma_seq_map_len(s: Seq<NewPendingTx>)
    requires
        spec_unique_hashes(s),
    ensures
        spec_seq_to_map(s).dom().finite(),
        spec_seq_to_map(s).dom().len() == s.len(),
    decreases s.len(),
{
    if s.len() == 0 {
        assert(spec_seq_to_map(s).dom() =~= Set::<TxHash>::empty());
    } else {
        assert(spec_unique_hashes(s.drop_last())) by {
            assert(forall|i: int, j: int|
                0 <= i < j < s.drop_last().len() ==> (#[trigger] s.drop_last()[i]).tx.hash != (
                #[trigger] s.drop_last()[j]).tx.hash) by {
                assert(forall|i: int|
                    0 <= i < s.drop_last().len() ==> #[trigger] s.drop_last()[i] == s[i]);
            }
        }
        lemma_seq_map_len(s.drop_last());
        lemma_seq_map_contains(s.drop_last(), s.last().tx.hash);
        assert(!spec_seq_to_map(s.drop_last()).contains_key(s.last().tx.hash)) by {
            if exists|i: int|
                0 <= i < s.drop_last().len() && (#[trigger] s.drop_last()[i]).tx.hash
                    == s.last().tx.hash {
                let i = choose|i: int|
                    0 <= i < s.drop_last().len() && (#[trigger] s.drop_last()[i]).tx.hash
                        == s.last().tx.hash;
                assert(s[i].tx.hash == s[s.len() - 1].tx.hash);
            }
        }
        assert(spec_seq_to_map(s).dom() =~= spec_seq_to_map(s.drop_last()).dom().insert(
            s.last().tx.hash,
        ));
    }
}

/// Appending an entry inserts its hash into the map.
proof fn lemma_seq_map_push(s: Seq<NewPendingTx>, t: NewPendingTx)
    ensures
        spec_seq_to_map(s.push(t)) == spec_seq_to_map(s).insert(t.tx.hash, t),
{
    assert(s.push(t).drop_last() =~= s);
    assert(s.push(t).last() == t);
}

/// Removing the entry at a position removes its hash from the map,
/// provided hashes are pairwise distinct.
proof fn lemma_seq_map_remove(s: Seq<NewPendingTx>, i: int)
    requires
        spec_unique_hashes(s),
        0 <= i < s.len(),
    ensures
        spec_seq_to_map(s.remove(i)) == spec_seq_to_map(s).remove(s[i].tx.hash),
    decreases s.len(),
{
    if i == s.len() - 1 {
        assert(s.remove(i) =~= s.drop_last());
        lemma_seq_map_contains(s.drop_last(), s[i].tx.hash);
        assert(!spec_seq_to_map(s.drop_last()).contains_key(s[i].tx.hash)) by {
            if exists|k: int|
                0 <= k < s.drop_last().len() && (#[trigger] s.drop_last()[k]).tx.hash
                    == s[i].tx.hash {
                let k = choose|k: int|
                    0 <= k < s.drop_last().len() && (#[trigger] s.drop_last()[k]).tx.hash
                        == s[i].tx.hash;
                assert(s[k].tx.hash == s[i].tx.hash);
            }
        }
        assert(spec_seq_to_map(s.drop_last()).insert(s[i].tx.hash, s[i]).remove(s[i].tx.hash)
            =~= spec_seq_to_map(s.drop_last()));
    } else {
        assert(spec_unique_hashes(s.drop_last())) by {
            assert(forall|k: int|
                0 <= k < s.drop_last().len() ==> #[trigger] s.drop_last()[k] == s[k]);
        }
        lemma_seq_map_remove(s.drop_last(), i);
        assert(s.remove(i).drop_last() =~= s.drop_last().remove(i));
        assert(s.remove(i).last() == s.last());
        assert(s.drop_last()[i] == s[i]);
        assert(s[i].tx.hash != s.last().tx.hash) by {
            assert(s.last() == s[s.len() - 1]);
        }
        assert(spec_seq_to_map(s.drop_last()).remove(s[i].tx.hash).insert(
            s.last().tx.hash,
            s.last(),
        ) =~= spec_seq_to_map(s.drop_last()).insert(s.last().tx.hash, s.last()).remove(
            s[i].tx.hash,
        ));
    }
}

/// The coordinator's table of live candidate transactions. Every
/// member has passed the full filter chain at insertion time; the
/// coordinator alone reads and writes it.
#[derive(Debug)]
pub struct PendingSet {
    items: Vec<NewPendingTx>,
}

impl View for PendingSet {
    type V = Map<TxHash, NewPendingTx>;

    closed spec fn view(&self) -> Map<TxHash, NewPendingTx> {
        spec_seq_to_map(self.items@)
    }
}

impl PendingSet {
    /// Well-formed: the backing entries carry pairwise distinct
    /// hashes. Constructors establish it and methods preserve it.
    pub closed spec fn wf(self) -> bool {
        spec_unique_hashes(self.items@)
    }

    /// An empty pending set.
    pub fn new() -> (r: Self)
        ensures
            r.wf(),
            r@ == Map::<TxHash, NewPendingTx>::empty(),
    {
        let r = PendingSet { items: Vec::new() };
        proof {
            assert(r@ =~= Map::<TxHash, NewPendingTx>::empty());
        }
        r
    }

    /// The number of live candidates.
    pub fn len(&self) -> (n: usize)
        requires
            self.wf(),
        ensures
            n == self@.dom().len(),
    {
        proof {
            lemma_seq_map_len(self.items@);
        }
        self.items.len()
    }

    /// Whether a transaction with this hash is already tracked.
    #[verifier::loop_isolation(false)]
    pub fn contains_key(&self, h: &TxHash) -> (r: bool)
        ensures
            r == self@.contains_key(*h),
    {
        proof {
            lemma_seq_map_contains(self.items@, *h);
        }
        let mut i: usize = 0;
        while i < self.items.len()
            invariant
                0 <= i <= self.items@.len(),
                forall|j: int| 0 <= j < i ==> (#[trigger] self.items@[j]).tx.hash != *h,
            decreases self.items@.len() - i,
        {
            if self.items[i].tx.hash == *h {
                return true;
            }
            i += 1;
        }
        false
    }

    /// Inserts a candidate keyed by its hash; a hash already tracked
    /// leaves the set unchanged.
    pub fn insert(&mut self, tx: NewPendingTx) -> (inserted: bool)
        requires
            old(self).wf(),
        ensures
            final(self).wf(),
            final(self)@ == spec_insert_pending(old(self)@, tx),
            inserted == !old(self)@.contains_key(tx.tx.hash),
    {
        if self.contains_key(&tx.tx.hash) {
            false
        } else {
            proof {
                lemma_seq_map_push(self.items@, tx);
                lemma_seq_map_contains(self.items@, tx.tx.hash);
            }
            let ghost s0 = self.items@;
            self.items.push(tx);
            proof {
                assert(spec_unique_hashes(self.items@)) by {
                    assert(forall|j: int| 0 <= j < s0.len() ==> #[trigger] self.items@[j] == s0[j]);
                    assert(self.items@[s0.len() as int] == tx);
                    assert forall|i: int, j: int| 0 <= i < j < self.items@.len() implies (
                    #[trigger] self.items@[i]).tx.hash != (#[trigger] self.items@[j]).tx.hash by {
                        if j == s0.len() as int {
                            assert(s0[i].tx.hash != tx.tx.hash);
                        }
                    }
                }
            }
            true
        }
    }

    /// Removes the candidate with this hash; an untracked hash leaves
    /// the set unchanged.
    #[verifier::loop_isolation(false)]
    pub fn remove(&mut self, h: &TxHash)
        requires
            old(self).wf(),
        ensures
            final(self).wf(),
            final(self)@ == old(self)@.remove(*h),
    {
        proof {
            lemma_seq_map_contains(self.items@, *h);
        }
        let mut i: usize = 0;
        while i < self.items.len()
            invariant
                0 <= i <= self.items@.len(),
                forall|j: int| 0 <= j < i ==> (#[trigger] self.items@[j]).tx.hash != *h,
                self.items@ == old(self).items@,
            decreases self.items@.len() - i,
        {
            if self.items[i].tx.hash == *h {
                proof {
                    lemma_seq_map_remove(self.items@, i as int);
                }
                let ghost s0 = self.items@;
                self.items.remove(i);
                proof {
                    assert(spec_unique_hashes(self.items@)) by {
                        assert forall|a: int, b: int| 0 <= a < b < self.items@.len() implies (
                        #[trigger] self.items@[a]).tx.hash != (#[trigger] self.items@[b]).tx.hash by {
                            let a0 = if a < i as int {
                                a
                            } else {
                                a + 1
                            };
                            let b0 = if b < i as int {
                                b
                            } else {
                                b + 1
                            };
                            assert(self.items@[a] == s0[a0]);
                            assert(self.items@[b] == s0[b0]);
                        }
                    }
                }
                return ;
            }
            i += 1;
        }
        proof {
            assert(!self@.contains_key(*h));
            assert(self@.remove(*h) =~= self@);
        }
    }
}

} // verus!
