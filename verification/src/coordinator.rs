//! The coordinating state machine: owns the current block and the
//! pending-transaction set, consumes one event at a time, and drives
//! the filter chain — dedup, gas competitiveness, receipt absence,
//! swap detection — in that order.
//!
//! The node-dependent steps (receipt lookup, trace simulation, the
//! included-hash query) are performed by the caller between the
//! decision functions here; every decision itself is made in this
//! module.

use crate::detect::{search_in_logs, spec_opt_has_swap, CallFrame};
use crate::pending::{spec_insert_pending, PendingSet};
use crate::types::{calculate_victim_gas, spec_victim_gas, NewBlock, NewPendingTx, TxHash};
use vstd::prelude::*;

verus! {

/// The core state machine. The pending set is exclusively owned and
/// mutated here; the held block is replaced whole on each Block event.
#[derive(Debug)]
pub struct Coordinator {
    pub block: NewBlock,
    pub pending: PendingSet,
}

impl Coordinator {
    /// Well-formed: the pending set is. Established by `new` and
    /// preserved by every method.
    pub open spec fn wf(self) -> bool {
        self.pending.wf()
    }

    /// Whether a pending transaction passes the two local filters, in
    /// order: not already tracked (dedup), and an effective gas price
    /// at least the current block's base fee.
    pub open spec fn spec_passes_local_filters(self, tx: NewPendingTx) -> bool {
        &&& !self.pending@.contains_key(tx.tx.hash)
        &&& spec_victim_gas(tx.tx) >= self.block.base_fee
    }

    /// Whether a pending transaction is admitted, given the outcomes
    /// of the two node-dependent filters: both local filters pass, no
    /// receipt exists, and the simulated trace contains a swap
    /// emission.
    pub open spec fn spec_admits(
        self,
        tx: NewPendingTx,
        has_receipt: bool,
        trace: Option<CallFrame>,
    ) -> bool {
        &&& self.spec_passes_local_filters(tx)
        &&& !has_receipt
        &&& spec_opt_has_swap(trace)
    }

    /// A coordinator starting from an observed chain head, tracking
    /// nothing.
    pub fn new(block: NewBlock) -> (r: Self)
        ensures
            r.wf(),
            r.block == block,
            r.pending@ == Map::<TxHash, NewPendingTx>::empty(),
    {
        Coordinator { block, pending: PendingSet::new() }
    }

    /// Handles a Block event: replaces the held block whole, then
    /// removes every tracked candidate whose hash the new block
    /// included. An absent hash list — a failed lookup — reconciles
    /// nothing this round; it is not retried.
    #[verifier::loop_isolation(false)]
    pub fn on_block(&mut self, block: NewBlock, included: Option<Vec<TxHash>>)
        requires
            old(self).wf(),
        ensures
            final(self).wf(),
            final(self).block == block,
            match included {
                Some(hashes) => final(self).pending@ == old(self).pending@.remove_keys(
                    hashes@.to_set(),
                ),
                None => final(self).pending@ == old(self).pending@,
            },
    {
        self.block = block;
        match included {
            Some(hashes) => {
                let ghost m0 = self.pending@;
                let mut i: usize = 0;
                while i < hashes.len()
                    invariant
                        0 <= i <= hashes@.len(),
                        self.block == block,
                        self.pending.wf(),
                        self.pending@ == m0.remove_keys(hashes@.take(i as int).to_set()),
                    decreases hashes@.len() - i,
                {
                    self.pending.remove(&hashes[i]);
                    proof {
                        broadcast use vstd::seq_lib::group_seq_properties;
                        broadcast use vstd::set::group_set_axioms;

                        let s1 = hashes@.take(i + 1);
                        assert(s1.drop_last() =~= hashes@.take(i as int));
                        assert(s1.last() == hashes@[i as int]);
                        assert(s1.drop_last().to_set().insert(s1.last()) =~= s1.to_set());
                        assert(m0.remove_keys(hashes@.take(i as int).to_set()).remove(
                            hashes@[i as int],
                        ) =~= m0.remove_keys(s1.to_set()));
                    }
                    i += 1;
                }
                proof {
                    assert(hashes@.take(hashes@.len() as int) =~= hashes@);
                }
            },
            None => {},
        }
    }

    /// Runs the two local filters — dedup, then gas competitiveness —
    /// so the caller consults the node only for transactions that
    /// still matter.
    pub fn passes_local_filters(&self, tx: &NewPendingTx) -> (r: bool)
        ensures
            r == self.spec_passes_local_filters(*tx),
    {
        if self.pending.contains_key(&tx.tx.hash) {
            return false;
        }
        let gas = calculate_victim_gas(&tx.tx);
        gas >= self.block.base_fee as u128
    }

    /// Handles a PendingTx event once the node has been consulted:
    /// `has_receipt` says whether a receipt already exists for the
    /// hash, and `trace` is the simulated call tree, absent when
    /// simulation failed (treated as no match). The transaction is
    /// inserted, tagged with the current block number as its arrival
    /// reference, exactly when every filter passes; otherwise the set
    /// is unchanged.
    pub fn on_pending_tx(
        &mut self,
        tx: NewPendingTx,
        has_receipt: bool,
        trace: Option<CallFrame>,
    ) -> (inserted: bool)
        requires
            old(self).wf(),
        ensures
            final(self).wf(),
            final(self).block == old(self).block,
            inserted == old(self).spec_admits(tx, has_receipt, trace),
            inserted ==> final(self).pending@ == old(self).pending@.insert(
                tx.tx.hash,
                (NewPendingTx { added_block: Some(old(self).block.block_number), tx: tx.tx }),
            ),
            !inserted ==> final(self).pending@ == old(self).pending@,
    {
        if !self.passes_local_filters(&tx) {
            return false;
        }
        if has_receipt {
            return false;
        }
        if !search_in_logs(trace) {
            return false;
        }
        let tagged = NewPendingTx { added_block: Some(self.block.block_number), tx: tx.tx };
        self.pending.insert(tagged);
        true
    }

    /// The observation hook's condition: whether the number of
    /// tracked candidates stands at a multiple of one hundred. It
    /// performs no state change.
    pub fn heartbeat_due(&self) -> (r: bool)
        requires
            self.wf(),
        ensures
            r == (self@.dom().len() % 100 == 0),
    {
        self.pending.len() % 100 == 0
    }
}

impl View for Coordinator {
    type V = Map<TxHash, NewPendingTx>;

    /// A coordinator is viewed as its pending table.
    open spec fn view(&self) -> Map<TxHash, NewPendingTx> {
        self.pending@
    }
}

/// A transaction whose effective fee falls below the current base fee
/// is never admitted, whatever the receipt check or the detection
/// outcome returned: the gas filter short-circuits ahead of them, and
/// admission is the only path into the pending set.
pub proof fn lemma_gas_filter_blocks_admission(
    c: Coordinator,
    tx: NewPendingTx,
    has_receipt: bool,
    trace: Option<CallFrame>,
)
    requires
        spec_victim_gas(tx.tx) < c.block.base_fee,
    ensures
        !c.spec_admits(tx, has_receipt, trace),
{
}

} // verus!
