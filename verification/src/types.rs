//! The event data model: blocks as the coordinator sees them, pending
//! transactions with their gas pricing, and the event union carried on
//! the bus.

use crate::fee::{calculate_next_block_base_fee, spec_next_base_fee};
use vstd::prelude::*;

verus! {

/// A 256-bit transaction hash, held as four 64-bit words, most
/// significant first.
#[derive(Clone, Copy, PartialEq, Eq, Structural, Hash, Debug)]
pub struct TxHash {
    pub w0: u64,
    pub w1: u64,
    pub w2: u64,
    pub w3: u64,
}

/// A 160-bit account address, held as two 64-bit words and one 32-bit
/// word, most significant first.
#[derive(Clone, Copy, PartialEq, Eq, Structural, Hash, Debug)]
pub struct Address {
    pub w0: u64,
    pub w1: u64,
    pub w2: u32,
}

/// The fields of a mempool transaction that the pipeline reads: its
/// hash, its sender, its fee-model kind and its gas pricing.
#[derive(Clone, Copy, Debug)]
pub struct Transaction {
    pub hash: TxHash,
    pub from: Address,
    pub transaction_type: Option<u64>,
    pub gas_price: Option<u128>,
    pub max_fee_per_gas: Option<u128>,
}

/// The chain head as currently known: its number, its base fee, and
/// the predicted base fee of the block after it.
#[derive(Clone, Copy, Debug)]
pub struct NewBlock {
    pub block_number: u64,
    pub base_fee: u64,
    pub next_base_fee: u128,
}

/// A pending transaction as carried on the bus: the block at which it
/// was admitted is assigned only when it enters the pending set.
#[derive(Clone, Copy, Debug)]
pub struct NewPendingTx {
    pub added_block: Option<u64>,
    pub tx: Transaction,
}

/// The unit carried on the event bus.
#[derive(Clone, Copy, Debug)]
pub enum Event {
    Block(NewBlock),
    PendingTx(NewPendingTx),
}

impl Default for Transaction {
    /// An all-zero transaction with no fee fields set.
    fn default() -> (r: Self)
        ensures
            r.hash == (TxHash { w0: 0, w1: 0, w2: 0, w3: 0 }),
            r.from == (Address { w0: 0, w1: 0, w2: 0 }),
            r.transaction_type is None,
            r.gas_price is None,
            r.max_fee_per_gas is None,
    {
        Transaction {
            hash: TxHash { w0: 0, w1: 0, w2: 0, w3: 0 },
            from: Address { w0: 0, w1: 0, w2: 0 },
            transaction_type: None,
            gas_price: None,
            max_fee_per_gas: None,
        }
    }
}

impl Default for NewBlock {
    /// A zeroed chain head, before the first block is observed.
    fn default() -> (r: Self)
        ensures
            r.block_number == 0,
            r.base_fee == 0,
            r.next_base_fee == 0,
    {
        NewBlock { block_number: 0, base_fee: 0, next_base_fee: 0 }
    }
}

impl Default for NewPendingTx {
    /// A pending transaction with no arrival block and a default body.
    fn default() -> (r: Self)
        ensures
            r.added_block is None,
            r.tx.transaction_type is None,
            r.tx.gas_price is None,
            r.tx.max_fee_per_gas is None,
    {
        NewPendingTx { added_block: None, tx: Transaction::default() }
    }
}

/// The effective per-gas price a transaction offers: its flat gas
/// price for the legacy kind (type zero), its fee cap for the fee-cap
/// kind (type two), and zero — never competitive — for any other or
/// unknown kind. A missing price field also counts as zero.
pub open spec fn spec_victim_gas(tran: Transaction) -> u128 {
    match tran.transaction_type {
        Some(t) => if t == 0 {
            match tran.gas_price {
                Some(p) => p,
                None => 0,
            }
        } else if t == 2 {
            match tran.max_fee_per_gas {
                Some(p) => p,
                None => 0,
            }
        } else {
            0
        },
        None => 0,
    }
}

/// Computes the effective per-gas price a transaction offers.
pub fn calculate_victim_gas(tran: &Transaction) -> (r: u128)
    ensures
        r == spec_victim_gas(*tran),
{
    match tran.transaction_type {
        Some(t) => {
            if t == 0 {
                match tran.gas_price {
                    Some(p) => p,
                    None => 0,
                }
            } else if t == 2 {
                match tran.max_fee_per_gas {
                    Some(p) => p,
                    None => 0,
                }
            } else {
                0
            }
        },
        None => 0,
    }
}

/// A new-block header as the block feed reads it: a pending header may
/// lack its number, and a freshly mined block may lack a base fee.
#[derive(Clone, Copy, Debug)]
pub struct BlockHeader {
    pub number: Option<u64>,
    pub gas_used: u64,
    pub gas_limit: u64,
    pub base_fee_per_gas: Option<u64>,
}

/// A header's base fee, with an absent field defaulting to zero.
pub open spec fn spec_header_base_fee(h: BlockHeader) -> u64 {
    match h.base_fee_per_gas {
        Some(b) => b,
        None => 0,
    }
}

/// Turns a raw header into a Block event payload: headers without a
/// number are skipped, a missing base fee defaults to zero rather than
/// failing, and the next base fee is predicted from the header's gas
/// figures.
pub fn header_to_block(header: &BlockHeader) -> (r: Option<NewBlock>)
    ensures
        r is Some <==> header.number is Some,
        r is Some ==> {
            &&& r->0.block_number == header.number->0
            &&& r->0.base_fee == spec_header_base_fee(*header)
            &&& spec_next_base_fee(header.gas_used, header.gas_limit, spec_header_base_fee(*header))
                <= r->0.next_base_fee < spec_next_base_fee(
                header.gas_used,
                header.gas_limit,
                spec_header_base_fee(*header),
            ) + 9
        },
{
    match header.number {
        Some(number) => {
            let base_fee: u64 = match header.base_fee_per_gas {
                Some(b) => b,
                None => 0,
            };
            let next_base_fee = calculate_next_block_base_fee(
                header.gas_used,
                header.gas_limit,
                base_fee,
            );
            Some(NewBlock { block_number: number, base_fee, next_base_fee })
        },
        None => None,
    }
}

} // verus!
