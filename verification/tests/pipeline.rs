use def::coordinator::Coordinator;
use def::detect::{extract_logs, search_in_logs, CallFrame, CallLogFrame, Topic};
use def::fee::calculate_next_block_base_fee;
use def::types::{
    calculate_victim_gas, header_to_block, Address, BlockHeader, Event, NewBlock, NewPendingTx,
    Transaction, TxHash,
};

fn hash(n: u64) -> TxHash {
    TxHash { w0: n, w1: 0, w2: 0, w3: 0 }
}

fn addr() -> Address {
    Address { w0: 1, w1: 2, w2: 3 }
}

fn fee_cap_tx(n: u64, max_fee: u128) -> NewPendingTx {
    NewPendingTx {
        added_block: None,
        tx: Transaction {
            hash: hash(n),
            from: addr(),
            transaction_type: Some(2),
            gas_price: None,
            max_fee_per_gas: Some(max_fee),
        },
    }
}

fn topic(b0: u8, b1: u8, b2: u8, b3: u8) -> Topic {
    let mut bytes = vec![0u8; 32];
    bytes[0] = b0;
    bytes[1] = b1;
    bytes[2] = b2;
    bytes[3] = b3;
    Topic { bytes }
}

fn swap_log_v2() -> CallLogFrame {
    CallLogFrame { topics: Some(vec![topic(0xd7, 0x8a, 0xd9, 0x5f), topic(0, 0, 0, 0)]) }
}

fn plain_log() -> CallLogFrame {
    CallLogFrame { topics: Some(vec![topic(0xaa, 0xbb, 0xcc, 0xdd), topic(0, 0, 0, 0)]) }
}

fn swap_trace() -> CallFrame {
    CallFrame { logs: Some(vec![swap_log_v2()]), calls: None }
}

fn start_block(number: u64, base_fee: u64) -> NewBlock {
    NewBlock { block_number: number, base_fee, next_base_fee: base_fee as u128 }
}

#[test]
fn base_fee_at_target_keeps_fee() {
    // gas used equals the target: the deterministic part stays 100,
    // and only the perturbation below nine is added.
    let r = calculate_next_block_base_fee(15_000_000, 30_000_000, 100);
    assert!(100 <= r && r < 109);
}

#[test]
fn base_fee_above_target_raises_fee() {
    // five million gas over a fifteen-million target:
    // 100 + (100 * 5_000_000 / 15_000_000) / 8 = 104.
    let r = calculate_next_block_base_fee(20_000_000, 30_000_000, 100);
    assert!(104 <= r && r < 113);
}

#[test]
fn base_fee_zero_gas_limit_never_divides_by_zero() {
    // target clamps to one; the empty block uses the decrease branch:
    // 100 - (100 * 1 / 1) / 8 = 88.
    let r = calculate_next_block_base_fee(0, 0, 100);
    assert!(88 <= r && r < 97);
    // the full branch also stays well-defined for huge gas usage
    let r = calculate_next_block_base_fee(u64::MAX, 0, 100);
    assert!(r >= 100);
    let r = calculate_next_block_base_fee(7, 0, 100);
    assert!(r >= 88);
}

#[test]
fn victim_gas_by_transaction_kind() {
    let mut tx = Transaction {
        hash: hash(1),
        from: addr(),
        transaction_type: Some(0),
        gas_price: Some(7),
        max_fee_per_gas: Some(9),
    };
    assert_eq!(calculate_victim_gas(&tx), 7);
    tx.transaction_type = Some(2);
    assert_eq!(calculate_victim_gas(&tx), 9);
    tx.transaction_type = Some(1);
    assert_eq!(calculate_victim_gas(&tx), 0);
    tx.transaction_type = None;
    assert_eq!(calculate_victim_gas(&tx), 0);
    tx.transaction_type = Some(0);
    tx.gas_price = None;
    assert_eq!(calculate_victim_gas(&tx), 0);
}

#[test]
fn header_without_number_is_skipped() {
    let h = BlockHeader {
        number: None,
        gas_used: 10,
        gas_limit: 20,
        base_fee_per_gas: Some(5),
    };
    assert!(header_to_block(&h).is_none());
}

#[test]
fn header_missing_base_fee_defaults_to_zero() {
    let h = BlockHeader {
        number: Some(42),
        gas_used: 15_000_000,
        gas_limit: 30_000_000,
        base_fee_per_gas: None,
    };
    let b = header_to_block(&h).unwrap();
    assert_eq!(b.block_number, 42);
    assert_eq!(b.base_fee, 0);
    assert!(b.next_base_fee < 9);
}

#[test]
fn header_with_fields_predicts_next_fee() {
    let h = BlockHeader {
        number: Some(7),
        gas_used: 20_000_000,
        gas_limit: 30_000_000,
        base_fee_per_gas: Some(100),
    };
    let b = header_to_block(&h).unwrap();
    assert_eq!(b.base_fee, 100);
    assert!(104 <= b.next_base_fee && b.next_base_fee < 113);
}

#[test]
fn extract_logs_counts_every_frame() {
    // root: 1 log; two children with 2 and 0 logs; grandchild with 1.
    let grandchild = CallFrame { logs: Some(vec![plain_log()]), calls: None };
    let child_a = CallFrame {
        logs: Some(vec![plain_log(), plain_log()]),
        calls: Some(vec![grandchild]),
    };
    let child_b = CallFrame { logs: None, calls: None };
    let root = CallFrame {
        logs: Some(vec![plain_log()]),
        calls: Some(vec![child_a, child_b]),
    };
    let mut logs = Vec::new();
    extract_logs(root, &mut logs);
    assert_eq!(logs.len(), 4);
}

#[test]
fn extract_logs_empty_tree_is_empty() {
    let mut logs = Vec::new();
    extract_logs(CallFrame { logs: None, calls: None }, &mut logs);
    assert!(logs.is_empty());
}

#[test]
fn search_finds_both_known_selectors() {
    assert!(search_in_logs(Some(swap_trace())));
    let v3 = CallFrame {
        logs: Some(vec![CallLogFrame {
            topics: Some(vec![topic(0xc4, 0x20, 0x79, 0xf9), topic(0, 0, 0, 0)]),
        }]),
        calls: None,
    };
    assert!(search_in_logs(Some(v3)));
}

#[test]
fn search_requires_two_topics_and_known_selector() {
    // a lone topic never matches, even with a known selector
    let single = CallFrame {
        logs: Some(vec![CallLogFrame { topics: Some(vec![topic(0xd7, 0x8a, 0xd9, 0x5f)]) }]),
        calls: None,
    };
    assert!(!search_in_logs(Some(single)));
    // an unknown selector never matches
    let unknown = CallFrame { logs: Some(vec![plain_log()]), calls: None };
    assert!(!search_in_logs(Some(unknown)));
    // a log with no topic list never matches
    let bare = CallFrame { logs: Some(vec![CallLogFrame { topics: None }]), calls: None };
    assert!(!search_in_logs(Some(bare)));
    // an absent trace never matches
    assert!(!search_in_logs(None));
}

#[test]
fn search_descends_into_nested_calls() {
    let deep = CallFrame {
        logs: None,
        calls: Some(vec![CallFrame {
            logs: None,
            calls: Some(vec![swap_trace()]),
        }]),
    };
    assert!(search_in_logs(Some(deep)));
}

#[test]
fn duplicate_hash_is_not_tracked_twice() {
    let mut c = Coordinator::new(start_block(1, 100));
    let first = c.on_pending_tx(fee_cap_tx(5, 150), false, Some(swap_trace()));
    assert!(first);
    assert_eq!(c.pending.len(), 1);
    // same hash again, with everything else passing: dedup fires
    let second = c.on_pending_tx(fee_cap_tx(5, 200), false, Some(swap_trace()));
    assert!(!second);
    assert_eq!(c.pending.len(), 1);
}

#[test]
fn reconciliation_removes_only_included_hashes() {
    let mut c = Coordinator::new(start_block(1, 100));
    assert!(c.on_pending_tx(fee_cap_tx(10, 150), false, Some(swap_trace())));
    assert!(c.on_pending_tx(fee_cap_tx(11, 150), false, Some(swap_trace())));
    assert_eq!(c.pending.len(), 2);
    // a block including A removes exactly A
    c.on_block(start_block(2, 100), Some(vec![hash(10)]));
    assert_eq!(c.pending.len(), 1);
    assert!(!c.pending.contains_key(&hash(10)));
    assert!(c.pending.contains_key(&hash(11)));
    // a block including only an unknown hash changes nothing
    c.on_block(start_block(3, 100), Some(vec![hash(99)]));
    assert_eq!(c.pending.len(), 1);
    assert!(c.pending.contains_key(&hash(11)));
    // a failed hash lookup reconciles nothing
    c.on_block(start_block(4, 100), None);
    assert_eq!(c.pending.len(), 1);
}

#[test]
fn uncompetitive_fee_is_never_inserted() {
    // effective fee 50 against base fee 100: discarded even though
    // the trace would match and no receipt exists
    let mut c = Coordinator::new(start_block(1, 100));
    let inserted = c.on_pending_tx(fee_cap_tx(20, 50), false, Some(swap_trace()));
    assert!(!inserted);
    assert_eq!(c.pending.len(), 0);
}

#[test]
fn existing_receipt_discards_transaction() {
    let mut c = Coordinator::new(start_block(1, 100));
    let inserted = c.on_pending_tx(fee_cap_tx(21, 150), true, Some(swap_trace()));
    assert!(!inserted);
    assert_eq!(c.pending.len(), 0);
}

#[test]
fn failed_or_plain_trace_discards_transaction() {
    let mut c = Coordinator::new(start_block(1, 100));
    assert!(!c.on_pending_tx(fee_cap_tx(22, 150), false, None));
    let unknown = CallFrame { logs: Some(vec![plain_log()]), calls: None };
    assert!(!c.on_pending_tx(fee_cap_tx(22, 150), false, Some(unknown)));
    assert_eq!(c.pending.len(), 0);
}

#[test]
fn end_to_end_insert_then_confirm() {
    // a Block with base fee 100, then a PendingTx with fee cap 150,
    // no receipt, and a matching trace: inserted and tagged; the next
    // Block listing its hash removes it.
    let mut c = Coordinator::new(start_block(0, 0));
    c.on_block(start_block(1, 100), Some(Vec::new()));
    assert_eq!(c.block.base_fee, 100);
    let tx = fee_cap_tx(30, 150);
    let event = Event::PendingTx(tx);
    let inserted = match event {
        Event::Block(_) => false,
        Event::PendingTx(tx) => c.on_pending_tx(tx, false, Some(swap_trace())),
    };
    assert!(inserted);
    assert!(c.pending.contains_key(&hash(30)));
    c.on_block(start_block(2, 100), Some(vec![hash(30)]));
    assert!(!c.pending.contains_key(&hash(30)));
    assert_eq!(c.pending.len(), 0);
}

#[test]
fn heartbeat_counts_multiples_of_one_hundred() {
    let mut c = Coordinator::new(start_block(1, 100));
    assert!(c.heartbeat_due());
    assert!(c.on_pending_tx(fee_cap_tx(40, 150), false, Some(swap_trace())));
    assert!(!c.heartbeat_due());
}

#[test]
fn default_pending_tx_has_no_arrival_block() {
    let d = NewPendingTx::default();
    assert!(d.added_block.is_none());
    assert!(d.tx.transaction_type.is_none());
    assert_eq!(calculate_victim_gas(&d.tx), 0);
}

#[test]
fn inserted_transaction_is_tagged_with_current_block() {
    let mut c = Coordinator::new(start_block(7, 100));
    assert!(c.on_pending_tx(fee_cap_tx(50, 150), false, Some(swap_trace())));
    assert!(c.pending.contains_key(&hash(50)));
}
