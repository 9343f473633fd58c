//! The detection engine: flattens the logs of a simulated call tree
//! depth-first and scans them for one of the two known swap-event
//! selectors in a log's first topic.

use vstd::prelude::*;

verus! {

/// A log topic: a word of raw bytes (32 in practice), of which the
/// engine only ever reads the leading four selector bytes.
#[derive(Debug)]
pub struct Topic {
    pub bytes: Vec<u8>,
}

/// One emitted log from a simulated call; the topic list may be
/// absent.
#[derive(Debug)]
pub struct CallLogFrame {
    pub topics: Option<Vec<Topic>>,
}

/// One frame of a simulated call tree, with its own emitted logs and
/// its nested sub-calls, either of which may be absent.
#[derive(Debug)]
pub struct CallFrame {
    pub logs: Option<Vec<CallLogFrame>>,
    pub calls: Option<Vec<CallFrame>>,
}

/// True when the topic's leading four bytes are one of the two known
/// swap-event selectors.
pub open spec fn spec_selector_matches(t: Topic) -> bool {
    &&& t.bytes@.len() >= 4
    &&& ({
        ||| (t.bytes@[0] == 0xd7u8 && t.bytes@[1] == 0x8au8 && t.bytes@[2] == 0xd9u8 && t.bytes@[3]
            == 0x5fu8)
        ||| (t.bytes@[0] == 0xc4u8 && t.bytes@[1] == 0x20u8 && t.bytes@[2] == 0x79u8 && t.bytes@[3]
            == 0xf9u8)
    })
}

/// True when a log qualifies as a swap emission: at least two topics,
/// and a first topic whose selector is known.
pub open spec fn spec_is_swap_log(l: CallLogFrame) -> bool {
    match l.topics {
        Some(ts) => ts@.len() > 1 && spec_selector_matches(ts@[0]),
        None => false,
    }
}

/// The logs a frame itself carries, as a sequence; absent means none.
pub open spec fn spec_own_logs(f: CallFrame) -> Seq<CallLogFrame> {
    match f.logs {
        Some(l) => l@,
        None => Seq::empty(),
    }
}

/// Depth-first flattening of a call tree's logs: a frame's own logs
/// first, then those of its sub-calls in order.
pub open spec fn spec_flatten(f: CallFrame) -> Seq<CallLogFrame>
    decreases f,
{
    spec_own_logs(f) + (match f.calls {
        Some(cs) => spec_flatten_all(cs@),
        None => Seq::empty(),
    })
}

/// Flattening of a sequence of call trees, in order.
pub open spec fn spec_flatten_all(s: Seq<CallFrame>) -> Seq<CallLogFrame>
    decreases s,
{
    if s.len() == 0 {
        Seq::empty()
    } else {
        spec_flatten_all(s.drop_last()) + spec_flatten(s.last())
    }
}

/// The total number of logs across every frame of a call tree.
pub open spec fn spec_count_logs(f: CallFrame) -> nat
    decreases f,
{
    spec_own_logs(f).len() + (match f.calls {
        Some(cs) => spec_count_all(cs@),
        None => 0,
    })
}

/// The total number of logs across a sequence of call trees.
pub open spec fn spec_count_all(s: Seq<CallFrame>) -> nat
    decreases s,
{
    if s.len() == 0 {
        0
    } else {
        spec_count_all(s.drop_last()) + spec_count_logs(s.last())
    }
}

/// Flattening a call tree yields exactly one entry per log: its length
/// is the total number of logs across every frame of the tree.
pub proof fn lemma_flatten_counts_all_logs(f: CallFrame)
    ensures
        spec_flatten(f).len() == spec_count_logs(f),
    decreases f,
{
    match f.calls {
        Some(cs) => lemma_flatten_all_counts(cs@),
        None => {},
    }
}

/// Flattening a sequence of call trees yields exactly one entry per
/// log across all of them.
pub proof fn lemma_flatten_all_counts(s: Seq<CallFrame>)
    ensures
        spec_flatten_all(s).len() == spec_count_all(s),
    decreases s,
{
    if s.len() == 0 {
    } else {
        lemma_flatten_all_counts(s.drop_last());
        lemma_flatten_counts_all_logs(s.last());
    }
}

/// A tree with no logs and no sub-calls flattens to the empty
/// sequence.
pub proof fn lemma_flatten_empty_tree(f: CallFrame)
    requires
        f.logs is None,
        f.calls is None,
    ensures
        spec_flatten(f) =~= Seq::<CallLogFrame>::empty(),
{
}

/// Some log in the flattened tree qualifies as a swap emission.
pub open spec fn spec_has_swap(f: CallFrame) -> bool {
    exists|i: int|
        0 <= i < spec_flatten(f).len() && spec_is_swap_log(#[trigger] spec_flatten(f)[i])
}

/// Whether a possibly-absent trace contains a swap emission; an absent
/// trace never does.
pub open spec fn spec_opt_has_swap(frame: Option<CallFrame>) -> bool {
    match frame {
        Some(f) => spec_has_swap(f),
        None => false,
    }
}

/// Depth-first flattening of a call tree's logs: appends every log of
/// the tree, in order, to `logs`. Takes the tree by value; traces are
/// only ever used transiently.
#[verifier::loop_isolation(false)]
pub fn extract_logs(call_frame: CallFrame, logs: &mut Vec<CallLogFrame>)
    ensures
        final(logs)@ == old(logs)@ + spec_flatten(call_frame),
    decreases call_frame,
{
    let ghost cf = call_frame;
    let ghost logs0 = logs@;
    let CallFrame { logs: own_logs, calls } = call_frame;
    if let Some(mut logs_vec) = own_logs {
        logs.append(&mut logs_vec);
    }
    proof {
        assert(logs@ =~= logs0 + spec_own_logs(cf));
    }
    if let Some(calls_vec) = calls {
        let ghost children = calls_vec@;
        proof {
            assert(cf.calls->0 == calls_vec);
        }
        let mut rest = calls_vec;
        while rest.len() > 0
            invariant
                rest@ =~= children.skip(children.len() - rest@.len()),
                rest@.len() <= children.len(),
                logs@ == logs0 + spec_own_logs(cf) + spec_flatten_all(
                    children.take(children.len() - rest@.len()),
                ),
                cf.calls == Some(cf.calls->0),
                cf.calls->0@ == children,
            decreases rest@.len(),
        {
            let ghost k = children.len() - rest@.len();
            let child = rest.remove(0);
            proof {
                assert(child == children[k]);
                assert(rest@ =~= children.skip(k + 1));
                assert(decreases_to!(cf => cf.calls));
                assert(decreases_to!(cf.calls => cf.calls->0));
                assert(decreases_to!(cf.calls->0 => cf.calls->0@));
                assert(decreases_to!(cf.calls->0@ => cf.calls->0@[k]));
                assert(decreases_to!(cf => child));
            }
            extract_logs(child, logs);
            proof {
                assert(children.take(k + 1).drop_last() =~= children.take(k));
                assert(children.take(k + 1).last() == children[k]);
                assert(logs0 + spec_own_logs(cf) + spec_flatten_all(children.take(k + 1)) =~= logs0
                    + spec_own_logs(cf) + spec_flatten_all(children.take(k)) + spec_flatten(
                    children[k],
                ));
            }
        }
        proof {
            assert(children.take(children.len() as int) =~= children);
            assert(logs@ =~= logs0 + spec_flatten(cf));
        }
    } else {
        proof {
            assert(logs@ =~= logs0 + spec_flatten(cf));
        }
    }
}

/// Whether one log qualifies as a swap emission.
pub fn is_swap_log(l: &CallLogFrame) -> (r: bool)
    ensures
        r == spec_is_swap_log(*l),
{
    match &l.topics {
        Some(ts) => {
            if ts.len() > 1 {
                let t = &ts[0];
                if t.bytes.len() >= 4 {
                    let b0 = t.bytes[0];
                    let b1 = t.bytes[1];
                    let b2 = t.bytes[2];
                    let b3 = t.bytes[3];
                    (b0 == 0xd7 && b1 == 0x8a && b2 == 0xd9 && b3 == 0x5f) || (b0 == 0xc4 && b1
                        == 0x20 && b2 == 0x79 && b3 == 0xf9)
                } else {
                    false
                }
            } else {
                false
            }
        },
        None => false,
    }
}

/// Scans a simulated call trace for a swap emission: true exactly when
/// some log anywhere in the tree has at least two topics and a first
/// topic carrying one of the two known selectors. An absent trace
/// never matches.
#[verifier::loop_isolation(false)]
pub fn search_in_logs(frame: Option<CallFrame>) -> (r: bool)
    ensures
        r == spec_opt_has_swap(frame),
{
    match frame {
        None => false,
        Some(f) => {
            let ghost f0 = f;
            let mut logs: Vec<CallLogFrame> = Vec::new();
            extract_logs(f, &mut logs);
            proof {
                assert(logs@ =~= spec_flatten(f0));
            }
            let mut i: usize = 0;
            while i < logs.len()
                invariant
                    logs@ == spec_flatten(f0),
                    0 <= i <= logs@.len(),
                    forall|j: int| 0 <= j < i ==> !spec_is_swap_log(#[trigger] logs@[j]),
                decreases logs@.len() - i,
            {
                if is_swap_log(&logs[i]) {
                    proof {
                        assert(spec_is_swap_log(spec_flatten(f0)[i as int]));
                    }
                    return true;
                }
                i += 1;
            }
            proof {
                assert(forall|j: int|
                    0 <= j < spec_flatten(f0).len() ==> !spec_is_swap_log(
                        #[trigger] spec_flatten(f0)[j],
                    ));
            }
            false
        },
    }
}

} // verus!
