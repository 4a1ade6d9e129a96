//! Verified primitives for cutting a time-ordered history at a threshold.
//!
//! Every manager variant stores its checkpoints and messages ordered by a
//! time key, and both `rollback` and `free` reduce to cutting those lists
//! at one boundary.  The functions here perform the cuts and state their
//! effect with `Seq::filter`, which the managers' contracts are phrased in.

use vstd::prelude::*;

use crate::models::{Checkpoint, Message, Timestamp};
use crate::order::{
    lemma_filter_is_skip, lemma_filter_is_take, sorted_by_exec_ts, sorted_by_sent_ts,
    strictly_ascending,
};

verus! {

/// Drops the checkpoints after `ts` from the tail; at least the first one
/// survives.
pub(crate) fn truncate_checkpoints_to<State>(cps: &mut Vec<Checkpoint<State>>, ts: Timestamp)
    requires
        strictly_ascending(old(cps)@),
        old(cps)@.len() > 0,
        old(cps)@[0].timestamp <= ts,
    ensures
        final(cps)@ == old(cps)@.filter(|c: Checkpoint<State>| c.timestamp <= ts),
        final(cps)@ == old(cps)@.take(final(cps)@.len() as int),
        0 < final(cps)@.len() <= old(cps)@.len(),
        final(cps)@.last().timestamp <= ts,
        strictly_ascending(final(cps)@),
{
    let ghost pre = cps@;
    let mut k: usize = cps.len();
    while k > 0 && cps[k - 1].timestamp > ts
        invariant
            k <= cps@.len(),
            cps@ == pre,
            forall|j: int| k <= j < pre.len() ==> (#[trigger] pre[j]).timestamp > ts,
        decreases k,
    {
        k = k - 1;
    }
    assert(k > 0) by {
        assert(pre[0].timestamp <= ts);
    }
    assert(forall|j: int| 0 <= j < k ==> (#[trigger] pre[j]).timestamp <= ts) by {
        assert(pre[k - 1].timestamp <= ts);
        assert(strictly_ascending(pre));
    }
    cps.truncate(k);
    proof {
        lemma_filter_is_take(pre, |c: Checkpoint<State>| c.timestamp <= ts, k as int);
        assert(cps@ == pre.take(k as int));
    }
}

/// Splits a received history at `ts`: entries before `ts` stay, the tail at
/// or after `ts` is handed back in stored order.
pub(crate) fn split_received_at(msgs: &mut Vec<Message>, ts: Timestamp) -> (tail: Vec<Message>)
    requires
        sorted_by_exec_ts(old(msgs)@),
    ensures
        final(msgs)@ == old(msgs)@.filter(|m: Message| m.exec_ts < ts),
        tail@ == old(msgs)@.filter(|m: Message| m.exec_ts >= ts),
        final(msgs)@ == old(msgs)@.take(final(msgs)@.len() as int),
        sorted_by_exec_ts(final(msgs)@),
{
    let ghost pre = msgs@;
    let mut i: usize = msgs.len();
    while i > 0 && msgs[i - 1].exec_ts >= ts
        invariant
            i <= msgs@.len(),
            msgs@ == pre,
            forall|j: int| i <= j < pre.len() ==> (#[trigger] pre[j]).exec_ts >= ts,
        decreases i,
    {
        i = i - 1;
    }
    assert(forall|j: int| 0 <= j < i ==> (#[trigger] pre[j]).exec_ts < ts) by {
        assert(sorted_by_exec_ts(pre));
    }
    let tail = msgs.split_off(i);
    proof {
        lemma_filter_is_take(pre, |m: Message| m.exec_ts < ts, i as int);
        lemma_filter_is_skip(pre, |m: Message| m.exec_ts >= ts, i as int);
    }
    tail
}

/// Splits a sent history at `ts`: entries before `ts` stay, the tail at or
/// after `ts` is handed back in stored order.
pub(crate) fn split_sent_at(msgs: &mut Vec<Message>, ts: Timestamp) -> (tail: Vec<Message>)
    requires
        sorted_by_sent_ts(old(msgs)@),
    ensures
        final(msgs)@ == old(msgs)@.filter(|m: Message| m.sent_ts < ts),
        tail@ == old(msgs)@.filter(|m: Message| m.sent_ts >= ts),
        final(msgs)@ == old(msgs)@.take(final(msgs)@.len() as int),
        sorted_by_sent_ts(final(msgs)@),
{
    let ghost pre = msgs@;
    let mut i: usize = msgs.len();
    while i > 0 && msgs[i - 1].sent_ts >= ts
        invariant
            i <= msgs@.len(),
            msgs@ == pre,
            forall|j: int| i <= j < pre.len() ==> (#[trigger] pre[j]).sent_ts >= ts,
        decreases i,
    {
        i = i - 1;
    }
    assert(forall|j: int| 0 <= j < i ==> (#[trigger] pre[j]).sent_ts < ts) by {
        assert(sorted_by_sent_ts(pre));
    }
    let tail = msgs.split_off(i);
    proof {
        lemma_filter_is_take(pre, |m: Message| m.sent_ts < ts, i as int);
        lemma_filter_is_skip(pre, |m: Message| m.sent_ts >= ts, i as int);
    }
    tail
}

/// Appends to `out` the anti twin of every message of `cancelled`, in
/// order: identical identity and route, opposite polarity, no payload.
pub(crate) fn push_retractions(out: &mut Vec<Message>, cancelled: &Vec<Message>)
    ensures
        final(out)@.len() == old(out)@.len() + cancelled@.len(),
        final(out)@.take(old(out)@.len() as int) == old(out)@,
        forall|i: int|
            0 <= i < cancelled@.len() ==> (#[trigger] cancelled@[i]).is_retraction_of(
                final(out)@[old(out)@.len() + i],
            ),
{
    let base = out.len();
    let mut n: usize = 0;
    while n < cancelled.len()
        invariant
            n <= cancelled@.len(),
            base == old(out)@.len(),
            out@.len() == base + n,
            out@.take(base as int) == old(out)@,
            forall|t: int|
                0 <= t < n ==> (#[trigger] cancelled@[t]).is_retraction_of(out@[base + t]),
        decreases cancelled@.len() - n,
    {
        let m = &cancelled[n];
        out.push(Message {
            sent_ts: m.sent_ts,
            exec_ts: m.exec_ts,
            from: m.from,
            to: m.to,
            payload: String::new(),
            path: m.path.clone(),
            id: m.id,
            is_anti: true,
        });
        assert(out@.take(base as int) == old(out)@);
        n = n + 1;
    }
}

/// Drops from the head of a checkpoint history every entry at or before
/// `ts`.
pub(crate) fn prune_checkpoints_through<State>(cps: &mut Vec<Checkpoint<State>>, ts: Timestamp)
    requires
        strictly_ascending(old(cps)@),
    ensures
        final(cps)@ == old(cps)@.filter(|c: Checkpoint<State>| c.timestamp > ts),
        final(cps)@ == old(cps)@.skip(old(cps)@.len() - final(cps)@.len()),
        strictly_ascending(final(cps)@),
{
    let ghost pre = cps@;
    let mut k: usize = 0;
    while k < cps.len() && cps[k].timestamp <= ts
        invariant
            k <= cps@.len(),
            cps@ == pre,
            forall|j: int| 0 <= j < k ==> (#[trigger] pre[j]).timestamp <= ts,
        decreases cps@.len() - k,
    {
        k = k + 1;
    }
    assert(forall|j: int| k <= j < pre.len() ==> (#[trigger] pre[j]).timestamp > ts) by {
        assert(strictly_ascending(pre));
    }
    let kept = cps.split_off(k);
    *cps = kept;
    proof {
        lemma_filter_is_skip(pre, |c: Checkpoint<State>| c.timestamp > ts, k as int);
    }
}

/// Drops from the head of a received history every entry at or before `ts`.
pub(crate) fn prune_received_through(msgs: &mut Vec<Message>, ts: Timestamp)
    requires
        sorted_by_exec_ts(old(msgs)@),
    ensures
        final(msgs)@ == old(msgs)@.filter(|m: Message| m.exec_ts > ts),
        final(msgs)@ == old(msgs)@.skip(old(msgs)@.len() - final(msgs)@.len()),
        sorted_by_exec_ts(final(msgs)@),
{
    let ghost pre = msgs@;
    let mut i: usize = 0;
    while i < msgs.len() && msgs[i].exec_ts <= ts
        invariant
            i <= msgs@.len(),
            msgs@ == pre,
            forall|j: int| 0 <= j < i ==> (#[trigger] pre[j]).exec_ts <= ts,
        decreases msgs@.len() - i,
    {
        i = i + 1;
    }
    assert(forall|j: int| i <= j < pre.len() ==> (#[trigger] pre[j]).exec_ts > ts) by {
        assert(sorted_by_exec_ts(pre));
    }
    let kept = msgs.split_off(i);
    *msgs = kept;
    proof {
        lemma_filter_is_skip(pre, |m: Message| m.exec_ts > ts, i as int);
    }
}

/// Drops from the head of a sent history every entry at or before `ts`.
pub(crate) fn prune_sent_through(msgs: &mut Vec<Message>, ts: Timestamp)
    requires
        sorted_by_sent_ts(old(msgs)@),
    ensures
        final(msgs)@ == old(msgs)@.filter(|m: Message| m.sent_ts > ts),
        final(msgs)@ == old(msgs)@.skip(old(msgs)@.len() - final(msgs)@.len()),
        sorted_by_sent_ts(final(msgs)@),
{
    let ghost pre = msgs@;
    let mut i: usize = 0;
    while i < msgs.len() && msgs[i].sent_ts <= ts
        invariant
            i <= msgs@.len(),
            msgs@ == pre,
            forall|j: int| 0 <= j < i ==> (#[trigger] pre[j]).sent_ts <= ts,
        decreases msgs@.len() - i,
    {
        i = i + 1;
    }
    assert(forall|j: int| i <= j < pre.len() ==> (#[trigger] pre[j]).sent_ts > ts) by {
        assert(sorted_by_sent_ts(pre));
    }
    let kept = msgs.split_off(i);
    *msgs = kept;
    proof {
        lemma_filter_is_skip(pre, |m: Message| m.sent_ts > ts, i as int);
    }
}

} // verus!
