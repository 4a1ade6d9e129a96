//! Per-component store of checkpoints, sent messages and received messages.
//!
//! The rollback manager keeps enough history to reconstruct any state the
//! component previously exhibited back to the oldest retained checkpoint,
//! and computes the corrective messages (anti-messages and re-delivered
//! receives) when a straggler forces a rewind.
//!
//! A single checkpoint is always recorded when the constructor runs, and
//! whenever `take_checkpoint` is called.  Checkpoints and messages might be
//! dropped by `rollback` and `free`.  A single message is appended by every
//! successful `save_message`.

use vstd::prelude::*;
use vstd::pervasive::cloned;

use crate::history::{
    prune_checkpoints_through, prune_received_through, prune_sent_through, push_retractions,
    split_received_at, split_sent_at, truncate_checkpoints_to,
};
use crate::models::{Checkpoint, ComponentId, Message, Timestamp};
use crate::order::{
    lemma_filter_complement_partitions, lemma_filter_is_skip, lemma_filter_is_take,
    lemma_sorted_cut, sorted_by_exec_ts, sorted_by_sent_ts, strictly_ascending,
};

verus! {

/// Why an operation on the rollback manager was refused.  Every failure
/// leaves the manager unchanged.
#[derive(Debug, Clone, Copy, PartialEq, Eq, Structural)]
pub enum Failure {
    /// An operation would move logical time backwards or break the time
    /// ordering of a stored message list.
    TimeViolation,
    /// A rollback targets a time that precedes every retained checkpoint.
    InsufficientCheckpoints,
    /// A message neither sent nor received by this component, or an
    /// anti-message, was handed to `save_message`.
    InvalidMessage,
}

/// Per-component history store.  Owned exclusively by the component's
/// execution loop; it performs no I/O and is not thread-safe.
#[derive(Debug, Clone, PartialEq, Eq)]
pub struct RollbackManager<State> {
    /// Current application state.
    pub state: State,
    /// Local Virtual Time: the largest `exec_ts` already integrated.
    pub lvt: Timestamp,
    /// The owning component.
    pub id: ComponentId,
    /// Snapshots, ordered by strictly ascending timestamp.
    pub checkpoints: Vec<Checkpoint<State>>,
    /// Messages received by this component, ordered by ascending `exec_ts`.
    pub received_messages: Vec<Message>,
    /// Messages sent by this component, ordered by ascending `sent_ts`.
    pub sent_messages: Vec<Message>,
}

impl<State> RollbackManager<State> where State: Clone {
    /// Well-formedness: every stored history is ordered by its time key, no
    /// checkpoint lies in the future, and both message lists hold only
    /// positive messages addressed from or to this component.
    pub open spec fn wf(self) -> bool {
        &&& strictly_ascending(self.checkpoints@)
        &&& forall|i: int|
            0 <= i < self.checkpoints@.len() ==> (#[trigger] self.checkpoints@[i]).timestamp
                <= self.lvt
        &&& sorted_by_sent_ts(self.sent_messages@)
        &&& forall|i: int|
            0 <= i < self.sent_messages@.len() ==> (#[trigger] self.sent_messages@[i]).from
                == self.id && !self.sent_messages@[i].is_anti
        &&& sorted_by_exec_ts(self.received_messages@)
        &&& forall|i: int|
            0 <= i < self.received_messages@.len() ==> (#[trigger] self.received_messages@[i]).to
                == self.id && !self.received_messages@[i].is_anti
    }

    /// The failure `save_message(m)` reports, if any.
    pub open spec fn save_failure(self, m: Message) -> Option<Failure> {
        if m.is_anti || (m.from != self.id && m.to != self.id) {
            Some(Failure::InvalidMessage)
        } else if m.from == self.id && self.sent_messages@.len() > 0
            && self.sent_messages@.last().sent_ts > m.sent_ts {
            Some(Failure::TimeViolation)
        } else if m.from != self.id && self.received_messages@.len() > 0
            && self.received_messages@.last().exec_ts > m.exec_ts {
            Some(Failure::TimeViolation)
        } else {
            None
        }
    }

    /// `post` is `self` after a successful `save_message(m)`: `m` was
    /// appended to the list it belongs to and nothing else moved.
    pub open spec fn saved(self, m: Message, post: Self) -> bool {
        &&& post.id == self.id
        &&& post.lvt == self.lvt
        &&& post.state == self.state
        &&& post.checkpoints@ == self.checkpoints@
        &&& if m.from == self.id {
            post.sent_messages@ == self.sent_messages@.push(m) && post.received_messages@
                == self.received_messages@
        } else {
            post.received_messages@ == self.received_messages@.push(m) && post.sent_messages@
                == self.sent_messages@
        }
    }

    /// `post` is `self` after `take_checkpoint`: a snapshot of the current
    /// state is recorded at the current virtual time.  When the newest
    /// retained checkpoint already sits at the current virtual time it is
    /// refreshed in place, which keeps timestamps strictly ascending.
    pub open spec fn checkpointed(self, post: Self) -> bool {
        &&& post.id == self.id
        &&& post.lvt == self.lvt
        &&& post.state == self.state
        &&& post.received_messages@ == self.received_messages@
        &&& post.sent_messages@ == self.sent_messages@
        &&& post.checkpoints@.len() > 0
        &&& post.checkpoints@.last().timestamp == self.lvt
        &&& cloned(self.state, post.checkpoints@.last().state)
        &&& post.checkpoints@.drop_last() == if self.checkpoints@.len() > 0
            && self.checkpoints@.last().timestamp == self.lvt {
            self.checkpoints@.drop_last()
        } else {
            self.checkpoints@
        }
    }

    /// `self` after a successful `update(state, lvt)`.
    pub open spec fn updated(self, state: State, lvt: Timestamp) -> Self {
        RollbackManager { state, lvt, ..self }
    }

    /// A rollback to `ts` is owed success exactly when `ts` does not lie in
    /// the future and some retained checkpoint is at or before `ts`.
    pub open spec fn rollback_enabled(self, ts: Timestamp) -> bool {
        &&& ts <= self.lvt
        &&& self.checkpoints@.len() > 0
        &&& self.checkpoints@[0].timestamp <= ts
    }

    /// `post` is `self` after a successful `rollback(ts)`: checkpoints after
    /// `ts` are dropped, the last retained checkpoint supplies the new state
    /// and virtual time, and both message lists retain exactly their
    /// entries from before `ts`.
    pub open spec fn rolled_back(self, ts: Timestamp, post: Self) -> bool {
        &&& post.id == self.id
        &&& post.checkpoints@ == self.checkpoints@.filter(
            |c: Checkpoint<State>| c.timestamp <= ts,
        )
        &&& post.checkpoints@.len() > 0
        &&& post.lvt == post.checkpoints@.last().timestamp
        &&& cloned(post.checkpoints@.last().state, post.state)
        &&& post.received_messages@ == self.received_messages@.filter(
            |m: Message| m.exec_ts < ts,
        )
        &&& post.sent_messages@ == self.sent_messages@.filter(|m: Message| m.sent_ts < ts)
    }

    /// `out` is what a successful `rollback(ts)` returns: first the removed
    /// received messages, unchanged and in stored order, so they can be
    /// re-delivered through the queue; then one anti-message for every
    /// removed sent message, in stored order.
    pub open spec fn rollback_returns(self, ts: Timestamp, out: Seq<Message>) -> bool {
        let retracted = self.received_messages@.filter(|m: Message| m.exec_ts >= ts);
        let cancelled = self.sent_messages@.filter(|m: Message| m.sent_ts >= ts);
        &&& out.len() == retracted.len() + cancelled.len()
        &&& out.take(retracted.len() as int) == retracted
        &&& forall|i: int|
            0 <= i < cancelled.len() ==> (#[trigger] cancelled[i]).is_retraction_of(
                out[retracted.len() + i],
            )
    }

    /// `post` is `self` after `free(ts)`: every checkpoint and message whose
    /// time key is at or before `ts` is dropped from the head of its list.
    pub open spec fn freed(self, ts: Timestamp, post: Self) -> bool {
        &&& post.id == self.id
        &&& post.lvt == self.lvt
        &&& post.state == self.state
        &&& post.checkpoints@ == self.checkpoints@.filter(
            |c: Checkpoint<State>| c.timestamp > ts,
        )
        &&& post.received_messages@ == self.received_messages@.filter(
            |m: Message| m.exec_ts > ts,
        )
        &&& post.sent_messages@ == self.sent_messages@.filter(|m: Message| m.sent_ts > ts)
    }

    /// Creates a manager for component `id` holding `initial_state`, with
    /// the genesis checkpoint at virtual time zero already installed.
    pub fn new(id: ComponentId, initial_state: State) -> (r: RollbackManager<State>)
        ensures
            r.wf(),
            r.id == id,
            r.lvt == 0,
            r.state == initial_state,
            r.checkpoints@.len() == 1,
            r.checkpoints@[0].timestamp == 0,
            cloned(initial_state, r.checkpoints@[0].state),
            r.received_messages@ == Seq::<Message>::empty(),
            r.sent_messages@ == Seq::<Message>::empty(),
    {
        let mut checkpoints: Vec<Checkpoint<State>> = Vec::new();
        checkpoints.push(Checkpoint { timestamp: 0, state: initial_state.clone() });
        RollbackManager {
            state: initial_state,
            lvt: 0,
            id,
            checkpoints,
            received_messages: Vec::new(),
            sent_messages: Vec::new(),
        }
    }

    /// Records a message this component sent or received.  The message must
    /// be positive, addressed from or to this component, and must not break
    /// the time ordering of the list it joins.
    pub fn save_message(&mut self, msg: Message) -> (r: Result<(), Failure>)
        requires
            old(self).wf(),
        ensures
            final(self).wf(),
            match old(self).save_failure(msg) {
                Some(f) => r == Err::<(), Failure>(f) && *final(self) == *old(self),
                None => r == Ok::<(), Failure>(()) && old(self).saved(msg, *final(self)),
            },
    {
        if msg.from != self.id && msg.to != self.id || msg.is_anti {
            return Err(Failure::InvalidMessage);
        }
        if msg.from == self.id {
            if self.sent_messages.len() > 0 {
                if self.sent_messages[self.sent_messages.len() - 1].sent_ts > msg.sent_ts {
                    return Err(Failure::TimeViolation);
                }
            }
            self.sent_messages.push(msg);
        } else {
            if self.received_messages.len() > 0 {
                if self.received_messages[self.received_messages.len() - 1].exec_ts > msg.exec_ts {
                    return Err(Failure::TimeViolation);
                }
            }
            self.received_messages.push(msg);
        }
        Ok(())
    }

    /// Rewinds the component to the last checkpoint at or before `ts`,
    /// drops every stored element at or after `ts`, and returns the
    /// messages the caller is obliged to deliver: the removed received
    /// messages (to be re-enqueued locally) followed by the anti twin of
    /// every removed sent message.
    pub fn rollback(&mut self, ts: Timestamp) -> (r: Result<Vec<Message>, Failure>)
        requires
            old(self).wf(),
        ensures
            final(self).wf(),
            ts > old(self).lvt ==> r == Err::<Vec<Message>, Failure>(Failure::TimeViolation)
                && *final(self) == *old(self),
            ts <= old(self).lvt && !old(self).rollback_enabled(ts) ==> r == Err::<
                Vec<Message>,
                Failure,
            >(Failure::InsufficientCheckpoints) && *final(self) == *old(self),
            old(self).rollback_enabled(ts) ==> r is Ok && old(self).rolled_back(ts, *final(self))
                && old(self).rollback_returns(ts, r->Ok_0@),
            old(self).rollback_enabled(ts) ==> final(self).lvt <= ts,
    {
        if ts > self.lvt {
            return Err(Failure::TimeViolation);
        }
        if self.checkpoints.len() == 0 || self.checkpoints[0].timestamp > ts {
            return Err(Failure::InsufficientCheckpoints);
        }

        // Drop the checkpoints that were rolled back; the last retained one
        // supplies the new state and virtual time.
        truncate_checkpoints_to(&mut self.checkpoints, ts);
        let last = self.checkpoints.len() - 1;
        self.lvt = self.checkpoints[last].timestamp;
        self.state = self.checkpoints[last].state.clone();

        // Remove every received message at or after `ts`; each must be
        // re-delivered because its prior processing was discarded.
        let mut out = split_received_at(&mut self.received_messages, ts);

        // Remove every sent message at or after `ts` and emit its anti twin.
        let cancelled = split_sent_at(&mut self.sent_messages, ts);
        push_retractions(&mut out, &cancelled);

        assert(old(self).rolled_back(ts, *self));
        Ok(out)
    }

    /// Drops from the head of every history each element whose time key is
    /// at or before `ts`.  Unconditional: intended for fossil collection
    /// once a lower bound on future rollback targets is known.  Callers
    /// must leave at least one checkpoint alive (for instance by taking a
    /// checkpoint first) if they intend to roll back later.
    pub fn free(&mut self, ts: Timestamp)
        requires
            old(self).wf(),
        ensures
            final(self).wf(),
            old(self).freed(ts, *final(self)),
    {
        prune_checkpoints_through(&mut self.checkpoints, ts);
        prune_received_through(&mut self.received_messages, ts);
        prune_sent_through(&mut self.sent_messages, ts);
    }

    /// Records a snapshot of the current state at the current virtual time.
    /// Virtual time is not moved: `update` is the sole driver of `lvt`.
    pub fn take_checkpoint(&mut self)
        requires
            old(self).wf(),
        ensures
            final(self).wf(),
            old(self).checkpointed(*final(self)),
    {
        let snapshot = self.state.clone();
        let n = self.checkpoints.len();
        if n > 0 && self.checkpoints[n - 1].timestamp == self.lvt {
            // Refresh the snapshot already taken at this virtual time, so
            // checkpoint timestamps stay strictly ascending.
            self.checkpoints.pop();
            self.checkpoints.push(Checkpoint { timestamp: self.lvt, state: snapshot });
            assert(self.checkpoints@.drop_last() == old(self).checkpoints@.drop_last());
        } else {
            self.checkpoints.push(Checkpoint { timestamp: self.lvt, state: snapshot });
            assert(self.checkpoints@.drop_last() == old(self).checkpoints@);
        }
    }

    /// Replaces the state and advances the virtual time; refuses to move
    /// time backwards.  Does not take a checkpoint.
    pub fn update(&mut self, state: State, lvt: Timestamp) -> (r: Result<(), Failure>)
        requires
            old(self).wf(),
        ensures
            final(self).wf(),
            lvt < old(self).lvt ==> r == Err::<(), Failure>(Failure::TimeViolation) && *final(self)
                == *old(self),
            lvt >= old(self).lvt ==> r == Ok::<(), Failure>(()) && *final(self) == old(
                self,
            ).updated(state, lvt),
    {
        if lvt < self.lvt {
            return Err(Failure::TimeViolation);
        }
        self.state = state;
        self.lvt = lvt;
        Ok(())
    }

    /// Current application state.
    pub fn get_state(&self) -> (r: &State)
        ensures
            *r == self.state,
    {
        &self.state
    }

    /// Current Local Virtual Time.
    pub fn get_lvt(&self) -> (r: Timestamp)
        ensures
            r == self.lvt,
    {
        self.lvt
    }

    /// The stored sent messages, ordered by ascending `sent_ts`.
    pub fn get_sent_messages(&self) -> (r: &Vec<Message>)
        ensures
            r@ == self.sent_messages@,
    {
        &self.sent_messages
    }

    /// The stored received messages, ordered by ascending `exec_ts`.
    pub fn get_received_messages(&self) -> (r: &Vec<Message>)
        ensures
            r@ == self.received_messages@,
    {
        &self.received_messages
    }

    /// The retained checkpoints, ordered by strictly ascending timestamp.
    pub fn get_checkpoints(&self) -> (r: &Vec<Checkpoint<State>>)
        ensures
            r@ == self.checkpoints@,
    {
        &self.checkpoints
    }

    /// For any target at or before the current virtual time with a
    /// checkpoint at or before it, `rollback` succeeds, leaves the virtual
    /// time at or before the target, and restores the state of the last
    /// checkpoint at or before the target: the retained checkpoints are
    /// exactly a non-empty prefix of the previous ones, everything dropped
    /// lies after the target, and the new state is a clone of the newest
    /// retained snapshot.
    pub proof fn lemma_rollback_restores_checkpoint(pre: Self, ts: Timestamp, post: Self)
        requires
            pre.wf(),
            pre.rollback_enabled(ts),
            pre.rolled_back(ts, post),
        ensures
            post.lvt <= ts,
            0 < post.checkpoints@.len() <= pre.checkpoints@.len(),
            post.checkpoints@ == pre.checkpoints@.take(post.checkpoints@.len() as int),
            pre.checkpoints@[post.checkpoints@.len() - 1].timestamp <= ts,
            forall|j: int|
                post.checkpoints@.len() <= j < pre.checkpoints@.len() ==> (#[trigger] pre
                    .checkpoints@[j]).timestamp > ts,
            cloned(pre.checkpoints@[post.checkpoints@.len() - 1].state, post.state),
    {
        let cps = pre.checkpoints@;
        let k = lemma_sorted_cut(cps, |c: Checkpoint<State>| c.timestamp, ts);
        lemma_filter_is_take(cps, |c: Checkpoint<State>| c.timestamp <= ts, k);
        assert(post.checkpoints@ == cps.take(k));
        assert(post.checkpoints@.len() == k);
        assert(post.checkpoints@.last() == cps[k - 1]);
    }

    /// After a successful rollback at `ts`, the retained received messages
    /// together with the removed ones (which the call returns unchanged)
    /// hold exactly the received messages from before the call, partitioned
    /// at `exec_ts < ts`.  The sent history is partitioned the same way at
    /// `sent_ts < ts`, with the removed part returned as anti twins.
    pub proof fn lemma_rollback_partitions_history(pre: Self, ts: Timestamp, post: Self)
        requires
            pre.wf(),
            pre.rolled_back(ts, post),
        ensures
            post.received_messages@.to_multiset().add(
                pre.received_messages@.filter(|m: Message| m.exec_ts >= ts).to_multiset(),
            ) == pre.received_messages@.to_multiset(),
            post.sent_messages@.to_multiset().add(
                pre.sent_messages@.filter(|m: Message| m.sent_ts >= ts).to_multiset(),
            ) == pre.sent_messages@.to_multiset(),
            forall|i: int|
                0 <= i < post.received_messages@.len() ==> (#[trigger] post
                    .received_messages@[i]).exec_ts < ts,
            forall|i: int|
                0 <= i < post.sent_messages@.len() ==> (#[trigger] post.sent_messages@[i]).sent_ts
                    < ts,
    {
        broadcast use vstd::prelude::Seq::lemma_filter_pred;

        lemma_filter_complement_partitions(
            pre.received_messages@,
            |m: Message| m.exec_ts < ts,
            |m: Message| m.exec_ts >= ts,
        );
        lemma_filter_complement_partitions(
            pre.sent_messages@,
            |m: Message| m.sent_ts < ts,
            |m: Message| m.sent_ts >= ts,
        );
    }

    /// A freed element never comes back.  `free(t)` leaves only elements
    /// after `t`; a later rollback only drops stored elements or returns
    /// them, so everything it keeps and everything it returns still lies
    /// after `t`.  (The other operations add nothing old either: saving
    /// appends only the caller's message and `take_checkpoint` records only
    /// a fresh snapshot at the current virtual time.)
    pub proof fn lemma_free_then_rollback_no_resurrection(
        m0: Self,
        t: Timestamp,
        m1: Self,
        ts: Timestamp,
        m2: Self,
        out: Seq<Message>,
    )
        requires
            m0.wf(),
            m0.freed(t, m1),
            m1.rolled_back(ts, m2),
            m1.rollback_returns(ts, out),
        ensures
            forall|i: int|
                0 <= i < m2.checkpoints@.len() ==> (#[trigger] m2.checkpoints@[i]).timestamp > t,
            forall|i: int|
                0 <= i < m2.received_messages@.len() ==> (#[trigger] m2
                    .received_messages@[i]).exec_ts > t,
            forall|i: int|
                0 <= i < m2.sent_messages@.len() ==> (#[trigger] m2.sent_messages@[i]).sent_ts > t,
            forall|i: int|
                0 <= i < m1.received_messages@.filter(|m: Message| m.exec_ts >= ts).len()
                    ==> (#[trigger] out[i]).exec_ts > t,
    {
        broadcast use vstd::prelude::Seq::lemma_filter_pred;
        broadcast use vstd::prelude::Seq::lemma_filter_contains_rev;
        broadcast use vstd::prelude::Seq::lemma_index_contains;

        assert forall|i: int| 0 <= i < m2.checkpoints@.len() implies (#[trigger] m2
            .checkpoints@[i]).timestamp > t by {
            let c = m2.checkpoints@[i];
            assert(m1.checkpoints@.filter(|c: Checkpoint<State>| c.timestamp <= ts).contains(c));
            assert(m1.checkpoints@.contains(c));
            let j = choose|j: int| 0 <= j < m1.checkpoints@.len() && m1.checkpoints@[j] == c;
            assert(m1.checkpoints@[j].timestamp > t);
        }
        assert forall|i: int| 0 <= i < m2.received_messages@.len() implies (#[trigger] m2
            .received_messages@[i]).exec_ts > t by {
            let m = m2.received_messages@[i];
            assert(m1.received_messages@.filter(|m: Message| m.exec_ts < ts).contains(m));
            assert(m1.received_messages@.contains(m));
            let j = choose|j: int|
                0 <= j < m1.received_messages@.len() && m1.received_messages@[j] == m;
            assert(m1.received_messages@[j].exec_ts > t);
        }
        assert forall|i: int| 0 <= i < m2.sent_messages@.len() implies (#[trigger] m2
            .sent_messages@[i]).sent_ts > t by {
            let m = m2.sent_messages@[i];
            assert(m1.sent_messages@.filter(|m: Message| m.sent_ts < ts).contains(m));
            assert(m1.sent_messages@.contains(m));
            let j = choose|j: int| 0 <= j < m1.sent_messages@.len() && m1.sent_messages@[j] == m;
            assert(m1.sent_messages@[j].sent_ts > t);
        }
        let retracted = m1.received_messages@.filter(|m: Message| m.exec_ts >= ts);
        assert forall|i: int| 0 <= i < retracted.len() implies (#[trigger] out[i]).exec_ts > t by {
            assert(out[i] == out.take(retracted.len() as int)[i]);
            assert(out[i] == retracted[i]);
            assert(m1.received_messages@.contains(retracted[i]));
            let j = choose|j: int|
                0 <= j < m1.received_messages@.len() && m1.received_messages@[j] == retracted[i];
            assert(m1.received_messages@[j].exec_ts > t);
        }
    }

    /// Round trip: right after a checkpoint was taken at the current
    /// virtual time, updating the state and rolling back to the previous
    /// virtual time returns the manager to its pre-update configuration:
    /// same checkpoints, virtual time and message lists, and a state that
    /// is a clone of the snapshot recorded before the update.
    pub proof fn lemma_update_rollback_round_trip(
        m1: Self,
        s: State,
        l: Timestamp,
        m2: Self,
        m3: Self,
        out: Seq<Message>,
    )
        requires
            m1.wf(),
            m1.checkpoints@.len() > 0,
            m1.checkpoints@.last().timestamp == m1.lvt,
            forall|i: int|
                0 <= i < m1.received_messages@.len() ==> (#[trigger] m1
                    .received_messages@[i]).exec_ts < m1.lvt,
            forall|i: int|
                0 <= i < m1.sent_messages@.len() ==> (#[trigger] m1.sent_messages@[i]).sent_ts
                    < m1.lvt,
            l >= m1.lvt,
            m2 == m1.updated(s, l),
            m2.rolled_back(m1.lvt, m3),
            m2.rollback_returns(m1.lvt, out),
        ensures
            m2.rollback_enabled(m1.lvt),
            m3.checkpoints@ == m1.checkpoints@,
            m3.lvt == m1.lvt,
            m3.received_messages@ == m1.received_messages@,
            m3.sent_messages@ == m1.sent_messages@,
            cloned(m1.checkpoints@.last().state, m3.state),
            out == Seq::<Message>::empty(),
    {
        let ts = m1.lvt;
        let cps = m1.checkpoints@;
        lemma_filter_is_take(cps, |c: Checkpoint<State>| c.timestamp <= ts, cps.len() as int);
        assert(cps.take(cps.len() as int) =~= cps);
        let rec = m1.received_messages@;
        lemma_filter_is_take(rec, |m: Message| m.exec_ts < ts, rec.len() as int);
        assert(rec.take(rec.len() as int) =~= rec);
        lemma_filter_is_skip(rec, |m: Message| m.exec_ts >= ts, rec.len() as int);
        assert(rec.skip(rec.len() as int) =~= Seq::<Message>::empty());
        let snt = m1.sent_messages@;
        lemma_filter_is_take(snt, |m: Message| m.sent_ts < ts, snt.len() as int);
        assert(snt.take(snt.len() as int) =~= snt);
        lemma_filter_is_skip(snt, |m: Message| m.sent_ts >= ts, snt.len() as int);
        assert(snt.skip(snt.len() as int) =~= Seq::<Message>::empty());
        assert(out =~= Seq::<Message>::empty());
    }

    /// Rolling back to virtual time zero with only the genesis checkpoint
    /// retained succeeds, keeps exactly that checkpoint, and removes (and
    /// returns) every stored message, since every time key is at or after
    /// zero.
    pub proof fn lemma_rollback_at_genesis(pre: Self, post: Self, out: Seq<Message>)
        requires
            pre.wf(),
            pre.checkpoints@.len() == 1,
            pre.checkpoints@[0].timestamp == 0,
            pre.rolled_back(0, post),
            pre.rollback_returns(0, out),
        ensures
            pre.rollback_enabled(0),
            post.lvt == 0,
            post.checkpoints@ == pre.checkpoints@,
            post.received_messages@ == Seq::<Message>::empty(),
            post.sent_messages@ == Seq::<Message>::empty(),
            out.len() == pre.received_messages@.len() + pre.sent_messages@.len(),
    {
        let cps = pre.checkpoints@;
        lemma_filter_is_take(cps, |c: Checkpoint<State>| c.timestamp <= 0, 1);
        assert(cps.take(1) =~= cps);
        let rec = pre.received_messages@;
        lemma_filter_is_take(rec, |m: Message| m.exec_ts < 0, 0);
        assert(rec.take(0) =~= Seq::<Message>::empty());
        lemma_filter_is_skip(rec, |m: Message| m.exec_ts >= 0, 0);
        assert(rec.skip(0) =~= rec);
        let snt = pre.sent_messages@;
        lemma_filter_is_take(snt, |m: Message| m.sent_ts < 0, 0);
        assert(snt.take(0) =~= Seq::<Message>::empty());
        lemma_filter_is_skip(snt, |m: Message| m.sent_ts >= 0, 0);
        assert(snt.skip(0) =~= snt);
    }

    /// Rolling back exactly to the earliest retained checkpoint's timestamp
    /// retains exactly that checkpoint.
    pub proof fn lemma_rollback_to_earliest_checkpoint(pre: Self, ts: Timestamp, post: Self)
        requires
            pre.wf(),
            pre.checkpoints@.len() > 0,
            pre.checkpoints@[0].timestamp == ts,
            pre.rolled_back(ts, post),
        ensures
            post.checkpoints@ == seq![pre.checkpoints@[0]],
            post.lvt == ts,
    {
        let cps = pre.checkpoints@;
        lemma_filter_is_take(cps, |c: Checkpoint<State>| c.timestamp <= ts, 1);
        assert(cps.take(1) =~= seq![cps[0]]);
    }
}

} // verus!
