//! Priority queue of incoming events, ordered by execution timestamp, with
//! pairwise message/anti-message annihilation on insertion.
//!
//! Annihilation in the queue is the primary cost-saver of Time Warp: when an
//! anti-message arrives before its positive twin was dequeued, both vanish
//! without any rollback at the destination.
//!
//! Internally the queue keeps its entries ordered by descending `exec_ts`,
//! so the next message to execute — the one with the smallest `exec_ts` —
//! is popped from the back in constant time.  The view of a queue is that
//! internal sequence.

use vstd::prelude::*;

use crate::models::Message;

verus! {

/// Single-consumer event queue of one component.
#[derive(Debug, Clone)]
pub struct MessageQueue {
    msgs: Vec<Message>,
}

impl View for MessageQueue {
    type V = Seq<Message>;

    closed spec fn view(&self) -> Seq<Message> {
        self.msgs@
    }
}

/// The queue's entries ordered by descending execution timestamp.
pub open spec fn ordered_desc(s: Seq<Message>) -> bool {
    forall|i: int, j: int| 0 <= i < j < s.len() ==> s[i].exec_ts >= s[j].exec_ts
}

/// Some entry of `s` would annihilate with `m`.
pub open spec fn has_inverse(s: Seq<Message>, m: Message) -> bool {
    exists|i: int| 0 <= i < s.len() && m.spec_is_inverse_of(#[trigger] s[i])
}

/// `post` is `pre` with the first entry that `m` annihilates with removed;
/// `m` itself is dropped.
pub open spec fn annihilated(pre: Seq<Message>, m: Message, post: Seq<Message>) -> bool {
    exists|i: int|
        {
            &&& 0 <= i < pre.len()
            &&& m.spec_is_inverse_of(#[trigger] pre[i])
            &&& forall|j: int| 0 <= j < i ==> !m.spec_is_inverse_of(#[trigger] pre[j])
            &&& post == pre.remove(i)
        }
}

/// `post` is `pre` with `m` inserted at the deterministic position that
/// keeps the entries ordered by descending `exec_ts`: before every entry
/// with a smaller or equal `exec_ts`, after every entry with a greater one.
pub open spec fn inserted(pre: Seq<Message>, m: Message, post: Seq<Message>) -> bool {
    exists|i: int|
        {
            &&& 0 <= i <= pre.len()
            &&& forall|j: int| 0 <= j < i ==> (#[trigger] pre[j]).exec_ts > m.exec_ts
            &&& (i == pre.len() || pre[i].exec_ts <= m.exec_ts)
            &&& post == pre.insert(i, m)
        }
}

impl MessageQueue {
    /// The queue invariant: entries stay ordered by descending `exec_ts`.
    pub open spec fn wf(self) -> bool {
        ordered_desc(self@)
    }

    /// An empty queue.
    pub fn new() -> (r: MessageQueue)
        ensures
            r.wf(),
            r@ == Seq::<Message>::empty(),
    {
        MessageQueue { msgs: Vec::new() }
    }

    /// Inserts a message, or annihilates it against its stored inverse: if
    /// some entry is the inverse of `msg`, the first such entry is removed
    /// and `msg` is dropped; otherwise `msg` is inserted preserving the
    /// descending `exec_ts` order.
    pub fn push(&mut self, msg: Message)
        requires
            old(self).wf(),
        ensures
            final(self).wf(),
            has_inverse(old(self)@, msg) ==> annihilated(old(self)@, msg, final(self)@),
            !has_inverse(old(self)@, msg) ==> inserted(old(self)@, msg, final(self)@),
    {
        let ghost pre = self.msgs@;
        let mut i: usize = 0;
        while i < self.msgs.len()
            invariant
                i <= self.msgs@.len(),
                self.msgs@ == pre,
                old(self)@ == pre,
                ordered_desc(pre),
                forall|j: int| 0 <= j < i ==> !msg.spec_is_inverse_of(#[trigger] pre[j]),
            decreases self.msgs@.len() - i,
        {
            if msg.is_inverse_of(&self.msgs[i]) {
                let ghost idx = i as int;
                self.msgs.remove(i);
                proof {
                    pre.remove_ensures(idx);
                    assert(msg.spec_is_inverse_of(pre[idx]));
                    assert(has_inverse(pre, msg));
                    assert(self.msgs@ == pre.remove(idx));
                    assert(annihilated(pre, msg, self.msgs@));
                    assert forall|a: int, b: int|
                        0 <= a < b < self.msgs@.len() implies self.msgs@[a].exec_ts
                        >= self.msgs@[b].exec_ts by {
                        if a < idx {
                            assert(self.msgs@[a] == pre[a]);
                        } else {
                            assert(self.msgs@[a] == pre[a + 1]);
                        }
                        if b < idx {
                            assert(self.msgs@[b] == pre[b]);
                        } else {
                            assert(self.msgs@[b] == pre[b + 1]);
                        }
                    }
                }
                return ;
            }
            i = i + 1;
        }

        let mut k: usize = 0;
        while k < self.msgs.len() && self.msgs[k].exec_ts > msg.exec_ts
            invariant
                k <= self.msgs@.len(),
                self.msgs@ == pre,
                forall|j: int| 0 <= j < k ==> (#[trigger] pre[j]).exec_ts > msg.exec_ts,
            decreases self.msgs@.len() - k,
        {
            k = k + 1;
        }
        self.msgs.insert(k, msg);
        assert(inserted(pre, msg, self.msgs@)) by {
            assert(self.msgs@ == pre.insert(k as int, msg));
        }
        assert(ordered_desc(self.msgs@)) by {
            assert(forall|a: int|
                0 <= a < self.msgs@.len() ==> self.msgs@[a] == if a < k {
                    pre[a]
                } else if a == k {
                    msg
                } else {
                    pre[a - 1]
                });
            assert(forall|j: int| (k as int) <= j < pre.len() ==> (#[trigger] pre[j]).exec_ts
                <= msg.exec_ts);
        }
    }

    /// Removes and returns the message with the smallest `exec_ts`, or
    /// nothing when the queue is empty.
    pub fn pop(&mut self) -> (r: Option<Message>)
        requires
            old(self).wf(),
        ensures
            final(self).wf(),
            old(self)@.len() == 0 ==> r is None && final(self)@ == old(self)@,
            old(self)@.len() > 0 ==> {
                &&& r == Some::<Message>(old(self)@.last())
                &&& final(self)@ == old(self)@.drop_last()
                &&& forall|i: int|
                    0 <= i < old(self)@.len() ==> old(self)@.last().exec_ts <= (#[trigger] old(
                        self,
                    )@[i]).exec_ts
            },
    {
        self.msgs.pop()
    }

    /// Current number of queued messages.
    pub fn size(&self) -> (r: usize)
        ensures
            r == self@.len(),
    {
        self.msgs.len()
    }

    /// A copy of the queued messages, in internal (descending `exec_ts`)
    /// order.
    pub fn to_vec(&self) -> (r: Vec<Message>)
        ensures
            r@ == self@,
    {
        let r = self.msgs.clone();
        assert(r@ =~= self.msgs@);
        r
    }

    /// Pushing a positive message and then its anti twin (or the other way
    /// round) leaves the queue exactly as it was: the pair annihilates.
    /// `a` and `b` are the two inverse messages in push order; the queue
    /// must not already hold an entry with their shared identity.
    pub proof fn lemma_push_inverse_pair_annihilates(
        pre: Seq<Message>,
        a: Message,
        b: Message,
        mid: Seq<Message>,
        post: Seq<Message>,
    )
        requires
            a.spec_is_inverse_of(b),
            forall|j: int| 0 <= j < pre.len() ==> !a.spec_is_inverse_of(#[trigger] pre[j]),
            forall|j: int| 0 <= j < pre.len() ==> !b.spec_is_inverse_of(#[trigger] pre[j]),
            inserted(pre, a, mid),
            annihilated(mid, b, post),
        ensures
            has_inverse(mid, b),
            post == pre,
    {
        let i = choose|i: int|
            {
                &&& 0 <= i <= pre.len()
                &&& forall|j: int| 0 <= j < i ==> (#[trigger] pre[j]).exec_ts > a.exec_ts
                &&& (i == pre.len() || pre[i].exec_ts <= a.exec_ts)
                &&& mid == pre.insert(i, a)
            };
        assert(mid[i] == a);
        assert(b.spec_is_inverse_of(mid[i]));
        assert(has_inverse(mid, b));
        let k = choose|k: int|
            {
                &&& 0 <= k < mid.len()
                &&& b.spec_is_inverse_of(#[trigger] mid[k])
                &&& forall|j: int| 0 <= j < k ==> !b.spec_is_inverse_of(#[trigger] mid[j])
                &&& post == mid.remove(k)
            };
        assert(forall|t: int|
            0 <= t < mid.len() && t != i ==> mid[t] == (if t < i {
                pre[t]
            } else {
                pre[t - 1]
            }));
        assert(k == i);
        assert(pre.insert(i, a).remove(i) =~= pre);
    }

    /// Successive pops yield messages in non-decreasing `exec_ts` order.
    pub proof fn lemma_pop_monotone(q0: Seq<Message>, r1: Message, q1: Seq<Message>, r2: Message)
        requires
            ordered_desc(q0),
            q0.len() > 0,
            r1 == q0.last(),
            q1 == q0.drop_last(),
            q1.len() > 0,
            r2 == q1.last(),
        ensures
            r1.exec_ts <= r2.exec_ts,
    {
        assert(r2 == q0[q0.len() - 2]);
    }
}

} // verus!
