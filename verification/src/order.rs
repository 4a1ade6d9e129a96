//! Ordering predicates on stored histories and lemmas about splitting a
//! sorted sequence at a time threshold.
//!
//! Every history the rollback manager keeps (checkpoints, sent messages,
//! received messages) is ordered by its time key, so removing everything at
//! or after a threshold always splits the sequence at one boundary index.
//! The lemmas here connect that boundary picture with `Seq::filter`, which
//! the public contracts are phrased in.

use vstd::prelude::*;

use crate::models::{Checkpoint, Message};

verus! {

/// Sent histories are ordered by non-decreasing send time.
pub open spec fn sorted_by_sent_ts(s: Seq<Message>) -> bool {
    forall|i: int, j: int| 0 <= i < j < s.len() ==> s[i].sent_ts <= s[j].sent_ts
}

/// Received histories are ordered by non-decreasing execution time.
pub open spec fn sorted_by_exec_ts(s: Seq<Message>) -> bool {
    forall|i: int, j: int| 0 <= i < j < s.len() ==> s[i].exec_ts <= s[j].exec_ts
}

/// Checkpoint histories are ordered by strictly increasing timestamp.
pub open spec fn strictly_ascending<State>(s: Seq<Checkpoint<State>>) -> bool {
    forall|i: int, j: int| 0 <= i < j < s.len() ==> s[i].timestamp < s[j].timestamp
}

/// When a predicate holds exactly on the first `k` elements of a sequence,
/// filtering by it keeps exactly that prefix.
pub proof fn lemma_filter_is_take<A>(s: Seq<A>, p: spec_fn(A) -> bool, k: int)
    requires
        0 <= k <= s.len(),
        forall|i: int| 0 <= i < k ==> p(#[trigger] s[i]),
        forall|i: int| k <= i < s.len() ==> !p(#[trigger] s[i]),
    ensures
        s.filter(p) == s.take(k),
    decreases s.len(),
{
    reveal(Seq::filter);
    if s.len() == 0 {
        assert(s.filter(p) =~= s.take(k));
    } else {
        let d = s.drop_last();
        if k == s.len() {
            lemma_filter_is_take(d, p, k - 1);
            assert(s.filter(p) =~= s.take(k));
        } else {
            lemma_filter_is_take(d, p, k);
            assert(d.take(k) =~= s.take(k));
            assert(s.filter(p) =~= s.take(k));
        }
    }
}

/// When a predicate holds exactly from index `k` on, filtering by it keeps
/// exactly that suffix.
pub proof fn lemma_filter_is_skip<A>(s: Seq<A>, p: spec_fn(A) -> bool, k: int)
    requires
        0 <= k <= s.len(),
        forall|i: int| 0 <= i < k ==> !p(#[trigger] s[i]),
        forall|i: int| k <= i < s.len() ==> p(#[trigger] s[i]),
    ensures
        s.filter(p) == s.skip(k),
    decreases s.len(),
{
    reveal(Seq::filter);
    if s.len() == 0 {
        assert(s.filter(p) =~= s.skip(k));
    } else {
        let d = s.drop_last();
        if k == s.len() {
            lemma_filter_is_take(s, p, 0);
            assert(s.take(0) =~= s.skip(k));
        } else {
            lemma_filter_is_skip(d, p, k);
            assert(s.skip(k) =~= d.skip(k).push(s.last()));
            assert(s.filter(p) =~= s.skip(k));
        }
    }
}

/// In a sequence ordered by a time key there is one boundary index before
/// which every key is at or below the threshold and from which on every key
/// exceeds it.
pub proof fn lemma_sorted_cut<A>(s: Seq<A>, key: spec_fn(A) -> u64, ts: u64) -> (k: int)
    requires
        forall|i: int, j: int| 0 <= i < j < s.len() ==> key(#[trigger] s[i]) <= key(#[trigger] s[j]),
    ensures
        0 <= k <= s.len(),
        forall|i: int| 0 <= i < k ==> key(#[trigger] s[i]) <= ts,
        forall|i: int| k <= i < s.len() ==> key(#[trigger] s[i]) > ts,
    decreases s.len(),
{
    if s.len() == 0 {
        0
    } else if key(s.last()) <= ts {
        assert(forall|i: int| 0 <= i < s.len() - 1 ==> key(#[trigger] s[i]) <= key(s.last()));
        s.len() as int
    } else {
        let d = s.drop_last();
        let k = lemma_sorted_cut(d, key, ts);
        assert(forall|i: int| 0 <= i < d.len() ==> d[i] == s[i]);
        k
    }
}

/// Filtering a sequence by a predicate and by its negation partitions it:
/// both parts together hold exactly the elements of the whole, as a
/// multiset.
pub proof fn lemma_filter_complement_partitions<A>(
    s: Seq<A>,
    p: spec_fn(A) -> bool,
    q: spec_fn(A) -> bool,
)
    requires
        forall|i: int| 0 <= i < s.len() ==> (q(#[trigger] s[i]) <==> !p(s[i])),
    ensures
        s.filter(p).to_multiset().add(s.filter(q).to_multiset()) == s.to_multiset(),
    decreases s.len(),
{
    reveal(Seq::filter);
    broadcast use vstd::seq_lib::group_to_multiset_ensures;
    broadcast use vstd::multiset::group_multiset_axioms;

    if s.len() == 0 {
        assert(s.filter(p) =~= Seq::<A>::empty());
        assert(s.filter(q) =~= Seq::<A>::empty());
        assert(s.filter(p).to_multiset().add(s.filter(q).to_multiset()) =~= s.to_multiset());
    } else {
        let d = s.drop_last();
        let x = s.last();
        assert(forall|i: int| 0 <= i < d.len() ==> d[i] == s[i]);
        lemma_filter_complement_partitions(d, p, q);
        vstd::seq_lib::to_multiset_build(d, x);
        assert(d.push(x) =~= s);
        if p(x) {
            vstd::seq_lib::to_multiset_build(d.filter(p), x);
            assert(s.filter(p).to_multiset().add(s.filter(q).to_multiset())
                =~= s.to_multiset());
        } else {
            vstd::seq_lib::to_multiset_build(d.filter(q), x);
            assert(s.filter(p).to_multiset().add(s.filter(q).to_multiset())
                =~= s.to_multiset());
        }
    }
}

} // verus!
