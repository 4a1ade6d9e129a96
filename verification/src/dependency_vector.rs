//! Per-component vector of the latest known virtual times of its peers.
//!
//! The vector maps component identifiers to timestamps.  It is stored as a
//! list of key/value entries with pairwise distinct keys; lookups take the
//! first entry with the key, so a received vector with duplicate keys
//! still reads deterministically.

use vstd::prelude::*;

use crate::models::{ComponentId, Timestamp};

verus! {

/// Some entry of `s` carries the key `k`.
pub open spec fn has_key(s: Seq<(ComponentId, Timestamp)>, k: ComponentId) -> bool {
    exists|i: int| 0 <= i < s.len() && (#[trigger] s[i]).0 == k
}

/// The value of the first entry of `s` carrying the key `k` (zero when no
/// entry does).
pub open spec fn first_value_of(s: Seq<(ComponentId, Timestamp)>, k: ComponentId) -> Timestamp
    decreases s.len(),
{
    if s.len() == 0 {
        0
    } else if s[0].0 == k {
        s[0].1
    } else {
        first_value_of(s.drop_first(), k)
    }
}

/// No two entries of `s` carry the same key.
pub open spec fn unique_keys(s: Seq<(ComponentId, Timestamp)>) -> bool {
    forall|i: int, j: int| 0 <= i < j < s.len() ==> (#[trigger] s[i]).0 != (#[trigger] s[j]).0
}

/// The entries that `DependencyVector::new` builds: the component's own
/// entry first, then one entry per distinct peer, in first-occurrence
/// order, all at virtual time zero.
pub open spec fn init_entries(self_id: ComponentId, comps: Seq<ComponentId>) -> Seq<
    (ComponentId, Timestamp),
>
    decreases comps.len(),
{
    if comps.len() == 0 {
        seq![(self_id, 0u64)]
    } else {
        let prev = init_entries(self_id, comps.drop_last());
        if has_key(prev, comps.last()) {
            prev
        } else {
            prev.push((comps.last(), 0u64))
        }
    }
}

/// When the first occurrence of key `k` in `s` sits at index `i`, the
/// first value of `k` is that entry's value.
proof fn lemma_first_value_at(s: Seq<(ComponentId, Timestamp)>, k: ComponentId, i: int)
    requires
        0 <= i < s.len(),
        s[i].0 == k,
        forall|j: int| 0 <= j < i ==> (#[trigger] s[j]).0 != k,
    ensures
        has_key(s, k),
        first_value_of(s, k) == s[i].1,
    decreases i,
{
    if i > 0 {
        let d = s.drop_first();
        assert(forall|j: int| 0 <= j < i - 1 ==> (#[trigger] d[j]).0 == s[j + 1].0);
        lemma_first_value_at(d, k, i - 1);
    }
}

/// Looks up the value of the first entry carrying `k`.
fn lookup_first(entries: &Vec<(ComponentId, Timestamp)>, k: ComponentId) -> (r: Option<Timestamp>)
    ensures
        has_key(entries@, k) ==> r == Some(first_value_of(entries@, k)),
        !has_key(entries@, k) ==> r is None,
{
    let mut i: usize = 0;
    while i < entries.len()
        invariant
            i <= entries@.len(),
            forall|j: int| 0 <= j < i ==> (#[trigger] entries@[j]).0 != k,
        decreases entries@.len() - i,
    {
        if entries[i].0 == k {
            proof {
                lemma_first_value_at(entries@, k, i as int);
            }
            return Some(entries[i].1);
        }
        i = i + 1;
    }
    None
}

/// Tracks, for one component, the latest known virtual time of itself and
/// of its peers.
#[derive(Debug, Clone, PartialEq, Eq)]
pub struct DependencyVector {
    /// The owning component; always present among the entries.
    pub id: ComponentId,
    /// Key/value entries with pairwise distinct keys.
    pub entries: Vec<(ComponentId, Timestamp)>,
}

impl DependencyVector {
    /// Well-formedness: keys are pairwise distinct and the owning
    /// component has an entry.
    pub open spec fn wf(self) -> bool {
        &&& unique_keys(self.entries@)
        &&& has_key(self.entries@, self.id)
    }

    /// The virtual time stored for the owning component.
    pub open spec fn self_ts(self) -> Timestamp {
        first_value_of(self.entries@, self.id)
    }

    /// Creates a vector for `self_id` that knows the given peers, all at
    /// virtual time zero.  Duplicate peers collapse to one entry.
    pub fn new(self_id: ComponentId, components: Vec<ComponentId>) -> (r: DependencyVector)
        ensures
            r.wf(),
            r.id == self_id,
            r.entries@ == init_entries(self_id, components@),
            r.entries@[0] == (self_id, 0u64),
            forall|i: int| 0 <= i < r.entries@.len() ==> (#[trigger] r.entries@[i]).1 == 0,
            forall|i: int| 0 <= i < components@.len() ==> has_key(r.entries@, #[trigger] components@[i]),
    {
        let mut entries: Vec<(ComponentId, Timestamp)> = Vec::new();
        entries.push((self_id, 0));
        assert(entries@ =~= init_entries(self_id, components@.take(0)));
        let mut i: usize = 0;
        while i < components.len()
            invariant
                i <= components@.len(),
                entries@ == init_entries(self_id, components@.take(i as int)),
                entries@.len() > 0,
                entries@[0] == (self_id, 0u64),
                unique_keys(entries@),
                forall|j: int| 0 <= j < entries@.len() ==> (#[trigger] entries@[j]).1 == 0,
                forall|j: int| 0 <= j < i ==> has_key(entries@, #[trigger] components@[j]),
            decreases components@.len() - i,
        {
            let c = components[i];
            let present = lookup_first(&entries, c);
            let ghost before = entries@;
            proof {
                assert(components@.take(i as int + 1).drop_last() =~= components@.take(i as int));
                assert(components@.take(i as int + 1).last() == components@[i as int]);
            }
            if present.is_none() {
                entries.push((c, 0));
                assert forall|a: int, b: int|
                    0 <= a < b < entries@.len() implies (#[trigger] entries@[a]).0
                    != (#[trigger] entries@[b]).0 by {
                    if b == entries@.len() - 1 {
                        assert(entries@[a] == before[a]);
                        assert(!has_key(before, c));
                    } else {
                        assert(before[a].0 != before[b].0);
                    }
                }
            }
            assert forall|j: int| 0 <= j < i + 1 implies has_key(
                entries@,
                #[trigger] components@[j],
            ) by {
                if j == i {
                    if present is None {
                        assert(entries@[entries@.len() - 1].0 == c);
                    } else {
                        let w = choose|w: int| 0 <= w < before.len() && (#[trigger] before[w]).0
                            == c;
                        assert(entries@[w].0 == c);
                    }
                } else {
                    let w = choose|w: int|
                        0 <= w < before.len() && (#[trigger] before[w]).0 == components@[j];
                    assert(entries@[w].0 == components@[j]);
                }
            }
            i = i + 1;
        }
        proof {
            assert(components@.take(components@.len() as int) =~= components@);
        }
        DependencyVector { id: self_id, entries }
    }

    /// Advances the owning component's own entry; refuses to move it
    /// backwards.
    pub fn set_self_ts(&mut self, ts: Timestamp) -> (r: Result<(), ()>)
        requires
            old(self).wf(),
        ensures
            final(self).wf(),
            final(self).id == old(self).id,
            ts < old(self).self_ts() ==> r == Err::<(), ()>(()) && *final(self) == *old(self),
            ts >= old(self).self_ts() ==> {
                &&& r == Ok::<(), ()>(())
                &&& final(self).entries@.len() == old(self).entries@.len()
                &&& forall|j: int|
                    0 <= j < old(self).entries@.len() ==> final(self).entries@[j] == (
                    if (#[trigger] old(self).entries@[j]).0 == old(self).id {
                        (old(self).id, ts)
                    } else {
                        old(self).entries@[j]
                    })
            },
    {
        let ghost pre = self.entries@;
        let mut i: usize = 0;
        while i < self.entries.len()
            invariant
                i <= self.entries@.len(),
                *self == *old(self),
                self.entries@ == pre,
                unique_keys(pre),
                has_key(pre, old(self).id),
                forall|j: int| 0 <= j < i ==> (#[trigger] pre[j]).0 != old(self).id,
            decreases self.entries@.len() - i,
        {
            if self.entries[i].0 == self.id {
                proof {
                    lemma_first_value_at(pre, old(self).id, i as int);
                }
                if ts < self.entries[i].1 {
                    return Err(());
                }
                self.entries.set(i, (self.id, ts));
                proof {
                    assert forall|a: int, b: int|
                        0 <= a < b < self.entries@.len() implies (#[trigger] self.entries@[a]).0
                        != (#[trigger] self.entries@[b]).0 by {
                        assert(pre[a].0 != pre[b].0);
                    }
                    assert(self.entries@[i as int].0 == self.id);
                    assert(has_key(self.entries@, self.id));
                }
                return Ok(());
            }
            i = i + 1;
        }
        proof {
            assert(!has_key(pre, old(self).id));
            assert(false);
        }
        Err(())
    }

    /// Merges a received dependency vector: every peer entry advances to
    /// the larger of its stored and received virtual times.  Entries the
    /// receiver does not track are ignored, and the owning component's own
    /// entry never changes.  Fails when the received vector claims a newer
    /// virtual time for the owning component than the component itself —
    /// an inconsistent rollback dependency.
    pub fn update(&mut self, other: &Vec<(ComponentId, Timestamp)>) -> (r: Result<(), ()>)
        requires
            old(self).wf(),
        ensures
            final(self).wf(),
            final(self).id == old(self).id,
            has_key(other@, old(self).id) && first_value_of(other@, old(self).id) > old(
                self,
            ).self_ts() ==> r == Err::<(), ()>(()) && *final(self) == *old(self),
            !(has_key(other@, old(self).id) && first_value_of(other@, old(self).id) > old(
                self,
            ).self_ts()) ==> {
                &&& r == Ok::<(), ()>(())
                &&& final(self).entries@.len() == old(self).entries@.len()
                &&& forall|j: int|
                    0 <= j < old(self).entries@.len() ==> final(self).entries@[j] == (
                    {
                        let e = #[trigger] old(self).entries@[j];
                        if e.0 != old(self).id && has_key(other@, e.0) && first_value_of(
                            other@,
                            e.0,
                        ) > e.1 {
                            (e.0, first_value_of(other@, e.0))
                        } else {
                            e
                        }
                    })
            },
    {
        let own = lookup_first(&self.entries, self.id);
        let claimed = lookup_first(other, self.id);
        proof {
            assert(has_key(self.entries@, self.id));
        }
        if let Some(ts) = claimed {
            if ts > own.unwrap() {
                return Err(());
            }
        }

        let ghost pre = self.entries@;
        let mut i: usize = 0;
        while i < self.entries.len()
            invariant
                i <= self.entries@.len(),
                pre == old(self).entries@,
                self.entries@.len() == pre.len(),
                self.id == old(self).id,
                unique_keys(pre),
                has_key(pre, old(self).id),
                forall|j: int| (i as int) <= j < pre.len() ==> self.entries@[j] == pre[j],
                forall|j: int|
                    0 <= j < i ==> self.entries@[j] == (
                    {
                        let e = #[trigger] pre[j];
                        if e.0 != old(self).id && has_key(other@, e.0) && first_value_of(
                            other@,
                            e.0,
                        ) > e.1 {
                            (e.0, first_value_of(other@, e.0))
                        } else {
                            e
                        }
                    }),
            decreases self.entries@.len() - i,
        {
            let e = self.entries[i];
            if e.0 != self.id {
                if let Some(ov) = lookup_first(other, e.0) {
                    if ov > e.1 {
                        self.entries.set(i, (e.0, ov));
                    }
                }
            }
            i = i + 1;
        }
        proof {
            assert forall|a: int, b: int|
                0 <= a < b < self.entries@.len() implies (#[trigger] self.entries@[a]).0
                != (#[trigger] self.entries@[b]).0 by {
                assert(pre[a].0 != pre[b].0);
            }
            let w = choose|w: int| 0 <= w < pre.len() && (#[trigger] pre[w]).0 == old(self).id;
            assert(self.entries@[w].0 == old(self).id);
            assert(has_key(self.entries@, old(self).id));
        }
        Ok(())
    }

    /// The stored entries.
    pub fn get_map(&self) -> (r: &Vec<(ComponentId, Timestamp)>)
        ensures
            r@ == self.entries@,
    {
        &self.entries
    }
}

} // verus!
