//! Adapter between a user component and the fully addressed message world.
//!
//! The translator resolves a message core's route to a destination
//! component and destination route through a routing table, and attaches
//! the sender's identity and send time.  Every translation demands a
//! route the table resolves; `routes_known` is the check callers run
//! first.  The runtime wires a translator into the
//! [`Gateway`](crate::gateway::Gateway) contract and treats an unknown
//! route as fatal to the component, a failure mode (a panic on table
//! lookup) that verified code does not take.

use vstd::prelude::*;

use crate::models::{ComponentId, Message, MsgCore, Timestamp};

verus! {

/// An entry of `s` carries the route `route`.
pub open spec fn route_known(s: Seq<(String, (ComponentId, String))>, route: Seq<char>) -> bool {
    exists|i: int| 0 <= i < s.len() && (#[trigger] s[i]).0@ == route
}

/// The destination of the first entry of `s` carrying the route `route`.
pub open spec fn route_lookup(s: Seq<(String, (ComponentId, String))>, route: Seq<char>) -> Option<
    (ComponentId, String),
>
    decreases s.len(),
{
    if s.len() == 0 {
        None
    } else if s[0].0@ == route {
        Some(s[0].1)
    } else {
        route_lookup(s.drop_first(), route)
    }
}

/// When the first entry of `s` carrying `route` sits at index `i`, the
/// lookup resolves to that entry's destination.
proof fn lemma_route_lookup_at(s: Seq<(String, (ComponentId, String))>, route: Seq<char>, i: int)
    requires
        0 <= i < s.len(),
        s[i].0@ == route,
        forall|j: int| 0 <= j < i ==> (#[trigger] s[j]).0@ != route,
    ensures
        route_known(s, route),
        route_lookup(s, route) == Some(s[i].1),
    decreases i,
{
    if i > 0 {
        let d = s.drop_first();
        assert(forall|j: int| 0 <= j < i - 1 ==> #[trigger] d[j] == s[j + 1]);
        lemma_route_lookup_at(d, route, i - 1);
    }
}

/// Resolves routes to destinations for the components one process hosts.
pub struct Translator {
    /// The component on whose behalf messages are addressed.
    pub local_id: ComponentId,
    /// Routing table: route, then destination component and destination
    /// route.  Lookups take the first entry with the route.
    pub route_to_dest: Vec<(String, (ComponentId, String))>,
}

impl Translator {
    /// The message `translate` builds for a core whose route resolves.
    pub open spec fn spec_translate(self, msg_core: MsgCore, sent_ts: Timestamp) -> Message
        recommends
            route_known(self.route_to_dest@, msg_core.path@),
    {
        let dest = route_lookup(self.route_to_dest@, msg_core.path@)->Some_0;
        Message {
            sent_ts,
            exec_ts: msg_core.exec_ts,
            from: self.local_id,
            to: dest.0,
            payload: msg_core.payload,
            path: dest.1,
            id: 0,
            is_anti: false,
        }
    }

    /// Decides whether the table resolves `path`.
    pub fn knows_route(&self, path: &String) -> (b: bool)
        ensures
            b == route_known(self.route_to_dest@, path@),
    {
        let mut j: usize = 0;
        while j < self.route_to_dest.len()
            invariant
                j <= self.route_to_dest@.len(),
                forall|t: int| 0 <= t < j ==> (#[trigger] self.route_to_dest@[t]).0@ != path@,
            decreases self.route_to_dest@.len() - j,
        {
            if self.route_to_dest[j].0 == *path {
                return true;
            }
            j = j + 1;
        }
        false
    }

    /// Attaches full addressing to a message core whose route the table
    /// resolves: sender, destination, destination route and send time.
    pub fn translate(&self, msg_core: MsgCore, sent_ts: Timestamp) -> (r: Message)
        requires
            route_known(self.route_to_dest@, msg_core.path@),
        ensures
            r == self.spec_translate(msg_core, sent_ts),
    {
        let mut i: usize = 0;
        while i < self.route_to_dest.len()
            invariant
                i <= self.route_to_dest@.len(),
                forall|j: int| 0 <= j < i ==> (#[trigger] self.route_to_dest@[j]).0@
                    != msg_core.path@,
            decreases self.route_to_dest@.len() - i,
        {
            if self.route_to_dest[i].0 == msg_core.path {
                proof {
                    lemma_route_lookup_at(self.route_to_dest@, msg_core.path@, i as int);
                }
                let dest = &self.route_to_dest[i].1;
                return Message {
                    sent_ts,
                    exec_ts: msg_core.exec_ts,
                    from: self.local_id,
                    to: dest.0,
                    payload: msg_core.payload,
                    path: dest.1.clone(),
                    id: 0,
                    is_anti: false,
                };
            }
            i = i + 1;
        }
        proof {
            assert(!route_known(self.route_to_dest@, msg_core.path@));
            assert(false);
        }
        Message {
            sent_ts,
            exec_ts: msg_core.exec_ts,
            from: self.local_id,
            to: self.local_id,
            payload: msg_core.payload,
            path: String::new(),
            id: 0,
            is_anti: false,
        }
    }

    /// Decides whether the table resolves every core's route.
    pub fn routes_known(&self, cores: &Vec<MsgCore>) -> (b: bool)
        ensures
            b == forall|i: int|
                0 <= i < cores@.len() ==> route_known(
                    self.route_to_dest@,
                    (#[trigger] cores@[i]).path@,
                ),
    {
        let mut i: usize = 0;
        while i < cores.len()
            invariant
                i <= cores@.len(),
                forall|j: int|
                    0 <= j < i ==> route_known(self.route_to_dest@, (#[trigger] cores@[j]).path@),
            decreases cores@.len() - i,
        {
            if !self.knows_route(&cores[i].path) {
                return false;
            }
            i = i + 1;
        }
        true
    }

    /// Translates every core, in order.  Every route must resolve: nothing
    /// is dropped, and the caller checks with [`Self::routes_known`] first.
    pub fn translate_all(&self, cores: Vec<MsgCore>, sent_ts: Timestamp) -> (r: Vec<Message>)
        requires
            forall|i: int|
                0 <= i < cores@.len() ==> route_known(
                    self.route_to_dest@,
                    (#[trigger] cores@[i]).path@,
                ),
        ensures
            r@.len() == cores@.len(),
            forall|i: int|
                0 <= i < cores@.len() ==> r@[i] == self.spec_translate(
                    #[trigger] cores@[i],
                    sent_ts,
                ),
    {
        let mut out: Vec<Message> = Vec::new();
        let mut i: usize = 0;
        while i < cores.len()
            invariant
                i <= cores@.len(),
                out@.len() == i,
                forall|j: int|
                    0 <= j < cores@.len() ==> route_known(
                        self.route_to_dest@,
                        (#[trigger] cores@[j]).path@,
                    ),
                forall|j: int|
                    0 <= j < i ==> out@[j] == self.spec_translate(#[trigger] cores@[j], sent_ts),
            decreases cores@.len() - i,
        {
            let core = &cores[i];
            let m = self.translate(
                MsgCore {
                    payload: core.payload.clone(),
                    path: core.path.clone(),
                    exec_ts: core.exec_ts,
                },
                sent_ts,
            );
            out.push(m);
            i = i + 1;
        }
        out
    }
}

} // verus!
