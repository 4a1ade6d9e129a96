//! The decision core of a component's execution loop.
//!
//! The loop itself — popping the blocking queue, consulting the checkpoint
//! policy and handing messages to the messenger — lives with the runtime.
//! Everything the loop decides per event is here: detecting a Local
//! Causality Constraint violation and rewinding, recording the received
//! message, running the gateway, advancing virtual time and recording the
//! outputs.  Any failure reported here indicates engine corruption and is
//! fatal to the component.

use vstd::prelude::*;
use vstd::pervasive::cloned;

use crate::gateway::Gateway;
use crate::models::{ComponentId, Message, Timestamp};
use crate::rollback_manager::{Failure, RollbackManager};

verus! {

/// Predicate: the message was sent by component `id`.
pub open spec fn sent_by(id: ComponentId) -> spec_fn(Message) -> bool {
    |m: Message| m.from == id
}

/// Predicate: the message was not sent by component `id`.
pub open spec fn not_sent_by(id: ComponentId) -> spec_fn(Message) -> bool {
    |m: Message| m.from != id
}

/// Every message of `outs` can be recorded in order on histories that end
/// with `sent` and `received`: each is positive, addressed from or to
/// `id`, and extends its list's time order.
pub open spec fn recordable(
    id: ComponentId,
    sent: Seq<Message>,
    received: Seq<Message>,
    outs: Seq<Message>,
) -> bool
    decreases outs.len(),
{
    if outs.len() == 0 {
        true
    } else {
        let m = outs[0];
        &&& !m.is_anti
        &&& (m.from == id || m.to == id)
        &&& (m.from == id ==> sent.len() == 0 || sent.last().sent_ts <= m.sent_ts)
        &&& (m.from != id ==> received.len() == 0 || received.last().exec_ts <= m.exec_ts)
        &&& recordable(
            id,
            if m.from == id {
                sent.push(m)
            } else {
                sent
            },
            if m.from == id {
                received
            } else {
                received.push(m)
            },
            outs.drop_first(),
        )
    }
}

/// Handles a possible Local Causality Constraint violation: when the
/// message lies in the component's past, rewinds to its execution time
/// and returns the messages the caller must deliver; otherwise does
/// nothing.
pub fn resolve_straggler<State: Clone>(
    manager: &mut RollbackManager<State>,
    msg: &Message,
) -> (r: Result<Vec<Message>, Failure>)
    requires
        old(manager).wf(),
    ensures
        final(manager).wf(),
        msg.exec_ts >= old(manager).lvt ==> r is Ok && r->Ok_0@ == Seq::<Message>::empty()
            && *final(manager) == *old(manager),
        msg.exec_ts < old(manager).lvt && !old(manager).rollback_enabled(msg.exec_ts) ==> r
            == Err::<Vec<Message>, Failure>(Failure::InsufficientCheckpoints) && *final(manager)
            == *old(manager),
        msg.exec_ts < old(manager).lvt && old(manager).rollback_enabled(msg.exec_ts) ==> {
            &&& r is Ok
            &&& old(manager).rolled_back(msg.exec_ts, *final(manager))
            &&& old(manager).rollback_returns(msg.exec_ts, r->Ok_0@)
            &&& final(manager).lvt <= msg.exec_ts
        },
{
    if msg.exec_ts < manager.get_lvt() {
        manager.rollback(msg.exec_ts)
    } else {
        let empty: Vec<Message> = Vec::new();
        Ok(empty)
    }
}

/// Advances the manager to `exec_ts` with the state the gateway produced,
/// then records every output message in order.  Succeeds exactly when the
/// virtual time does not move backwards and every output fits its history;
/// the first unrecordable output stops the recording with its failure.
pub fn record_outputs<State: Clone>(
    manager: &mut RollbackManager<State>,
    new_state: State,
    exec_ts: Timestamp,
    outs: &Vec<Message>,
) -> (r: Result<(), Failure>)
    requires
        old(manager).wf(),
    ensures
        final(manager).wf(),
        final(manager).id == old(manager).id,
        final(manager).checkpoints@ == old(manager).checkpoints@,
        exec_ts < old(manager).lvt ==> r == Err::<(), Failure>(Failure::TimeViolation)
            && *final(manager) == *old(manager),
        exec_ts >= old(manager).lvt ==> final(manager).lvt == exec_ts && final(manager).state
            == new_state,
        r is Ok ==> exec_ts >= old(manager).lvt,
        r is Ok ==> recordable(
            old(manager).id,
            old(manager).sent_messages@,
            old(manager).received_messages@,
            outs@,
        ),
        exec_ts >= old(manager).lvt && recordable(
            old(manager).id,
            old(manager).sent_messages@,
            old(manager).received_messages@,
            outs@,
        ) ==> r == Ok::<(), Failure>(()),
        r is Ok ==> final(manager).sent_messages@ == old(manager).sent_messages@ + outs@.filter(
            sent_by(old(manager).id),
        ),
        r is Ok ==> final(manager).received_messages@ == old(manager).received_messages@
            + outs@.filter(not_sent_by(old(manager).id)),
{
    match manager.update(new_state, exec_ts) {
        Ok(()) => {},
        Err(f) => {
            return Err(f);
        },
    }
    let ghost id = manager.id;
    let ghost sent0 = manager.sent_messages@;
    let ghost rec0 = manager.received_messages@;
    let ghost base = *manager;
    proof {
        reveal(Seq::filter);
        assert(outs@.skip(0) =~= outs@);
        assert(outs@.take(0).filter(sent_by(id)) =~= Seq::<Message>::empty());
        assert(outs@.take(0).filter(not_sent_by(id)) =~= Seq::<Message>::empty());
        assert(sent0 + Seq::<Message>::empty() =~= sent0);
        assert(rec0 + Seq::<Message>::empty() =~= rec0);
    }
    let mut i: usize = 0;
    while i < outs.len()
        invariant
            i <= outs@.len(),
            manager.wf(),
            manager.id == id,
            id == old(manager).id,
            sent0 == old(manager).sent_messages@,
            rec0 == old(manager).received_messages@,
            exec_ts >= old(manager).lvt,
            manager.lvt == base.lvt,
            base.lvt == exec_ts,
            manager.state == base.state,
            base.state == new_state,
            manager.checkpoints@ == base.checkpoints@,
            base.checkpoints@ == old(manager).checkpoints@,
            manager.sent_messages@ == sent0 + outs@.take(i as int).filter(sent_by(id)),
            manager.received_messages@ == rec0 + outs@.take(i as int).filter(not_sent_by(id)),
            recordable(id, sent0, rec0, outs@.take(i as int)),
            recordable(id, sent0, rec0, outs@) <==> recordable(
                id,
                manager.sent_messages@,
                manager.received_messages@,
                outs@.skip(i as int),
            ),
        decreases outs@.len() - i,
    {
        let ghost pre_sent = manager.sent_messages@;
        let ghost pre_rec = manager.received_messages@;
        let m = outs[i].clone();
        proof {
            reveal_with_fuel(recordable, 2);
            assert(outs@.skip(i as int)[0] == outs@[i as int]);
            assert(outs@.skip(i as int).drop_first() =~= outs@.skip(i as int + 1));
        }
        match manager.save_message(m) {
            Ok(()) => {},
            Err(f) => {
                proof {
                    assert(!recordable(
                        id,
                        pre_sent,
                        pre_rec,
                        outs@.skip(i as int),
                    ));
                }
                return Err(f);
            },
        }
        proof {
            broadcast use vstd::prelude::Seq::lemma_filter_push;
            broadcast use vstd::prelude::Seq::push_distributes_over_add;

            assert(outs@.take(i as int + 1) =~= outs@.take(i as int).push(outs@[i as int]));
            assert(recordable(id, sent0, rec0, outs@.take(i as int + 1))) by {
                lemma_recordable_extend(id, sent0, rec0, outs@.take(i as int), outs@[i as int]);
            }
        }
        i = i + 1;
    }
    proof {
        assert(outs@.take(outs@.len() as int) =~= outs@);
        assert(outs@.skip(outs@.len() as int) =~= Seq::<Message>::empty());
    }
    Ok(())
}

/// A recordable prefix stays recordable when one more message fits the
/// histories that recording the prefix produces.
proof fn lemma_recordable_extend(
    id: ComponentId,
    sent: Seq<Message>,
    received: Seq<Message>,
    outs: Seq<Message>,
    m: Message,
)
    requires
        recordable(id, sent, received, outs),
        ({
            let s1 = sent + outs.filter(sent_by(id));
            let r1 = received + outs.filter(not_sent_by(id));
            &&& !m.is_anti
            &&& (m.from == id || m.to == id)
            &&& (m.from == id ==> s1.len() == 0 || s1.last().sent_ts <= m.sent_ts)
            &&& (m.from != id ==> r1.len() == 0 || r1.last().exec_ts <= m.exec_ts)
        }),
    ensures
        recordable(id, sent, received, outs.push(m)),
    decreases outs.len(),
{
    reveal_with_fuel(recordable, 2);
    reveal_with_fuel(Seq::filter, 3);
    if outs.len() == 0 {
        assert(outs.filter(sent_by(id)) =~= Seq::<Message>::empty());
        assert(outs.filter(not_sent_by(id)) =~= Seq::<Message>::empty());
        assert(outs.push(m).drop_first() =~= Seq::<Message>::empty());
        assert(outs.push(m)[0] == m);
    } else {
        let h = outs[0];
        let rest = outs.drop_first();
        assert(outs.push(m)[0] == h);
        assert(outs.push(m).drop_first() =~= rest.push(m));
        assert(outs =~= seq![h] + rest);
        vstd::prelude::Seq::filter_distributes_over_add(seq![h], rest, sent_by(id));
        vstd::prelude::Seq::filter_distributes_over_add(seq![h], rest, not_sent_by(id));
        assert(seq![h].drop_last() =~= Seq::<Message>::empty());
        assert(seq![h].filter(sent_by(id)) == (if h.from == id { Seq::<Message>::empty().push(h) } else { Seq::<Message>::empty() }));
        assert(seq![h].filter(not_sent_by(id)) == (if h.from != id { Seq::<Message>::empty().push(h) } else { Seq::<Message>::empty() }));
        if h.from == id {
            assert(seq![h].filter(sent_by(id)) =~= seq![h]);
            assert(seq![h].filter(not_sent_by(id)) =~= Seq::<Message>::empty());
            assert((sent.push(h)) + rest.filter(sent_by(id)) =~= sent + outs.filter(sent_by(id)));
            assert(received + rest.filter(not_sent_by(id)) =~= received + outs.filter(
                not_sent_by(id),
            ));
            lemma_recordable_extend(id, sent.push(h), received, rest, m);
        } else {
            assert(seq![h].filter(sent_by(id)) =~= Seq::<Message>::empty());
            assert(seq![h].filter(not_sent_by(id)) =~= seq![h]);
            assert(sent + rest.filter(sent_by(id)) =~= sent + outs.filter(sent_by(id)));
            assert((received.push(h)) + rest.filter(not_sent_by(id)) =~= received + outs.filter(
                not_sent_by(id),
            ));
            lemma_recordable_extend(id, sent, received.push(h), rest, m);
        }
    }
}

/// Integrates one event: optionally snapshots the pre-event state, records
/// the received message, runs the gateway on `state`, advances the virtual
/// time to the message's execution time and records the outputs.  Returns
/// the next state and the outbound messages the caller must send.  The
/// caller resolves stragglers first and consults the checkpoint policy for
/// `take_cp`; whatever the gateway returns, the histories stay well
/// formed, and a failure is fatal to the component.
pub fn apply_message<State: Clone, G: Gateway<State>>(
    manager: &mut RollbackManager<State>,
    gateway: &G,
    state: State,
    take_cp: bool,
    msg: Message,
) -> (r: Result<(State, Vec<Message>), Failure>)
    requires
        old(manager).wf(),
    ensures
        final(manager).wf(),
        final(manager).id == old(manager).id,
        // Recording the incoming message fails before the gateway runs:
        // its failure comes back and the histories, state and virtual time
        // are left as they were (at most a snapshot was refreshed).
        old(manager).save_failure(msg) matches Some(f) ==> {
            &&& r == Err::<(State, Vec<Message>), Failure>(f)
            &&& final(manager).lvt == old(manager).lvt
            &&& final(manager).state == old(manager).state
            &&& final(manager).sent_messages@ == old(manager).sent_messages@
            &&& final(manager).received_messages@ == old(manager).received_messages@
        },
        msg.exec_ts < old(manager).lvt ==> r is Err,
        r matches Ok(p) ==> {
            &&& !msg.is_anti
            &&& msg.exec_ts >= old(manager).lvt
            &&& final(manager).lvt == msg.exec_ts
            &&& cloned(p.0, final(manager).state)
            &&& if take_cp && msg.exec_ts > old(manager).lvt {
                &&& final(manager).checkpoints@.len() > 0
                &&& final(manager).checkpoints@.last().timestamp == old(manager).lvt
                &&& cloned(old(manager).state, final(manager).checkpoints@.last().state)
            } else {
                final(manager).checkpoints@ == old(manager).checkpoints@
            }
            &&& if msg.from != old(manager).id {
                &&& msg.to == old(manager).id
                &&& final(manager).received_messages@ == old(manager).received_messages@.push(
                    msg,
                ) + p.1@.filter(not_sent_by(old(manager).id))
                &&& final(manager).sent_messages@ == old(manager).sent_messages@ + p.1@.filter(
                    sent_by(old(manager).id),
                )
            } else {
                &&& final(manager).sent_messages@ == old(manager).sent_messages@.push(msg)
                    + p.1@.filter(sent_by(old(manager).id))
                &&& final(manager).received_messages@ == old(manager).received_messages@
                    + p.1@.filter(not_sent_by(old(manager).id))
            }
        },
{
    if take_cp && msg.exec_ts > manager.get_lvt() {
        manager.take_checkpoint();
    }
    let exec_ts = msg.exec_ts;
    let lvt = manager.get_lvt();
    match manager.save_message(msg.clone()) {
        Ok(()) => {},
        Err(f) => {
            return Err(f);
        },
    }
    let ghost m2 = *manager;
    let (new_state, outs) = gateway.on_message(state, lvt, &msg);
    match record_outputs(manager, new_state.clone(), exec_ts, &outs) {
        Ok(()) => {
            proof {
                // Chain the recorded lists back through the save and the
                // optional checkpoint to the entry state.
                assert(manager.sent_messages@ == m2.sent_messages@ + outs@.filter(
                    sent_by(old(manager).id),
                ));
                assert(manager.received_messages@ == m2.received_messages@ + outs@.filter(
                    not_sent_by(old(manager).id),
                ));
                if msg.from != old(manager).id {
                    assert(m2.received_messages@ == old(manager).received_messages@.push(msg));
                } else {
                    assert(m2.sent_messages@ == old(manager).sent_messages@.push(msg));
                }
            }
            Ok((new_state, outs))
        },
        Err(f) => Err(f),
    }
}

} // verus!
