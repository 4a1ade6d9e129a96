//! Field-public variant of the per-component history store.
//!
//! `AsyncComponentManager` keeps the same checkpoint and message histories
//! as [`RollbackManager`](crate::rollback_manager::RollbackManager) and
//! obeys the same contracts, stated through the spec-level view
//! [`Self::as_manager`].  It exists for callers that assemble or inspect
//! the histories directly instead of going through getters.

use vstd::prelude::*;

use crate::history::{
    prune_checkpoints_through, prune_received_through, prune_sent_through, push_retractions,
    split_received_at, split_sent_at, truncate_checkpoints_to,
};
use crate::models::{Checkpoint, ComponentId, Message, Timestamp};
use crate::rollback_manager::RollbackManager;

pub use crate::rollback_manager::Failure;

verus! {

/// Per-component store of checkpoints, sent messages and received
/// messages, with the histories exposed as fields.
#[derive(Debug, Clone, PartialEq, Eq)]
pub struct AsyncComponentManager<State> {
    /// Current application state.
    pub state: State,
    /// Local Virtual Time: the largest `exec_ts` already integrated.
    pub lvt: Timestamp,
    /// The owning component.
    pub id: ComponentId,
    /// Snapshots, ordered by strictly ascending timestamp.
    pub checkpoints: Vec<Checkpoint<State>>,
    /// Messages received by this component, ordered by ascending `exec_ts`.
    pub received_messages: Vec<Message>,
    /// Messages sent by this component, ordered by ascending `sent_ts`.
    pub sent_messages: Vec<Message>,
}

impl<State> AsyncComponentManager<State> where State: Clone {
    /// The same store viewed as the canonical rollback manager; every
    /// contract below is phrased through this view.
    pub open spec fn as_manager(self) -> RollbackManager<State> {
        RollbackManager {
            state: self.state,
            lvt: self.lvt,
            id: self.id,
            checkpoints: self.checkpoints,
            received_messages: self.received_messages,
            sent_messages: self.sent_messages,
        }
    }

    /// Well-formedness of the stored histories.
    pub open spec fn wf(self) -> bool {
        self.as_manager().wf()
    }

    /// Creates a manager for component `id` holding `initial_state`, with
    /// the genesis checkpoint at virtual time zero already installed.
    pub fn new(id: ComponentId, initial_state: State) -> (r: AsyncComponentManager<State>)
        ensures
            r.wf(),
            r.id == id,
            r.lvt == 0,
            r.state == initial_state,
            r.checkpoints@.len() == 1,
            r.checkpoints@[0].timestamp == 0,
            vstd::pervasive::cloned(initial_state, r.checkpoints@[0].state),
            r.received_messages@ == Seq::<Message>::empty(),
            r.sent_messages@ == Seq::<Message>::empty(),
    {
        let mut manager = AsyncComponentManager {
            state: initial_state,
            lvt: 0,
            id,
            checkpoints: Vec::new(),
            received_messages: Vec::new(),
            sent_messages: Vec::new(),
        };
        manager.take_checkpoint();
        manager
    }

    /// Records a message this component sent or received; same contract as
    /// `RollbackManager::save_message`.
    pub fn save_message(&mut self, msg: Message) -> (r: Result<(), Failure>)
        requires
            old(self).wf(),
        ensures
            final(self).wf(),
            match old(self).as_manager().save_failure(msg) {
                Some(f) => r == Err::<(), Failure>(f) && *final(self) == *old(self),
                None => r == Ok::<(), Failure>(()) && old(self).as_manager().saved(
                    msg,
                    final(self).as_manager(),
                ),
            },
    {
        if msg.from != self.id && msg.to != self.id || msg.is_anti {
            return Err(Failure::InvalidMessage);
        }
        if msg.from == self.id {
            if self.sent_messages.len() > 0 {
                if self.sent_messages[self.sent_messages.len() - 1].sent_ts > msg.sent_ts {
                    return Err(Failure::TimeViolation);
                }
            }
            self.sent_messages.push(msg);
        } else {
            if self.received_messages.len() > 0 {
                if self.received_messages[self.received_messages.len() - 1].exec_ts > msg.exec_ts {
                    return Err(Failure::TimeViolation);
                }
            }
            self.received_messages.push(msg);
        }
        Ok(())
    }

    /// Rewinds to the last checkpoint at or before `ts`; same contract as
    /// `RollbackManager::rollback`.
    pub fn rollback(&mut self, ts: Timestamp) -> (r: Result<Vec<Message>, Failure>)
        requires
            old(self).wf(),
        ensures
            final(self).wf(),
            ts > old(self).lvt ==> r == Err::<Vec<Message>, Failure>(Failure::TimeViolation)
                && *final(self) == *old(self),
            ts <= old(self).lvt && !old(self).as_manager().rollback_enabled(ts) ==> r == Err::<
                Vec<Message>,
                Failure,
            >(Failure::InsufficientCheckpoints) && *final(self) == *old(self),
            old(self).as_manager().rollback_enabled(ts) ==> r is Ok && old(
                self,
            ).as_manager().rolled_back(ts, final(self).as_manager()) && old(
                self,
            ).as_manager().rollback_returns(ts, r->Ok_0@),
            old(self).as_manager().rollback_enabled(ts) ==> final(self).lvt <= ts,
    {
        if ts > self.lvt {
            return Err(Failure::TimeViolation);
        }
        if self.checkpoints.len() == 0 || self.checkpoints[0].timestamp > ts {
            return Err(Failure::InsufficientCheckpoints);
        }

        truncate_checkpoints_to(&mut self.checkpoints, ts);
        let last = self.checkpoints.len() - 1;
        self.lvt = self.checkpoints[last].timestamp;
        self.state = self.checkpoints[last].state.clone();

        let mut out = split_received_at(&mut self.received_messages, ts);
        let cancelled = split_sent_at(&mut self.sent_messages, ts);
        push_retractions(&mut out, &cancelled);

        assert(old(self).as_manager().rolled_back(ts, self.as_manager()));
        Ok(out)
    }

    /// Drops every stored element at or before `ts`; same contract as
    /// `RollbackManager::free`.
    pub fn free(&mut self, ts: Timestamp)
        requires
            old(self).wf(),
        ensures
            final(self).wf(),
            old(self).as_manager().freed(ts, final(self).as_manager()),
    {
        prune_checkpoints_through(&mut self.checkpoints, ts);
        prune_received_through(&mut self.received_messages, ts);
        prune_sent_through(&mut self.sent_messages, ts);
    }

    /// Records a snapshot of the current state at the current virtual
    /// time; same contract as `RollbackManager::take_checkpoint`.
    pub fn take_checkpoint(&mut self)
        requires
            old(self).wf(),
        ensures
            final(self).wf(),
            old(self).as_manager().checkpointed(final(self).as_manager()),
    {
        let snapshot = self.state.clone();
        let n = self.checkpoints.len();
        if n > 0 && self.checkpoints[n - 1].timestamp == self.lvt {
            // Refresh the snapshot already taken at this virtual time, so
            // checkpoint timestamps stay strictly ascending.
            self.checkpoints.pop();
            self.checkpoints.push(Checkpoint { timestamp: self.lvt, state: snapshot });
            assert(self.checkpoints@.drop_last() == old(self).checkpoints@.drop_last());
        } else {
            self.checkpoints.push(Checkpoint { timestamp: self.lvt, state: snapshot });
            assert(self.checkpoints@.drop_last() == old(self).checkpoints@);
        }
    }

    /// Replaces the state and advances the virtual time; same contract as
    /// `RollbackManager::update`.
    pub fn update(&mut self, state: State, lvt: Timestamp) -> (r: Result<(), Failure>)
        requires
            old(self).wf(),
        ensures
            final(self).wf(),
            lvt < old(self).lvt ==> r == Err::<(), Failure>(Failure::TimeViolation) && *final(self)
                == *old(self),
            lvt >= old(self).lvt ==> r == Ok::<(), Failure>(()) && final(self).as_manager() == old(
                self,
            ).as_manager().updated(state, lvt),
    {
        if lvt < self.lvt {
            return Err(Failure::TimeViolation);
        }
        self.state = state;
        self.lvt = lvt;
        Ok(())
    }
}

} // verus!
