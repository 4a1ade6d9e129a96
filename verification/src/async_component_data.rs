//! Precondition-guarded variant of the per-component history store.
//!
//! `AsyncComponentData` offers the rollback manager's operations without
//! result types: each operation demands its success condition up front, so
//! callers that already validated their inputs need not handle failures.
//! The stored histories are private; the contracts speak through the
//! spec-level view [`Self::as_manager`].

use vstd::prelude::*;
use vstd::pervasive::cloned;

use crate::models::{ComponentId, Message, Timestamp};
use crate::rollback_manager::RollbackManager;

verus! {

/// Per-component store of checkpoints, sent messages and received
/// messages, mutated only through operations whose preconditions rule
/// every failure out.
#[derive(Debug, Clone, PartialEq, Eq)]
pub struct AsyncComponentData<AppState> {
    inner: RollbackManager<AppState>,
}

impl<AppState> AsyncComponentData<AppState> where AppState: Clone {
    /// The stored histories, as the canonical rollback manager.
    pub closed spec fn as_manager(self) -> RollbackManager<AppState> {
        self.inner
    }

    /// Well-formedness of the stored histories.
    pub open spec fn wf(self) -> bool {
        self.as_manager().wf()
    }

    /// Creates a store for component `id` holding `initial_state`, with
    /// the genesis checkpoint at virtual time zero already installed.
    pub fn new(id: ComponentId, initial_state: AppState) -> (r: AsyncComponentData<AppState>)
        ensures
            r.wf(),
            r.as_manager().id == id,
            r.as_manager().lvt == 0,
            r.as_manager().state == initial_state,
            r.as_manager().checkpoints@.len() == 1,
            r.as_manager().checkpoints@[0].timestamp == 0,
            cloned(initial_state, r.as_manager().checkpoints@[0].state),
            r.as_manager().received_messages@ == Seq::<Message>::empty(),
            r.as_manager().sent_messages@ == Seq::<Message>::empty(),
    {
        AsyncComponentData { inner: RollbackManager::new(id, initial_state) }
    }

    /// Records a message this component sent or received.  The message
    /// must be positive, addressed from or to this component, and must not
    /// break the time ordering of the list it joins.
    pub fn save_message(&mut self, message: Message)
        requires
            old(self).wf(),
            old(self).as_manager().save_failure(message) is None,
        ensures
            final(self).wf(),
            old(self).as_manager().saved(message, final(self).as_manager()),
    {
        let _ = self.inner.save_message(message);
    }

    /// Rewinds to the last checkpoint at or before `rollback_ts` and
    /// returns the messages the caller must deliver: the removed received
    /// messages followed by the anti twin of every removed sent message.
    pub fn rollback_to(&mut self, rollback_ts: Timestamp) -> (r: Vec<Message>)
        requires
            old(self).wf(),
            old(self).as_manager().rollback_enabled(rollback_ts),
        ensures
            final(self).wf(),
            old(self).as_manager().rolled_back(rollback_ts, final(self).as_manager()),
            old(self).as_manager().rollback_returns(rollback_ts, r@),
            final(self).as_manager().lvt <= rollback_ts,
    {
        match self.inner.rollback(rollback_ts) {
            Ok(messages) => messages,
            Err(_) => Vec::new(),
        }
    }

    /// Drops every stored element at or before `timestamp`.
    pub fn free_up_to(&mut self, timestamp: Timestamp)
        requires
            old(self).wf(),
        ensures
            final(self).wf(),
            old(self).as_manager().freed(timestamp, final(self).as_manager()),
    {
        self.inner.free(timestamp);
    }

    /// Records a snapshot of the current state at the current virtual
    /// time.  Deciding when to checkpoint is the caller's responsibility,
    /// not the component's.
    pub fn take_checkpoint(&mut self)
        requires
            old(self).wf(),
        ensures
            final(self).wf(),
            old(self).as_manager().checkpointed(final(self).as_manager()),
    {
        self.inner.take_checkpoint();
    }

    /// Replaces the state and advances the virtual time, which must not
    /// move backwards.  Does not take a checkpoint.
    pub fn update(&mut self, state: AppState, timestamp: Timestamp)
        requires
            old(self).wf(),
            timestamp >= old(self).as_manager().lvt,
        ensures
            final(self).wf(),
            final(self).as_manager() == old(self).as_manager().updated(state, timestamp),
    {
        let _ = self.inner.update(state, timestamp);
    }

    /// A clone of the current state.  This store is the single source of
    /// truth for the state; the component must not keep its own copy.
    pub fn get_state(&self) -> (r: AppState)
        ensures
            cloned(self.as_manager().state, r),
    {
        self.inner.get_state().clone()
    }

    /// The current Local Virtual Time.  This store is the single source of
    /// truth for the LVT; the component must not keep its own copy.
    pub fn get_lvt(&self) -> (r: Timestamp)
        ensures
            r == self.as_manager().lvt,
    {
        self.inner.get_lvt()
    }
}

} // verus!
