//! Engine-side contract of a simulation component.

use vstd::prelude::*;

use crate::models::{Message, Timestamp};

verus! {

/// What the execution loop requires of a component: an initial state with
/// bootstrap messages, and a transition from state and received message to
/// next state and outbound messages, all fully addressed.
pub trait Gateway<State> {
    /// Builds the initial application state and any bootstrap outbound
    /// messages, already fully addressed and with `sent_ts` zero.
    fn init(&self) -> (State, Vec<Message>);

    /// Transition: given the current state, the virtual time reached and a
    /// received message, produce the next state and the outbound messages,
    /// with `sent_ts` equal to the triggering message's `exec_ts`.
    fn on_message(&self, state: State, lvt: Timestamp, message: &Message) -> (State, Vec<Message>);
}

} // verus!
