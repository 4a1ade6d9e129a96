//! User-side contract of a simulation component.

use vstd::prelude::*;

use crate::models::{MsgCore, Timestamp};

verus! {

/// A user-supplied simulation component.  It speaks in payloads, routes
/// and execution times; the translator attaches full addressing.
pub trait Component: Sized {
    /// Builds the initial state and any bootstrap outbound message cores.
    fn init() -> (Self, Vec<MsgCore>);

    /// Pure transition: given the virtual time reached and a received
    /// message core, produce the next state and any outbound cores.
    fn on_message(self, lvt: Timestamp, msg: &MsgCore) -> (Self, Vec<MsgCore>);
}

} // verus!
