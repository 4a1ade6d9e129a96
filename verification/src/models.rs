//! Data model of the Time Warp core: virtual time, component identifiers,
//! messages, anti-messages and state checkpoints.

use vstd::prelude::*;

verus! {

/// Virtual (logical) time.  Zero is the initial virtual time of every
/// component.
pub type Timestamp = u64;

/// Identifies one component inside the federation.
pub type ComponentId = u16;

/// A timestamped event exchanged between components.
///
/// An anti-message is the unique inverse of a positive message with the same
/// `(from, to, id, sent_ts, exec_ts)` identity; it carries no payload.
#[derive(Debug, PartialEq, Eq, Hash)]
pub struct Message {
    /// Sender's local virtual time when the message was emitted.
    pub sent_ts: Timestamp,
    /// Destination's virtual time at which the message must be processed.
    pub exec_ts: Timestamp,
    pub from: ComponentId,
    pub to: ComponentId,
    /// Opaque content; empty on anti-messages.
    pub payload: String,
    /// Routing key, resolved by the translator.
    pub path: String,
    /// Producer-assigned identifier, unique per `(from, sent_ts)` pair.
    pub id: u32,
    pub is_anti: bool,
}

/// The part of a message a user component speaks in: content, route and
/// execution time, with no addressing attached yet.
#[derive(Debug, Clone, PartialEq, Eq, Hash)]
pub struct MsgCore {
    pub payload: String,
    pub path: String,
    pub exec_ts: Timestamp,
}

impl MsgCore {
    /// Strips the addressing from a full message.
    pub fn new(m: Message) -> (r: MsgCore)
        ensures
            r.payload == m.payload,
            r.path == m.path,
            r.exec_ts == m.exec_ts,
    {
        MsgCore { payload: m.payload, path: m.path, exec_ts: m.exec_ts }
    }
}

impl Message {
    /// Two messages are inverses when they share the whole identity
    /// `(from, to, id, sent_ts, exec_ts)` and have opposite polarity.
    pub open spec fn spec_is_inverse_of(self, other: Message) -> bool {
        self.sent_ts == other.sent_ts
        && self.exec_ts == other.exec_ts
        && self.from == other.from
        && self.to == other.to
        && self.id == other.id
        && self.is_anti != other.is_anti
    }

    /// Decides whether `self` and `other` would annihilate each other.
    pub fn is_inverse_of(&self, other: &Message) -> (r: bool)
        ensures
            r == self.spec_is_inverse_of(*other),
    {
        self.sent_ts == other.sent_ts
        && self.exec_ts == other.exec_ts
        && self.from == other.from
        && self.to == other.to
        && self.id == other.id
        && self.is_anti != other.is_anti
    }

    /// `r` is the anti twin of the positive message `self`: same identity
    /// and route, opposite polarity and no payload.
    pub open spec fn is_retraction_of(self, r: Message) -> bool {
        r.sent_ts == self.sent_ts
        && r.exec_ts == self.exec_ts
        && r.from == self.from
        && r.to == self.to
        && r.path == self.path
        && r.id == self.id
        && r.is_anti
        && r.payload@ == Seq::<char>::empty()
    }

    /// Builds the anti twin of a positive message: identical identity,
    /// opposite polarity, no payload.  An anti-message has no anti twin of
    /// its own.
    pub fn get_anti(&self) -> (r: Result<Message, ()>)
        ensures
            self.is_anti <==> r is Err,
            !self.is_anti ==> (r matches Ok(a) && self.is_retraction_of(a)),
    {
        if self.is_anti {
            return Err(());
        }
        Ok(Message {
            sent_ts: self.sent_ts,
            exec_ts: self.exec_ts,
            from: self.from,
            to: self.to,
            payload: String::new(),
            path: self.path.clone(),
            id: self.id,
            is_anti: true,
        })
    }
}

impl Clone for Message {
    /// A cloned message equals the original.
    fn clone(&self) -> (res: Self)
        ensures
            res == *self,
    {
        Message {
            sent_ts: self.sent_ts,
            exec_ts: self.exec_ts,
            from: self.from,
            to: self.to,
            payload: self.payload.clone(),
            path: self.path.clone(),
            id: self.id,
            is_anti: self.is_anti,
        }
    }
}

/// A snapshot of a component's state at one point of virtual time.
#[derive(Debug, Clone, PartialEq, Eq)]
pub struct Checkpoint<State> {
    pub timestamp: Timestamp,
    pub state: State,
}

/// Static configuration of one locally hosted component.
#[derive(Clone, Copy)]
pub struct ComponentCfg {
    pub id: ComponentId,
}

} // verus!
