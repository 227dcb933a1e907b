use vstd::prelude::*;

verus! {

/// Stable handle of an actor cell inside its system.
#[derive(Clone, Copy, Debug, PartialEq, Eq, Structural)]
pub struct ActorId {
    pub index: usize,
}

/// The declared user-message type of an actor.
#[derive(Clone, Copy, Debug, PartialEq, Eq, Structural)]
pub struct MessageKind {
    pub id: u64,
}

/// Control traffic that travels on the user channel.
#[derive(Clone, Copy, Debug, PartialEq, Eq, Structural)]
pub enum ControlMessage {
    Stop,
    Restart,
}

/// Runtime-internal notification, carried on the prioritised channel.
#[derive(Clone, Copy, Debug, PartialEq, Eq, Structural)]
pub enum SystemMessage {
    Start,
    Restart,
    Terminate,
}

/// A user payload, tagged with its message type.
#[derive(Debug)]
pub struct UserMessage {
    pub kind: MessageKind,
    pub body: Vec<u8>,
}

/// A type-erased payload as a sender hands it over.
#[derive(Debug)]
pub enum Payload {
    Control(ControlMessage),
    User(UserMessage),
}

/// A classified payload, ready for the user mailbox.
#[derive(Debug)]
pub enum InnerMessage {
    Control(ControlMessage),
    Message(UserMessage),
}

/// A message paired with the address of whoever sent it.
#[derive(Debug)]
pub struct Envelope {
    pub message: InnerMessage,
    pub sender: ActorId,
}

/// What one handling step handed to an actor's behavior.
#[derive(Debug)]
pub enum Delivery {
    System(SystemMessage),
    User(Envelope),
}

/// The envelope, if any, that `payload` becomes at an actor whose declared
/// message type is `accepts`: control traffic always passes, a user payload
/// only when its type matches.
pub open spec fn classify_spec(payload: Payload, accepts: MessageKind) -> Option<InnerMessage> {
    match payload {
        Payload::Control(c) => Some(InnerMessage::Control(c)),
        Payload::User(m) => if m.kind == accepts {
            Some(InnerMessage::Message(m))
        } else {
            None
        },
    }
}

/// Classifies a type-erased payload against an actor's declared message type.
pub fn classify(payload: Payload, accepts: MessageKind) -> (r: Option<InnerMessage>)
    ensures
        r == classify_spec(payload, accepts),
{
    match payload {
        Payload::Control(c) => Some(InnerMessage::Control(c)),
        Payload::User(m) => {
            if m.kind == accepts {
                Some(InnerMessage::Message(m))
            } else {
                None
            }
        },
    }
}

} // verus!
