//! Dispatch core of an actor runtime: actor paths, message envelopes,
//! mailboxes with a prioritised system channel, type-checked delivery and
//! the two root anchors from which every actor descends.

pub mod can_receive;
pub mod cell;
pub mod message;
pub mod path;
pub mod props;
pub mod root_actor;
pub mod system;
pub mod user_actor;

pub use message::{
    classify, ActorId, ControlMessage, Delivery, Envelope, InnerMessage, MessageKind, Payload,
    SystemMessage, UserMessage,
};
pub use path::ActorPath;
pub use props::{Action, Actor, Context, InternalRootActor, InternalUserActor, Props};
pub use cell::{ActorCell, Behavior, CellView, ChildEntry};
pub use system::{ActorSystem, SpawnError, ANCHOR_MESSAGE_ID, SYSTEM_ROOT_NAME, USER_ROOT_NAME};
pub use can_receive::CanReceive;
pub use root_actor::{RootActorRef, RootKind};
pub use user_actor::UserActorRef;
