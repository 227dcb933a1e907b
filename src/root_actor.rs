use vstd::prelude::*;

use crate::can_receive::CanReceive;
use crate::cell::{has_child, CellView};
use crate::message::{ActorId, Delivery, MessageKind, Payload, SystemMessage};
use crate::path::ActorPath;
use crate::props::{Actor, Props};
use crate::system::{is_live, shape_kept, spawned, ActorSystem, SpawnError};
use crate::user_actor::UserActorRef;

verus! {

/// Which of the two anchors.
#[derive(Clone, Copy, Debug, PartialEq, Eq, Structural)]
pub enum RootKind {
    User,
    System,
}

pub open spec fn root_id(kind: RootKind) -> ActorId {
    match kind {
        RootKind::User => ActorId { index: 0 },
        RootKind::System => ActorId { index: 1 },
    }
}

/// A reference to one of the two root anchors: the spawn point of
/// top-level actors.
pub struct RootActorRef {
    id: ActorId,
    path: ActorPath,
}

impl RootActorRef {
    pub closed spec fn kind(&self) -> RootKind {
        if self.id.index == 0 {
            RootKind::User
        } else {
            RootKind::System
        }
    }

    /// Whether this reference addresses its anchor in a system whose cells
    /// are `v`.
    pub open spec fn refers_into(&self, v: Seq<CellView>) -> bool {
        &&& is_live(v, self.target())
        &&& v[self.target().index as int].path == self.path_view()
    }

    /// A reference to the anchor `kind` of `system`.
    pub fn new<B>(system: &ActorSystem<B>, kind: RootKind) -> (r: RootActorRef)
        requires
            system.wf(),
        ensures
            r.target() == root_id(kind),
            r.kind() == kind,
            r.refers_into(system@),
    {
        let id = match kind {
            RootKind::User => ActorId { index: 0 },
            RootKind::System => ActorId { index: 1 },
        };
        RootActorRef { id, path: system.path(id) }
    }

    /// Spawns a top-level actor under this anchor; see `ActorSystem::actor_of`.
    pub fn actor_of<B, A, F: Fn(&A) -> B>(
        &self,
        system: &mut ActorSystem<B>,
        props: &Props<A, F>,
        name: String,
        accepts: MessageKind,
    ) -> (r: Result<UserActorRef, SpawnError>)
        requires
            old(system).wf(),
            self.refers_into(old(system)@),
            props.can_create(),
        ensures
            final(system).wf(),
            shape_kept(old(system)@, final(system)@),
            r is Err <==> has_child(old(system)@[self.target().index as int], name@),
            r matches Err(e) ==> e == SpawnError::DuplicateName && final(system)@ == old(system)@,
            r matches Ok(c) ==> c.target().index == old(system)@.len() && c.refers_into(final(system)@)
                && final(system)@ == spawned(old(system)@, self.target(), name@, accepts),
    {
        match system.actor_of(self.id, props, name, accepts) {
            Ok(id) => Ok(UserActorRef::new(system, id)),
            Err(e) => Err(e),
        }
    }
}

impl Clone for RootActorRef {
    fn clone(&self) -> (r: RootActorRef)
        ensures
            r.target() == self.target(),
            r.path_view() == self.path_view(),
    {
        RootActorRef { id: self.id, path: self.path.clone() }
    }
}

impl CanReceive for RootActorRef {
    closed spec fn target(&self) -> ActorId {
        self.id
    }

    closed spec fn path_view(&self) -> Seq<Seq<char>> {
        self.path@
    }

    fn receive<B>(&self, system: &mut ActorSystem<B>, payload: Payload, sender: ActorId) {
        system.receive(self.id, payload, sender);
    }

    fn receive_system_message<B>(&self, system: &mut ActorSystem<B>, message: SystemMessage) {
        system.receive_system_message(self.id, message);
    }

    fn handle<B: Actor>(&self, system: &mut ActorSystem<B>) -> (r: Option<Delivery>) {
        system.handle(self.id)
    }

    fn path(&self) -> (r: ActorPath) {
        self.path.clone()
    }
}

} // verus!
