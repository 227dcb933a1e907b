use vstd::prelude::*;

use crate::cell::{deliver, enqueue_system, handle_step, Behavior};
use crate::message::{ActorId, Delivery, Payload, SystemMessage};
use crate::path::ActorPath;
use crate::props::{Action, Actor, Context};
use crate::system::{behaviors_kept, handled_by, is_live, shape_kept, ActorSystem};

verus! {

/// The uniform way to address an actor, whatever kind of reference it is.
pub trait CanReceive {
    /// The cell this reference addresses.
    spec fn target(&self) -> ActorId;

    /// The path this reference reports.
    spec fn path_view(&self) -> Seq<Seq<char>>;

    /// Hands a type-erased payload to the target; see `ActorSystem::receive`.
    fn receive<B>(&self, system: &mut ActorSystem<B>, payload: Payload, sender: ActorId)
        requires
            old(system).wf(),
            is_live(old(system)@, self.target()),
        ensures
            final(system).wf(),
            shape_kept(old(system)@, final(system)@),
            final(system)@ == old(system)@.update(
                self.target().index as int,
                deliver(old(system)@[self.target().index as int], payload, sender),
            ),
            behaviors_kept(*old(system), *final(system), -1),
            final(system).failures() == old(system).failures(),
    ;

    /// Hands a system message to the target's prioritised channel.
    fn receive_system_message<B>(&self, system: &mut ActorSystem<B>, message: SystemMessage)
        requires
            old(system).wf(),
            is_live(old(system)@, self.target()),
        ensures
            final(system).wf(),
            shape_kept(old(system)@, final(system)@),
            final(system)@ == old(system)@.update(
                self.target().index as int,
                enqueue_system(old(system)@[self.target().index as int], message),
            ),
            behaviors_kept(*old(system), *final(system), -1),
            final(system).failures() == old(system).failures(),
    ;

    /// Runs one handling step of the target; for the scheduler only.
    fn handle<B: Actor>(&self, system: &mut ActorSystem<B>) -> (r: Option<Delivery>)
        requires
            old(system).wf(),
            is_live(old(system)@, self.target()),
        ensures
            final(system).wf(),
            shape_kept(old(system)@, final(system)@),
            r == handle_step(old(system)@[self.target().index as int]).1,
            exists|ctx: Context, next: Behavior<B>, acts: Seq<Action<B>>|
                handled_by(*old(system), *final(system), self.target(), ctx, next, acts),
    ;

    /// The path of the addressed actor.
    fn path(&self) -> (r: ActorPath)
        ensures
            r@ == self.path_view(),
    ;
}

/// Sending through either of two references to the same cell changes the
/// system in the same way.
pub proof fn lemma_same_target_same_delivery<R1: CanReceive, R2: CanReceive>(
    r1: &R1,
    r2: &R2,
    v: Seq<crate::cell::CellView>,
    payload: Payload,
    sender: ActorId,
)
    requires
        r1.target() == r2.target(),
    ensures
        v.update(r1.target().index as int, deliver(v[r1.target().index as int], payload, sender))
            == v.update(r2.target().index as int, deliver(v[r2.target().index as int], payload, sender)),
{
}

} // verus!
