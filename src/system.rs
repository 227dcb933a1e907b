use vstd::prelude::*;

use crate::cell::{
    add_child, behavior_reacts, deliver, enqueue, enqueue_system, fresh_cell, handle_step, has_child, ActorCell,
    Behavior, CellView,
};
use crate::message::{ActorId, Delivery, InnerMessage, MessageKind, Payload, SystemMessage};
use crate::path::ActorPath;
use crate::props::{Action, Actor, Context, InternalRootActor, InternalUserActor, Props};
use crate::can_receive::CanReceive;
use crate::root_actor::{RootActorRef, RootKind};

verus! {

/// Local name of the root of all user-created actors.
pub const USER_ROOT_NAME: &'static str = "user";

/// Local name of the root of all actors the runtime creates for itself.
pub const SYSTEM_ROOT_NAME: &'static str = "system";

/// Declared message type of the two root anchors.
pub const ANCHOR_MESSAGE_ID: u64 = 0;

/// Why `actor_of` refused to spawn.
#[derive(Clone, Copy, Debug, PartialEq, Eq, Structural)]
pub enum SpawnError {
    DuplicateName,
}

pub open spec fn user_root_id() -> ActorId {
    ActorId { index: 0 }
}

pub open spec fn system_root_id() -> ActorId {
    ActorId { index: 1 }
}

pub open spec fn anchor_kind() -> MessageKind {
    MessageKind { id: ANCHOR_MESSAGE_ID }
}

/// Whether `id` names a cell of `v`.
pub open spec fn is_live(v: Seq<CellView>, id: ActorId) -> bool {
    id.index < v.len()
}

/// Whether `id` is among the registered children of `v`.
pub open spec fn registered(v: CellView, id: ActorId) -> bool {
    exists|k: int| 0 <= k < v.children.len() && (#[trigger] v.children[k]).1 == id
}

/// The shape of a well-formed hierarchy: the two anchors at fixed handles
/// with their fixed paths, every other cell below an older parent, every
/// registered child one level below its parent under its registered name,
/// and no two siblings sharing a name.
pub open spec fn system_wf(v: Seq<CellView>) -> bool {
    &&& 2 <= v.len() <= usize::MAX
    &&& v[0].path == seq![USER_ROOT_NAME@]
    &&& v[1].path == seq![SYSTEM_ROOT_NAME@]
    &&& forall|i: int| 0 <= i < v.len() ==> ((#[trigger] v[i]).parent is None <==> i < 2)
    &&& forall|i: int|
        2 <= i < v.len() ==> ((#[trigger] v[i]).parent matches Some(p) && p.index < i)
    &&& forall|i: int|
        2 <= i < v.len() ==> (#[trigger] v[i]).path.len() >= 2 && registered(
            v[v[i].parent->0.index as int],
            ActorId { index: i as usize },
        )
    &&& forall|i: int, k: int|
        0 <= i < v.len() && 0 <= k < v[i].children.len() ==> {
            let (n, c) = #[trigger] v[i].children[k];
            &&& 2 <= c.index < v.len()
            &&& v[c.index as int].parent == Some(ActorId { index: i as usize })
            &&& v[c.index as int].path == v[i].path.push(n)
        }
    &&& forall|i: int, a: int, b: int|
        0 <= i < v.len() && 0 <= a < v[i].children.len() && 0 <= b < v[i].children.len() && a
            != b ==> (#[trigger] v[i].children[a]).0 != (#[trigger] v[i].children[b]).0
}

/// Every cell of `v` is still in `w`, with the same path, parent and
/// declared type.
pub open spec fn shape_kept(v: Seq<CellView>, w: Seq<CellView>) -> bool {
    &&& v.len() <= w.len()
    &&& forall|i: int|
        0 <= i < v.len() ==> {
            &&& (#[trigger] w[i]).path == v[i].path
            &&& w[i].parent == v[i].parent
            &&& w[i].accepts == v[i].accepts
        }
}

/// `v` after the child `name` of `parent`, declaring `accepts`, was spawned.
pub open spec fn spawned(v: Seq<CellView>, parent: ActorId, name: Seq<char>, accepts: MessageKind) -> Seq<CellView> {
    let p = parent.index as int;
    v.update(p, add_child(v[p], name, ActorId { index: v.len() as usize })).push(
        fresh_cell(v[p].path.push(name), Some(parent), accepts),
    )
}

/// An actor system: the arena that owns every cell by its handle.
pub struct ActorSystem<B> {
    cells: Vec<ActorCell<B>>,
    failures: Vec<ActorId>,
}

/// Every cell of `old` but the one at `except` still has its behavior in `new`.
pub open spec fn behaviors_kept<B>(old: ActorSystem<B>, new: ActorSystem<B>, except: int) -> bool {
    forall|i: int| 0 <= i < old@.len() && i != except ==> #[trigger] new.behavior_at(i) == old.behavior_at(i)
}

/// `v` after the actor `me` asked for `a`: a send to a live actor is
/// delivered with `me` as sender (to a handle that names no cell it is
/// dropped), a spawn under a free name adds the child, a failure report
/// leaves the cells as they are.
pub open spec fn apply_action<B>(v: Seq<CellView>, me: ActorId, a: Action<B>) -> Seq<CellView> {
    match a {
        Action::Send { target, payload } => if is_live(v, target) {
            v.update(target.index as int, deliver(v[target.index as int], payload, me))
        } else {
            v
        },
        Action::Spawn { name, accepts, behavior } => if has_child(v[me.index as int], name@) {
            v
        } else {
            spawned(v, me, name@, accepts)
        },
        Action::Fail => v,
    }
}

/// `v` after the actions `acts` of `me` were applied in order.
pub open spec fn apply_actions<B>(v: Seq<CellView>, me: ActorId, acts: Seq<Action<B>>) -> Seq<CellView>
    decreases acts.len(),
{
    if acts.len() == 0 {
        v
    } else {
        apply_actions(apply_action(v, me, acts[0]), me, acts.drop_first())
    }
}

/// The failure notifications that `acts` of `me` send to the authority.
pub open spec fn failures_of<B>(me: ActorId, acts: Seq<Action<B>>) -> Seq<ActorId>
    decreases acts.len(),
{
    if acts.len() == 0 {
        Seq::empty()
    } else {
        (if acts[0] is Fail { seq![me] } else { Seq::empty() }) + failures_of(me, acts.drop_first())
    }
}

/// `new` is `old` after one handling step of `t`: the behavior of `t`, handed
/// the next pending item in the context `ctx`, became `next` and asked for
/// `acts`, which were then applied in order.
pub open spec fn handled_by<B: Actor>(
    old: ActorSystem<B>,
    new: ActorSystem<B>,
    t: ActorId,
    ctx: Context,
    next: Behavior<B>,
    acts: Seq<Action<B>>,
) -> bool {
    let i = t.index as int;
    &&& ctx.id == t
    &&& ctx.path@ == old@[i].path
    &&& match handle_step(old@[i]).1 {
        Some(d) => behavior_reacts(old.behavior_at(i), d, ctx, next, acts),
        None => next == old.behavior_at(i) && acts.len() == 0,
    }
    &&& new.behavior_at(i) == next
    &&& behaviors_kept(old, new, i)
    &&& new@ == apply_actions(old@.update(i, handle_step(old@[i]).0), t, acts)
    &&& new.failures() == old.failures() + failures_of(t, acts)
}

impl<B> View for ActorSystem<B> {
    type V = Seq<CellView>;

    closed spec fn view(&self) -> Seq<CellView> {
        self.cells@.map_values(|c: ActorCell<B>| c@)
    }
}

proof fn lemma_update_keeps_wf(v: Seq<CellView>, i: int, c: CellView)
    requires
        system_wf(v),
        0 <= i < v.len(),
        c.path == v[i].path,
        c.parent == v[i].parent,
        c.children == v[i].children,
        c.accepts == v[i].accepts,
    ensures
        system_wf(v.update(i, c)),
        shape_kept(v, v.update(i, c)),
{
    let w = v.update(i, c);
    assert forall|j: int, k: int| 0 <= j < w.len() && 0 <= k < w[j].children.len() implies {
        let (n, ch) = #[trigger] w[j].children[k];
        &&& 2 <= ch.index < w.len()
        &&& w[ch.index as int].parent == Some(ActorId { index: j as usize })
        &&& w[ch.index as int].path == w[j].path.push(n)
    } by {
        assert(w[j].children == v[j].children);
        let (n, ch) = v[j].children[k];
        assert(w[ch.index as int].parent == v[ch.index as int].parent);
    }
}

impl<B> ActorSystem<B> {
    pub open spec fn wf(&self) -> bool {
        system_wf(self@)
    }

    /// The behavior of the cell at index `i`.
    pub closed spec fn behavior_at(&self, i: int) -> Behavior<B> {
        self.cells@[i].behavior()
    }

    pub open spec fn behavior_of(&self, id: ActorId) -> Behavior<B> {
        self.behavior_at(id.index as int)
    }

    /// Failure notifications not yet taken by the failure-handling
    /// authority, oldest first.
    pub closed spec fn failures(&self) -> Seq<ActorId> {
        self.failures@
    }

    /// Hands the pending failure notifications to the authority.
    pub fn take_failures(&mut self) -> (r: Vec<ActorId>)
        ensures
            r@ == old(self).failures(),
            final(self).failures() == Seq::<ActorId>::empty(),
            final(self)@ == old(self)@,
            behaviors_kept(*old(self), *final(self), -1),
    {
        let mut r: Vec<ActorId> = Vec::new();
        std::mem::swap(&mut r, &mut self.failures);
        r
    }

    /// Starts a system: builds the user root and the system root, each from
    /// the props of its inert stub behavior.
    pub fn new() -> (r: ActorSystem<B>)
        ensures
            r.wf(),
            r@ == seq![
                fresh_cell(seq![USER_ROOT_NAME@], None, anchor_kind()),
                fresh_cell(seq![SYSTEM_ROOT_NAME@], None, anchor_kind()),
            ],
            r.behavior_of(user_root_id()) == Behavior::<B>::UserRoot(InternalUserActor),
            r.behavior_of(system_root_id()) == Behavior::<B>::SystemRoot(InternalRootActor),
            r.failures() == Seq::<ActorId>::empty(),
    {
        let user_props = Props::new(InternalUserActor::new, ());
        let system_props = Props::new(InternalRootActor::new, ());
        let user = ActorCell::new(
            Behavior::UserRoot(user_props.create()),
            ActorPath::root(USER_ROOT_NAME.to_owned()),
            None,
            MessageKind { id: ANCHOR_MESSAGE_ID },
        );
        let system = ActorCell::new(
            Behavior::SystemRoot(system_props.create()),
            ActorPath::root(SYSTEM_ROOT_NAME.to_owned()),
            None,
            MessageKind { id: ANCHOR_MESSAGE_ID },
        );
        let mut cells: Vec<ActorCell<B>> = Vec::new();
        cells.push(user);
        cells.push(system);
        let r = ActorSystem { cells, failures: Vec::new() };
        assert(r@ =~= seq![
            fresh_cell(seq![USER_ROOT_NAME@], None, anchor_kind()),
            fresh_cell(seq![SYSTEM_ROOT_NAME@], None, anchor_kind()),
        ]);
        r
    }

    /// A reference to the user root anchor.
    pub fn user_root(&self) -> (r: RootActorRef)
        requires
            self.wf(),
        ensures
            r.target() == user_root_id(),
            r.refers_into(self@),
    {
        RootActorRef::new(self, RootKind::User)
    }

    /// A reference to the system root anchor.
    pub fn system_root(&self) -> (r: RootActorRef)
        requires
            self.wf(),
        ensures
            r.target() == system_root_id(),
            r.refers_into(self@),
    {
        RootActorRef::new(self, RootKind::System)
    }

    /// Number of cells.
    pub fn len(&self) -> (n: usize)
        ensures
            n == self@.len(),
    {
        self.cells.len()
    }

    /// Whether `id` names a cell of this system.
    pub fn contains(&self, id: ActorId) -> (r: bool)
        ensures
            r == is_live(self@, id),
    {
        id.index < self.cells.len()
    }

    pub fn path(&self, id: ActorId) -> (r: ActorPath)
        requires
            is_live(self@, id),
        ensures
            r@ == self@[id.index as int].path,
    {
        self.cells[id.index].path()
    }

    /// The behavior the actor `id` owns.
    pub fn behavior(&self, id: ActorId) -> (r: &Behavior<B>)
        requires
            is_live(self@, id),
        ensures
            *r == self.behavior_of(id),
    {
        self.cells[id.index].behavior_ref()
    }

    pub fn accepts(&self, id: ActorId) -> (r: MessageKind)
        requires
            is_live(self@, id),
        ensures
            r == self@[id.index as int].accepts,
    {
        self.cells[id.index].accepts()
    }

    /// How many payloads of a wrong type the actor has dropped (saturating).
    pub fn mismatches(&self, id: ActorId) -> (r: u64)
        requires
            is_live(self@, id),
        ensures
            r == self@[id.index as int].mismatches,
    {
        self.cells[id.index].mismatches()
    }

    pub fn pending_messages(&self, id: ActorId) -> (r: usize)
        requires
            is_live(self@, id),
        ensures
            r == self@[id.index as int].mailbox.len(),
    {
        self.cells[id.index].pending_messages()
    }

    pub fn pending_system_messages(&self, id: ActorId) -> (r: usize)
        requires
            is_live(self@, id),
        ensures
            r == self@[id.index as int].system_mailbox.len(),
    {
        self.cells[id.index].pending_system_messages()
    }

    /// The child of `parent` registered under `name`, if any.
    pub fn child(&self, parent: ActorId, name: &String) -> (r: Option<ActorId>)
        requires
            is_live(self@, parent),
        ensures
            r is None <==> !has_child(self@[parent.index as int], name@),
            r matches Some(id) ==> exists|k: int|
                0 <= k < self@[parent.index as int].children.len()
                    && #[trigger] self@[parent.index as int].children[k] == (name@, id),
    {
        self.cells[parent.index].child(name)
    }

    /// Enqueues a classified message on the target's user mailbox.
    pub fn receive_message(&mut self, target: ActorId, message: InnerMessage, sender: ActorId)
        requires
            old(self).wf(),
            is_live(old(self)@, target),
        ensures
            final(self).wf(),
            shape_kept(old(self)@, final(self)@),
            final(self)@ == old(self)@.update(
                target.index as int,
                enqueue(old(self)@[target.index as int], crate::message::Envelope { message, sender }),
            ),
            behaviors_kept(*old(self), *final(self), -1),
            final(self).failures() == old(self).failures(),
    {
        let ghost e = crate::message::Envelope { message, sender };
        self.cells[target.index].receive_message(message, sender);
        assert(final(self)@ =~= old(self)@.update(target.index as int, enqueue(old(self)@[target.index as int], e)));
        proof {
            lemma_update_keeps_wf(old(self)@, target.index as int, enqueue(old(self)@[target.index as int], e));
        }
    }

    /// Enqueues a system message on the target's prioritised channel.
    pub fn receive_system_message(&mut self, target: ActorId, message: SystemMessage)
        requires
            old(self).wf(),
            is_live(old(self)@, target),
        ensures
            final(self).wf(),
            shape_kept(old(self)@, final(self)@),
            final(self)@ == old(self)@.update(
                target.index as int,
                enqueue_system(old(self)@[target.index as int], message),
            ),
            behaviors_kept(*old(self), *final(self), -1),
            final(self).failures() == old(self).failures(),
    {
        self.cells[target.index].receive_system_message(message);
        let ghost c = enqueue_system(old(self)@[target.index as int], message);
        assert(final(self)@ =~= old(self)@.update(target.index as int, c));
        proof {
            lemma_update_keeps_wf(old(self)@, target.index as int, c);
        }
    }

    /// Delivers a type-erased payload: control traffic and payloads of the
    /// target's declared type are enqueued; anything else is dropped, counted
    /// at the target, and the sender is told nothing.
    pub fn receive(&mut self, target: ActorId, payload: Payload, sender: ActorId)
        requires
            old(self).wf(),
            is_live(old(self)@, target),
        ensures
            final(self).wf(),
            shape_kept(old(self)@, final(self)@),
            final(self)@ == old(self)@.update(
                target.index as int,
                deliver(old(self)@[target.index as int], payload, sender),
            ),
            behaviors_kept(*old(self), *final(self), -1),
            final(self).failures() == old(self).failures(),
    {
        let ghost c = deliver(old(self)@[target.index as int], payload, sender);
        self.cells[target.index].receive(payload, sender);
        assert(final(self)@ =~= old(self)@.update(target.index as int, c));
        proof {
            lemma_update_keeps_wf(old(self)@, target.index as int, c);
        }
    }

    /// Spawns a child of `parent` called `name` that declares the message
    /// type `accepts`, its behavior built from `props`. Fails, leaving the
    /// system as it was, when `parent` already has a child of that name.
    pub fn actor_of<A, F: Fn(&A) -> B>(
        &mut self,
        parent: ActorId,
        props: &Props<A, F>,
        name: String,
        accepts: MessageKind,
    ) -> (r: Result<ActorId, SpawnError>)
        requires
            old(self).wf(),
            is_live(old(self)@, parent),
            props.can_create(),
        ensures
            final(self).wf(),
            shape_kept(old(self)@, final(self)@),
            r is Err <==> has_child(old(self)@[parent.index as int], name@),
            r matches Err(e) ==> e == SpawnError::DuplicateName && final(self)@ == old(self)@,
            r matches Ok(id) ==> id.index == old(self)@.len() && final(self)@ == spawned(
                old(self)@,
                parent,
                name@,
                accepts,
            ),
            r matches Ok(id) ==> (final(self).behavior_of(id) matches Behavior::Actor(b) && props.creates(b)),
            behaviors_kept(*old(self), *final(self), -1),
            final(self).failures() == old(self).failures(),
    {
        if self.cells[parent.index].has_child(&name) {
            return Err(SpawnError::DuplicateName);
        }
        let behavior = props.create();
        self.spawn_with(parent, behavior, name, accepts)
    }

    /// Spawns a child of `parent` called `name` that declares the message
    /// type `accepts` and runs `behavior`; refused when the name is taken.
    fn spawn_with(&mut self, parent: ActorId, behavior: B, name: String, accepts: MessageKind) -> (r: Result<ActorId, SpawnError>)
        requires
            old(self).wf(),
            is_live(old(self)@, parent),
        ensures
            final(self).wf(),
            shape_kept(old(self)@, final(self)@),
            r is Err <==> has_child(old(self)@[parent.index as int], name@),
            r matches Err(e) ==> e == SpawnError::DuplicateName && final(self)@ == old(self)@,
            r matches Ok(id) ==> id.index == old(self)@.len() && final(self)@ == spawned(
                old(self)@,
                parent,
                name@,
                accepts,
            ),
            r matches Ok(id) ==> final(self).behavior_of(id) == Behavior::Actor(behavior),
            behaviors_kept(*old(self), *final(self), -1),
            final(self).failures() == old(self).failures(),
    {
        if self.cells[parent.index].has_child(&name) {
            return Err(SpawnError::DuplicateName);
        }
        let ghost v = old(self)@;
        let ghost p = parent.index as int;
        let id = ActorId { index: self.cells.len() };
        let path = self.cells[parent.index].path().child(&name);
        let cell = ActorCell::new(Behavior::Actor(behavior), path, Some(parent), accepts);
        self.cells[parent.index].add_child(name, id);
        self.cells.push(cell);
        let ghost w = spawned(v, parent, name@, accepts);
        assert(final(self)@ =~= w);
        proof {
            assert(self.cells.len() <= usize::MAX);
            assert forall|i: int, k: int| 0 <= i < w.len() && 0 <= k < w[i].children.len() implies {
                let (n, c) = #[trigger] w[i].children[k];
                &&& 2 <= c.index < w.len()
                &&& w[c.index as int].parent == Some(ActorId { index: i as usize })
                &&& w[c.index as int].path == w[i].path.push(n)
            } by {
                if i == p && k == v[p].children.len() {
                } else {
                    assert(w[i].children[k] == v[i].children[k]);
                }
            }
            assert forall|i: int| 2 <= i < w.len() implies (#[trigger] w[i]).path.len() >= 2
                && registered(w[w[i].parent->0.index as int], ActorId { index: i as usize }) by {
                let q = w[i].parent->0.index as int;
                if i == v.len() {
                    assert(v[p].path.len() >= 1);
                    assert(w[q].children[v[p].children.len() as int].1 == ActorId { index: i as usize });
                } else {
                    assert(v[i].path.len() >= 2);
                    assert(registered(v[q], ActorId { index: i as usize }));
                    let k = choose|k: int| 0 <= k < v[q].children.len() && (#[trigger] v[q].children[k]).1
                        == ActorId { index: i as usize };
                    assert(w[q].children[k] == v[q].children[k]);
                }
            }
            assert forall|i: int, a: int, b: int|
                0 <= i < w.len() && 0 <= a < w[i].children.len() && 0 <= b < w[i].children.len()
                    && a != b implies (#[trigger] w[i].children[a]).0 != (
            #[trigger] w[i].children[b]).0 by {
                if i == p {
                    let last = v[p].children.len() as int;
                    if a == last {
                        assert(!(v[p].children[b].0 == name@));
                    } else if b == last {
                        assert(!(v[p].children[a].0 == name@));
                    }
                }
            }
        }
        Ok(id)
    }

    /// Builds the behavior of an ordinary actor again from `props`, as the
    /// failure-handling authority instructs; its mailboxes and children are
    /// kept intact.
    pub fn restart<A, F: Fn(&A) -> B>(&mut self, target: ActorId, props: &Props<A, F>)
        requires
            old(self).wf(),
            is_live(old(self)@, target),
            target.index >= 2,
            props.can_create(),
        ensures
            final(self)@ == old(self)@,
            final(self).behavior_of(target) matches Behavior::Actor(b) && props.creates(b),
            behaviors_kept(*old(self), *final(self), target.index as int),
            final(self).failures() == old(self).failures(),
    {
        let behavior = props.create();
        self.cells[target.index].set_behavior(Behavior::Actor(behavior));
        assert(final(self)@ =~= old(self)@);
    }
}

impl<B: Actor> ActorSystem<B> {
    /// One scheduling step for `target`: the oldest pending system message if
    /// there is one, else the oldest pending envelope, is taken and handed to
    /// the target's behavior with a context naming the target's own handle
    /// and path; the actions the behavior asks for are then applied in order.
    /// Returns the item handed over.
    pub fn handle(&mut self, target: ActorId) -> (r: Option<Delivery>)
        requires
            old(self).wf(),
            is_live(old(self)@, target),
        ensures
            final(self).wf(),
            shape_kept(old(self)@, final(self)@),
            r == handle_step(old(self)@[target.index as int]).1,
            exists|ctx: Context, next: Behavior<B>, acts: Seq<Action<B>>|
                handled_by(*old(self), *final(self), target, ctx, next, acts),
    {
        let ghost t = target.index as int;
        let context = Context { id: target, path: self.cells[target.index].path() };
        let (r, mut actions) = self.cells[target.index].handle_envelope(&context);
        let ghost c = handle_step(old(self)@[t]).0;
        let ghost acts = actions@;
        let ghost next = self.behavior_at(t);
        let ghost mid = *self;
        assert(self@ =~= old(self)@.update(t, c));
        proof {
            lemma_update_keeps_wf(old(self)@, t, c);
        }
        let ghost goal_v = apply_actions(self@, target, acts);
        let ghost goal_f = self.failures@ + failures_of(target, acts);
        assert(self.failures@ =~= self.failures@ + failures_of(target, Seq::<Action<B>>::empty()));
        while actions.len() > 0
            invariant
                self.wf(),
                is_live(self@, target),
                shape_kept(old(self)@, self@),
                mid@.len() <= self@.len(),
                apply_actions(self@, target, actions@) == goal_v,
                self.failures@ + failures_of(target, actions@) == goal_f,
                forall|i: int| 0 <= i < mid@.len() ==> #[trigger] self.behavior_at(i) == mid.behavior_at(i),
            decreases actions.len(),
        {
            let ghost before = *self;
            let ghost rest = actions@;
            let a = actions.remove(0);
            assert(actions@ =~= rest.drop_first());
            match a {
                Action::Send { target: to, payload } => {
                    if self.contains(to) {
                        self.receive(to, payload, target);
                    }
                },
                Action::Spawn { name, accepts, behavior } => {
                    let _ = self.spawn_with(target, behavior, name, accepts);
                },
                Action::Fail => {
                    self.failures.push(target);
                },
            }
            assert(behaviors_kept(before, *self, -1));
            proof {
                lemma_shape_kept_chain(old(self)@, before@, self@);
                let f0 = if rest[0] is Fail { seq![target] } else { Seq::<ActorId>::empty() };
                assert(failures_of(target, rest) == f0 + failures_of(target, actions@));
                assert(self.failures@ =~= before.failures@ + f0);
                assert((before.failures@ + f0) + failures_of(target, actions@) =~= before.failures@
                    + (f0 + failures_of(target, actions@)));
            }
        }
        assert(self.failures@ =~= goal_f);
        assert(handled_by(*old(self), *self, target, context, next, acts));
        r
    }
}

/// Siblings never share a local name.
pub proof fn lemma_sibling_names_distinct(v: Seq<CellView>, parent: int, a: int, b: int)
    requires
        system_wf(v),
        0 <= parent < v.len(),
        0 <= a < v[parent].children.len(),
        0 <= b < v[parent].children.len(),
        a != b,
    ensures
        v[parent].children[a].0 != v[parent].children[b].0,
        v[v[parent].children[a].1.index as int].path != v[v[parent].children[b].1.index as int].path,
{
    let (na, ca) = v[parent].children[a];
    let (nb, cb) = v[parent].children[b];
    assert(v[ca.index as int].path.last() == na);
    assert(v[cb.index as int].path.last() == nb);
}

/// A system has exactly two root anchors, the cells without a parent, at
/// fixed handles; their paths differ.
pub proof fn lemma_two_roots(v: Seq<CellView>)
    requires
        system_wf(v),
    ensures
        v[user_root_id().index as int].parent is None,
        v[system_root_id().index as int].parent is None,
        forall|i: int| 0 <= i < v.len() && (#[trigger] v[i]).parent is None ==> i == 0 || i == 1,
        v[0].path == seq![USER_ROOT_NAME@],
        v[1].path == seq![SYSTEM_ROOT_NAME@],
        v[0].path != v[1].path,
{
    reveal_strlit("user");
    reveal_strlit("system");
    assert(USER_ROOT_NAME@.len() == 4);
    assert(SYSTEM_ROOT_NAME@.len() == 6);
    assert(v[0].path[0] != v[1].path[0]);
}

/// No two cells of a well-formed system share a path.
pub proof fn lemma_paths_unique(v: Seq<CellView>, i: int, j: int)
    requires
        system_wf(v),
        0 <= i < v.len(),
        0 <= j < v.len(),
        i != j,
    ensures
        v[i].path != v[j].path,
    decreases v[i].path.len(),
{
    if v[i].path == v[j].path {
        if i < 2 && j < 2 {
            lemma_two_roots(v);
        } else if i >= 2 && j >= 2 {
            let pi = v[i].parent->0.index as int;
            let pj = v[j].parent->0.index as int;
            let ci = ActorId { index: i as usize };
            let cj = ActorId { index: j as usize };
            assert(registered(v[pi], ci));
            assert(registered(v[pj], cj));
            let ki = choose|k: int| 0 <= k < v[pi].children.len() && (#[trigger] v[pi].children[k]).1 == ci;
            let kj = choose|k: int| 0 <= k < v[pj].children.len() && (#[trigger] v[pj].children[k]).1 == cj;
            let ni = v[pi].children[ki].0;
            let nj = v[pj].children[kj].0;
            assert(v[i].path == v[pi].path.push(ni));
            assert(v[j].path == v[pj].path.push(nj));
            assert(v[pi].path =~= v[i].path.drop_last());
            assert(v[pj].path =~= v[j].path.drop_last());
            if pi != pj {
                lemma_paths_unique(v, pi, pj);
            }
            assert(ni == v[i].path.last());
            assert(nj == v[j].path.last());
            if ki != kj {
                assert(v[pi].children[ki].0 != v[pi].children[kj].0);
            }
        }
    }
}

/// What one step keeps of the hierarchy, a run of steps keeps too: the
/// anchors' paths, like every other path, stay what they were.
pub proof fn lemma_shape_kept_chain(u: Seq<CellView>, v: Seq<CellView>, w: Seq<CellView>)
    requires
        shape_kept(u, v),
        shape_kept(v, w),
    ensures
        shape_kept(u, w),
{
    assert forall|i: int| 0 <= i < u.len() implies {
        &&& (#[trigger] w[i]).path == u[i].path
        &&& w[i].parent == u[i].parent
        &&& w[i].accepts == u[i].accepts
    } by {
        assert(v[i].path == u[i].path);
    }
}

} // verus!
