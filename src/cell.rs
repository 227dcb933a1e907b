use vstd::prelude::*;

use std::collections::VecDeque;

use crate::message::{
    classify, classify_spec, ActorId, Delivery, Envelope, InnerMessage, MessageKind, Payload,
    SystemMessage,
};
use crate::path::ActorPath;
use crate::props::{Action, Actor, Context, InternalRootActor, InternalUserActor};

verus! {

/// The behavior a cell owns: one of the two inert anchor stubs, or an
/// ordinary actor's behavior.
pub enum Behavior<B> {
    UserRoot(InternalUserActor),
    SystemRoot(InternalRootActor),
    Actor(B),
}

/// A registered child: its local name and its handle.
pub struct ChildEntry {
    pub name: String,
    pub id: ActorId,
}

/// The abstract state of one cell.
pub struct CellView {
    pub path: Seq<Seq<char>>,
    pub parent: Option<ActorId>,
    pub accepts: MessageKind,
    pub children: Seq<(Seq<char>, ActorId)>,
    pub mailbox: Seq<Envelope>,
    pub system_mailbox: Seq<SystemMessage>,
    pub mismatches: u64,
}

/// A fresh cell: empty mailboxes, no children, no mismatch recorded.
pub open spec fn fresh_cell(path: Seq<Seq<char>>, parent: Option<ActorId>, accepts: MessageKind) -> CellView {
    CellView {
        path,
        parent,
        accepts,
        children: Seq::empty(),
        mailbox: Seq::empty(),
        system_mailbox: Seq::empty(),
        mismatches: 0,
    }
}

/// `v` with `e` appended to its user mailbox.
pub open spec fn enqueue(v: CellView, e: Envelope) -> CellView {
    CellView { mailbox: v.mailbox.push(e), ..v }
}

/// `v` with `m` appended to its system mailbox.
pub open spec fn enqueue_system(v: CellView, m: SystemMessage) -> CellView {
    CellView { system_mailbox: v.system_mailbox.push(m), ..v }
}

/// `v` after a payload of the wrong type was dropped: only the mismatch
/// counter moves, and it saturates.
pub open spec fn record_mismatch(v: CellView) -> CellView {
    CellView { mismatches: if v.mismatches < u64::MAX { (v.mismatches + 1) as u64 } else { v.mismatches }, ..v }
}

/// `v` after `payload` from `sender` arrived at it.
pub open spec fn deliver(v: CellView, payload: Payload, sender: ActorId) -> CellView {
    match classify_spec(payload, v.accepts) {
        Some(m) => enqueue(v, Envelope { message: m, sender }),
        None => record_mismatch(v),
    }
}

/// One handling step: the oldest system message if there is one, else the
/// oldest user envelope, else nothing.
pub open spec fn handle_step(v: CellView) -> (CellView, Option<Delivery>) {
    if v.system_mailbox.len() > 0 {
        (
            CellView { system_mailbox: v.system_mailbox.drop_first(), ..v },
            Some(Delivery::System(v.system_mailbox[0])),
        )
    } else if v.mailbox.len() > 0 {
        (CellView { mailbox: v.mailbox.drop_first(), ..v }, Some(Delivery::User(v.mailbox[0])))
    } else {
        (v, None)
    }
}

/// Whether a child called `name` is registered in `v`.
pub open spec fn has_child(v: CellView, name: Seq<char>) -> bool {
    exists|i: int| 0 <= i < v.children.len() && (#[trigger] v.children[i]).0 == name
}

/// `v` with the child `id` registered under `name`.
pub open spec fn add_child(v: CellView, name: Seq<char>, id: ActorId) -> CellView {
    CellView { children: v.children.push((name, id)), ..v }
}

/// What `n` successive handling steps on `v` hand to the behavior, in order.
pub open spec fn deliveries(v: CellView, n: nat) -> Seq<Delivery>
    decreases n,
{
    if n == 0 {
        Seq::empty()
    } else {
        match handle_step(v).1 {
            Some(d) => seq![d] + deliveries(handle_step(v).0, (n - 1) as nat),
            None => Seq::empty(),
        }
    }
}

/// Draining a cell hands over every pending system message, oldest first,
/// and then every pending envelope, oldest first.
pub proof fn lemma_drain_order(v: CellView)
    ensures
        deliveries(v, v.system_mailbox.len() + v.mailbox.len()) == v.system_mailbox.map_values(
            |m: SystemMessage| Delivery::System(m),
        ) + v.mailbox.map_values(|e: Envelope| Delivery::User(e)),
    decreases v.system_mailbox.len() + v.mailbox.len(),
{
    let n = v.system_mailbox.len() + v.mailbox.len();
    let sys = v.system_mailbox.map_values(|m: SystemMessage| Delivery::System(m));
    let usr = v.mailbox.map_values(|e: Envelope| Delivery::User(e));
    if n == 0 {
        assert(sys + usr =~= Seq::<Delivery>::empty());
    } else {
        let w = handle_step(v).0;
        lemma_drain_order(w);
        if v.system_mailbox.len() > 0 {
            assert(w.system_mailbox.map_values(|m: SystemMessage| Delivery::System(m)) =~= sys.drop_first());
            assert(seq![sys[0]] + (sys.drop_first() + usr) =~= sys + usr);
        } else {
            assert(w.mailbox.map_values(|e: Envelope| Delivery::User(e)) =~= usr.drop_first());
            assert(sys =~= Seq::<Delivery>::empty());
            assert(seq![usr[0]] + (sys + usr.drop_first()) =~= sys + usr);
        }
    }
}

/// Mailboxes are first in, first out: of two envelopes enqueued one after
/// the other, draining the cell hands over the first right before the
/// second, after everything that was pending before them.
pub proof fn lemma_mailbox_fifo(v: CellView, first: Envelope, second: Envelope)
    ensures
        ({
            let w = enqueue(enqueue(v, first), second);
            let n = v.system_mailbox.len() + v.mailbox.len();
            &&& deliveries(w, n + 2).len() == n + 2
            &&& deliveries(w, n + 2)[n as int] == Delivery::User(first)
            &&& deliveries(w, n + 2)[(n + 1) as int] == Delivery::User(second)
        }),
{
    let w = enqueue(enqueue(v, first), second);
    lemma_drain_order(w);
    assert(w.mailbox == v.mailbox.push(first).push(second));
}

/// A pending system message is handled before any pending envelope.
pub proof fn lemma_system_first(v: CellView)
    requires
        v.system_mailbox.len() > 0,
    ensures
        handle_step(v).1 == Some(Delivery::System(v.system_mailbox[0])),
        handle_step(v).0.mailbox == v.mailbox,
{
}

/// A payload of neither the control variant nor the declared type never
/// reaches the mailboxes, so no handling step ever hands it to the behavior.
pub proof fn lemma_mismatch_dropped(v: CellView, payload: Payload, sender: ActorId)
    requires
        payload matches Payload::User(m) && m.kind != v.accepts,
    ensures
        deliver(v, payload, sender).mailbox == v.mailbox,
        deliver(v, payload, sender).system_mailbox == v.system_mailbox,
        deliveries(deliver(v, payload, sender), v.system_mailbox.len() + v.mailbox.len())
            == deliveries(v, v.system_mailbox.len() + v.mailbox.len()),
{
    lemma_drain_order(v);
    lemma_drain_order(deliver(v, payload, sender));
}

/// Runtime state of one actor: its behavior, path, mailboxes and children.
pub struct ActorCell<B> {
    path: ActorPath,
    parent: Option<ActorId>,
    accepts: MessageKind,
    children: Vec<ChildEntry>,
    mailbox: VecDeque<Envelope>,
    system_mailbox: VecDeque<SystemMessage>,
    mismatches: u64,
    behavior: Behavior<B>,
}

impl<B> View for ActorCell<B> {
    type V = CellView;

    closed spec fn view(&self) -> CellView {
        CellView {
            path: self.path@,
            parent: self.parent,
            accepts: self.accepts,
            children: self.children@.map_values(|c: ChildEntry| (c.name@, c.id)),
            mailbox: self.mailbox@,
            system_mailbox: self.system_mailbox@,
            mismatches: self.mismatches,
        }
    }
}

impl<B> ActorCell<B> {
    /// Assembles a cell around an already constructed behavior.
    pub fn new(behavior: Behavior<B>, path: ActorPath, parent: Option<ActorId>, accepts: MessageKind) -> (r: ActorCell<B>)
        ensures
            r@ == fresh_cell(path@, parent, accepts),
            r.behavior() == behavior,
    {
        let r = ActorCell {
            path,
            parent,
            accepts,
            children: Vec::new(),
            mailbox: VecDeque::new(),
            system_mailbox: VecDeque::new(),
            mismatches: 0,
            behavior,
        };
        assert(r@.children =~= Seq::empty());
        r
    }

    pub closed spec fn behavior(&self) -> Behavior<B> {
        self.behavior
    }

    /// The behavior this cell owns.
    pub fn behavior_ref(&self) -> (r: &Behavior<B>)
        ensures
            *r == self.behavior(),
    {
        &self.behavior
    }

    pub fn path(&self) -> (r: ActorPath)
        ensures
            r@ == self@.path,
    {
        self.path.clone()
    }

    pub fn accepts(&self) -> (r: MessageKind)
        ensures
            r == self@.accepts,
    {
        self.accepts
    }

    pub fn mismatches(&self) -> (r: u64)
        ensures
            r == self@.mismatches,
    {
        self.mismatches
    }

    pub fn pending_messages(&self) -> (r: usize)
        ensures
            r == self@.mailbox.len(),
    {
        self.mailbox.len()
    }

    pub fn pending_system_messages(&self) -> (r: usize)
        ensures
            r == self@.system_mailbox.len(),
    {
        self.system_mailbox.len()
    }

    /// Enqueues a classified message on the user mailbox.
    pub fn receive_message(&mut self, message: InnerMessage, sender: ActorId)
        ensures
            final(self).behavior() == old(self).behavior(),
            final(self)@ == enqueue(old(self)@, Envelope { message, sender }),
    {
        self.mailbox.push_back(Envelope { message, sender });
    }

    /// Enqueues a system message on the prioritised channel.
    pub fn receive_system_message(&mut self, message: SystemMessage)
        ensures
            final(self).behavior() == old(self).behavior(),
            final(self)@ == enqueue_system(old(self)@, message),
    {
        self.system_mailbox.push_back(message);
    }

    /// Classifies a type-erased payload: a control message or one of the
    /// declared type is enqueued, anything else is dropped and counted.
    pub fn receive(&mut self, payload: Payload, sender: ActorId)
        ensures
            final(self).behavior() == old(self).behavior(),
            final(self)@ == deliver(old(self)@, payload, sender),
    {
        match classify(payload, self.accepts) {
            Some(message) => self.receive_message(message, sender),
            None => {
                if self.mismatches < u64::MAX {
                    self.mismatches = self.mismatches + 1;
                }
            },
        }
    }

    /// Whether a child called `name` is registered.
    pub fn has_child(&self, name: &String) -> (r: bool)
        ensures
            r == has_child(self@, name@),
    {
        let mut i: usize = 0;
        while i < self.children.len()
            invariant
                0 <= i <= self.children.len(),
                forall|j: int| 0 <= j < i ==> (#[trigger] self@.children[j]).0 != name@,
            decreases self.children.len() - i,
        {
            if self.children[i].name == *name {
                assert(self@.children[i as int].0 == name@);
                return true;
            }
            i = i + 1;
        }
        false
    }

    /// The child registered under `name`, if any.
    pub fn child(&self, name: &String) -> (r: Option<ActorId>)
        ensures
            r is None <==> !has_child(self@, name@),
            r matches Some(id) ==> exists|i: int|
                0 <= i < self@.children.len() && #[trigger] self@.children[i] == (name@, id),
    {
        let mut i: usize = 0;
        while i < self.children.len()
            invariant
                0 <= i <= self.children.len(),
                forall|j: int| 0 <= j < i ==> (#[trigger] self@.children[j]).0 != name@,
            decreases self.children.len() - i,
        {
            if self.children[i].name == *name {
                assert(self@.children[i as int] == (name@, self.children[i as int].id));
                return Some(self.children[i].id);
            }
            i = i + 1;
        }
        None
    }

    /// Registers the child `id` under `name`.
    pub fn add_child(&mut self, name: String, id: ActorId)
        ensures
            final(self).behavior() == old(self).behavior(),
            final(self)@ == add_child(old(self)@, name@, id),
    {
        self.children.push(ChildEntry { name, id });
        assert(final(self)@.children =~= old(self)@.children.push((name@, id)));
    }

    /// Replaces the behavior; the mailboxes and children stay as they are.
    pub fn set_behavior(&mut self, behavior: Behavior<B>)
        ensures
            final(self)@ == old(self)@,
            final(self).behavior() == behavior,
    {
        self.behavior = behavior;
    }
}

/// Whether a cell whose behavior was `b`, handed `d` in `ctx`, may end with
/// the behavior `next` having asked for `actions`. The anchor stubs stay as
/// they are and ask for nothing.
pub open spec fn behavior_reacts<B: Actor>(
    b: Behavior<B>,
    d: Delivery,
    ctx: Context,
    next: Behavior<B>,
    actions: Seq<Action<B>>,
) -> bool {
    match b {
        Behavior::Actor(a) => next matches Behavior::Actor(n) && a.reacts(d, ctx, n, actions),
        _ => next == b && actions.len() == 0,
    }
}

impl<B: Actor> ActorCell<B> {
    /// Takes the next pending item, system channel first, and hands it to
    /// the behavior together with `context`. Returns the item and the
    /// actions the behavior asked for.
    pub fn handle_envelope(&mut self, context: &Context) -> (r: (Option<Delivery>, Vec<Action<B>>))
        ensures
            (final(self)@, r.0) == handle_step(old(self)@),
            r.0 matches Some(d) ==> behavior_reacts(old(self).behavior(), d, *context, final(self).behavior(), r.1@),
            r.0 is None ==> final(self).behavior() == old(self).behavior() && r.1@.len() == 0,
    {
        let next = match self.system_mailbox.pop_front() {
            Some(m) => Some(Delivery::System(m)),
            None => match self.mailbox.pop_front() {
                Some(e) => Some(Delivery::User(e)),
                None => None,
            },
        };
        let mut actions: Vec<Action<B>> = Vec::new();
        if let Some(d) = &next {
            match &mut self.behavior {
                Behavior::UserRoot(a) => {
                    a.receive(d, context);
                },
                Behavior::SystemRoot(a) => {
                    a.receive(d, context);
                },
                Behavior::Actor(a) => {
                    actions = a.receive(d, context);
                },
            }
        }
        proof {
            let v = old(self)@;
            if v.system_mailbox.len() > 0 {
                assert(final(self)@.system_mailbox =~= v.system_mailbox.drop_first());
            } else if v.mailbox.len() > 0 {
                assert(final(self)@.mailbox =~= v.mailbox.drop_first());
            }
        }
        (next, actions)
    }
}

} // verus!
