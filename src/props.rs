use vstd::prelude::*;

use crate::message::{ActorId, Delivery, MessageKind, Payload};
use crate::path::ActorPath;

verus! {

/// What a behavior sees of its own cell while it runs.
pub struct Context {
    pub id: ActorId,
    pub path: ActorPath,
}

/// What a behavior asks its system to do once it has run.
pub enum Action<B> {
    /// Send `payload` to `target`, with the running actor as sender.
    Send { target: ActorId, payload: Payload },
    /// Spawn a child of the running actor with the given behavior.
    Spawn { name: String, accepts: MessageKind, behavior: B },
    /// Report to the failure-handling authority that handling failed.
    Fail,
}

/// Behavior of an actor: what it does with each message handed to it.
pub trait Actor: Sized {
    /// Model of the behavior: handed `delivery` in `context`, `self` becomes
    /// `next` and asks for `actions`, in order. A behavior that states no
    /// model of its own admits every outcome.
    open spec fn reacts(&self, delivery: Delivery, context: Context, next: Self, actions: Seq<Action<Self>>) -> bool {
        true
    }

    fn receive(&mut self, delivery: &Delivery, context: &Context) -> (r: Vec<Action<Self>>)
        ensures
            old(self).reacts(*delivery, *context, *final(self), r@),
    ;
}

/// A factory descriptor: a constructor and the arguments it is called with.
pub struct Props<A, F> {
    constructor: F,
    args: A,
}

impl<A, F> Props<A, F> {
    pub closed spec fn constructor(&self) -> F {
        self.constructor
    }

    pub closed spec fn args(&self) -> A {
        self.args
    }

    pub fn new(constructor: F, args: A) -> (r: Props<A, F>)
        ensures
            r.constructor() == constructor,
            r.args() == args,
    {
        Props { constructor, args }
    }

    /// Whether `create` may be called: the constructor accepts the arguments.
    pub open spec fn can_create<B>(&self) -> bool
        where F: Fn(&A) -> B
    {
        call_requires(self.constructor(), (&self.args(),))
    }

    /// Whether `b` is a behavior that `create` may return.
    pub open spec fn creates<B>(&self, b: B) -> bool
        where F: Fn(&A) -> B
    {
        call_ensures(self.constructor(), (&self.args(),), b)
    }

    /// Builds one behavior instance by calling the constructor on the
    /// arguments.
    pub fn create<B>(&self) -> (r: B)
        where F: Fn(&A) -> B
        requires
            self.can_create(),
        ensures
            self.creates(r),
    {
        (self.constructor)(&self.args)
    }
}

/// The inert behavior of the system root anchor: it ignores every message.
pub struct InternalRootActor;

impl InternalRootActor {
    pub fn new(_dummy: &()) -> (r: InternalRootActor) {
        InternalRootActor
    }
}

impl Actor for InternalRootActor {
    open spec fn reacts(&self, delivery: Delivery, context: Context, next: Self, actions: Seq<Action<Self>>) -> bool {
        next == *self && actions.len() == 0
    }

    fn receive(&mut self, _delivery: &Delivery, _context: &Context) -> (r: Vec<Action<Self>>) {
        Vec::new()
    }
}

/// The inert behavior of the user root anchor: it ignores every message.
pub struct InternalUserActor;

impl InternalUserActor {
    pub fn new(_dummy: &()) -> (r: InternalUserActor) {
        InternalUserActor
    }
}

impl Actor for InternalUserActor {
    open spec fn reacts(&self, delivery: Delivery, context: Context, next: Self, actions: Seq<Action<Self>>) -> bool {
        next == *self && actions.len() == 0
    }

    fn receive(&mut self, _delivery: &Delivery, _context: &Context) -> (r: Vec<Action<Self>>) {
        Vec::new()
    }
}

} // verus!
