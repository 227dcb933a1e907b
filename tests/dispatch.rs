use actor_core::{
    classify, Action, Actor, Context, ActorId, ActorPath, ActorSystem, Behavior, CanReceive, ControlMessage,
    Delivery, InnerMessage, MessageKind, Payload, Props, RootActorRef, RootKind, SpawnError,
    SystemMessage, UserActorRef, UserMessage, SYSTEM_ROOT_NAME, USER_ROOT_NAME,
};

const PING: MessageKind = MessageKind { id: 7 };
const PONG: MessageKind = MessageKind { id: 8 };

/// Records every call of its behavior: 's' for a system message, 'c' for a
/// control message, 'm' for a user message, with the kind and body.
struct Recorder {
    calls: Vec<(char, u64, Vec<u8>)>,
    contexts: Vec<(ActorId, usize)>,
    relay_to: Option<ActorId>,
    spawn_kid: bool,
    fail: bool,
}

impl Actor for Recorder {
    fn receive(&mut self, delivery: &Delivery, context: &Context) -> Vec<Action<Recorder>> {
        self.contexts.push((context.id, context.path.depth()));
        let mut actions = Vec::new();
        if let Delivery::User(e) = delivery {
            if let InnerMessage::Message(m) = &e.message {
                if let Some(to) = self.relay_to {
                    actions.push(Action::Send { target: to, payload: user(m.kind, &m.body) });
                }
                if self.spawn_kid {
                    actions.push(Action::Spawn { name: "kid".to_string(), accepts: PING, behavior: make_recorder(&()) });
                }
                if self.fail {
                    actions.push(Action::Fail);
                }
            }
        }
        match delivery {
            Delivery::System(_) => self.calls.push(('s', 0, Vec::new())),
            Delivery::User(e) => match &e.message {
                InnerMessage::Control(_) => self.calls.push(('c', 0, Vec::new())),
                InnerMessage::Message(m) => self.calls.push(('m', m.kind.id, m.body.clone())),
            },
        }
        actions
    }
}

fn make_recorder(_args: &()) -> Recorder {
    Recorder { calls: Vec::new(), contexts: Vec::new(), relay_to: None, spawn_kid: false, fail: false }
}

fn make_relay(to: &ActorId) -> Recorder {
    Recorder { calls: Vec::new(), contexts: Vec::new(), relay_to: Some(*to), spawn_kid: false, fail: false }
}

fn make_spawner(_args: &()) -> Recorder {
    Recorder { calls: Vec::new(), contexts: Vec::new(), relay_to: None, spawn_kid: true, fail: false }
}

fn make_failing(_args: &()) -> Recorder {
    Recorder { calls: Vec::new(), contexts: Vec::new(), relay_to: None, spawn_kid: false, fail: true }
}

fn recorder_props() -> Props<(), fn(&()) -> Recorder> {
    Props::new(make_recorder as fn(&()) -> Recorder, ())
}

fn user(kind: MessageKind, body: &[u8]) -> Payload {
    Payload::User(UserMessage { kind, body: body.to_vec() })
}

fn calls(system: &ActorSystem<Recorder>, id: ActorId) -> Vec<(char, u64, Vec<u8>)> {
    match system.behavior(id) {
        Behavior::Actor(r) => r.calls.clone(),
        _ => panic!("not an ordinary actor"),
    }
}

fn spawn(system: &mut ActorSystem<Recorder>, name: &str, kind: MessageKind) -> UserActorRef {
    let root = system.user_root();
    root.actor_of(system, &recorder_props(), name.to_string(), kind).unwrap()
}

fn path_strings(p: &ActorPath) -> Vec<String> {
    (0..p.depth()).map(|i| p.segment(i)).collect()
}

#[test]
fn pinger_receives_ping_once() {
    let mut system: ActorSystem<Recorder> = ActorSystem::new();
    let pinger = spawn(&mut system, "pinger", PING);
    assert_eq!(path_strings(&pinger.path()), vec!["user", "pinger"]);
    let me = ActorId { index: 0 };
    pinger.receive(&mut system, user(PING, b"ping"), me);
    let d = pinger.handle(&mut system);
    assert!(matches!(d, Some(Delivery::User(_))));
    assert_eq!(pinger.handle(&mut system).is_none(), true);
    let id = ActorId { index: 2 };
    assert_eq!(calls(&system, id), vec![('m', 7, b"ping".to_vec())]);
}

#[test]
fn duplicate_child_name_is_refused() {
    let mut system: ActorSystem<Recorder> = ActorSystem::new();
    let root = system.user_root();
    let first = root.actor_of(&mut system, &recorder_props(), "a".to_string(), PING).unwrap();
    let second = root.actor_of(&mut system, &recorder_props(), "a".to_string(), PONG);
    assert!(matches!(second, Err(SpawnError::DuplicateName)));
    assert_eq!(system.len(), 3);
    let user_root = ActorId { index: 0 };
    let found = system.child(user_root, &"a".to_string()).unwrap();
    assert_eq!(found, ActorId { index: 2 });
    assert_eq!(path_strings(&system.path(found)), vec!["user", "a"]);
    assert!(system.path(found) == first.path());
    assert_eq!(system.accepts(found), PING);
}

#[test]
fn same_name_under_other_parents_is_fine() {
    let mut system: ActorSystem<Recorder> = ActorSystem::new();
    let a = spawn(&mut system, "a", PING);
    let under_a = a.actor_of(&mut system, &recorder_props(), "a".to_string(), PING).unwrap();
    let sys_root = system.system_root();
    let under_sys = sys_root.actor_of(&mut system, &recorder_props(), "a".to_string(), PING).unwrap();
    assert_eq!(path_strings(&under_a.path()), vec!["user", "a", "a"]);
    assert_eq!(path_strings(&under_sys.path()), vec!["system", "a"]);
    assert!(under_a.path() != under_sys.path());
    let b = spawn(&mut system, "b", PONG);
    assert!(b.path() != a.path());
    assert_eq!(system.len(), 6);
}

#[test]
fn three_senders_are_handled_in_enqueue_order() {
    let mut system: ActorSystem<Recorder> = ActorSystem::new();
    let target = spawn(&mut system, "target", PING);
    let s1 = spawn(&mut system, "s1", PING);
    let s2 = spawn(&mut system, "s2", PING);
    let s3 = spawn(&mut system, "s3", PING);
    let ids = [ActorId { index: 3 }, ActorId { index: 4 }, ActorId { index: 5 }];
    assert_eq!(path_strings(&s1.path())[1], "s1");
    assert_eq!(path_strings(&s2.path())[1], "s2");
    assert_eq!(path_strings(&s3.path())[1], "s3");
    target.receive(&mut system, user(PING, b"m1"), ids[0]);
    target.receive(&mut system, user(PING, b"m2"), ids[1]);
    target.receive(&mut system, user(PING, b"m3"), ids[2]);
    assert_eq!(system.pending_messages(ActorId { index: 2 }), 3);
    for (k, body) in [b"m1", b"m2", b"m3"].iter().enumerate() {
        match target.handle(&mut system) {
            Some(Delivery::User(e)) => {
                assert_eq!(e.sender, ids[k]);
                match e.message {
                    InnerMessage::Message(m) => assert_eq!(m.body, body.to_vec()),
                    InnerMessage::Control(_) => panic!("expected a user message"),
                }
            },
            _ => panic!("expected an envelope"),
        }
    }
    assert!(target.handle(&mut system).is_none());
    assert_eq!(
        calls(&system, ActorId { index: 2 }),
        vec![('m', 7, b"m1".to_vec()), ('m', 7, b"m2".to_vec()), ('m', 7, b"m3".to_vec())]
    );
}

#[test]
fn wrong_type_is_dropped_and_actor_stays_responsive() {
    let mut system: ActorSystem<Recorder> = ActorSystem::new();
    let pinger = spawn(&mut system, "pinger", PING);
    let id = ActorId { index: 2 };
    let me = ActorId { index: 0 };
    pinger.receive(&mut system, user(PONG, b"pong"), me);
    assert_eq!(system.pending_messages(id), 0);
    assert_eq!(system.mismatches(id), 1);
    assert!(pinger.handle(&mut system).is_none());
    assert!(calls(&system, id).is_empty());
    pinger.receive(&mut system, user(PING, b"ping"), me);
    assert!(pinger.handle(&mut system).is_some());
    assert_eq!(calls(&system, id), vec![('m', 7, b"ping".to_vec())]);
    assert_eq!(system.mismatches(id), 1);
}

#[test]
fn system_message_is_handled_first() {
    let mut system: ActorSystem<Recorder> = ActorSystem::new();
    let actor = spawn(&mut system, "worker", PING);
    let me = ActorId { index: 0 };
    actor.receive(&mut system, user(PING, b"u"), me);
    actor.receive_system_message(&mut system, SystemMessage::Restart);
    assert!(matches!(actor.handle(&mut system), Some(Delivery::System(SystemMessage::Restart))));
    assert_eq!(system.pending_messages(ActorId { index: 2 }), 1);
    assert_eq!(system.pending_system_messages(ActorId { index: 2 }), 0);
    assert!(matches!(actor.handle(&mut system), Some(Delivery::User(_))));
    assert_eq!(calls(&system, ActorId { index: 2 }), vec![('s', 0, Vec::new()), ('m', 7, b"u".to_vec())]);
}

#[test]
fn system_messages_keep_their_order() {
    let mut system: ActorSystem<Recorder> = ActorSystem::new();
    let actor = spawn(&mut system, "worker", PING);
    actor.receive_system_message(&mut system, SystemMessage::Start);
    actor.receive_system_message(&mut system, SystemMessage::Terminate);
    assert!(matches!(actor.handle(&mut system), Some(Delivery::System(SystemMessage::Start))));
    assert!(matches!(actor.handle(&mut system), Some(Delivery::System(SystemMessage::Terminate))));
    assert!(actor.handle(&mut system).is_none());
}

#[test]
fn control_messages_pass_any_declared_type() {
    let mut system: ActorSystem<Recorder> = ActorSystem::new();
    let actor = spawn(&mut system, "worker", PING);
    let me = ActorId { index: 0 };
    actor.receive(&mut system, Payload::Control(ControlMessage::Stop), me);
    assert_eq!(system.pending_messages(ActorId { index: 2 }), 1);
    assert!(matches!(
        actor.handle(&mut system),
        Some(Delivery::User(e)) if matches!(e.message, InnerMessage::Control(ControlMessage::Stop))
    ));
    assert_eq!(calls(&system, ActorId { index: 2 }), vec![('c', 0, Vec::new())]);
}

#[test]
fn roots_are_two_fixed_distinct_paths() {
    let mut system: ActorSystem<Recorder> = ActorSystem::new();
    let u = system.user_root();
    let s = system.system_root();
    assert_eq!(system.len(), 2);
    assert_eq!(path_strings(&u.path()), vec![USER_ROOT_NAME]);
    assert_eq!(path_strings(&s.path()), vec![SYSTEM_ROOT_NAME]);
    assert_eq!(USER_ROOT_NAME, "user");
    assert_eq!(SYSTEM_ROOT_NAME, "system");
    assert!(u.path() != s.path());
    let before_u = u.path();
    let child = spawn(&mut system, "x", PING);
    child.receive(&mut system, user(PING, b"x"), ActorId { index: 1 });
    u.receive_system_message(&mut system, SystemMessage::Start);
    u.handle(&mut system);
    assert!(system.path(ActorId { index: 0 }) == before_u);
    assert!(RootActorRef::new(&system, RootKind::User).path() == before_u);
    assert!(RootActorRef::new(&system, RootKind::System).path() == s.path());
    assert!(matches!(system.behavior(ActorId { index: 0 }), Behavior::UserRoot(_)));
    assert!(matches!(system.behavior(ActorId { index: 1 }), Behavior::SystemRoot(_)));
}

#[test]
fn anchors_accept_only_their_own_type_and_stay_inert() {
    let mut system: ActorSystem<Recorder> = ActorSystem::new();
    let u = system.user_root();
    let me = ActorId { index: 1 };
    u.receive(&mut system, user(PING, b"p"), me);
    assert_eq!(system.mismatches(ActorId { index: 0 }), 1);
    u.receive(&mut system, user(MessageKind { id: actor_core::ANCHOR_MESSAGE_ID }, b""), me);
    assert_eq!(system.pending_messages(ActorId { index: 0 }), 1);
    assert!(u.handle(&mut system).is_some());
    assert_eq!(system.pending_messages(ActorId { index: 0 }), 0);
}

#[test]
fn clone_sends_to_the_same_cell() {
    let mut system: ActorSystem<Recorder> = ActorSystem::new();
    let a = spawn(&mut system, "a", PING);
    let b = a.clone();
    assert!(a.path() == b.path());
    let me = ActorId { index: 0 };
    a.receive(&mut system, user(PING, b"1"), me);
    b.receive(&mut system, user(PING, b"2"), me);
    assert_eq!(system.pending_messages(ActorId { index: 2 }), 2);
    b.handle(&mut system);
    a.handle(&mut system);
    assert_eq!(
        calls(&system, ActorId { index: 2 }),
        vec![('m', 7, b"1".to_vec()), ('m', 7, b"2".to_vec())]
    );
    let r = system.user_root();
    let r2 = r.clone();
    r2.receive_system_message(&mut system, SystemMessage::Start);
    assert_eq!(system.pending_system_messages(ActorId { index: 0 }), 1);
}

#[test]
fn restart_keeps_the_mailbox() {
    let mut system: ActorSystem<Recorder> = ActorSystem::new();
    let a = spawn(&mut system, "a", PING);
    let id = ActorId { index: 2 };
    a.receive(&mut system, user(PING, b"1"), id);
    a.handle(&mut system);
    a.receive(&mut system, user(PING, b"2"), id);
    system.restart(id, &recorder_props());
    assert!(calls(&system, id).is_empty());
    assert_eq!(system.pending_messages(id), 1);
    a.handle(&mut system);
    assert_eq!(calls(&system, id), vec![('m', 7, b"2".to_vec())]);
}

#[test]
fn empty_mailboxes_hand_over_nothing() {
    let mut system: ActorSystem<Recorder> = ActorSystem::new();
    let a = spawn(&mut system, "a", PING);
    assert!(a.handle(&mut system).is_none());
    assert!(system.handle(ActorId { index: 1 }).is_none());
    assert!(calls(&system, ActorId { index: 2 }).is_empty());
}

#[test]
fn classify_follows_the_declared_type() {
    assert!(matches!(classify(user(PING, b"x"), PING), Some(InnerMessage::Message(m)) if m.body == b"x".to_vec()));
    assert!(classify(user(PONG, b"x"), PING).is_none());
    assert!(matches!(
        classify(Payload::Control(ControlMessage::Restart), PING),
        Some(InnerMessage::Control(ControlMessage::Restart))
    ));
}

#[test]
fn paths_compare_by_value() {
    let root = ActorPath::root("user".to_string());
    let a = root.child(&"a".to_string());
    let a2 = ActorPath::root("user".to_string()).child(&"a".to_string());
    let b = root.child(&"b".to_string());
    assert!(a == a2);
    assert!(a.same_as(&a2));
    assert!(a != b);
    assert!(a != root);
    assert_eq!(a.depth(), 2);
    assert_eq!(a.name(), "a");
    assert_eq!(root.name(), "user");
    assert!(a.clone() == a);
}

fn double(n: &u64) -> u64 {
    n * 2
}

#[test]
fn props_create_builds_from_args() {
    let props = Props::new(double as fn(&u64) -> u64, 21u64);
    assert_eq!(props.create(), 42);
    assert_eq!(props.create(), 42);
}

#[test]
fn behavior_sees_its_own_context() {
    let mut system: ActorSystem<Recorder> = ActorSystem::new();
    let a = spawn(&mut system, "a", PING);
    a.receive(&mut system, user(PING, b"x"), ActorId { index: 0 });
    a.handle(&mut system);
    match system.behavior(ActorId { index: 2 }) {
        Behavior::Actor(r) => assert_eq!(r.contexts, vec![(ActorId { index: 2 }, 2)]),
        _ => panic!("not an ordinary actor"),
    }
}

#[test]
fn behavior_sends_through_its_outbox() {
    let mut system: ActorSystem<Recorder> = ActorSystem::new();
    let sink = spawn(&mut system, "sink", PING);
    let root = system.user_root();
    let props = Props::new(make_relay as fn(&ActorId) -> Recorder, ActorId { index: 2 });
    let relay = root.actor_of(&mut system, &props, "relay".to_string(), PING).unwrap();
    relay.receive(&mut system, user(PING, b"hop"), ActorId { index: 0 });
    relay.handle(&mut system);
    assert_eq!(system.pending_messages(ActorId { index: 2 }), 1);
    match sink.handle(&mut system) {
        Some(Delivery::User(e)) => assert_eq!(e.sender, ActorId { index: 3 }),
        _ => panic!("expected the relayed envelope"),
    }
    assert_eq!(calls(&system, ActorId { index: 2 }), vec![('m', 7, b"hop".to_vec())]);
}

#[test]
fn behavior_spawns_children_once_per_name() {
    let mut system: ActorSystem<Recorder> = ActorSystem::new();
    let root = system.user_root();
    let props = Props::new(make_spawner as fn(&()) -> Recorder, ());
    let parent = root.actor_of(&mut system, &props, "parent".to_string(), PING).unwrap();
    parent.receive(&mut system, user(PING, b"1"), ActorId { index: 0 });
    parent.receive(&mut system, user(PING, b"2"), ActorId { index: 0 });
    parent.handle(&mut system);
    assert_eq!(system.len(), 4);
    assert_eq!(path_strings(&system.path(ActorId { index: 3 })), vec!["user", "parent", "kid"]);
    parent.handle(&mut system);
    assert_eq!(system.len(), 4);
}

#[test]
fn failures_reach_the_authority_and_keep_the_mailbox() {
    let mut system: ActorSystem<Recorder> = ActorSystem::new();
    let root = system.user_root();
    let props = Props::new(make_failing as fn(&()) -> Recorder, ());
    let a = root.actor_of(&mut system, &props, "a".to_string(), PING).unwrap();
    a.receive(&mut system, user(PING, b"1"), ActorId { index: 0 });
    a.receive(&mut system, user(PING, b"2"), ActorId { index: 0 });
    a.handle(&mut system);
    assert_eq!(system.pending_messages(ActorId { index: 2 }), 1);
    assert_eq!(system.take_failures(), vec![ActorId { index: 2 }]);
    assert!(system.take_failures().is_empty());
    system.restart(ActorId { index: 2 }, &recorder_props());
    a.handle(&mut system);
    assert_eq!(calls(&system, ActorId { index: 2 }), vec![('m', 7, b"2".to_vec())]);
    assert!(system.take_failures().is_empty());
}
