use rendezvous::identity::generate_deterministic_keypair;
use rendezvous::scenario::{
    barrier_released, default_config, Action, Coordinator, Event, ProtocolError, Responder,
    ScenarioConfig, KEY_ENR_IPV4, KEY_ENR_IPV6, KEY_ENR_KEY_IPV4, KEY_ENR_KEY_IPV6, KEY_FINISHED,
    KEY_STARTED,
};
use rendezvous::store::CoordStore;

fn small_config(ipv6_nodes: u64, ipv4_nodes: u64) -> ScenarioConfig {
    ScenarioConfig {
        ipv6_nodes,
        ipv4_nodes,
        total_nodes: ipv6_nodes + ipv4_nodes + 1,
        poll_interval_ms: 1,
        start_settle_ms: 1,
        wave_settle_ms: 1,
        finish_settle_ms: 1,
        teardown_grace_ms: 1,
    }
}

#[test]
fn barrier_release_decision() {
    assert!(!barrier_released(0, 19));
    assert!(!barrier_released(18, 19));
    assert!(barrier_released(19, 19));
    // Calls beyond the target release immediately too.
    assert!(barrier_released(20, 19));
}

#[test]
fn responder_rejects_unexpected_event() {
    let cfg = small_config(1, 1);
    let (mut resp, act) = Responder::new(cfg, true);
    assert!(matches!(act, Action::ConsumeBlocking { key } if key == KEY_ENR_KEY_IPV4));
    // Awaiting its identity, a counter value cannot arrive.
    let r = resp.step(Event::Count(3));
    match r {
        Err(e) => assert_eq!(e, ProtocolError::UnexpectedEvent),
        Ok(_) => panic!("a mismatched event must be refused"),
    }
}

#[test]
fn responder_script_in_order() {
    let cfg = small_config(0, 1);
    let (mut resp, act) = Responder::new(cfg, true);
    assert!(matches!(act, Action::ConsumeBlocking { key } if key == KEY_ENR_KEY_IPV4));
    let act = resp.step(Event::Value(b"identity".to_vec())).unwrap();
    match act {
        Action::StartNode { identity } => assert_eq!(identity, b"identity".to_vec()),
        _ => panic!("expected the node start"),
    }
    let act = resp.step(Event::Record(b"record".to_vec())).unwrap();
    match act {
        Action::Publish { key, payload } => {
            assert_eq!(key, KEY_ENR_IPV4);
            assert_eq!(payload, b"record".to_vec());
        },
        _ => panic!("expected the record publish"),
    }
    let act = resp.step(Event::Done).unwrap();
    assert!(matches!(act, Action::Announce { key } if key == KEY_STARTED));
    // Not everyone arrived yet: poll.
    let act = resp.step(Event::Count(1)).unwrap();
    assert!(matches!(act, Action::PollCounter { key, delay_ms } if key == KEY_STARTED && delay_ms == 1));
    // Everyone arrived: move to the finished barrier.
    let act = resp.step(Event::Count(2)).unwrap();
    assert!(matches!(act, Action::Announce { key } if key == KEY_FINISHED));
    let act = resp.step(Event::Count(2)).unwrap();
    assert!(matches!(act, Action::Halt));
}

#[test]
fn coordinator_distributes_identities_in_order() {
    let cfg = small_config(2, 2);
    let keys = generate_deterministic_keypair(5, 11).unwrap();
    let expected: Vec<Vec<u8>> = keys.iter().map(|k| k.bytes().clone()).collect();
    let (mut coord, act) = Coordinator::new(cfg, keys);
    match act {
        Action::Publish { key, payload } => {
            assert_eq!(key, KEY_ENR_KEY_IPV6);
            assert_eq!(payload, expected[1]);
        },
        _ => panic!("expected the first identity publish"),
    }
    let act = coord.step(Event::Done).unwrap();
    match act {
        Action::Publish { key, payload } => {
            assert_eq!(key, KEY_ENR_KEY_IPV6);
            assert_eq!(payload, expected[2]);
        },
        _ => panic!("expected the second identity publish"),
    }
    let act = coord.step(Event::Done).unwrap();
    match act {
        Action::Publish { key, payload } => {
            assert_eq!(key, KEY_ENR_KEY_IPV4);
            assert_eq!(payload, expected[3]);
        },
        _ => panic!("expected the third identity publish"),
    }
    let act = coord.step(Event::Done).unwrap();
    match act {
        Action::Publish { key, payload } => {
            assert_eq!(key, KEY_ENR_KEY_IPV4);
            assert_eq!(payload, expected[4]);
        },
        _ => panic!("expected the fourth identity publish"),
    }
    let act = coord.step(Event::Done).unwrap();
    match act {
        Action::StartNode { identity } => assert_eq!(identity, expected[0]),
        _ => panic!("expected the coordinator's own node start"),
    }
}

struct Process {
    kind: Kind,
    pending: Option<Action>,
    halted: bool,
    identity: Option<Vec<u8>>,
    record: Option<Vec<u8>>,
    lookups: Vec<Vec<u8>>,
}

enum Kind {
    Coord(Coordinator),
    Resp(Responder),
}

fn fake_record(identity: &[u8]) -> Vec<u8> {
    let mut rec = b"record:".to_vec();
    rec.extend_from_slice(identity);
    rec
}

/// Perform one pending action against the store; `None` means the action
/// suspends (blocking pop on an empty queue) and stays pending.
fn perform(store: &mut CoordStore, p: &mut Process, act: Action) -> Option<Event> {
    match act {
        Action::Publish { key, payload } => {
            store.publish(key, payload).unwrap();
            Some(Event::Done)
        },
        Action::ConsumeBlocking { key } => match store.try_consume(key).unwrap() {
            Some(v) => Some(Event::Value(v)),
            None => {
                p.pending = Some(Action::ConsumeBlocking { key });
                None
            },
        },
        Action::StartNode { identity } => {
            let rec = fake_record(&identity);
            p.identity = Some(identity);
            p.record = Some(rec.clone());
            Some(Event::Record(rec))
        },
        Action::Announce { key } => Some(Event::Count(store.announce(key).unwrap())),
        Action::PollCounter { key, delay_ms: _ } => {
            Some(Event::Count(store.read_counter(key).unwrap()))
        },
        Action::Lookup { record, distances: _ } => {
            p.lookups.push(record);
            Some(Event::Done)
        },
        Action::Sleep { ms: _ } => Some(Event::Done),
        Action::Purge { key } => {
            store.purge(key);
            Some(Event::Done)
        },
        Action::Halt => {
            p.halted = true;
            None
        },
    }
}

/// Round-robin cooperative scheduler: each turn, a process performs its
/// pending action and, when an event results, decides its next action.
fn run_to_completion(store: &mut CoordStore, procs: &mut Vec<Process>) {
    let mut rounds = 0u64;
    loop {
        let mut all_halted = true;
        for p in procs.iter_mut() {
            if p.halted {
                continue;
            }
            all_halted = false;
            let act = p.pending.take().expect("a live process always has a pending action");
            if let Some(ev) = perform(store, p, act) {
                let next = match &mut p.kind {
                    Kind::Coord(c) => c.step(ev).unwrap(),
                    Kind::Resp(r) => r.step(ev).unwrap(),
                };
                p.pending = Some(next);
            }
        }
        if all_halted {
            break;
        }
        rounds += 1;
        assert!(rounds < 100_000, "the scenario did not settle");
    }
}

fn new_process(kind: Kind, first: Action) -> Process {
    Process {
        kind,
        pending: Some(first),
        halted: false,
        identity: None,
        record: None,
        lookups: Vec::new(),
    }
}

#[test]
fn three_process_scenario_end_to_end() {
    // One coordinator, one IPv6-only responder, one IPv4-only responder;
    // barrier target 3. The coordinator distributes identities generated
    // from one seed, every process passes both barriers, the coordinator
    // probes both responders, and teardown leaves no residual keys.
    let cfg = small_config(1, 1);
    let seed = 122488u64;
    let keys = generate_deterministic_keypair(3, seed).unwrap();
    let expected: Vec<Vec<u8>> = keys.iter().map(|k| k.bytes().clone()).collect();

    let mut store = CoordStore::new();
    let (coord, coord_act) = Coordinator::new(cfg, keys);
    let (resp6, resp6_act) = Responder::new(cfg, false);
    let (resp4, resp4_act) = Responder::new(cfg, true);

    let mut procs = vec![
        new_process(Kind::Coord(coord), coord_act),
        new_process(Kind::Resp(resp6), resp6_act),
        new_process(Kind::Resp(resp4), resp4_act),
    ];
    run_to_completion(&mut store, &mut procs);

    // Identities arrived where they were sent.
    assert_eq!(procs[1].identity.as_ref().unwrap(), &expected[1]);
    assert_eq!(procs[2].identity.as_ref().unwrap(), &expected[2]);
    // The coordinator's own node used the first identity.
    assert_eq!(procs[0].identity.as_ref().unwrap(), &expected[0]);
    // Two lookups: the IPv4 responder's record first, then the IPv6 one's.
    assert_eq!(procs[0].lookups.len(), 2);
    assert_eq!(&procs[0].lookups[0], procs[2].record.as_ref().unwrap());
    assert_eq!(&procs[0].lookups[1], procs[1].record.as_ref().unwrap());
    // Teardown left zero residual keys.
    for key in [
        KEY_ENR_KEY_IPV6,
        KEY_ENR_KEY_IPV4,
        KEY_ENR_IPV6,
        KEY_ENR_IPV4,
        KEY_STARTED,
        KEY_FINISHED,
    ] {
        assert_eq!(store.read_counter(key).unwrap(), 0);
        assert_eq!(store.try_consume(key).unwrap(), None);
    }
}

#[test]
fn reference_scenario_nineteen_processes() {
    // The reference topology: sixteen IPv4 responders, two IPv6
    // responders, one coordinator, barrier target 19.
    let mut cfg = default_config();
    cfg.poll_interval_ms = 1;
    cfg.start_settle_ms = 1;
    cfg.wave_settle_ms = 1;
    cfg.finish_settle_ms = 1;
    cfg.teardown_grace_ms = 1;

    let keys = generate_deterministic_keypair(19, 122488).unwrap();
    let expected: Vec<Vec<u8>> = keys.iter().map(|k| k.bytes().clone()).collect();

    let mut store = CoordStore::new();
    let (coord, coord_act) = Coordinator::new(cfg, keys);
    let mut procs = vec![new_process(Kind::Coord(coord), coord_act)];
    for _ in 0..2 {
        let (r, a) = Responder::new(cfg, false);
        procs.push(new_process(Kind::Resp(r), a));
    }
    for _ in 0..16 {
        let (r, a) = Responder::new(cfg, true);
        procs.push(new_process(Kind::Resp(r), a));
    }
    run_to_completion(&mut store, &mut procs);

    assert_eq!(procs[0].lookups.len(), 18);
    // Every distributed identity reached exactly one responder.
    let mut received: Vec<Vec<u8>> = procs[1..]
        .iter()
        .map(|p| p.identity.as_ref().unwrap().clone())
        .collect();
    let mut sent: Vec<Vec<u8>> = expected[1..].to_vec();
    received.sort();
    sent.sort();
    assert_eq!(received, sent);
    for key in [
        KEY_ENR_KEY_IPV6,
        KEY_ENR_KEY_IPV4,
        KEY_ENR_IPV6,
        KEY_ENR_IPV4,
        KEY_STARTED,
        KEY_FINISHED,
    ] {
        assert_eq!(store.read_counter(key).unwrap(), 0);
        assert_eq!(store.try_consume(key).unwrap(), None);
    }
}
