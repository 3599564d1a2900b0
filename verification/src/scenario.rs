//! The role scripts' choreography as verified state machines. Each role
//! runs as one cooperative task: its machine turns the event produced by
//! the last side effect (a store reply, the node's signed record, a timer)
//! into the next action (a store operation, starting the protocol node, a
//! lookup, a settle delay). The surrounding process performs the actions;
//! every decision is made here, under contract.
use vstd::prelude::*;
use crate::identity::IdentityKey;

verus! {

/// Coordination key identifiers, one per queue or counter of a scenario.
/// All role processes of one scenario must agree on them.
pub const KEY_ENR_KEY_IPV6: u64 = 0;

pub const KEY_ENR_KEY_IPV4: u64 = 1;

pub const KEY_ENR_IPV6: u64 = 2;

pub const KEY_ENR_IPV4: u64 = 3;

pub const KEY_STARTED: u64 = 4;

pub const KEY_FINISHED: u64 = 5;

/// How many coordination keys a scenario uses (and teardown purges).
pub const SCENARIO_KEY_COUNT: u64 = 6;

/// Scenario parameters: the participant counts the barriers gate on, the
/// barrier poll interval, and the settle delays between protocol waves
/// (kept configurable rather than hidden, as deliberately timing-based).
#[derive(Clone, Copy)]
pub struct ScenarioConfig {
    pub ipv6_nodes: u64,
    pub ipv4_nodes: u64,
    pub total_nodes: u64,
    pub poll_interval_ms: u64,
    pub start_settle_ms: u64,
    pub wave_settle_ms: u64,
    pub finish_settle_ms: u64,
    pub teardown_grace_ms: u64,
}

impl ScenarioConfig {
    /// The barrier target counts every responder of both families plus
    /// the coordinator itself.
    pub open spec fn wf(self) -> bool {
        self.total_nodes == self.ipv6_nodes + self.ipv4_nodes + 1
    }
}

/// The reference scenario: two IPv6-only responders, sixteen IPv4-only
/// responders, one dual-stack coordinator; 100 ms barrier polling; the
/// settle delays of the reference choreography.
pub fn default_config() -> (cfg: ScenarioConfig)
    ensures
        cfg.wf(),
        cfg.ipv6_nodes == 2,
        cfg.ipv4_nodes == 16,
        cfg.total_nodes == 19,
        cfg.poll_interval_ms == 100,
        cfg.start_settle_ms == 3000,
        cfg.wave_settle_ms == 5000,
        cfg.finish_settle_ms == 10000,
        cfg.teardown_grace_ms == 3000,
{
    ScenarioConfig {
        ipv6_nodes: 2,
        ipv4_nodes: 16,
        total_nodes: 19,
        poll_interval_ms: 100,
        start_settle_ms: 3000,
        wave_settle_ms: 5000,
        finish_settle_ms: 10000,
        teardown_grace_ms: 3000,
    }
}

/// The next side effect a role process must perform.
pub enum Action {
    /// Append the payload to the named handoff queue.
    Publish { key: u64, payload: Vec<u8> },
    /// Pop the head of the named queue, suspending until one exists.
    ConsumeBlocking { key: u64 },
    /// Build and start the local protocol node with this identity.
    StartNode { identity: Vec<u8> },
    /// Atomically increment the named barrier counter and report it.
    Announce { key: u64 },
    /// Wait `delay_ms`, then read the named barrier counter.
    PollCounter { key: u64, delay_ms: u64 },
    /// Ask the local node to look up peers via the node this record
    /// describes, at these topological distances.
    Lookup { record: Vec<u8>, distances: Vec<u64> },
    /// Let the protocol settle for this long.
    Sleep { ms: u64 },
    /// Delete the named coordination key.
    Purge { key: u64 },
    /// The script is complete.
    Halt,
}

/// What the last action produced.
pub enum Event {
    /// A side-effect-only action completed.
    Done,
    /// The payload a blocking pop returned.
    Value(Vec<u8>),
    /// The local node started; this is its signed address record.
    Record(Vec<u8>),
    /// The counter value an announce or poll returned.
    Count(u64),
}

/// A role script fed an event that its current phase cannot produce:
/// a harness defect, fatal for the process.
#[derive(PartialEq, Eq, Structural, Clone, Copy, Debug)]
pub enum ProtocolError {
    UnexpectedEvent,
}

/// A barrier releases a waiter exactly when the observed counter value
/// has reached the scenario's target participant count.
pub fn barrier_released(count: u64, target: u64) -> (r: bool)
    ensures
        r == (count >= target),
{
    count >= target
}

fn copy_bytes(src: &Vec<u8>) -> (r: Vec<u8>)
    ensures
        r@ == src@,
{
    let mut r: Vec<u8> = Vec::new();
    let mut i: usize = 0;
    while i < src.len()
        invariant
            i <= src@.len(),
            r@ == src@.subrange(0, i as int),
        decreases src@.len() - i,
    {
        r.push(src[i]);
        proof {
            assert(r@ =~= src@.subrange(0, i + 1));
        }
        i = i + 1;
    }
    proof {
        assert(r@ =~= src@);
    }
    r
}

/// Where a responder's phases stand in its script.
#[derive(Clone, Copy)]
pub enum ResponderPhase {
    /// Waiting for its identity from the coordinator's handoff queue.
    AwaitIdentity,
    /// Waiting for the local protocol node to start.
    AwaitNodeStart,
    /// Waiting for its address record publish to complete.
    AwaitRecordPublished,
    /// Waiting at the started barrier.
    StartBarrier,
    /// Waiting at the finished barrier.
    FinishBarrier,
    /// Script complete.
    Complete,
}

/// A responder role: consumes its assigned identity, starts its node,
/// publishes its address record, then holds at both barriers. The IPv4
/// and IPv6 roles are symmetric, differing only in their queue keys.
pub struct Responder {
    cfg: ScenarioConfig,
    identity_queue: u64,
    record_queue: u64,
    phase: ResponderPhase,
}

impl Responder {
    pub open spec fn wf(self) -> bool {
        self.cfg().wf()
    }

    pub closed spec fn phase(self) -> ResponderPhase {
        self.phase
    }

    pub closed spec fn cfg(self) -> ScenarioConfig {
        self.cfg
    }

    pub closed spec fn identity_queue(self) -> u64 {
        self.identity_queue
    }

    pub closed spec fn record_queue(self) -> u64 {
        self.record_queue
    }

    /// A responder begins by asking for its identity from its family's
    /// handoff queue.
    pub fn new(cfg: ScenarioConfig, ipv4: bool) -> (r: (Responder, Action))
        requires
            cfg.wf(),
        ensures
            r.0.wf(),
            r.0.cfg() == cfg,
            r.0.phase() is AwaitIdentity,
            r.0.identity_queue() == (if ipv4 {
                KEY_ENR_KEY_IPV4
            } else {
                KEY_ENR_KEY_IPV6
            }),
            r.0.record_queue() == (if ipv4 {
                KEY_ENR_IPV4
            } else {
                KEY_ENR_IPV6
            }),
            r.1 matches Action::ConsumeBlocking { key } && key == r.0.identity_queue(),
    {
        let identity_queue = if ipv4 {
            KEY_ENR_KEY_IPV4
        } else {
            KEY_ENR_KEY_IPV6
        };
        let record_queue = if ipv4 {
            KEY_ENR_IPV4
        } else {
            KEY_ENR_IPV6
        };
        let resp = Responder { cfg, identity_queue, record_queue, phase: ResponderPhase::AwaitIdentity };
        let act = Action::ConsumeBlocking { key: identity_queue };
        (resp, act)
    }

    /// One decision of the responder script: what to do next, given what
    /// the last action produced.
    pub fn step(&mut self, ev: Event) -> (r: Result<Action, ProtocolError>)
        requires
            old(self).wf(),
        ensures
            final(self).wf(),
            final(self).cfg() == old(self).cfg(),
            final(self).identity_queue() == old(self).identity_queue(),
            final(self).record_queue() == old(self).record_queue(),
            match (old(self).phase(), ev) {
                (ResponderPhase::AwaitIdentity, Event::Value(id)) => {
                    &&& final(self).phase() is AwaitNodeStart
                    &&& (r matches Ok(a) && a matches Action::StartNode { identity }
                        && identity@ == id@)
                },
                (ResponderPhase::AwaitNodeStart, Event::Record(rec)) => {
                    &&& final(self).phase() is AwaitRecordPublished
                    &&& (r matches Ok(a) && a matches Action::Publish { key, payload }
                        && key == old(self).record_queue() && payload@ == rec@)
                },
                (ResponderPhase::AwaitRecordPublished, Event::Done) => {
                    &&& final(self).phase() is StartBarrier
                    &&& (r matches Ok(a) && a matches Action::Announce { key }
                        && key == KEY_STARTED)
                },
                (ResponderPhase::StartBarrier, Event::Count(c)) => {
                    if c >= old(self).cfg().total_nodes {
                        &&& final(self).phase() is FinishBarrier
                        &&& (r matches Ok(a) && a matches Action::Announce { key }
                            && key == KEY_FINISHED)
                    } else {
                        &&& final(self).phase() is StartBarrier
                        &&& (r matches Ok(a) && a matches Action::PollCounter { key, delay_ms }
                            && key == KEY_STARTED && delay_ms == old(self).cfg().poll_interval_ms)
                    }
                },
                (ResponderPhase::FinishBarrier, Event::Count(c)) => {
                    if c >= old(self).cfg().total_nodes {
                        &&& final(self).phase() is Complete
                        &&& (r matches Ok(a) && a is Halt)
                    } else {
                        &&& final(self).phase() is FinishBarrier
                        &&& (r matches Ok(a) && a matches Action::PollCounter { key, delay_ms }
                            && key == KEY_FINISHED && delay_ms == old(self).cfg().poll_interval_ms)
                    }
                },
                _ => {
                    &&& final(self).phase() == old(self).phase()
                    &&& r == Err::<Action, ProtocolError>(ProtocolError::UnexpectedEvent)
                },
            },
    {
        let phase = self.phase;
        match (phase, ev) {
            (ResponderPhase::AwaitIdentity, Event::Value(id)) => {
                self.phase = ResponderPhase::AwaitNodeStart;
                Ok(Action::StartNode { identity: id })
            },
            (ResponderPhase::AwaitNodeStart, Event::Record(rec)) => {
                self.phase = ResponderPhase::AwaitRecordPublished;
                Ok(Action::Publish { key: self.record_queue, payload: rec })
            },
            (ResponderPhase::AwaitRecordPublished, Event::Done) => {
                self.phase = ResponderPhase::StartBarrier;
                Ok(Action::Announce { key: KEY_STARTED })
            },
            (ResponderPhase::StartBarrier, Event::Count(c)) => {
                if barrier_released(c, self.cfg.total_nodes) {
                    self.phase = ResponderPhase::FinishBarrier;
                    Ok(Action::Announce { key: KEY_FINISHED })
                } else {
                    Ok(Action::PollCounter { key: KEY_STARTED, delay_ms: self.cfg.poll_interval_ms })
                }
            },
            (ResponderPhase::FinishBarrier, Event::Count(c)) => {
                if barrier_released(c, self.cfg.total_nodes) {
                    self.phase = ResponderPhase::Complete;
                    Ok(Action::Halt)
                } else {
                    Ok(
                        Action::PollCounter {
                            key: KEY_FINISHED,
                            delay_ms: self.cfg.poll_interval_ms,
                        },
                    )
                }
            },
            _ => Err(ProtocolError::UnexpectedEvent),
        }
    }
}

/// Where the coordinator's phases stand in its script.
#[derive(Clone, Copy)]
pub enum CoordPhase {
    /// Waiting for the publish of identity number `done` to complete.
    PublishKeys { done: u64 },
    /// Waiting for the local protocol node to start.
    AwaitNodeStart,
    /// Letting the freshly started node settle.
    SettleAfterStart,
    /// Waiting at the started barrier.
    StartBarrier,
    /// Waiting for IPv4 address record number `done`.
    PopV4 { done: u64 },
    /// Waiting for the lookup against IPv4 responder `done` to complete.
    LookupV4 { done: u64 },
    /// Letting the protocol converge after the IPv4 wave.
    SettleAfterV4,
    /// Waiting for IPv6 address record number `done`.
    PopV6 { done: u64 },
    /// Waiting for the lookup against IPv6 responder `done` to complete.
    LookupV6 { done: u64 },
    /// Letting the protocol converge after the IPv6 wave.
    SettleAfterV6,
    /// Waiting at the finished barrier.
    FinishBarrier,
    /// Grace delay so trailing barrier pollers observe completion before
    /// the keys vanish.
    TeardownGrace,
    /// Waiting for the purge of coordination key number `done`.
    PurgeKeys { done: u64 },
    /// Script complete.
    Complete,
}

/// Which handoff queue the `j`-th distributed identity goes to: the IPv6
/// responders' identities first, then the IPv4 responders'.
pub open spec fn publish_queue_for(cfg: ScenarioConfig, j: int) -> u64 {
    if j < cfg.ipv6_nodes {
        KEY_ENR_KEY_IPV6
    } else {
        KEY_ENR_KEY_IPV4
    }
}

/// The order teardown purges the scenario's coordination keys in.
pub open spec fn purge_key_at(j: int) -> u64 {
    if j == 0 {
        KEY_ENR_KEY_IPV6
    } else if j == 1 {
        KEY_ENR_KEY_IPV4
    } else if j == 2 {
        KEY_ENR_IPV6
    } else if j == 3 {
        KEY_ENR_IPV4
    } else if j == 4 {
        KEY_STARTED
    } else {
        KEY_FINISHED
    }
}

/// Teardown covers each of the scenario's coordination keys exactly once:
/// the purge sequence is a permutation of the key namespace, so — purges
/// being idempotent deletions — a completed teardown leaves zero residual
/// keys.
pub proof fn lemma_teardown_covers_namespace()
    ensures
        forall|j1: int, j2: int|
            0 <= j1 < j2 < SCENARIO_KEY_COUNT ==> purge_key_at(j1) != purge_key_at(j2),
        forall|j: int| 0 <= j < SCENARIO_KEY_COUNT ==> purge_key_at(j) < SCENARIO_KEY_COUNT,
{
}

/// The topological distances probed in the IPv4 wave.
pub open spec fn v4_distances() -> Seq<u64> {
    seq![0u64]
}

/// The topological distances probed in the IPv6 wave.
pub open spec fn v6_distances() -> Seq<u64> {
    seq![253u64, 254u64, 255u64]
}

/// The dual-stack coordinator role: distributes the responders'
/// identities over the handoff queues, starts its own node, then after
/// the started barrier consumes each responder's address record and
/// probes it, one address family per wave, and finally tears the
/// scenario's coordination state down.
pub struct Coordinator {
    cfg: ScenarioConfig,
    keys: Vec<IdentityKey>,
    phase: CoordPhase,
}

impl Coordinator {
    pub closed spec fn phase(self) -> CoordPhase {
        self.phase
    }

    pub closed spec fn cfg(self) -> ScenarioConfig {
        self.cfg
    }

    /// The identities this coordinator distributes (its own first).
    pub closed spec fn keys(self) -> Seq<Seq<u8>> {
        Seq::new(self.keys@.len(), |i: int| self.keys@[i]@)
    }

    /// Validity: the barrier target counts everyone; one identity for the
    /// coordinator and one per responder; per-phase progress counters in
    /// range.
    pub open spec fn wf(self) -> bool {
        &&& self.cfg().wf()
        &&& self.keys().len() == 1 + self.cfg().ipv6_nodes + self.cfg().ipv4_nodes
        &&& match self.phase() {
            CoordPhase::PublishKeys { done } => done < self.cfg().ipv6_nodes
                + self.cfg().ipv4_nodes,
            CoordPhase::PopV4 { done } => done < self.cfg().ipv4_nodes,
            CoordPhase::LookupV4 { done } => done < self.cfg().ipv4_nodes,
            CoordPhase::PopV6 { done } => done < self.cfg().ipv6_nodes,
            CoordPhase::LookupV6 { done } => done < self.cfg().ipv6_nodes,
            CoordPhase::PurgeKeys { done } => done < SCENARIO_KEY_COUNT,
            _ => true,
        }
    }

    /// The coordinator begins by distributing the first responder
    /// identity (or, with no responders configured, by starting its own
    /// node at once). Identity number `j` of the handoff is `keys[j + 1]`;
    /// `keys[0]` stays the coordinator's own.
    pub fn new(cfg: ScenarioConfig, keys: Vec<IdentityKey>) -> (r: (Coordinator, Action))
        requires
            cfg.wf(),
            keys@.len() == 1 + cfg.ipv6_nodes + cfg.ipv4_nodes,
        ensures
            r.0.wf(),
            r.0.cfg() == cfg,
            r.0.keys().len() == keys@.len(),
            forall|i: int| 0 <= i < keys@.len() ==> r.0.keys()[i] == (#[trigger] keys@[i])@,
            if cfg.ipv6_nodes + cfg.ipv4_nodes == 0 {
                r.0.phase() is AwaitNodeStart && (r.1 matches Action::StartNode { identity }
                    && identity@ == keys@[0]@)
            } else {
                r.0.phase() == (CoordPhase::PublishKeys { done: 0u64 }) && (r.1
                    matches Action::Publish { key, payload } && key == publish_queue_for(cfg, 0)
                    && payload@ == keys@[1]@)
            },
    {
        if cfg.ipv6_nodes == 0 && cfg.ipv4_nodes == 0 {
            let identity = copy_bytes(keys[0].bytes());
            let coord = Coordinator { cfg, keys, phase: CoordPhase::AwaitNodeStart };
            (coord, Action::StartNode { identity })
        } else {
            let key = if cfg.ipv6_nodes > 0 {
                KEY_ENR_KEY_IPV6
            } else {
                KEY_ENR_KEY_IPV4
            };
            let payload = copy_bytes(keys[1].bytes());
            let coord = Coordinator { cfg, keys, phase: CoordPhase::PublishKeys { done: 0 } };
            (coord, Action::Publish { key, payload })
        }
    }

    /// One decision of the coordinator script: what to do next, given
    /// what the last action produced.
    pub fn step(&mut self, ev: Event) -> (r: Result<Action, ProtocolError>)
        requires
            old(self).wf(),
        ensures
            final(self).wf(),
            final(self).cfg() == old(self).cfg(),
            final(self).keys() == old(self).keys(),
            match (old(self).phase(), ev) {
                (CoordPhase::PublishKeys { done }, Event::Done) => {
                    let cfg = old(self).cfg();
                    if done + 1 < cfg.ipv6_nodes + cfg.ipv4_nodes {
                        &&& final(self).phase() == (CoordPhase::PublishKeys {
                            done: (done + 1) as u64,
                        })
                        &&& (r matches Ok(a) && a matches Action::Publish { key, payload }
                            && key == publish_queue_for(cfg, done + 1)
                            && payload@ == old(self).keys()[done + 2])
                    } else {
                        &&& final(self).phase() is AwaitNodeStart
                        &&& (r matches Ok(a) && a matches Action::StartNode { identity }
                            && identity@ == old(self).keys()[0])
                    }
                },
                (CoordPhase::AwaitNodeStart, Event::Record(rec)) => {
                    &&& final(self).phase() is SettleAfterStart
                    &&& (r matches Ok(a) && a matches Action::Sleep { ms } && ms == old(
                        self,
                    ).cfg().start_settle_ms)
                },
                (CoordPhase::SettleAfterStart, Event::Done) => {
                    &&& final(self).phase() is StartBarrier
                    &&& (r matches Ok(a) && a matches Action::Announce { key } && key
                        == KEY_STARTED)
                },
                (CoordPhase::StartBarrier, Event::Count(c)) => {
                    let cfg = old(self).cfg();
                    if c >= cfg.total_nodes {
                        if cfg.ipv4_nodes > 0 {
                            &&& final(self).phase() == (CoordPhase::PopV4 { done: 0u64 })
                            &&& (r matches Ok(a) && a matches Action::ConsumeBlocking { key }
                                && key == KEY_ENR_IPV4)
                        } else {
                            &&& final(self).phase() is SettleAfterV4
                            &&& (r matches Ok(a) && a matches Action::Sleep { ms } && ms
                                == cfg.wave_settle_ms)
                        }
                    } else {
                        &&& final(self).phase() is StartBarrier
                        &&& (r matches Ok(a) && a matches Action::PollCounter { key, delay_ms }
                            && key == KEY_STARTED && delay_ms == cfg.poll_interval_ms)
                    }
                },
                (CoordPhase::PopV4 { done }, Event::Value(rec)) => {
                    &&& final(self).phase() == (CoordPhase::LookupV4 { done })
                    &&& (r matches Ok(a) && a matches Action::Lookup { record, distances }
                        && record@ == rec@ && distances@ == v4_distances())
                },
                (CoordPhase::LookupV4 { done }, Event::Done) => {
                    let cfg = old(self).cfg();
                    if done + 1 < cfg.ipv4_nodes {
                        &&& final(self).phase() == (CoordPhase::PopV4 { done: (done + 1) as u64 })
                        &&& (r matches Ok(a) && a matches Action::ConsumeBlocking { key } && key
                            == KEY_ENR_IPV4)
                    } else {
                        &&& final(self).phase() is SettleAfterV4
                        &&& (r matches Ok(a) && a matches Action::Sleep { ms } && ms
                            == cfg.wave_settle_ms)
                    }
                },
                (CoordPhase::SettleAfterV4, Event::Done) => {
                    let cfg = old(self).cfg();
                    if cfg.ipv6_nodes > 0 {
                        &&& final(self).phase() == (CoordPhase::PopV6 { done: 0u64 })
                        &&& (r matches Ok(a) && a matches Action::ConsumeBlocking { key } && key
                            == KEY_ENR_IPV6)
                    } else {
                        &&& final(self).phase() is SettleAfterV6
                        &&& (r matches Ok(a) && a matches Action::Sleep { ms } && ms
                            == cfg.finish_settle_ms)
                    }
                },
                (CoordPhase::PopV6 { done }, Event::Value(rec)) => {
                    &&& final(self).phase() == (CoordPhase::LookupV6 { done })
                    &&& (r matches Ok(a) && a matches Action::Lookup { record, distances }
                        && record@ == rec@ && distances@ == v6_distances())
                },
                (CoordPhase::LookupV6 { done }, Event::Done) => {
                    let cfg = old(self).cfg();
                    if done + 1 < cfg.ipv6_nodes {
                        &&& final(self).phase() == (CoordPhase::PopV6 { done: (done + 1) as u64 })
                        &&& (r matches Ok(a) && a matches Action::ConsumeBlocking { key } && key
                            == KEY_ENR_IPV6)
                    } else {
                        &&& final(self).phase() is SettleAfterV6
                        &&& (r matches Ok(a) && a matches Action::Sleep { ms } && ms
                            == cfg.finish_settle_ms)
                    }
                },
                (CoordPhase::SettleAfterV6, Event::Done) => {
                    &&& final(self).phase() is FinishBarrier
                    &&& (r matches Ok(a) && a matches Action::Announce { key } && key
                        == KEY_FINISHED)
                },
                (CoordPhase::FinishBarrier, Event::Count(c)) => {
                    let cfg = old(self).cfg();
                    if c >= cfg.total_nodes {
                        &&& final(self).phase() is TeardownGrace
                        &&& (r matches Ok(a) && a matches Action::Sleep { ms } && ms
                            == cfg.teardown_grace_ms)
                    } else {
                        &&& final(self).phase() is FinishBarrier
                        &&& (r matches Ok(a) && a matches Action::PollCounter { key, delay_ms }
                            && key == KEY_FINISHED && delay_ms == cfg.poll_interval_ms)
                    }
                },
                (CoordPhase::TeardownGrace, Event::Done) => {
                    &&& final(self).phase() == (CoordPhase::PurgeKeys { done: 0u64 })
                    &&& (r matches Ok(a) && a matches Action::Purge { key } && key
                        == purge_key_at(0))
                },
                (CoordPhase::PurgeKeys { done }, Event::Done) => {
                    if done + 1 < SCENARIO_KEY_COUNT {
                        &&& final(self).phase() == (CoordPhase::PurgeKeys {
                            done: (done + 1) as u64,
                        })
                        &&& (r matches Ok(a) && a matches Action::Purge { key } && key
                            == purge_key_at(done + 1))
                    } else {
                        &&& final(self).phase() is Complete
                        &&& (r matches Ok(a) && a is Halt)
                    }
                },
                _ => {
                    &&& final(self).phase() == old(self).phase()
                    &&& r == Err::<Action, ProtocolError>(ProtocolError::UnexpectedEvent)
                },
            },
    {
        let phase = self.phase;
        match (phase, ev) {
            (CoordPhase::PublishKeys { done }, Event::Done) => {
                let pending = self.cfg.ipv6_nodes + self.cfg.ipv4_nodes;
                if done + 1 < pending {
                    let next = done + 1;
                    let key = if next < self.cfg.ipv6_nodes {
                        KEY_ENR_KEY_IPV6
                    } else {
                        KEY_ENR_KEY_IPV4
                    };
                    let total_keys = self.keys.len();
                    proof {
                        assert(self.keys@.len() == 1 + self.cfg.ipv6_nodes + self.cfg.ipv4_nodes);
                        assert(next + 1 < total_keys as u64);
                    }
                    let idx: usize = (next + 1) as usize;
                    let payload = copy_bytes(self.keys[idx].bytes());
                    self.phase = CoordPhase::PublishKeys { done: next };
                    Ok(Action::Publish { key, payload })
                } else {
                    let identity = copy_bytes(self.keys[0].bytes());
                    self.phase = CoordPhase::AwaitNodeStart;
                    Ok(Action::StartNode { identity })
                }
            },
            (CoordPhase::AwaitNodeStart, Event::Record(_rec)) => {
                self.phase = CoordPhase::SettleAfterStart;
                Ok(Action::Sleep { ms: self.cfg.start_settle_ms })
            },
            (CoordPhase::SettleAfterStart, Event::Done) => {
                self.phase = CoordPhase::StartBarrier;
                Ok(Action::Announce { key: KEY_STARTED })
            },
            (CoordPhase::StartBarrier, Event::Count(c)) => {
                if barrier_released(c, self.cfg.total_nodes) {
                    if self.cfg.ipv4_nodes > 0 {
                        self.phase = CoordPhase::PopV4 { done: 0 };
                        Ok(Action::ConsumeBlocking { key: KEY_ENR_IPV4 })
                    } else {
                        self.phase = CoordPhase::SettleAfterV4;
                        Ok(Action::Sleep { ms: self.cfg.wave_settle_ms })
                    }
                } else {
                    Ok(Action::PollCounter { key: KEY_STARTED, delay_ms: self.cfg.poll_interval_ms })
                }
            },
            (CoordPhase::PopV4 { done }, Event::Value(rec)) => {
                let mut distances: Vec<u64> = Vec::new();
                distances.push(0);
                proof {
                    assert(distances@ =~= v4_distances());
                }
                self.phase = CoordPhase::LookupV4 { done };
                Ok(Action::Lookup { record: rec, distances })
            },
            (CoordPhase::LookupV4 { done }, Event::Done) => {
                if done + 1 < self.cfg.ipv4_nodes {
                    self.phase = CoordPhase::PopV4 { done: done + 1 };
                    Ok(Action::ConsumeBlocking { key: KEY_ENR_IPV4 })
                } else {
                    self.phase = CoordPhase::SettleAfterV4;
                    Ok(Action::Sleep { ms: self.cfg.wave_settle_ms })
                }
            },
            (CoordPhase::SettleAfterV4, Event::Done) => {
                if self.cfg.ipv6_nodes > 0 {
                    self.phase = CoordPhase::PopV6 { done: 0 };
                    Ok(Action::ConsumeBlocking { key: KEY_ENR_IPV6 })
                } else {
                    self.phase = CoordPhase::SettleAfterV6;
                    Ok(Action::Sleep { ms: self.cfg.finish_settle_ms })
                }
            },
            (CoordPhase::PopV6 { done }, Event::Value(rec)) => {
                let mut distances: Vec<u64> = Vec::new();
                distances.push(253);
                distances.push(254);
                distances.push(255);
                proof {
                    assert(distances@ =~= v6_distances());
                }
                self.phase = CoordPhase::LookupV6 { done };
                Ok(Action::Lookup { record: rec, distances })
            },
            (CoordPhase::LookupV6 { done }, Event::Done) => {
                if done + 1 < self.cfg.ipv6_nodes {
                    self.phase = CoordPhase::PopV6 { done: done + 1 };
                    Ok(Action::ConsumeBlocking { key: KEY_ENR_IPV6 })
                } else {
                    self.phase = CoordPhase::SettleAfterV6;
                    Ok(Action::Sleep { ms: self.cfg.finish_settle_ms })
                }
            },
            (CoordPhase::SettleAfterV6, Event::Done) => {
                self.phase = CoordPhase::FinishBarrier;
                Ok(Action::Announce { key: KEY_FINISHED })
            },
            (CoordPhase::FinishBarrier, Event::Count(c)) => {
                if barrier_released(c, self.cfg.total_nodes) {
                    self.phase = CoordPhase::TeardownGrace;
                    Ok(Action::Sleep { ms: self.cfg.teardown_grace_ms })
                } else {
                    Ok(
                        Action::PollCounter {
                            key: KEY_FINISHED,
                            delay_ms: self.cfg.poll_interval_ms,
                        },
                    )
                }
            },
            (CoordPhase::TeardownGrace, Event::Done) => {
                self.phase = CoordPhase::PurgeKeys { done: 0 };
                Ok(Action::Purge { key: KEY_ENR_KEY_IPV6 })
            },
            (CoordPhase::PurgeKeys { done }, Event::Done) => {
                if done + 1 < SCENARIO_KEY_COUNT {
                    let next = done + 1;
                    let key = if next == 1 {
                        KEY_ENR_KEY_IPV4
                    } else if next == 2 {
                        KEY_ENR_IPV6
                    } else if next == 3 {
                        KEY_ENR_IPV4
                    } else if next == 4 {
                        KEY_STARTED
                    } else {
                        KEY_FINISHED
                    };
                    self.phase = CoordPhase::PurgeKeys { done: next };
                    Ok(Action::Purge { key })
                } else {
                    self.phase = CoordPhase::Complete;
                    Ok(Action::Halt)
                }
            },
            _ => Err(ProtocolError::UnexpectedEvent),
        }
    }
}

} // verus!
