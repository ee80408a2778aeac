use vstd::prelude::*;

use crate::error::Error;

verus! {

/// Signal-strength polls made for one advertised device before it is given up.
pub const RSSI_ATTEMPTS: u32 = 100;
/// Pause between two signal-strength polls of one device.
pub const RSSI_POLL_INTERVAL_MS: u64 = 200;
/// How long a search may take when the configuration does not say.
pub const DEFAULT_SEARCH_TIMEOUT_MS: u64 = 15000;

/// Where one configured device stands in the search.
#[derive(Debug, Clone, Copy, PartialEq, Eq, Structural)]
pub enum TargetState {
    /// No advertisement has been matched to it, or its last attempt was given up.
    Unseen,
    /// Advertised; waiting for a signal-strength reading, after this many empty polls.
    Probing(u32),
    /// Its radio link answered; a connection is being made.
    Connecting,
    /// Handed downstream. It is never handed out again.
    Delivered,
}

/// What the radio side reports to the search.
#[derive(Debug, Clone, Copy, PartialEq, Eq)]
pub enum DiscoveryEvent {
    /// A device with this address was advertised.
    Advertised([u8; 6]),
    /// A signal-strength poll of the device came back, with a reading or without.
    Rssi([u8; 6], bool),
    /// A connection attempt to the device ended, in success or not.
    Connected([u8; 6], bool),
    /// This many milliseconds have passed since the search began.
    Clock(u64),
}

/// What the search asks the radio side to do next.
#[derive(Debug, Clone, Copy, PartialEq, Eq)]
pub enum DiscoveryAction {
    /// Nothing to do.
    Ignore,
    /// Poll the device's signal strength now.
    PollRssi([u8; 6]),
    /// Poll the device's signal strength after this many milliseconds.
    PollRssiAfter([u8; 6], u64),
    /// Connect to the device unless it is connected already.
    Connect([u8; 6]),
    /// Hand the live device downstream.
    Deliver([u8; 6]),
    /// Give up this attempt; a later advertisement may start another.
    Abandon([u8; 6]),
    /// The search has failed for good.
    Fail(Error),
}

/// The state of a search, in mathematical terms.
pub struct DiscoveryModel {
    /// The configured addresses, each once.
    pub targets: Seq<Seq<u8>>,
    /// The state of each target, by position.
    pub states: Seq<TargetState>,
    pub timeout_ms: u64,
    /// Some target has been delivered.
    pub found: bool,
    /// The search failed by running out of time.
    pub timed_out: bool,
}

impl DiscoveryModel {
    pub open spec fn wf(self) -> bool {
        &&& self.targets.len() == self.states.len()
        &&& forall|i: int, j: int|
            0 <= i < j < self.targets.len() ==> self.targets[i] != self.targets[j]
        &&& forall|i: int|
            0 <= i < self.states.len() ==> match #[trigger] self.states[i] {
                TargetState::Probing(n) => n < RSSI_ATTEMPTS,
                _ => true,
            }
        &&& self.found <==> exists|i: int|
            0 <= i < self.states.len() && #[trigger] self.states[i] == TargetState::Delivered
    }

    /// No target seen yet and no time run out.
    pub open spec fn fresh(self) -> bool {
        &&& !self.found
        &&& !self.timed_out
        &&& forall|i: int| 0 <= i < self.states.len() ==> #[trigger] self.states[i] == TargetState::Unseen
    }

    /// The position of address `a` among the targets, if it is one.
    pub open spec fn find(self, a: Seq<u8>) -> Option<int> {
        if exists|k: int| 0 <= k < self.targets.len() && self.targets[k] == a {
            Some(choose|k: int| 0 <= k < self.targets.len() && self.targets[k] == a)
        } else {
            None
        }
    }

    pub open spec fn with_state(self, k: int, s: TargetState) -> DiscoveryModel {
        DiscoveryModel { states: self.states.update(k, s), ..self }
    }
}

/// One step of the search: how a state and an event give the next state and an action.
/// Once the search has failed every event is ignored.
pub open spec fn step_model(m: DiscoveryModel, ev: DiscoveryEvent) -> (
    DiscoveryModel,
    DiscoveryAction,
) {
    if m.timed_out {
        (m, DiscoveryAction::Ignore)
    } else {
        match ev {
            DiscoveryEvent::Advertised(a) => match m.find(a@) {
                Some(k) => if m.states[k] == TargetState::Unseen {
                    (m.with_state(k, TargetState::Probing(0)), DiscoveryAction::PollRssi(a))
                } else {
                    (m, DiscoveryAction::Ignore)
                },
                None => (m, DiscoveryAction::Ignore),
            },
            DiscoveryEvent::Rssi(a, present) => match m.find(a@) {
                Some(k) => match m.states[k] {
                    TargetState::Probing(n) => if present {
                        (m.with_state(k, TargetState::Connecting), DiscoveryAction::Connect(a))
                    } else if n + 1 >= RSSI_ATTEMPTS {
                        (m.with_state(k, TargetState::Unseen), DiscoveryAction::Abandon(a))
                    } else {
                        (
                            m.with_state(k, TargetState::Probing((n + 1) as u32)),
                            DiscoveryAction::PollRssiAfter(a, RSSI_POLL_INTERVAL_MS),
                        )
                    },
                    _ => (m, DiscoveryAction::Ignore),
                },
                None => (m, DiscoveryAction::Ignore),
            },
            DiscoveryEvent::Connected(a, ok) => match m.find(a@) {
                Some(k) => if m.states[k] == TargetState::Connecting {
                    if ok {
                        (
                            DiscoveryModel { found: true, ..m.with_state(k, TargetState::Delivered) },
                            DiscoveryAction::Deliver(a),
                        )
                    } else {
                        (m.with_state(k, TargetState::Unseen), DiscoveryAction::Abandon(a))
                    }
                } else {
                    (m, DiscoveryAction::Ignore)
                },
                None => (m, DiscoveryAction::Ignore),
            },
            DiscoveryEvent::Clock(now) => if !m.found && now >= m.timeout_ms {
                (
                    DiscoveryModel { timed_out: true, ..m },
                    DiscoveryAction::Fail(Error::DeviceSearchTimeout),
                )
            } else {
                (m, DiscoveryAction::Ignore)
            },
        }
    }
}

/// Some address among the first `n` of `s` has the bytes `a`.
pub open spec fn lists_address(s: Seq<[u8; 6]>, n: int, a: Seq<u8>) -> bool {
    exists|p: int| 0 <= p < n && #[trigger] s[p]@ == a
}

/// A change of one target's state that neither leaves nor enters `Delivered` keeps the
/// search well formed.
proof fn lemma_with_state_wf(m: DiscoveryModel, k: int, s: TargetState)
    requires
        m.wf(),
        0 <= k < m.states.len(),
        m.states[k] != TargetState::Delivered,
        s != TargetState::Delivered,
        match s {
            TargetState::Probing(n) => n < RSSI_ATTEMPTS,
            _ => true,
        },
    ensures
        m.with_state(k, s).wf(),
{
    let m2 = m.with_state(k, s);
    if m.found {
        let i = choose|i: int| 0 <= i < m.states.len() && #[trigger] m.states[i] == TargetState::Delivered;
        assert(m2.states[i] == TargetState::Delivered);
    }
    if exists|i: int| 0 <= i < m2.states.len() && #[trigger] m2.states[i] == TargetState::Delivered {
        let i = choose|i: int| 0 <= i < m2.states.len() && #[trigger] m2.states[i] == TargetState::Delivered;
        assert(m.states[i] == TargetState::Delivered);
    }
}

/// Where `find` names a position, the target there has that address.
proof fn lemma_find(m: DiscoveryModel, a: Seq<u8>)
    ensures
        m.find(a) matches Some(k) ==> 0 <= k < m.targets.len() && m.targets[k] == a,
{
}

/// A step keeps the search well formed, its targets and its timeout.
pub proof fn lemma_step_wf(m: DiscoveryModel, ev: DiscoveryEvent)
    requires
        m.wf(),
    ensures
        step_model(m, ev).0.wf(),
        step_model(m, ev).0.targets == m.targets,
        step_model(m, ev).0.timeout_ms == m.timeout_ms,
{
    if !m.timed_out {
        match ev {
            DiscoveryEvent::Advertised(a) => {
                lemma_find(m, a@);
                if let Some(k) = m.find(a@) {
                    if m.states[k] == TargetState::Unseen {
                        lemma_with_state_wf(m, k, TargetState::Probing(0));
                    }
                }
            },
            DiscoveryEvent::Rssi(a, present) => {
                lemma_find(m, a@);
                if let Some(k) = m.find(a@) {
                    if let TargetState::Probing(n) = m.states[k] {
                        if present {
                            lemma_with_state_wf(m, k, TargetState::Connecting);
                        } else if n + 1 >= RSSI_ATTEMPTS {
                            lemma_with_state_wf(m, k, TargetState::Unseen);
                        } else {
                            lemma_with_state_wf(m, k, TargetState::Probing((n + 1) as u32));
                        }
                    }
                }
            },
            DiscoveryEvent::Connected(a, ok) => {
                lemma_find(m, a@);
                if let Some(k) = m.find(a@) {
                    if m.states[k] == TargetState::Connecting {
                        if ok {
                            let m2 = step_model(m, ev).0;
                            assert(m2.states[k] == TargetState::Delivered);
                            assert forall|i: int| 0 <= i < m2.states.len() implies match #[trigger] m2.states[i] {
                                TargetState::Probing(n) => n < RSSI_ATTEMPTS,
                                _ => true,
                            } by {
                                if i != k {
                                    assert(m2.states[i] == m.states[i]);
                                }
                            }
                        } else {
                            lemma_with_state_wf(m, k, TargetState::Unseen);
                        }
                    }
                }
            },
            DiscoveryEvent::Clock(_) => {},
        }
    }
}

/// The state and the actions after a sequence of events, one step per event.
pub open spec fn run(m: DiscoveryModel, evs: Seq<DiscoveryEvent>) -> (
    DiscoveryModel,
    Seq<DiscoveryAction>,
)
    decreases evs.len(),
{
    if evs.len() == 0 {
        (m, Seq::empty())
    } else {
        let (m1, acts) = run(m, evs.drop_last());
        let (m2, act) = step_model(m1, evs.last());
        (m2, acts.push(act))
    }
}

/// The action hands the device with address `a` downstream.
pub open spec fn delivers(act: DiscoveryAction, a: Seq<u8>) -> bool {
    match act {
        DiscoveryAction::Deliver(x) => x@ == a,
        _ => false,
    }
}

/// How many of the actions hand the device with address `a` downstream.
pub open spec fn deliveries(acts: Seq<DiscoveryAction>, a: Seq<u8>) -> nat
    decreases acts.len(),
{
    if acts.len() == 0 {
        0
    } else {
        deliveries(acts.drop_last(), a) + if delivers(acts.last(), a) {
            1nat
        } else {
            0nat
        }
    }
}

/// A step delivers only a configured target that was not delivered before, and a target
/// is delivered after the step exactly when it was before or the step delivered it.
proof fn lemma_step_delivery(m: DiscoveryModel, ev: DiscoveryEvent)
    requires
        m.wf(),
    ensures
        forall|j: int|
            0 <= j < m.states.len() ==> ((#[trigger] step_model(m, ev).0.states[j]
                == TargetState::Delivered) <==> (m.states[j] == TargetState::Delivered
                || delivers(step_model(m, ev).1, m.targets[j]))),
        forall|j: int|
            0 <= j < m.states.len() && #[trigger] delivers(step_model(m, ev).1, m.targets[j])
                ==> m.states[j] != TargetState::Delivered,
        forall|a: Seq<u8>| #[trigger] delivers(step_model(m, ev).1, a) ==> m.targets.contains(a),
{
    lemma_step_wf(m, ev);
    let (m2, act) = step_model(m, ev);
    if !m.timed_out {
        match ev {
            DiscoveryEvent::Advertised(a) => {
                lemma_find(m, a@);
            },
            DiscoveryEvent::Rssi(a, present) => {
                lemma_find(m, a@);
            },
            DiscoveryEvent::Connected(a, ok) => {
                lemma_find(m, a@);
                if let Some(k) = m.find(a@) {
                    if m.states[k] == TargetState::Connecting && ok {
                        assert forall|j: int|
                            0 <= j < m.states.len() && m.targets[j] == a@ implies j == k by {
                            if j != k {
                                if j < k {
                                    assert(m.targets[j] != m.targets[k]);
                                } else {
                                    assert(m.targets[k] != m.targets[j]);
                                }
                            }
                        }
                        assert(m.targets.contains(a@));
                    }
                }
            },
            DiscoveryEvent::Clock(_) => {},
        }
    }
}

/// Run from a fresh search, each configured device is handed downstream at most once,
/// however often it is advertised: exactly once if it has reached `Delivered`, never
/// otherwise. An address that is not configured is never handed downstream.
pub proof fn lemma_delivered_at_most_once(m: DiscoveryModel, evs: Seq<DiscoveryEvent>)
    requires
        m.wf(),
        m.fresh(),
    ensures
        run(m, evs).0.wf(),
        run(m, evs).0.targets == m.targets,
        forall|k: int|
            0 <= k < m.targets.len() ==> #[trigger] deliveries(run(m, evs).1, m.targets[k]) == if run(
                m,
                evs,
            ).0.states[k] == TargetState::Delivered {
                1nat
            } else {
                0nat
            },
        forall|a: Seq<u8>| !m.targets.contains(a) ==> #[trigger] deliveries(run(m, evs).1, a) == 0,
    decreases evs.len(),
{
    if evs.len() > 0 {
        let prev = evs.drop_last();
        lemma_delivered_at_most_once(m, prev);
        let (m1, acts1) = run(m, prev);
        lemma_step_wf(m1, evs.last());
        lemma_step_delivery(m1, evs.last());
        let (m2, act) = step_model(m1, evs.last());
        let acts = acts1.push(act);
        assert(acts.drop_last() =~= acts1);
        assert forall|k: int| 0 <= k < m.targets.len() implies #[trigger] deliveries(acts, m.targets[k])
            == if m2.states[k] == TargetState::Delivered {
            1nat
        } else {
            0nat
        } by {
            assert(deliveries(acts, m.targets[k]) == deliveries(acts1, m.targets[k]) + if delivers(
                act,
                m.targets[k],
            ) {
                1nat
            } else {
                0nat
            });
            assert(m2.states[k] == TargetState::Delivered <==> (m1.states[k]
                == TargetState::Delivered || delivers(act, m1.targets[k])));
        }
        assert forall|a: Seq<u8>| !m.targets.contains(a) implies #[trigger] deliveries(acts, a) == 0 by {
            assert(deliveries(acts, a) == deliveries(acts1, a) + if delivers(act, a) {
                1nat
            } else {
                0nat
            });
        }
    } else {
        assert forall|k: int| 0 <= k < m.targets.len() implies m.states[k] != TargetState::Delivered by {
            assert(m.states[k] == TargetState::Unseen);
        }
    }
}

/// Run from any well-formed search, the timeout and the targets stay as they were, one
/// action comes per event, and the search fails only on a clock reading at or past its
/// timeout, never sooner.
pub proof fn lemma_fail_only_at_deadline(m: DiscoveryModel, evs: Seq<DiscoveryEvent>)
    requires
        m.wf(),
    ensures
        run(m, evs).0.wf(),
        run(m, evs).0.timeout_ms == m.timeout_ms,
        run(m, evs).1.len() == evs.len(),
        forall|i: int|
            0 <= i < evs.len() && (#[trigger] run(m, evs).1[i]) is Fail ==> (evs[i] matches DiscoveryEvent::Clock(
                now,
            ) && now >= m.timeout_ms),
    decreases evs.len(),
{
    if evs.len() > 0 {
        let prev = evs.drop_last();
        lemma_fail_only_at_deadline(m, prev);
        let (m1, acts1) = run(m, prev);
        lemma_step_wf(m1, evs.last());
        let acts = run(m, evs).1;
        assert forall|i: int|
            0 <= i < evs.len() && (#[trigger] acts[i]) is Fail implies (evs[i] matches DiscoveryEvent::Clock(
                now,
            ) && now >= m.timeout_ms) by {
            if i < evs.len() - 1 {
                assert(acts[i] == acts1[i]);
                assert(prev[i] == evs[i]);
            }
        }
    }
}

/// Some clock reading among the events is at or past `deadline`.
pub open spec fn deadline_seen(evs: Seq<DiscoveryEvent>, deadline: u64) -> bool {
    exists|i: int|
        0 <= i < evs.len() && (#[trigger] evs[i] matches DiscoveryEvent::Clock(now) && now >= deadline)
}

/// Where no configured device is ever advertised, nothing is delivered, and the search
/// has failed exactly when some clock reading has reached its timeout.
pub proof fn lemma_timeout_when_unseen(m: DiscoveryModel, evs: Seq<DiscoveryEvent>)
    requires
        m.wf(),
        m.fresh(),
        forall|i: int|
            0 <= i < evs.len() ==> !(#[trigger] evs[i] matches DiscoveryEvent::Advertised(a)
                && m.targets.contains(a@)),
    ensures
        run(m, evs).0.wf(),
        run(m, evs).0.targets == m.targets,
        run(m, evs).0.timeout_ms == m.timeout_ms,
        !run(m, evs).0.found,
        forall|i: int|
            0 <= i < run(m, evs).0.states.len() ==> #[trigger] run(m, evs).0.states[i] == TargetState::Unseen,
        run(m, evs).0.timed_out <==> deadline_seen(evs, m.timeout_ms),
    decreases evs.len(),
{
    if evs.len() > 0 {
        let prev = evs.drop_last();
        assert forall|i: int|
            0 <= i < prev.len() implies !(#[trigger] prev[i] matches DiscoveryEvent::Advertised(a)
                && m.targets.contains(a@)) by {
            assert(prev[i] == evs[i]);
        }
        lemma_timeout_when_unseen(m, prev);
        let (m1, acts1) = run(m, prev);
        lemma_step_wf(m1, evs.last());
        let ev = evs.last();
        assert(!(ev matches DiscoveryEvent::Advertised(a) && m.targets.contains(a@)));
        match ev {
            DiscoveryEvent::Advertised(a) => {
                lemma_find(m1, a@);
            },
            DiscoveryEvent::Rssi(a, _) => {
                lemma_find(m1, a@);
            },
            DiscoveryEvent::Connected(a, _) => {
                lemma_find(m1, a@);
            },
            DiscoveryEvent::Clock(_) => {},
        }
        if deadline_seen(prev, m.timeout_ms) {
            let i = choose|i: int|
                0 <= i < prev.len() && (#[trigger] prev[i] matches DiscoveryEvent::Clock(now) && now
                    >= m.timeout_ms);
            assert(evs[i] == prev[i]);
        }
        if deadline_seen(evs, m.timeout_ms) {
            let i = choose|i: int|
                0 <= i < evs.len() && (#[trigger] evs[i] matches DiscoveryEvent::Clock(now) && now
                    >= m.timeout_ms);
            if i < evs.len() - 1 {
                assert(evs[i] == prev[i]);
            }
        }
    }
}

/// A device advertised, answering its first signal-strength poll and accepting the
/// connection.
pub open spec fn live_triple(a: [u8; 6]) -> Seq<DiscoveryEvent> {
    seq![
        DiscoveryEvent::Advertised(a),
        DiscoveryEvent::Rssi(a, true),
        DiscoveryEvent::Connected(a, true),
    ]
}

/// A configured device not yet delivered that is advertised, answers its first
/// signal-strength poll and accepts the connection is handed downstream.
pub proof fn lemma_live_target_delivered(m: DiscoveryModel, a: [u8; 6])
    requires
        m.wf(),
        !m.timed_out,
        m.targets.contains(a@),
        forall|k: int|
            0 <= k < m.targets.len() && m.targets[k] == a@ ==> #[trigger] m.states[k]
                == TargetState::Unseen,
    ensures
        run(
            m,
            seq![
                DiscoveryEvent::Advertised(a),
                DiscoveryEvent::Rssi(a, true),
                DiscoveryEvent::Connected(a, true),
            ],
        ).1 == seq![
            DiscoveryAction::PollRssi(a),
            DiscoveryAction::Connect(a),
            DiscoveryAction::Deliver(a),
        ],
        run(m, live_triple(a)).0 == (DiscoveryModel {
            found: true,
            ..m.with_state(m.find(a@)->0, TargetState::Delivered)
        }),
{
    let evs = live_triple(a);
    assert(evs =~= seq![
        DiscoveryEvent::Advertised(a),
        DiscoveryEvent::Rssi(a, true),
        DiscoveryEvent::Connected(a, true),
    ]);
    let e1 = evs.take(1);
    let e2 = evs.take(2);
    assert(evs.drop_last() =~= e2);
    assert(e2.drop_last() =~= e1);
    assert(e1.drop_last() =~= Seq::<DiscoveryEvent>::empty());
    lemma_find(m, a@);
    let k = m.find(a@)->0;
    assert(m.states[k] == TargetState::Unseen);
    assert(run(m, e1.drop_last()) == (m, Seq::<DiscoveryAction>::empty()));
    assert(e1.last() == DiscoveryEvent::Advertised(a));
    assert(e2.last() == DiscoveryEvent::Rssi(a, true));
    assert(evs.last() == DiscoveryEvent::Connected(a, true));
    let (m1, acts1) = run(m, e1);
    assert(m1 == m.with_state(k, TargetState::Probing(0)));
    lemma_step_wf(m, e1.last());
    lemma_find(m1, a@);
    let (m2, acts2) = run(m, e2);
    lemma_step_wf(m1, e2.last());
    lemma_find(m2, a@);
    assert(run(m, evs).1 =~= seq![
        DiscoveryAction::PollRssi(a),
        DiscoveryAction::Connect(a),
        DiscoveryAction::Deliver(a),
    ]);
    assert(m2 == m1.with_state(k, TargetState::Connecting));
    assert(m2.with_state(k, TargetState::Delivered).states =~= m.with_state(
        k,
        TargetState::Delivered,
    ).states);
}

/// Running over two event sequences one after the other is running over their
/// concatenation.
pub proof fn lemma_run_append(m: DiscoveryModel, a: Seq<DiscoveryEvent>, b: Seq<DiscoveryEvent>)
    ensures
        run(m, a + b).0 == run(run(m, a).0, b).0,
        run(m, a + b).1 == run(m, a).1 + run(run(m, a).0, b).1,
    decreases b.len(),
{
    if b.len() == 0 {
        assert(a + b =~= a);
        assert(run(m, a).1 + run(run(m, a).0, b).1 =~= run(m, a).1);
    } else {
        lemma_run_append(m, a, b.drop_last());
        assert((a + b).drop_last() =~= a + b.drop_last());
        assert((a + b).last() == b.last());
        let mid = run(m, a).0;
        let (m1, acts1) = run(mid, b.drop_last());
        let act = step_model(m1, b.last()).1;
        assert(run(m, a).1 + acts1.push(act) =~= (run(m, a).1 + acts1).push(act));
    }
}

/// Each configured device in turn advertised and found live.
pub open spec fn live_schedule(addrs: Seq<[u8; 6]>) -> Seq<DiscoveryEvent>
    decreases addrs.len(),
{
    if addrs.len() == 0 {
        Seq::empty()
    } else {
        live_schedule(addrs.drop_last()) + live_triple(addrs.last())
    }
}

proof fn lemma_live_schedule_prefix(m: DiscoveryModel, addrs: Seq<[u8; 6]>, n: int)
    requires
        m.wf(),
        m.fresh(),
        addrs.len() == m.targets.len(),
        forall|i: int| 0 <= i < addrs.len() ==> #[trigger] addrs[i]@ == m.targets[i],
        0 <= n <= addrs.len(),
    ensures
        run(m, live_schedule(addrs.take(n))).0.wf(),
        run(m, live_schedule(addrs.take(n))).0.targets == m.targets,
        !run(m, live_schedule(addrs.take(n))).0.timed_out,
        forall|k: int|
            0 <= k < m.targets.len() ==> #[trigger] run(m, live_schedule(addrs.take(n))).0.states[k]
                == if k < n {
                TargetState::Delivered
            } else {
                TargetState::Unseen
            },
    decreases n,
{
    if n == 0 {
        assert(addrs.take(0) =~= Seq::<[u8; 6]>::empty());
    } else {
        lemma_live_schedule_prefix(m, addrs, n - 1);
        let pre = addrs.take(n - 1);
        let cur = addrs.take(n);
        assert(cur.drop_last() =~= pre);
        assert(cur.last() == addrs[n - 1]);
        let a = addrs[n - 1];
        lemma_run_append(m, live_schedule(pre), live_triple(a));
        let s0 = run(m, live_schedule(pre)).0;
        lemma_find(s0, a@);
        assert(s0.targets[n - 1] == a@);
        assert(s0.targets.contains(a@));
        let k = s0.find(a@)->0;
        if k != n - 1 {
            if k < n - 1 {
                assert(s0.targets[k] != s0.targets[n - 1]);
            } else {
                assert(s0.targets[n - 1] != s0.targets[k]);
            }
        }
        assert forall|j: int|
            0 <= j < s0.targets.len() && s0.targets[j] == a@ implies #[trigger] s0.states[j]
                == TargetState::Unseen by {
            if j != n - 1 {
                if j < n - 1 {
                    assert(s0.targets[j] != s0.targets[n - 1]);
                } else {
                    assert(s0.targets[n - 1] != s0.targets[j]);
                }
            }
        }
        lemma_live_target_delivered(s0, a);
        let s1 = run(s0, live_triple(a)).0;
        lemma_step_wf(s0, DiscoveryEvent::Advertised(a));
        assert(s1.wf()) by {
            assert(s1.states[n - 1] == TargetState::Delivered);
            assert forall|i: int| 0 <= i < s1.states.len() implies match #[trigger] s1.states[i] {
                TargetState::Probing(x) => x < RSSI_ATTEMPTS,
                _ => true,
            } by {
                if i != n - 1 {
                    assert(s1.states[i] == s0.states[i]);
                }
            }
        }
    }
}

/// Where every configured device is advertised and found live in turn, each is handed
/// downstream exactly once.
pub proof fn lemma_every_live_target_delivered(m: DiscoveryModel, addrs: Seq<[u8; 6]>)
    requires
        m.wf(),
        m.fresh(),
        addrs.len() == m.targets.len(),
        forall|i: int| 0 <= i < addrs.len() ==> #[trigger] addrs[i]@ == m.targets[i],
    ensures
        forall|k: int|
            0 <= k < m.targets.len() ==> #[trigger] deliveries(run(m, live_schedule(addrs)).1, m.targets[k])
                == 1,
{
    lemma_live_schedule_prefix(m, addrs, addrs.len() as int);
    assert(addrs.take(addrs.len() as int) =~= addrs);
    lemma_delivered_at_most_once(m, live_schedule(addrs));
    let fin = run(m, live_schedule(addrs));
    assert forall|k: int| 0 <= k < m.targets.len() implies #[trigger] deliveries(fin.1, m.targets[k]) == 1 by {
        assert(fin.0.states[k] == TargetState::Delivered);
    }
}

/// Byte-wise equality of two addresses.
pub fn same_address(a: &[u8; 6], b: &[u8; 6]) -> (r: bool)
    ensures
        r == (a@ == b@),
{
    let r = a[0] == b[0] && a[1] == b[1] && a[2] == b[2] && a[3] == b[3] && a[4] == b[4]
        && a[5] == b[5];
    proof {
        if r {
            assert(a@ =~= b@);
        }
    }
    r
}

/// A search for the configured devices among advertisements. Each target moves
/// Unseen, then Probing while its signal strength is polled, then Connecting, then
/// Delivered; a target whose polls or connection fail goes back to Unseen.
#[derive(Debug)]
pub struct Discovery {
    targets: Vec<[u8; 6]>,
    states: Vec<TargetState>,
    timeout_ms: u64,
    found: bool,
    timed_out: bool,
}

impl View for Discovery {
    type V = DiscoveryModel;

    closed spec fn view(&self) -> DiscoveryModel {
        DiscoveryModel {
            targets: self.targets@.map_values(|a: [u8; 6]| a@),
            states: self.states@,
            timeout_ms: self.timeout_ms,
            found: self.found,
            timed_out: self.timed_out,
        }
    }
}

impl Discovery {
    /// A fresh search for `addresses` (a repeated address is searched for once), which
    /// fails if no device is delivered within `timeout_ms`.
    pub fn new(addresses: &[[u8; 6]], timeout_ms: u64) -> (d: Discovery)
        ensures
            d@.wf(),
            d@.fresh(),
            d@.timeout_ms == timeout_ms,
            forall|a: Seq<u8>|
                d@.targets.contains(a) <==> #[trigger] lists_address(addresses@, addresses@.len() as int, a),
    {
        let mut targets: Vec<[u8; 6]> = Vec::new();
        let mut states: Vec<TargetState> = Vec::new();
        let mut i: usize = 0;
        while i < addresses.len()
            invariant
                i <= addresses@.len(),
                targets@.len() == states@.len(),
                forall|p: int, q: int|
                    0 <= p < q < targets@.len() ==> targets@[p]@ != targets@[q]@,
                forall|p: int| 0 <= p < states@.len() ==> #[trigger] states@[p] == TargetState::Unseen,
                forall|a: Seq<u8>|
                    #[trigger] lists_address(targets@, targets@.len() as int, a)
                        <==> lists_address(addresses@, i as int, a),
            decreases addresses@.len() - i,
        {
            let a = addresses[i];
            let mut seen = false;
            let mut j: usize = 0;
            while j < targets.len()
                invariant
                    j <= targets@.len(),
                    seen <==> lists_address(targets@, j as int, a@),
                decreases targets@.len() - j,
            {
                if same_address(&targets[j], &a) {
                    seen = true;
                }
                j = j + 1;
            }
            let ghost old_targets = targets@;
            let ghost old_len = targets@.len() as int;
            if !seen {
                targets.push(a);
                states.push(TargetState::Unseen);
            }
            proof {
                assert forall|x: Seq<u8>|
                    #[trigger] lists_address(targets@, targets@.len() as int, x)
                        <==> lists_address(addresses@, i + 1, x) by {
                    if lists_address(addresses@, i + 1, x) {
                        let q = choose|q: int| 0 <= q < i + 1 && #[trigger] addresses@[q]@ == x;
                        if q == i && !seen {
                            assert(targets@[targets@.len() - 1]@ == x);
                        } else {
                            if q < i {
                                assert(lists_address(addresses@, i as int, x));
                            }
                            assert(lists_address(old_targets, old_len, x));
                            let p = choose|p: int| 0 <= p < old_len && #[trigger] old_targets[p]@ == x;
                            assert(targets@[p]@ == x);
                        }
                    }
                    if lists_address(targets@, targets@.len() as int, x) {
                        let p = choose|p: int| 0 <= p < targets@.len() && #[trigger] targets@[p]@ == x;
                        if !seen && p == targets@.len() - 1 {
                            assert(addresses@[i as int]@ == x);
                        } else {
                            assert(old_targets[p]@ == x);
                            assert(lists_address(old_targets, old_len, x));
                            let q = choose|q: int| 0 <= q < i && #[trigger] addresses@[q]@ == x;
                            assert(addresses@[q]@ == x);
                        }
                    }
                }
            }
            i = i + 1;
        }
        let d = Discovery { targets, states, timeout_ms, found: false, timed_out: false };
        proof {
            assert forall|a: Seq<u8>|
                d@.targets.contains(a) <==> #[trigger] lists_address(addresses@, addresses@.len() as int, a) by {
                if d@.targets.contains(a) {
                    let p = choose|p: int| 0 <= p < d@.targets.len() && d@.targets[p] == a;
                    assert(d.targets@[p]@ == a);
                    assert(lists_address(d.targets@, d.targets@.len() as int, a));
                }
                if lists_address(d.targets@, d.targets@.len() as int, a) {
                    let p = choose|p: int| 0 <= p < d.targets@.len() && #[trigger] d.targets@[p]@ == a;
                    assert(d@.targets[p] == a);
                }
            }
        }
        d
    }
    /// The position of address `a` among the targets.
    fn find(&self, a: &[u8; 6]) -> (r: Option<usize>)
        requires
            self@.wf(),
        ensures
            match r {
                Some(k) => self@.find(a@) == Some(k as int),
                None => self@.find(a@) is None,
            },
    {
        let mut j: usize = 0;
        while j < self.targets.len()
            invariant
                self@.wf(),
                j <= self.targets@.len(),
                forall|p: int| 0 <= p < j ==> self@.targets[p] != a@,
            decreases self.targets@.len() - j,
        {
            if same_address(&self.targets[j], a) {
                proof {
                    assert(self@.targets[j as int] == a@);
                    let k = choose|k: int| 0 <= k < self@.targets.len() && self@.targets[k] == a@;
                    assert(k == j);
                }
                return Some(j);
            }
            assert(self@.targets[j as int] != a@);
            j = j + 1;
        }
        None
    }

    /// Hands the search one event and learns what to do next.
    pub fn step(&mut self, ev: DiscoveryEvent) -> (act: DiscoveryAction)
        requires
            old(self)@.wf(),
        ensures
            final(self)@.wf(),
            final(self)@ == step_model(old(self)@, ev).0,
            act == step_model(old(self)@, ev).1,
    {
        proof {
            lemma_step_wf(self@, ev);
        }
        if self.timed_out {
            return DiscoveryAction::Ignore;
        }
        match ev {
            DiscoveryEvent::Advertised(a) => match self.find(&a) {
                Some(k) => {
                    if self.states[k] == TargetState::Unseen {
                        self.states.set(k, TargetState::Probing(0));
                        DiscoveryAction::PollRssi(a)
                    } else {
                        DiscoveryAction::Ignore
                    }
                },
                None => DiscoveryAction::Ignore,
            },
            DiscoveryEvent::Rssi(a, present) => match self.find(&a) {
                Some(k) => match self.states[k] {
                    TargetState::Probing(n) => {
                        if present {
                            self.states.set(k, TargetState::Connecting);
                            DiscoveryAction::Connect(a)
                        } else if n + 1 >= RSSI_ATTEMPTS {
                            self.states.set(k, TargetState::Unseen);
                            DiscoveryAction::Abandon(a)
                        } else {
                            self.states.set(k, TargetState::Probing(n + 1));
                            DiscoveryAction::PollRssiAfter(a, RSSI_POLL_INTERVAL_MS)
                        }
                    },
                    _ => DiscoveryAction::Ignore,
                },
                None => DiscoveryAction::Ignore,
            },
            DiscoveryEvent::Connected(a, ok) => match self.find(&a) {
                Some(k) => {
                    if self.states[k] == TargetState::Connecting {
                        if ok {
                            self.states.set(k, TargetState::Delivered);
                            self.found = true;
                            DiscoveryAction::Deliver(a)
                        } else {
                            self.states.set(k, TargetState::Unseen);
                            DiscoveryAction::Abandon(a)
                        }
                    } else {
                        DiscoveryAction::Ignore
                    }
                },
                None => DiscoveryAction::Ignore,
            },
            DiscoveryEvent::Clock(now) => {
                if !self.found && now >= self.timeout_ms {
                    self.timed_out = true;
                    DiscoveryAction::Fail(Error::DeviceSearchTimeout)
                } else {
                    DiscoveryAction::Ignore
                }
            },
        }
    }

    /// The search failed by running out of time.
    pub fn timed_out(&self) -> (r: bool)
        ensures
            r == self@.timed_out,
    {
        self.timed_out
    }

    /// Some target has been delivered.
    pub fn found(&self) -> (r: bool)
        ensures
            r == self@.found,
    {
        self.found
    }
}

} // verus!
