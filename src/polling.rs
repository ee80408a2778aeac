use vstd::prelude::*;

use crate::error::Error;
use crate::reading::CurrentReading;

verus! {

/// How the program reports readings.
#[derive(Debug, Clone, Copy, PartialEq, Eq, Structural)]
pub enum Mode {
    /// Read once and print every field.
    Pretty,
    /// Read once and print one line.
    Oneline,
    /// Print one line per poll, forever.
    StreamingOneline,
    /// Publish each poll as metrics and print one line, forever.
    Service,
}

impl Mode {
    pub open spec fn continuous(self) -> bool {
        self == Mode::StreamingOneline || self == Mode::Service
    }

    /// Whether this mode polls forever.
    pub fn is_continuous(&self) -> (r: bool)
        ensures
            r == self.continuous(),
    {
        match self {
            Mode::StreamingOneline | Mode::Service => true,
            _ => false,
        }
    }
}

/// The action a polling session waits on.
#[derive(Debug, Clone, Copy, PartialEq, Eq, Structural)]
pub enum Phase {
    /// The session has not begun.
    Idle,
    Checking,
    Reconnecting,
    Resolving,
    Reading,
    Showing,
    Reporting,
    Sleeping,
    /// The session has ended, in success or not.
    Stopped,
}

/// What the device side reports to a polling session.
#[derive(Debug, Clone, Copy, PartialEq, Eq)]
pub enum PollEvent {
    /// The device is connected and its endpoints are resolved.
    Start,
    /// Whether the device is connected.
    Connection(bool),
    /// A reconnection attempt ended, in success or not.
    Reconnected(bool),
    /// The endpoint table was built anew.
    Resolved,
    /// A read of the current readings ended.
    Read(Result<CurrentReading, Error>),
    /// The last output, log line or pause is over.
    Done,
}

/// What a polling session asks the device side to do next.
#[derive(Debug, Clone, Copy, PartialEq, Eq)]
pub enum PollAction {
    /// Nothing: the event did not answer what the session waits on.
    Ignore,
    /// Ask whether the device is connected.
    CheckConnection,
    /// Connect to the device again.
    Reconnect,
    /// Build the endpoint table anew: handles need not survive a reconnection.
    ResolveEndpoints,
    /// Read and decode the current readings.
    Read,
    /// Print the reading in the mode's style, and publish it in service mode.
    Show(CurrentReading),
    /// Log a failed poll; the session goes on.
    Report(Error),
    /// Pause this many seconds.
    Sleep(u64),
    /// End the session: it has failed.
    Fail(Error),
    /// End the session: it is done.
    Finish,
}

/// A polling session, in mathematical terms.
pub struct PollModel {
    pub mode: Mode,
    pub interval_secs: u64,
    pub phase: Phase,
}

/// One step of a polling session. Each poll checks the connection, reconnects and
/// resolves the endpoints anew where it was lost, then reads. A single-shot mode ends
/// after its one poll, and fails where the poll fails; a continuous mode logs a failed
/// poll and pauses before the next one.
pub open spec fn poll_step(m: PollModel, ev: PollEvent) -> (PollModel, PollAction) {
    let go = |p: Phase, a: PollAction| (PollModel { phase: p, ..m }, a);
    let stop = |a: PollAction| (PollModel { phase: Phase::Stopped, ..m }, a);
    let pause = (PollModel { phase: Phase::Sleeping, ..m }, PollAction::Sleep(m.interval_secs));
    match (m.phase, ev) {
        (Phase::Idle, PollEvent::Start) => go(Phase::Checking, PollAction::CheckConnection),
        (Phase::Checking, PollEvent::Connection(true)) => go(Phase::Reading, PollAction::Read),
        (Phase::Checking, PollEvent::Connection(false)) => go(
            Phase::Reconnecting,
            PollAction::Reconnect,
        ),
        (Phase::Reconnecting, PollEvent::Reconnected(true)) => go(
            Phase::Resolving,
            PollAction::ResolveEndpoints,
        ),
        (Phase::Reconnecting, PollEvent::Reconnected(false)) => if m.mode.continuous() {
            go(Phase::Reporting, PollAction::Report(Error::ConnectionLost))
        } else {
            stop(PollAction::Fail(Error::ConnectionLost))
        },
        (Phase::Resolving, PollEvent::Resolved) => go(Phase::Reading, PollAction::Read),
        (Phase::Reading, PollEvent::Read(Ok(r))) => go(Phase::Showing, PollAction::Show(r)),
        (Phase::Reading, PollEvent::Read(Err(e))) => if m.mode.continuous() {
            go(Phase::Reporting, PollAction::Report(e))
        } else {
            stop(PollAction::Fail(e))
        },
        (Phase::Showing, PollEvent::Done) => if m.mode.continuous() {
            pause
        } else {
            stop(PollAction::Finish)
        },
        (Phase::Reporting, PollEvent::Done) => pause,
        (Phase::Sleeping, PollEvent::Done) => go(Phase::Checking, PollAction::CheckConnection),
        _ => (m, PollAction::Ignore),
    }
}

/// A polling session over one connected device.
#[derive(Debug)]
pub struct Poller {
    mode: Mode,
    interval_secs: u64,
    phase: Phase,
}

impl View for Poller {
    type V = PollModel;

    closed spec fn view(&self) -> PollModel {
        PollModel { mode: self.mode, interval_secs: self.interval_secs, phase: self.phase }
    }
}

impl Poller {
    /// A session in `mode` that pauses `interval_secs` between polls.
    pub fn new(mode: Mode, interval_secs: u64) -> (p: Poller)
        ensures
            p@ == (PollModel { mode, interval_secs, phase: Phase::Idle }),
    {
        Poller { mode, interval_secs, phase: Phase::Idle }
    }

    /// The action the session waits on.
    pub fn phase(&self) -> (r: Phase)
        ensures
            r == self@.phase,
    {
        self.phase
    }

    /// Hands the session one event and learns what to do next. A continuous session
    /// never ends, whatever fails.
    pub fn step(&mut self, ev: PollEvent) -> (act: PollAction)
        ensures
            final(self)@ == poll_step(old(self)@, ev).0,
            act == poll_step(old(self)@, ev).1,
            old(self)@.mode.continuous() ==> !(act is Fail) && !(act is Finish),
    {
        let continuous = self.mode.is_continuous();
        let (phase, act) = match (self.phase, ev) {
            (Phase::Idle, PollEvent::Start) => (Phase::Checking, PollAction::CheckConnection),
            (Phase::Checking, PollEvent::Connection(true)) => (Phase::Reading, PollAction::Read),
            (Phase::Checking, PollEvent::Connection(false)) => (
                Phase::Reconnecting,
                PollAction::Reconnect,
            ),
            (Phase::Reconnecting, PollEvent::Reconnected(true)) => (
                Phase::Resolving,
                PollAction::ResolveEndpoints,
            ),
            (Phase::Reconnecting, PollEvent::Reconnected(false)) => if continuous {
                (Phase::Reporting, PollAction::Report(Error::ConnectionLost))
            } else {
                (Phase::Stopped, PollAction::Fail(Error::ConnectionLost))
            },
            (Phase::Resolving, PollEvent::Resolved) => (Phase::Reading, PollAction::Read),
            (Phase::Reading, PollEvent::Read(Ok(r))) => (Phase::Showing, PollAction::Show(r)),
            (Phase::Reading, PollEvent::Read(Err(e))) => if continuous {
                (Phase::Reporting, PollAction::Report(e))
            } else {
                (Phase::Stopped, PollAction::Fail(e))
            },
            (Phase::Showing, PollEvent::Done) => if continuous {
                (Phase::Sleeping, PollAction::Sleep(self.interval_secs))
            } else {
                (Phase::Stopped, PollAction::Finish)
            },
            (Phase::Reporting, PollEvent::Done) => (
                Phase::Sleeping,
                PollAction::Sleep(self.interval_secs),
            ),
            (Phase::Sleeping, PollEvent::Done) => (Phase::Checking, PollAction::CheckConnection),
            _ => (self.phase, PollAction::Ignore),
        };
        self.phase = phase;
        act
    }
}

/// The state and the actions after a sequence of events.
pub open spec fn poll_run(m: PollModel, evs: Seq<PollEvent>) -> (PollModel, Seq<PollAction>)
    decreases evs.len(),
{
    if evs.len() == 0 {
        (m, Seq::empty())
    } else {
        let (m1, acts) = poll_run(m, evs.drop_last());
        let (m2, act) = poll_step(m1, evs.last());
        (m2, acts.push(act))
    }
}

/// A continuous session never ends, however many polls fail: no sequence of events
/// draws `Fail` or `Finish` from it, and it never stops.
pub proof fn lemma_continuous_never_stops(m: PollModel, evs: Seq<PollEvent>)
    requires
        m.mode.continuous(),
        m.phase != Phase::Stopped,
    ensures
        poll_run(m, evs).0.mode == m.mode,
        poll_run(m, evs).0.phase != Phase::Stopped,
        poll_run(m, evs).1.len() == evs.len(),
        forall|i: int|
            0 <= i < evs.len() ==> !(#[trigger] poll_run(m, evs).1[i] is Fail) && !(poll_run(
                m,
                evs,
            ).1[i] is Finish),
    decreases evs.len(),
{
    if evs.len() > 0 {
        lemma_continuous_never_stops(m, evs.drop_last());
        let acts1 = poll_run(m, evs.drop_last()).1;
        let acts = poll_run(m, evs).1;
        assert forall|i: int| 0 <= i < evs.len() implies !(#[trigger] acts[i] is Fail) && !(
        acts[i] is Finish) by {
            if i < evs.len() - 1 {
                assert(acts[i] == acts1[i]);
            }
        }
    }
}

/// After a reconnection the endpoint table is always rebuilt before the next read.
pub proof fn lemma_reconnect_resolves(m: PollModel)
    requires
        m.phase == Phase::Reconnecting,
    ensures
        poll_step(m, PollEvent::Reconnected(true)).1 == PollAction::ResolveEndpoints,
        poll_step(poll_step(m, PollEvent::Reconnected(true)).0, PollEvent::Resolved).1
            == PollAction::Read,
{
}

} // verus!
