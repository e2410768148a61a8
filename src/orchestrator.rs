//! The host's run, as a state machine: channels, the isolated RPC driver and
//! its readiness handshake, the guest's run, and teardown. The host performs
//! each step and reports what happened; this decides what may come next.
//! Also the drain of the guest's diagnostic channel.
use vstd::prelude::*;

verus! {

/// Size of each in-memory pipe between host and guest: far above any
/// message, so that neither direction waits on the other to drain.
pub const PIPE_BUFFER_SIZE: usize = 33554432;

#[derive(Clone, Copy, PartialEq, Eq, Structural, Debug)]
pub enum Phase {
    Init,
    ChannelsCreated,
    DriverSpawned,
    AwaitingReady,
    Ready,
    GuestRunning,
    GuestExited,
    TornDown,
    /// Startup failed: the driver did not start, or never signalled readiness.
    Aborted,
}

#[derive(Clone, Copy, PartialEq, Eq, Structural, Debug)]
pub enum Event {
    /// The two duplex pipes and the diagnostic pipe exist.
    ChannelsAllocated,
    /// The driver thread is running.
    DriverSpawned,
    /// The driver thread could not be started.
    DriverSpawnFailed,
    /// The host has begun to wait for the readiness signal.
    WaitingForReady,
    /// The driver signalled that it is bound and listening.
    ReadySignalled,
    /// The driver went away without signalling.
    ReadySignalLost,
    /// The guest module has been started on its stdio.
    GuestStarted,
    /// The guest module returned: cleanly (`true`) or with a failure.
    GuestReturned(bool),
    /// The guest's channel ends are closed, and the driver and the drain are
    /// joined.
    TeardownFinished,
}

/// The phase an event leads to, or `None` where it cannot happen in `p`.
pub open spec fn next_phase(p: Phase, e: Event) -> Option<Phase> {
    match (p, e) {
        (Phase::Init, Event::ChannelsAllocated) => Some(Phase::ChannelsCreated),
        (Phase::ChannelsCreated, Event::DriverSpawned) => Some(Phase::DriverSpawned),
        (Phase::ChannelsCreated, Event::DriverSpawnFailed) => Some(Phase::Aborted),
        (Phase::DriverSpawned, Event::WaitingForReady) => Some(Phase::AwaitingReady),
        (Phase::AwaitingReady, Event::ReadySignalled) => Some(Phase::Ready),
        (Phase::AwaitingReady, Event::ReadySignalLost) => Some(Phase::Aborted),
        (Phase::Ready, Event::GuestStarted) => Some(Phase::GuestRunning),
        (Phase::GuestRunning, Event::GuestReturned(_)) => Some(Phase::GuestExited),
        (Phase::GuestExited, Event::TeardownFinished) => Some(Phase::TornDown),
        _ => None,
    }
}

/// An event that cannot happen in the phase the run is in.
#[derive(Clone, Copy, PartialEq, Eq, Structural, Debug)]
pub struct UnexpectedEvent {
    pub phase: Phase,
    pub event: Event,
}

pub struct Orchestrator {
    phase: Phase,
    guest_clean: bool,
}

impl Orchestrator {
    pub closed spec fn phase_of(&self) -> Phase {
        self.phase
    }

    /// Whether the guest, once it returned, returned cleanly.
    pub closed spec fn guest_clean_of(&self) -> bool {
        self.guest_clean
    }

    pub fn new() -> (r: Self)
        ensures
            r.phase_of() == Phase::Init,
    {
        Orchestrator { phase: Phase::Init, guest_clean: false }
    }

    pub fn phase(&self) -> (r: Phase)
        ensures
            r == self.phase_of(),
    {
        self.phase
    }

    /// Records an event. One that cannot happen now is refused and changes
    /// nothing.
    pub fn handle(&mut self, e: Event) -> (r: Result<Phase, UnexpectedEvent>)
        ensures
            match next_phase(old(self).phase_of(), e) {
                Some(p) => r == Ok::<Phase, UnexpectedEvent>(p) && final(self).phase_of() == p,
                None => r == Err::<Phase, UnexpectedEvent>(UnexpectedEvent { phase: old(self).phase_of(), event: e })
                    && final(self).phase_of() == old(self).phase_of(),
            },
            e is GuestReturned && next_phase(old(self).phase_of(), e) is Some
                ==> final(self).guest_clean_of() == e->GuestReturned_0,
            !(e is GuestReturned) ==> final(self).guest_clean_of() == old(self).guest_clean_of(),
    {
        let next: Option<Phase> = match (self.phase, e) {
            (Phase::Init, Event::ChannelsAllocated) => Some(Phase::ChannelsCreated),
            (Phase::ChannelsCreated, Event::DriverSpawned) => Some(Phase::DriverSpawned),
            (Phase::ChannelsCreated, Event::DriverSpawnFailed) => Some(Phase::Aborted),
            (Phase::DriverSpawned, Event::WaitingForReady) => Some(Phase::AwaitingReady),
            (Phase::AwaitingReady, Event::ReadySignalled) => Some(Phase::Ready),
            (Phase::AwaitingReady, Event::ReadySignalLost) => Some(Phase::Aborted),
            (Phase::Ready, Event::GuestStarted) => Some(Phase::GuestRunning),
            (Phase::GuestRunning, Event::GuestReturned(clean)) => {
                self.guest_clean = clean;
                Some(Phase::GuestExited)
            },
            (Phase::GuestExited, Event::TeardownFinished) => Some(Phase::TornDown),
            _ => None,
        };
        match next {
            Some(p) => {
                self.phase = p;
                Ok(p)
            },
            None => Err(UnexpectedEvent { phase: self.phase, event: e }),
        }
    }

    /// The run succeeded: it was torn down in order. A guest that returned a
    /// failure does not make the run fail.
    pub fn succeeded(&self) -> (r: bool)
        ensures
            r == (self.phase_of() == Phase::TornDown),
    {
        self.phase == Phase::TornDown
    }
}

/// The guest starts only once the driver has signalled readiness, and
/// nothing follows an aborted startup.
pub proof fn lemma_guest_waits_for_ready(p: Phase, e: Event)
    ensures
        next_phase(p, e) == Some(Phase::GuestRunning) ==> p == Phase::Ready,
        next_phase(p, e) == Some(Phase::Ready) ==> p == Phase::AwaitingReady && e == Event::ReadySignalled,
        next_phase(Phase::Aborted, e) is None,
        next_phase(Phase::TornDown, e) is None,
{
}

/// What the drain of the diagnostic channel does after one read.
#[derive(Clone, Copy, PartialEq, Eq, Structural, Debug)]
pub enum DrainAction {
    /// Forward the line, then read again.
    Forward,
    /// End of the channel: stop.
    Finish,
    /// The read failed: warn and stop; the run goes on.
    Abandon,
}

/// `Some(n)`: a read of `n` bytes; `None`: the read failed.
pub fn drain_action(read: Option<usize>) -> (r: DrainAction)
    ensures
        r == match read {
            Some(0) => DrainAction::Finish,
            Some(_) => DrainAction::Forward,
            None => DrainAction::Abandon,
        },
{
    match read {
        Some(0) => DrainAction::Finish,
        Some(_) => DrainAction::Forward,
        None => DrainAction::Abandon,
    }
}

pub open spec fn is_line_end(b: u8) -> bool {
    b == 10 || b == 13
}

/// The length of `line` without its trailing run of `\n` and `\r`.
pub fn trimmed_len(line: &[u8]) -> (r: usize)
    ensures
        r <= line@.len(),
        forall|j: int| r <= j < line@.len() ==> is_line_end(#[trigger] line@[j]),
        r > 0 ==> !is_line_end(line@[r - 1]),
{
    let mut r: usize = line.len();
    while r > 0 && (line[r - 1] == 10 || line[r - 1] == 13)
        invariant
            r <= line@.len(),
            forall|j: int| r <= j < line@.len() ==> is_line_end(#[trigger] line@[j]),
        decreases r,
    {
        r = r - 1;
    }
    r
}

} // verus!
