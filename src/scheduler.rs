//! The decisions of the loop that runs update cycles on a fixed interval and
//! stops cooperatively. The loop itself, with its timer and its shutdown
//! signal, belongs to the caller: it reports each event and performs the
//! action that comes back.
use vstd::prelude::*;

verus! {

/// Where the loop stands.
#[derive(Debug, Clone, Copy, PartialEq, Eq, Structural)]
pub enum Phase {
    /// A cycle is executing.
    Running,
    /// Between two cycles, until the interval timer fires.
    Waiting,
    /// The loop has ended.
    Stopped,
}

/// What happened since the last decision.
#[derive(Debug, Clone, Copy, PartialEq, Eq, Structural)]
pub enum Event {
    /// The cycle that was executing has published, or failed.
    CycleFinished,
    /// The interval timer fired.
    TimerFired,
    /// The shutdown signal arrived.
    ShutdownRequested,
}

/// What the caller is to do next.
#[derive(Debug, Clone, Copy, PartialEq, Eq, Structural)]
pub enum Action {
    /// Start a cycle.
    StartCycle,
    /// Keep waiting for the next event: the timer, or the cycle's end.
    Wait,
    /// End the loop.
    Exit,
}

/// The state of the loop: its phase, and whether a shutdown arrived while a
/// cycle was executing and is yet to be observed.
#[derive(Debug, Clone, Copy, PartialEq, Eq, Structural)]
pub struct Scheduler {
    pub phase: Phase,
    pub shutdown_pending: bool,
}

/// The next state and action for an event. A shutdown during the wait ends
/// the loop at once; one during a cycle is held until the cycle has finished.
pub open spec fn next(s: Scheduler, e: Event) -> (Scheduler, Action) {
    match s.phase {
        Phase::Stopped => (s, Action::Exit),
        Phase::Running => match e {
            Event::CycleFinished => if s.shutdown_pending {
                (Scheduler { phase: Phase::Stopped, shutdown_pending: false }, Action::Exit)
            } else {
                (Scheduler { phase: Phase::Waiting, shutdown_pending: false }, Action::Wait)
            },
            Event::TimerFired => (s, Action::Wait),
            Event::ShutdownRequested => (
                Scheduler { phase: Phase::Running, shutdown_pending: true },
                Action::Wait,
            ),
        },
        Phase::Waiting => match e {
            Event::TimerFired => (
                Scheduler { phase: Phase::Running, shutdown_pending: false },
                Action::StartCycle,
            ),
            Event::ShutdownRequested => (
                Scheduler { phase: Phase::Stopped, shutdown_pending: false },
                Action::Exit,
            ),
            Event::CycleFinished => (s, Action::Wait),
        },
    }
}

impl Scheduler {
    /// The loop as it starts: with a cycle right away.
    pub fn new() -> (r: Scheduler)
        ensures
            r.phase == Phase::Running,
            !r.shutdown_pending,
    {
        Scheduler { phase: Phase::Running, shutdown_pending: false }
    }

    /// Takes one event and says what to do next.
    pub fn step(&mut self, e: Event) -> (a: Action)
        ensures
            (*final(self), a) == next(*old(self), e),
    {
        match self.phase {
            Phase::Stopped => Action::Exit,
            Phase::Running => match e {
                Event::CycleFinished => {
                    if self.shutdown_pending {
                        *self = Scheduler { phase: Phase::Stopped, shutdown_pending: false };
                        Action::Exit
                    } else {
                        *self = Scheduler { phase: Phase::Waiting, shutdown_pending: false };
                        Action::Wait
                    }
                },
                Event::TimerFired => Action::Wait,
                Event::ShutdownRequested => {
                    self.shutdown_pending = true;
                    Action::Wait
                },
            },
            Phase::Waiting => match e {
                Event::TimerFired => {
                    *self = Scheduler { phase: Phase::Running, shutdown_pending: false };
                    Action::StartCycle
                },
                Event::ShutdownRequested => {
                    *self = Scheduler { phase: Phase::Stopped, shutdown_pending: false };
                    Action::Exit
                },
                Event::CycleFinished => Action::Wait,
            },
        }
    }

    /// Whether the loop has ended.
    pub fn is_stopped(&self) -> (r: bool)
        ensures
            r == (self.phase == Phase::Stopped),
    {
        matches!(self.phase, Phase::Stopped)
    }
}

/// A shutdown while the loop waits ends it before the timer fires again.
pub proof fn lemma_shutdown_while_waiting(s: Scheduler)
    requires
        s.phase == Phase::Waiting,
    ensures
        next(s, Event::ShutdownRequested).1 == Action::Exit,
        next(s, Event::ShutdownRequested).0.phase == Phase::Stopped,
        forall|e: Event| next(next(s, Event::ShutdownRequested).0, e).1 == Action::Exit,
{
}

/// A shutdown while a cycle executes does not stop it: no cycle is started
/// and no exit comes until the cycle has finished, and then the loop exits.
pub proof fn lemma_shutdown_while_running(s: Scheduler)
    requires
        s.phase == Phase::Running,
    ensures
        next(s, Event::ShutdownRequested).1 == Action::Wait,
        next(s, Event::ShutdownRequested).0.phase == Phase::Running,
        next(next(s, Event::ShutdownRequested).0, Event::TimerFired).1 == Action::Wait,
        next(next(s, Event::ShutdownRequested).0, Event::ShutdownRequested).1 == Action::Wait,
        next(next(s, Event::ShutdownRequested).0, Event::CycleFinished).1 == Action::Exit,
{
}

/// The loop runs cycles one at a time: a cycle starts only from the wait,
/// never while another executes.
pub proof fn lemma_cycles_never_overlap(s: Scheduler, e: Event)
    requires
        next(s, e).1 == Action::StartCycle,
    ensures
        s.phase == Phase::Waiting,
        e == Event::TimerFired,
{
}

} // verus!
