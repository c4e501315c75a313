//! The monitor: the states of the detection cycle, and the work of one cycle.

use vstd::prelude::*;
use crate::classify::{classify, ClipboardEvent, PathStatus, Snapshot};
use crate::detect::{emits, ChangeDetector, Mark};

verus! {

/// Where a monitor stands: waiting, in a detection cycle, or stopped for good.
#[derive(Debug, Clone, Copy, PartialEq, Eq, Structural)]
pub enum MonitorState {
    Idle,
    Checking,
    Stopped,
}

/// What a driver tells a monitor: that a tick or a notification came, that the cycle
/// it ran is over, or that it is to stop.
#[derive(Debug, Clone, Copy, PartialEq, Eq, Structural)]
pub enum Signal {
    Wake,
    CycleDone,
    Stop,
}

/// What a monitor tells its driver to do next: run a detection cycle, wait for the next
/// signal, or leave its loop.
#[derive(Debug, Clone, Copy, PartialEq, Eq, Structural)]
pub enum Directive {
    RunCycle,
    Wait,
    Exit,
}

/// The part of a monitor that its signals move: its state, and whether a signal to wake
/// came during a cycle and is still owed one.
pub struct Phase {
    pub state: MonitorState,
    pub pending: bool,
}

/// The phase after a signal, and what the driver is told.
///
/// A wake starts a cycle from idle, and is noted while one runs. The end of a cycle
/// starts the next one at once where a wake was noted, and leads back to idle where
/// none was. A stop ends everything, and nothing moves a stopped monitor.
pub open spec fn step(phase: Phase, signal: Signal) -> (Phase, Directive) {
    match (phase.state, signal) {
        (MonitorState::Stopped, _) => (phase, Directive::Exit),
        (_, Signal::Stop) => (
            Phase { state: MonitorState::Stopped, pending: false },
            Directive::Exit,
        ),
        (MonitorState::Idle, Signal::Wake) => (
            Phase { state: MonitorState::Checking, pending: false },
            Directive::RunCycle,
        ),
        (MonitorState::Idle, Signal::CycleDone) => (phase, Directive::Wait),
        (MonitorState::Checking, Signal::Wake) => (
            Phase { state: MonitorState::Checking, pending: true },
            Directive::Wait,
        ),
        (MonitorState::Checking, Signal::CycleDone) => if phase.pending {
            (Phase { state: MonitorState::Checking, pending: false }, Directive::RunCycle)
        } else {
            (Phase { state: MonitorState::Idle, pending: false }, Directive::Wait)
        },
    }
}

/// The phase after a sequence of signals.
pub open spec fn phase_after(phase: Phase, signals: Seq<Signal>) -> Phase
    decreases signals.len(),
{
    if signals.len() == 0 {
        phase
    } else {
        step(phase_after(phase, signals.drop_last()), signals.last()).0
    }
}

/// Drives the cycle of detecting, classifying and reporting, and owns the fingerprint
/// of what was last reported.
#[derive(Debug)]
pub struct Monitor {
    state: MonitorState,
    pending: bool,
    detector: ChangeDetector,
}

impl Monitor {
    /// The state and the noted wake.
    pub closed spec fn phase(&self) -> Phase {
        Phase { state: self.state, pending: self.pending }
    }

    /// The mark of what was last reported, if anything was.
    pub closed spec fn last(&self) -> Option<Mark> {
        self.detector.last()
    }

    /// An idle monitor that has reported nothing.
    pub fn new() -> (out: Monitor)
        ensures
            out.phase() == (Phase { state: MonitorState::Idle, pending: false }),
            out.last() is None,
    {
        Monitor { state: MonitorState::Idle, pending: false, detector: ChangeDetector::new() }
    }

    /// The state of the monitor.
    pub fn state(&self) -> (out: MonitorState)
        ensures
            out == self.phase().state,
    {
        self.state
    }

    /// Takes a signal, and tells the driver what to do next.
    pub fn signal(&mut self, signal: Signal) -> (out: Directive)
        ensures
            (final(self).phase(), out) == step(old(self).phase(), signal),
            final(self).last() == old(self).last(),
    {
        match (self.state, signal) {
            (MonitorState::Stopped, _) => Directive::Exit,
            (_, Signal::Stop) => {
                self.state = MonitorState::Stopped;
                self.pending = false;
                Directive::Exit
            },
            (MonitorState::Idle, Signal::Wake) => {
                self.state = MonitorState::Checking;
                self.pending = false;
                Directive::RunCycle
            },
            (MonitorState::Idle, Signal::CycleDone) => Directive::Wait,
            (MonitorState::Checking, Signal::Wake) => {
                self.pending = true;
                Directive::Wait
            },
            (MonitorState::Checking, Signal::CycleDone) => {
                if self.pending {
                    self.pending = false;
                    Directive::RunCycle
                } else {
                    self.state = MonitorState::Idle;
                    Directive::Wait
                }
            },
        }
    }

    /// The work of one cycle on what was read from the clipboard: classifies the
    /// snapshot and returns the event to report, if its content differs from what was
    /// reported last. `status` is what the file system says of the snapshot's
    /// `probe_target`.
    ///
    /// Outside a cycle nothing is reported and nothing changes.
    pub fn check(&mut self, snapshot: Snapshot, status: PathStatus) -> (out: Option<ClipboardEvent>)
        ensures
            final(self).phase() == old(self).phase(),
            out is Some <==> old(self).phase().state == MonitorState::Checking && snapshot@.outcome(
                status,
            ) is Some && emits(old(self).last(), snapshot@.outcome(status)->0.mark),
            out matches Some(event) ==> event.kind == snapshot@.outcome(status)->0.kind
                && event.payload@ == snapshot@.outcome(status)->0.payload && final(self).last()
                == Some(snapshot@.outcome(status)->0.mark),
            out is None ==> final(self).last() == old(self).last(),
    {
        if self.state != MonitorState::Checking {
            return None;
        }
        match classify(snapshot, status) {
            Some(found) => {
                if self.detector.observe(found.fingerprint) {
                    Some(found.event)
                } else {
                    None
                }
            },
            None => None,
        }
    }
}

/// A cycle is started only when none is running: by a wake in the idle state, or by
/// the end of the cycle before it.
pub proof fn lemma_one_cycle_at_a_time(phase: Phase, signal: Signal)
    requires
        step(phase, signal).1 == Directive::RunCycle,
    ensures
        step(phase, signal).0.state == MonitorState::Checking,
        (phase.state == MonitorState::Idle && signal == Signal::Wake) || (phase.state
            == MonitorState::Checking && signal == Signal::CycleDone),
{
}

/// A wake is not lost: unless the monitor is stopped, it starts a cycle at once, or the
/// end of the running cycle starts one.
pub proof fn lemma_wake_is_served(phase: Phase)
    requires
        phase.state != MonitorState::Stopped,
    ensures
        step(phase, Signal::Wake).1 == Directive::RunCycle || step(
            step(phase, Signal::Wake).0,
            Signal::CycleDone,
        ).1 == Directive::RunCycle,
{
}

/// A stopped monitor stays stopped, and tells its driver to leave, whatever the signals.
pub proof fn lemma_stopped_is_final(phase: Phase, signals: Seq<Signal>)
    requires
        phase.state == MonitorState::Stopped,
    ensures
        phase_after(phase, signals) == phase,
        forall|signal: Signal| step(phase, signal).1 == Directive::Exit,
    decreases signals.len(),
{
    if signals.len() > 0 {
        lemma_stopped_is_final(phase, signals.drop_last());
    }
}

/// A stop signal stops the monitor from any phase.
pub proof fn lemma_stop_stops(phase: Phase)
    ensures
        step(phase, Signal::Stop).0.state == MonitorState::Stopped,
        step(phase, Signal::Stop).1 == Directive::Exit,
{
}

} // verus!
