//! The per-iteration state machine: one candidate scale's journey through
//! target start, prime, warm, measure, artifact collection and target
//! teardown. The machine is a pure transition function from state and
//! observed event to new state and next action; the surrounding runner
//! performs each action (spawning, draining streams, stopping the target)
//! and reports what happened as the next event.

use vstd::prelude::*;

use crate::metrics::{LineEvent, MetricParser};
use crate::overload::{latency_overloaded, line_trigger, throughput_overloaded};

verus! {

/// Phases of one benchmark iteration. `Aborted` absorbs every unrecoverable
/// failure; the target stop is still attempted from it.
#[derive(Clone, Copy, PartialEq, Eq, Structural, Debug)]
pub enum Phase {
    Provisioned,
    TargetStarting,
    Priming,
    Warming,
    Measuring,
    Collecting,
    TargetStopping,
    Done,
    Aborted,
}

/// The three driver runs of an iteration, in order.
#[derive(Clone, Copy, PartialEq, Eq, Structural, Debug)]
pub enum DriverPhase {
    Prime,
    Warm,
    Measure,
}

/// What the runner observed since the last step.
#[derive(Clone, Copy, PartialEq, Eq, Structural, Debug)]
pub enum Event {
    /// Start the iteration.
    Begin,
    /// The target process is up.
    TargetSpawned,
    /// The target process could not be spawned.
    TargetSpawnFailed,
    /// A driver process could not be spawned.
    DriverSpawnFailed,
    /// The prime or warm driver exited.
    DriverExited { success: bool },
    /// A data line carried a malformed throughput value.
    LineRejected,
    /// The measure driver's data stream reached its end.
    DataStreamEnded,
    /// Artifact collection was attempted (partial failures included).
    ArtifactsCollected,
    /// The measure driver's exit status arrived.
    MeasureExited { success: bool },
    /// The target stop was attempted.
    TargetStopped { clean: bool },
    /// Connection loss or a local file-system failure.
    Fatal,
}

/// What the runner must do next.
#[derive(Clone, Copy, PartialEq, Eq, Structural, Debug)]
pub enum Action {
    SpawnTarget,
    SpawnDriver(DriverPhase),
    CollectArtifacts,
    AwaitExit,
    StopTarget,
    Finish,
}

/// The verdict of one iteration, always produced, even from `Aborted`.
#[derive(Clone, Copy, PartialEq, Eq, Structural, Debug)]
pub struct IterationOutcome {
    pub reached_measure_phase: bool,
    pub overloaded: bool,
    pub client_exit_success: bool,
}

/// One iteration's full state.
#[derive(Clone, Copy, Debug)]
pub struct Iteration {
    pub scale: usize,
    pub phase: Phase,
    pub metrics: MetricParser,
    pub overloaded: bool,
    pub reached_measure_phase: bool,
    pub client_exit_success: bool,
    pub target_spawned: bool,
}

/// A phase from which no further event is consumed.
pub open spec fn terminal(ph: Phase) -> bool {
    ph == Phase::Done || ph == Phase::Aborted
}

/// Which events a phase can consume.
pub open spec fn accepts(ph: Phase, ev: Event) -> bool {
    match ph {
        Phase::Provisioned => ev == Event::Begin || ev == Event::Fatal,
        Phase::TargetStarting => ev == Event::TargetSpawned || ev == Event::TargetSpawnFailed
            || ev == Event::Fatal,
        Phase::Priming => ev matches Event::DriverExited { .. } || ev == Event::DriverSpawnFailed
            || ev == Event::Fatal,
        Phase::Warming => ev matches Event::DriverExited { .. } || ev == Event::DriverSpawnFailed
            || ev == Event::Fatal,
        Phase::Measuring => ev == Event::DriverSpawnFailed || ev == Event::LineRejected || ev
            == Event::DataStreamEnded || ev == Event::Fatal,
        Phase::Collecting => ev == Event::ArtifactsCollected || ev matches Event::MeasureExited {
            ..
        } || ev == Event::Fatal,
        Phase::TargetStopping => ev matches Event::TargetStopped { .. },
        Phase::Aborted => ev matches Event::TargetStopped { .. },
        Phase::Done => false,
    }
}

/// The state after an unrecoverable failure: aborted and conservatively
/// overloaded.
pub open spec fn aborted(s: Iteration) -> Iteration {
    Iteration { phase: Phase::Aborted, overloaded: true, ..s }
}

/// The transition function. The paired action is what the runner performs
/// before reporting the next event.
pub open spec fn spec_step(s: Iteration, ev: Event) -> (Iteration, Action)
    recommends
        accepts(s.phase, ev),
{
    match (s.phase, ev) {
        (Phase::Provisioned, Event::Begin) => (
            Iteration { phase: Phase::TargetStarting, ..s },
            Action::SpawnTarget,
        ),
        (Phase::TargetStarting, Event::TargetSpawned) => (
            Iteration { phase: Phase::Priming, target_spawned: true, ..s },
            Action::SpawnDriver(DriverPhase::Prime),
        ),
        (Phase::TargetStarting, Event::TargetSpawnFailed) => (aborted(s), Action::StopTarget),
        (Phase::Priming, Event::DriverExited { success }) => if success {
            (Iteration { phase: Phase::Warming, ..s }, Action::SpawnDriver(DriverPhase::Warm))
        } else {
            (
                Iteration { phase: Phase::TargetStopping, overloaded: true, ..s },
                Action::StopTarget,
            )
        },
        (Phase::Warming, Event::DriverExited { success }) => if success {
            (
                Iteration { phase: Phase::Measuring, reached_measure_phase: true, ..s },
                Action::SpawnDriver(DriverPhase::Measure),
            )
        } else {
            (
                Iteration { phase: Phase::TargetStopping, overloaded: true, ..s },
                Action::StopTarget,
            )
        },
        (Phase::Measuring, Event::DataStreamEnded) => (
            Iteration {
                phase: Phase::Collecting,
                overloaded: s.overloaded || !s.metrics.complete(),
                ..s
            },
            Action::CollectArtifacts,
        ),
        (Phase::Measuring, Event::LineRejected) => (aborted(s), Action::StopTarget),
        (Phase::Collecting, Event::ArtifactsCollected) => (s, Action::AwaitExit),
        (Phase::Collecting, Event::MeasureExited { success }) => (
            Iteration {
                phase: Phase::TargetStopping,
                overloaded: s.overloaded || !success,
                client_exit_success: success,
                ..s
            },
            Action::StopTarget,
        ),
        (Phase::TargetStopping, Event::TargetStopped { .. }) => (
            Iteration { phase: Phase::Done, ..s },
            Action::Finish,
        ),
        (Phase::Aborted, Event::TargetStopped { .. }) => (s, Action::Finish),
        (_, Event::DriverSpawnFailed) => (aborted(s), Action::StopTarget),
        (_, Event::Fatal) => (aborted(s), Action::StopTarget),
        _ => (s, Action::Finish),
    }
}

/// The verdict read off a state.
pub open spec fn spec_outcome(s: Iteration) -> IterationOutcome {
    IterationOutcome {
        reached_measure_phase: s.reached_measure_phase,
        overloaded: s.overloaded,
        client_exit_success: s.client_exit_success,
    }
}

impl Iteration {
    /// The state in which an iteration for `scale` starts.
    pub open spec fn initial(scale: usize) -> Iteration {
        Iteration {
            scale,
            phase: Phase::Provisioned,
            metrics: MetricParser::initial(),
            overloaded: false,
            reached_measure_phase: false,
            client_exit_success: false,
            target_spawned: false,
        }
    }

    pub fn new(scale: usize) -> (it: Iteration)
        ensures
            it == Iteration::initial(scale),
    {
        Iteration {
            scale,
            phase: Phase::Provisioned,
            metrics: MetricParser::new(),
            overloaded: false,
            reached_measure_phase: false,
            client_exit_success: false,
            target_spawned: false,
        }
    }

    /// Consume one event; returns the action the runner performs next.
    pub fn step(&mut self, ev: Event) -> (a: Action)
        requires
            accepts(old(self).phase, ev),
        ensures
            ({
                let (s2, a2) = spec_step(*old(self), ev);
                *final(self) == s2 && a == a2
            }),
    {
        match (self.phase, ev) {
            (Phase::Provisioned, Event::Begin) => {
                self.phase = Phase::TargetStarting;
                Action::SpawnTarget
            },
            (Phase::TargetStarting, Event::TargetSpawned) => {
                self.phase = Phase::Priming;
                self.target_spawned = true;
                Action::SpawnDriver(DriverPhase::Prime)
            },
            (Phase::TargetStarting, Event::TargetSpawnFailed) => {
                self.phase = Phase::Aborted;
                self.overloaded = true;
                Action::StopTarget
            },
            (Phase::Priming, Event::DriverExited { success }) => {
                if success {
                    self.phase = Phase::Warming;
                    Action::SpawnDriver(DriverPhase::Warm)
                } else {
                    self.phase = Phase::TargetStopping;
                    self.overloaded = true;
                    Action::StopTarget
                }
            },
            (Phase::Warming, Event::DriverExited { success }) => {
                if success {
                    self.phase = Phase::Measuring;
                    self.reached_measure_phase = true;
                    Action::SpawnDriver(DriverPhase::Measure)
                } else {
                    self.phase = Phase::TargetStopping;
                    self.overloaded = true;
                    Action::StopTarget
                }
            },
            (Phase::Measuring, Event::DataStreamEnded) => {
                if !self.metrics.is_complete() {
                    self.overloaded = true;
                }
                self.phase = Phase::Collecting;
                Action::CollectArtifacts
            },
            (Phase::Measuring, Event::LineRejected) => {
                self.phase = Phase::Aborted;
                self.overloaded = true;
                Action::StopTarget
            },
            (Phase::Collecting, Event::ArtifactsCollected) => Action::AwaitExit,
            (Phase::Collecting, Event::MeasureExited { success }) => {
                if !success {
                    self.overloaded = true;
                }
                self.client_exit_success = success;
                self.phase = Phase::TargetStopping;
                Action::StopTarget
            },
            (Phase::TargetStopping, Event::TargetStopped { .. }) => {
                self.phase = Phase::Done;
                Action::Finish
            },
            (Phase::Aborted, Event::TargetStopped { .. }) => Action::Finish,
            (_, Event::DriverSpawnFailed) => {
                self.phase = Phase::Aborted;
                self.overloaded = true;
                Action::StopTarget
            },
            (_, Event::Fatal) => {
                self.phase = Phase::Aborted;
                self.overloaded = true;
                Action::StopTarget
            },
            _ => Action::Finish,
        }
    }

    /// Feed one measure-phase data line through the parser and the overload
    /// evaluator. The returned event tells the runner what to log, and
    /// whether the line must be rejected (`LineEvent::BadThroughput`).
    pub fn consume_data_line(&mut self, line: &[u8]) -> (ev: LineEvent)
        requires
            old(self).phase == Phase::Measuring,
        ensures
            *final(self) == (Iteration {
                metrics: old(self).metrics.spec_throughput_step(line@).0,
                overloaded: old(self).overloaded || line_trigger(old(self).metrics, line@),
                ..*old(self)
            }),
            ev@ == old(self).metrics.spec_line_event(line@),
    {
        let was_complete = self.metrics.is_complete();
        let ev = self.metrics.consume_line(line);
        if !was_complete {
            if let (Some(t), Some(a)) = (self.metrics.target_milli, self.metrics.actual_milli) {
                if throughput_overloaded(t, a) {
                    self.overloaded = true;
                }
            }
        }
        match &ev {
            LineEvent::Latency(s) => {
                if latency_overloaded(s) {
                    self.overloaded = true;
                }
            },
            _ => {},
        }
        ev
    }

    /// Read the verdict off a finished iteration.
    pub fn outcome(&self) -> (oc: IterationOutcome)
        requires
            terminal(self.phase),
        ensures
            oc == spec_outcome(*self),
    {
        IterationOutcome {
            reached_measure_phase: self.reached_measure_phase,
            overloaded: self.overloaded,
            client_exit_success: self.client_exit_success,
        }
    }
}

/// Law: when the prime-phase driver exits without success, the iteration
/// goes straight to target teardown — overloaded, the measure phase never
/// reached — and the returned action stops the target.
pub proof fn lemma_prime_failure_short_circuits(s: Iteration)
    requires
        s.phase == Phase::Priming,
        !s.reached_measure_phase,
    ensures
        ({
            let (s2, a) = spec_step(s, Event::DriverExited { success: false });
            &&& a == Action::StopTarget
            &&& s2.phase == Phase::TargetStopping
            &&& s2.overloaded
            &&& !s2.reached_measure_phase
        }),
{
}

/// Law: a warm driver is spawned only by a successful prime exit, and a
/// measure driver only by a successful warm exit; after a failed prime no
/// step can ever spawn a warm or measure driver.
pub proof fn lemma_driver_spawns_need_success(s: Iteration, ev: Event)
    ensures
        spec_step(s, ev).1 == Action::SpawnDriver(DriverPhase::Warm) ==> s.phase == Phase::Priming
            && ev == (Event::DriverExited { success: true }),
        spec_step(s, ev).1 == Action::SpawnDriver(DriverPhase::Measure) ==> s.phase
            == Phase::Warming && ev == (Event::DriverExited { success: true }),
{
}

/// Law: when the data stream ends before both throughput counters were
/// seen, artifacts are still collected and the iteration is overloaded.
pub proof fn lemma_missing_telemetry_overloads(s: Iteration)
    requires
        s.phase == Phase::Measuring,
        !s.metrics.complete(),
    ensures
        ({
            let (s2, a) = spec_step(s, Event::DataStreamEnded);
            &&& a == Action::CollectArtifacts
            &&& s2.phase == Phase::Collecting
            &&& s2.overloaded
        }),
{
}

/// Law: when the target process fails to spawn, the iteration aborts as
/// overloaded, the target stop is still requested, and the outcome after
/// the stop attempt reports overload with the measure phase never reached.
pub proof fn lemma_target_spawn_failure_aborts(s: Iteration, clean: bool)
    requires
        s.phase == Phase::TargetStarting,
        !s.reached_measure_phase,
    ensures
        ({
            let (s2, a) = spec_step(s, Event::TargetSpawnFailed);
            &&& a == Action::StopTarget
            &&& s2.phase == Phase::Aborted
            &&& ({
                let (s3, a3) = spec_step(s2, Event::TargetStopped { clean });
                &&& a3 == Action::Finish
                &&& s3.phase == Phase::Aborted
                &&& spec_outcome(s3).overloaded
                &&& !spec_outcome(s3).reached_measure_phase
            })
        }),
{
}

/// Law: the overload verdict is monotone — once an iteration is marked
/// overloaded, no later event clears the mark, so reporting a trigger
/// more than once has the same effect as reporting it once.
pub proof fn lemma_overload_monotone(s: Iteration, ev: Event)
    ensures
        s.overloaded ==> spec_step(s, ev).0.overloaded,
{
}

/// Law: the aborted state is absorbing — no later event leaves it.
pub proof fn lemma_aborted_absorbing(s: Iteration, ev: Event)
    requires
        s.phase == Phase::Aborted,
        accepts(s.phase, ev),
    ensures
        spec_step(s, ev).0.phase == Phase::Aborted,
        spec_step(s, ev).0.overloaded == s.overloaded,
{
}

} // verus!
