use orchestration::iteration::{Action, DriverPhase, Event, Iteration, Phase};
use orchestration::metrics::LineEvent;

fn run_to_measuring(it: &mut Iteration) {
    assert_eq!(it.step(Event::Begin), Action::SpawnTarget);
    assert_eq!(it.step(Event::TargetSpawned), Action::SpawnDriver(DriverPhase::Prime));
    assert_eq!(
        it.step(Event::DriverExited { success: true }),
        Action::SpawnDriver(DriverPhase::Warm)
    );
    assert_eq!(
        it.step(Event::DriverExited { success: true }),
        Action::SpawnDriver(DriverPhase::Measure)
    );
    assert_eq!(it.phase, Phase::Measuring);
}

#[test]
fn healthy_iteration_is_not_overloaded() {
    // candidate scale 500; prime and warm succeed; the measure stream
    // reports 850 achieved against 1000 offered and a mild p95 sample
    let mut it = Iteration::new(500);
    run_to_measuring(&mut it);
    assert!(matches!(it.consume_data_line(b"# target ops/s 1000"), LineEvent::Quiet));
    assert!(matches!(it.consume_data_line(b"# generated ops/s 850"), LineEvent::Quiet));
    assert!(matches!(it.consume_data_line(b"Submit sojourn 95 150"), LineEvent::Latency(_)));
    assert_eq!(it.step(Event::DataStreamEnded), Action::CollectArtifacts);
    assert_eq!(it.step(Event::ArtifactsCollected), Action::AwaitExit);
    assert_eq!(it.step(Event::MeasureExited { success: true }), Action::StopTarget);
    assert_eq!(it.step(Event::TargetStopped { clean: true }), Action::Finish);
    let oc = it.outcome();
    assert!(!oc.overloaded);
    assert!(oc.reached_measure_phase);
    assert!(oc.client_exit_success);
}

#[test]
fn throughput_shortfall_overloads() {
    let mut it = Iteration::new(500);
    run_to_measuring(&mut it);
    it.consume_data_line(b"# target ops/s 1000");
    it.consume_data_line(b"# generated ops/s 750");
    assert!(it.overloaded);
    it.step(Event::DataStreamEnded);
    it.step(Event::ArtifactsCollected);
    it.step(Event::MeasureExited { success: true });
    it.step(Event::TargetStopped { clean: true });
    assert!(it.outcome().overloaded);
}

#[test]
fn high_p95_sojourn_overloads() {
    let mut it = Iteration::new(500);
    run_to_measuring(&mut it);
    it.consume_data_line(b"# target ops/s 1000");
    it.consume_data_line(b"# generated ops/s 999");
    it.consume_data_line(b"Submit sojourn 95 4484");
    assert!(it.overloaded);
}

#[test]
fn exempted_endpoint_does_not_overload() {
    let mut it = Iteration::new(500);
    run_to_measuring(&mut it);
    it.consume_data_line(b"Login sojourn 95 4484");
    it.consume_data_line(b"Logout sojourn 95 4484");
    assert!(!it.overloaded);
}

#[test]
fn other_percentiles_do_not_overload() {
    let mut it = Iteration::new(500);
    run_to_measuring(&mut it);
    it.consume_data_line(b"Submit sojourn 50 4484");
    it.consume_data_line(b"Submit sojourn 99 4484");
    it.consume_data_line(b"Submit sojourn 100 4484");
    assert!(!it.overloaded);
}

#[test]
fn failed_prime_goes_straight_to_teardown() {
    let mut it = Iteration::new(500);
    assert_eq!(it.step(Event::Begin), Action::SpawnTarget);
    assert_eq!(it.step(Event::TargetSpawned), Action::SpawnDriver(DriverPhase::Prime));
    // the prime driver exits with a failure: no warm, no measure
    assert_eq!(it.step(Event::DriverExited { success: false }), Action::StopTarget);
    assert_eq!(it.phase, Phase::TargetStopping);
    assert_eq!(it.step(Event::TargetStopped { clean: true }), Action::Finish);
    let oc = it.outcome();
    assert!(oc.overloaded);
    assert!(!oc.reached_measure_phase);
}

#[test]
fn failed_warm_goes_straight_to_teardown() {
    let mut it = Iteration::new(500);
    it.step(Event::Begin);
    it.step(Event::TargetSpawned);
    it.step(Event::DriverExited { success: true });
    assert_eq!(it.step(Event::DriverExited { success: false }), Action::StopTarget);
    it.step(Event::TargetStopped { clean: true });
    let oc = it.outcome();
    assert!(oc.overloaded);
    assert!(!oc.reached_measure_phase);
}

#[test]
fn missing_throughput_fields_overload_but_still_collect() {
    let mut it = Iteration::new(500);
    run_to_measuring(&mut it);
    it.consume_data_line(b"# target ops/s 1000");
    // the stream ends without the generated counter
    assert_eq!(it.step(Event::DataStreamEnded), Action::CollectArtifacts);
    assert!(it.overloaded);
    assert_eq!(it.step(Event::ArtifactsCollected), Action::AwaitExit);
    it.step(Event::MeasureExited { success: true });
    it.step(Event::TargetStopped { clean: true });
    assert!(it.outcome().overloaded);
}

#[test]
fn failed_measure_exit_overloads() {
    let mut it = Iteration::new(500);
    run_to_measuring(&mut it);
    it.consume_data_line(b"# target ops/s 1000");
    it.consume_data_line(b"# generated ops/s 999");
    it.step(Event::DataStreamEnded);
    it.step(Event::ArtifactsCollected);
    it.step(Event::MeasureExited { success: false });
    it.step(Event::TargetStopped { clean: true });
    let oc = it.outcome();
    assert!(oc.overloaded);
    assert!(!oc.client_exit_success);
}

#[test]
fn target_spawn_failure_aborts_but_still_stops_target() {
    let mut it = Iteration::new(500);
    assert_eq!(it.step(Event::Begin), Action::SpawnTarget);
    // the target never comes up; the stop is attempted anyway
    assert_eq!(it.step(Event::TargetSpawnFailed), Action::StopTarget);
    assert_eq!(it.phase, Phase::Aborted);
    assert_eq!(it.step(Event::TargetStopped { clean: true }), Action::Finish);
    assert_eq!(it.phase, Phase::Aborted);
    let oc = it.outcome();
    assert!(oc.overloaded);
    assert!(!oc.reached_measure_phase);
}

#[test]
fn driver_spawn_failure_aborts() {
    let mut it = Iteration::new(500);
    it.step(Event::Begin);
    it.step(Event::TargetSpawned);
    assert_eq!(it.step(Event::DriverSpawnFailed), Action::StopTarget);
    assert_eq!(it.phase, Phase::Aborted);
    it.step(Event::TargetStopped { clean: false });
    assert!(it.outcome().overloaded);
}

#[test]
fn rejected_line_aborts_the_iteration() {
    let mut it = Iteration::new(500);
    run_to_measuring(&mut it);
    let ev = it.consume_data_line(b"# target ops/s nonsense");
    assert!(matches!(ev, LineEvent::BadThroughput));
    assert_eq!(it.step(Event::LineRejected), Action::StopTarget);
    assert_eq!(it.phase, Phase::Aborted);
    it.step(Event::TargetStopped { clean: true });
    assert!(it.outcome().overloaded);
}

#[test]
fn fatal_error_aborts_from_any_phase() {
    let mut it = Iteration::new(500);
    it.step(Event::Begin);
    it.step(Event::TargetSpawned);
    it.step(Event::DriverExited { success: true });
    assert_eq!(it.step(Event::Fatal), Action::StopTarget);
    assert_eq!(it.phase, Phase::Aborted);
    it.step(Event::TargetStopped { clean: true });
    assert!(it.outcome().overloaded);
}

#[test]
fn unclean_target_stop_is_not_fatal() {
    let mut it = Iteration::new(500);
    run_to_measuring(&mut it);
    it.consume_data_line(b"# target ops/s 1000");
    it.consume_data_line(b"# generated ops/s 999");
    it.step(Event::DataStreamEnded);
    it.step(Event::ArtifactsCollected);
    it.step(Event::MeasureExited { success: true });
    // the stop itself failed; that is logged, not escalated
    assert_eq!(it.step(Event::TargetStopped { clean: false }), Action::Finish);
    assert_eq!(it.phase, Phase::Done);
    assert!(!it.outcome().overloaded);
}
