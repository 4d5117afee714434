use orchestration::artifacts::{artifact_prefix, hist_name, load_line, log_name, stats_name};
use orchestration::cleanup::{cleanup_plan, first_error, CleanupStep};
use orchestration::iteration::{DriverPhase, IterationOutcome};
use orchestration::process::{coordination_addr, driver_config, target_config};
use orchestration::search::{ErrorClass, IterationResult, SearchSession};

#[test]
fn artifact_names_are_scale_derived() {
    assert_eq!(artifact_prefix(500), b"lobsters-direct-500".to_vec());
    assert_eq!(log_name(500), b"lobsters-direct-500.log".to_vec());
    assert_eq!(hist_name(500), b"lobsters-direct-500.hist".to_vec());
    assert_eq!(stats_name(500), b"lobsters-direct-500-statistics.json".to_vec());
}

#[test]
fn distinct_scales_never_share_a_prefix() {
    assert_ne!(artifact_prefix(500), artifact_prefix(501));
    assert_ne!(artifact_prefix(1), artifact_prefix(10));
    assert_eq!(artifact_prefix(0), b"lobsters-direct-0".to_vec());
}

#[test]
fn load_trailer_lines() {
    assert_eq!(load_line(true, b"0.52", b"0.33"), b"# server load: 0.52 0.33\n".to_vec());
    assert_eq!(load_line(false, b"1.08", b"0.97"), b"# client load: 1.08 0.97\n".to_vec());
}

#[test]
fn target_flags_disable_durability_and_reuse() {
    let c = target_config(4);
    assert!(c.durability_memory);
    assert!(c.no_reuse);
    assert_eq!(c.shards, 4);
}

#[test]
fn driver_flags_per_phase() {
    let prime = driver_config(DriverPhase::Prime);
    assert_eq!((prime.warmup_secs, prime.runtime_secs), (0, 0));
    assert!(prime.prime);
    assert!(!prime.histogram);

    let warm = driver_config(DriverPhase::Warm);
    assert_eq!((warm.warmup_secs, warm.runtime_secs), (30, 0));
    assert!(!warm.prime);
    assert!(!warm.histogram);

    let measure = driver_config(DriverPhase::Measure);
    assert_eq!((measure.warmup_secs, measure.runtime_secs), (40, 40));
    assert!(!measure.prime);
    assert!(measure.histogram);
}

#[test]
fn coordination_address_appends_port() {
    assert_eq!(coordination_addr(b"10.0.0.1"), b"10.0.0.1:2181".to_vec());
}

#[test]
fn cleanup_closes_every_host_then_releases_once() {
    let plan = cleanup_plan(2);
    assert_eq!(plan.len(), 3);
    assert_eq!(plan[0], CleanupStep::CloseConnection { host: 0 });
    assert_eq!(plan[1], CleanupStep::CloseConnection { host: 1 });
    assert_eq!(plan[2], CleanupStep::ReleaseResources);
}

#[test]
fn cleanup_with_no_hosts_still_releases() {
    let plan = cleanup_plan(0);
    assert_eq!(plan, vec![CleanupStep::ReleaseResources]);
}

#[test]
fn first_error_wins() {
    assert_eq!(first_error(Some("provision"), Some("search"), Some("release")), Some("provision"));
    assert_eq!(first_error(None, Some("search"), Some("release")), Some("search"));
    assert_eq!(first_error(None::<&str>, None, Some("release")), Some("release"));
    assert_eq!(first_error(None::<&str>, None, None), None);
}

fn outcome(overloaded: bool) -> IterationOutcome {
    IterationOutcome { reached_measure_phase: true, overloaded, client_exit_success: true }
}

#[test]
fn search_reports_overload_exactly_when_told() {
    let mut s = SearchSession::new(500, 500);
    assert_eq!(s.next_scale(), Some(500));
    let d = s.apply(IterationResult::Finished(outcome(true)));
    assert!(d.report_overloaded);
    assert!(!d.abort);
    // the very first scale overloaded: the strategy gives up immediately
    assert_eq!(s.next_scale(), None);
}

#[test]
fn search_continues_on_success() {
    let mut s = SearchSession::new(500, 500);
    assert_eq!(s.next_scale(), Some(500));
    let d = s.apply(IterationResult::Finished(outcome(false)));
    assert!(!d.report_overloaded);
    assert!(!d.abort);
    // the strategy expands upward
    assert_eq!(s.next_scale(), Some(1000));
}

#[test]
fn recoverable_failure_counts_as_overloaded() {
    let mut s = SearchSession::new(500, 500);
    assert_eq!(s.next_scale(), Some(500));
    let d = s.apply(IterationResult::Failed(ErrorClass::IterationRecoverable));
    assert!(d.report_overloaded);
    assert!(!d.abort);
}

#[test]
fn session_fatal_failure_aborts_the_loop() {
    let mut s = SearchSession::new(500, 500);
    assert_eq!(s.next_scale(), Some(500));
    let d = s.apply(IterationResult::Failed(ErrorClass::SessionFatal));
    assert!(!d.report_overloaded);
    assert!(d.abort);
}
