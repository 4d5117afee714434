use orchestration::metrics::{LineEvent, MetricParser, Percentile};
use orchestration::overload::{latency_overloaded, throughput_overloaded};

#[test]
fn target_marker_sets_target_counter() {
    let mut p = MetricParser::new();
    let ev = p.consume_line(b"# target ops/s 1000");
    assert!(matches!(ev, LineEvent::Quiet));
    assert_eq!(p.target_milli, Some(1_000_000));
    assert_eq!(p.actual_milli, None);
}

#[test]
fn generated_marker_sets_actual_counter() {
    let mut p = MetricParser::new();
    let ev = p.consume_line(b"# generated ops/s 750.5");
    assert!(matches!(ev, LineEvent::Quiet));
    assert_eq!(p.actual_milli, Some(750_500));
    assert_eq!(p.target_milli, None);
}

#[test]
fn fractional_value_reads_three_places() {
    let mut p = MetricParser::new();
    p.consume_line(b"# target ops/s 1.2345");
    assert_eq!(p.target_milli, Some(1_234));
}

#[test]
fn counters_populate_at_most_once() {
    let mut p = MetricParser::new();
    p.consume_line(b"# target ops/s 1000");
    p.consume_line(b"# target ops/s 2000");
    assert_eq!(p.target_milli, Some(1_000_000));
}

#[test]
fn malformed_target_value_is_an_error() {
    let mut p = MetricParser::new();
    let ev = p.consume_line(b"# target ops/s abc");
    assert!(matches!(ev, LineEvent::BadThroughput));
    assert_eq!(p.target_milli, None);
}

#[test]
fn overflowing_target_value_is_an_error() {
    let mut p = MetricParser::new();
    let ev = p.consume_line(b"# target ops/s 18446744073709551616");
    assert!(matches!(ev, LineEvent::BadThroughput));
}

#[test]
fn bare_marker_line_is_an_error() {
    let mut p = MetricParser::new();
    let ev = p.consume_line(b"# target ops/s");
    assert!(matches!(ev, LineEvent::BadThroughput));
}

#[test]
fn sojourn_line_yields_sample() {
    let mut p = MetricParser::new();
    let ev = p.consume_line(b"Submit          sojourn         95      4484");
    match ev {
        LineEvent::Latency(s) => {
            assert_eq!(s.endpoint, b"Submit".to_vec());
            assert_eq!(s.percentile, Percentile::P95);
            assert_eq!(s.sojourn_ms, 4484);
        },
        _ => panic!("expected a latency sample"),
    }
}

#[test]
fn other_percentiles_are_recognized() {
    let mut p = MetricParser::new();
    match p.consume_line(b"Story sojourn 50 12") {
        LineEvent::Latency(s) => assert_eq!(s.percentile, Percentile::P50),
        _ => panic!("expected a latency sample"),
    }
    match p.consume_line(b"Story sojourn 99 12") {
        LineEvent::Latency(s) => assert_eq!(s.percentile, Percentile::P99),
        _ => panic!("expected a latency sample"),
    }
    match p.consume_line(b"Story sojourn 100 12") {
        LineEvent::Latency(s) => assert_eq!(s.percentile, Percentile::P100),
        _ => panic!("expected a latency sample"),
    }
}

#[test]
fn exempted_endpoints_are_discarded() {
    let mut p = MetricParser::new();
    assert!(matches!(p.consume_line(b"Login sojourn 95 4484"), LineEvent::Quiet));
    assert!(matches!(p.consume_line(b"Logout sojourn 95 4484"), LineEvent::Quiet));
}

#[test]
fn processing_metric_is_silently_skipped() {
    let mut p = MetricParser::new();
    assert!(matches!(p.consume_line(b"Submit processing 95 4484"), LineEvent::Quiet));
}

#[test]
fn unknown_metric_is_warned_and_skipped() {
    let mut p = MetricParser::new();
    // mentions sojourn, but the metric field is neither sojourn nor processing
    assert!(matches!(p.consume_line(b"Submit latency sojourn 4484"), LineEvent::Warned));
}

#[test]
fn line_without_sojourn_is_quiet() {
    let mut p = MetricParser::new();
    assert!(matches!(p.consume_line(b"Submit latency 95 4484"), LineEvent::Quiet));
    assert!(matches!(p.consume_line(b""), LineEvent::Quiet));
}

#[test]
fn unknown_percentile_is_warned_and_skipped() {
    let mut p = MetricParser::new();
    assert!(matches!(p.consume_line(b"Submit sojourn 97 4484"), LineEvent::Warned));
}

#[test]
fn missing_fields_are_warned_and_skipped() {
    let mut p = MetricParser::new();
    assert!(matches!(p.consume_line(b"Submit sojourn"), LineEvent::Warned));
    assert!(matches!(p.consume_line(b"Submit sojourn 95"), LineEvent::Warned));
}

#[test]
fn unparseable_millis_are_warned_and_skipped() {
    let mut p = MetricParser::new();
    assert!(matches!(p.consume_line(b"Submit sojourn 95 12x"), LineEvent::Warned));
}

#[test]
fn malformed_lines_do_not_stop_the_stream() {
    let mut p = MetricParser::new();
    assert!(matches!(p.consume_line(b"Submit sojourn 95 nonsense"), LineEvent::Warned));
    assert!(matches!(p.consume_line(b"Vote bogus sojourn 1"), LineEvent::Warned));
    // parsing continues: the next lines are still understood
    match p.consume_line(b"Submit sojourn 95 300") {
        LineEvent::Latency(s) => assert_eq!(s.sojourn_ms, 300),
        _ => panic!("expected a latency sample"),
    }
    p.consume_line(b"# target ops/s 10");
    assert_eq!(p.target_milli, Some(10_000));
}

#[test]
fn marker_lines_are_ignored_once_both_counters_are_set() {
    let mut p = MetricParser::new();
    p.consume_line(b"# target ops/s 1000");
    p.consume_line(b"# generated ops/s 900");
    // even a malformed value no longer matters: the counters are closed
    assert!(matches!(p.consume_line(b"# target ops/s abc"), LineEvent::Quiet));
    assert_eq!(p.target_milli, Some(1_000_000));
    assert_eq!(p.actual_milli, Some(900_000));
}

#[test]
fn trailing_dot_and_short_fractions_parse() {
    let mut p = MetricParser::new();
    p.consume_line(b"# target ops/s 5.");
    assert_eq!(p.target_milli, Some(5_000));
    p.consume_line(b"# generated ops/s 5.2");
    assert_eq!(p.actual_milli, Some(5_200));
}

#[test]
fn throughput_threshold_is_four_fifths() {
    // 750 < 0.8 * 1000: overloaded
    assert!(throughput_overloaded(1_000_000, 750_000));
    // 850 >= 0.8 * 1000: fine
    assert!(!throughput_overloaded(1_000_000, 850_000));
    // exactly 0.8: not overloaded (the comparison is strict)
    assert!(!throughput_overloaded(1_000_000, 800_000));
}

#[test]
fn latency_limit_is_200ms_at_p95() {
    let mut p = MetricParser::new();
    let over = match p.consume_line(b"Submit sojourn 95 201") {
        LineEvent::Latency(s) => latency_overloaded(&s),
        _ => panic!("expected a latency sample"),
    };
    assert!(over);
    let at_limit = match p.consume_line(b"Submit sojourn 95 200") {
        LineEvent::Latency(s) => latency_overloaded(&s),
        _ => panic!("expected a latency sample"),
    };
    assert!(!at_limit);
    let p50 = match p.consume_line(b"Submit sojourn 50 5000") {
        LineEvent::Latency(s) => latency_overloaded(&s),
        _ => panic!("expected a latency sample"),
    };
    assert!(!p50);
}
