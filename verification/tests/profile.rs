use std::time::{Duration, Instant};

use pls_reply::profile::Profile;

fn millis(nanos: u128) -> f64 {
    nanos as f64 / 1_000_000.0
}

#[test]
fn failed_phase_is_partial_and_durations_partition_total() {
    let start = Instant::now();
    let mut profile = Profile::new(true, start);
    profile.enter_at("config", start + Duration::from_millis(2));
    let report = profile.finish(start + Duration::from_millis(5), false);
    assert_eq!(millis(report.total_nanos), 5.0);
    assert_eq!(millis(report.phases[0].nanos), 2.0);
    assert_eq!(millis(report.phases[1].nanos), 3.0);
    assert_eq!(report.phases[1].incomplete, true);
    assert_eq!(report.failed_phase.as_deref(), Some("config"));
    assert!(report.first_content_to_flush_nanos.is_none());
}

#[test]
fn total_runs_from_the_start_instant() {
    let start = Instant::now();
    let mut profile = Profile::new(true, start);
    profile.flushed(Some(start + Duration::from_millis(1)), false);
    let report = profile.finish(start + Duration::from_micros(7250), true);
    assert_eq!(report.total_nanos, 7_250_000);
    assert_eq!(report.phases.len(), 1);
    assert_eq!(report.phases[0].nanos, 7_250_000);
}

#[test]
fn instants_before_the_start() {
    let now = Instant::now();
    let start = now + Duration::from_millis(10);
    let mut profile = Profile::new(true, start);
    profile.enter_at("config", now + Duration::from_millis(2));
    let report = profile.finish(now + Duration::from_millis(5), false);
    assert_eq!(report.total_nanos, 0);
    assert_eq!(report.phases[0].nanos, 0);
    assert_eq!(report.phases[1].nanos, 3_000_000);
}

#[test]
fn streaming_phases_partition_time_and_output_overlaps() {
    let mut profile = Profile::new(true, Instant::now());
    profile.enter("request to first content");
    profile.content();
    profile.flushed(profile.clock(), true);
    let first_flush = profile.first_flush_nanos();
    profile.content();
    profile.flushed(profile.clock(), true);
    assert_eq!(profile.first_flush_nanos(), first_flush);
    profile.stream_finished();
    let report = profile.finish(Instant::now(), true);
    let phases = &report.phases;
    assert!(phases.iter().any(|p| p.name == "streaming content"));
    assert!(phases.iter().any(|p| p.name == "stream tail"));
    let sum: f64 = phases.iter().map(|p| millis(p.nanos)).sum();
    assert!((sum - millis(report.total_nanos)).abs() < 0.000001);
    assert!(report.failed_phase.is_none());
    assert!(report.first_content_to_flush_nanos.is_some());
}

#[test]
fn empty_stream_has_no_content_metrics() {
    let mut profile = Profile::new(true, Instant::now());
    profile.enter("request to first content");
    profile.flushed(profile.clock(), false);
    profile.stream_finished();
    let report = profile.finish(Instant::now(), true);
    assert!(report.first_content_to_flush_nanos.is_none());
    assert!(!report
        .phases
        .iter()
        .any(|p| p.name == "stream tail" || p.name == "streaming content"));
}

#[test]
fn disabled_profile_does_not_collect() {
    let mut profile = Profile::default();
    profile.enter("request");
    profile.content();
    profile.flushed(profile.clock(), true);
    profile.stream_finished();
    assert!(profile.clock().is_none());
    assert!(!profile.is_enabled());
}

#[test]
fn recorded_phases_at_given_times() {
    let mut profile = Profile::new(true, Instant::now());
    profile.record_enter("config", 10);
    profile.record_enter("request to first content", 25);
    profile.record_content(40);
    profile.record_flushed(Some(41), true, 45);
    profile.record_content(60);
    profile.record_flushed(Some(61), true, 62);
    profile.record_stream_finished(70);
    let report = profile.report_at(100, true);
    let names: Vec<&str> = report.phases.iter().map(|p| p.name.as_str()).collect();
    assert_eq!(
        names,
        vec![
            "startup / arguments",
            "config",
            "request to first content",
            "streaming content",
            "stream tail",
            "response finalization / stats",
        ]
    );
    let nanos: Vec<u128> = report.phases.iter().map(|p| p.nanos).collect();
    assert_eq!(nanos, vec![10, 15, 15, 20, 10, 30]);
    assert_eq!(report.total_nanos, 100);
    assert_eq!(report.first_content_to_flush_nanos, Some(5));
    assert_eq!(report.output_nanos, 5);
    assert_eq!(report.outcome(), "success");
    assert!(!profile.is_enabled());
}

#[test]
fn failure_outcome_is_error() {
    let mut profile = Profile::new(true, Instant::now());
    profile.record_enter("staged diff", 3);
    let report = profile.report_at(2, false);
    assert_eq!(report.outcome(), "error");
    assert_eq!(report.phases.last().unwrap().nanos, 0);
    assert!(report.phases.last().unwrap().incomplete);
    assert_eq!(report.failed_phase.as_deref(), Some("staged diff"));
}
