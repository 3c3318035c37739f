use ntp_client::session::{
    build_sync_outcome, compute_sync_target, median_sample, summarize_session, SessionSummary,
};
use ntp_client::setter::SetTimeErrorKind;
use ntp_client::wire::{ntp_error, NtpError, NtpErrorKind, NtpResult};

fn measurement(offset: i64, delay: i64, tag: &str) -> NtpResult {
    NtpResult {
        success: true,
        server: String::from("pool"),
        server_ip: String::from(tag),
        t1: 1,
        t2: 2,
        t3: 3,
        t4: 4,
        offset,
        delay,
        leap: 0,
        version: 3,
        mode: 4,
        stratum: 2,
        poll: 6,
        precision: -20,
        root_delay: 0,
        root_dispersion: 0,
        ref_id: String::from("10.0.0.1"),
        ref_time: 0,
    }
}

fn failure() -> NtpError {
    ntp_error(NtpErrorKind::RecvError, String::from("no reply"))
}

#[test]
fn median_rejects_a_network_spike() {
    // one spike among five samples: the median is 11, never 1000
    let m = median_sample(vec![10, 12, 1000, 11, 9]);
    assert_eq!(m, 11);
}

#[test]
fn median_of_even_count_takes_the_upper_middle() {
    assert_eq!(median_sample(vec![1, 2]), 2);
    assert_eq!(median_sample(vec![4, 1, 3, 2]), 3);
}

#[test]
fn median_of_one_is_that_sample() {
    assert_eq!(median_sample(vec![-7]), -7);
}

#[test]
fn session_of_only_failures_is_ntp_error() {
    let attempts: Vec<Result<NtpResult, NtpError>> =
        (0..5).map(|_| Err(failure())).collect();
    let r = summarize_session(attempts);
    let e = r.err().unwrap();
    assert!(!e.success);
    assert_eq!(e.code, "NTP_ERROR");
}

#[test]
fn session_summarizes_medians_and_keeps_the_last_success() {
    let attempts: Vec<Result<NtpResult, NtpError>> = vec![
        Ok(measurement(10, 50, "a")),
        Err(failure()),
        Ok(measurement(1000, 40, "b")),
        Ok(measurement(12, 900, "c")),
        Ok(measurement(11, 45, "d")),
        Ok(measurement(9, 42, "e")),
    ];
    let s = summarize_session(attempts).ok().unwrap();
    assert_eq!(s.median_offset, 11);
    assert_eq!(s.median_delay, 45);
    assert_eq!(s.last.server_ip, "e");
}

#[test]
fn sync_target_is_the_next_whole_second_of_corrected_time() {
    let now = 1_000_000_000i64;
    let offset = 123_456i64;
    let (target, wait_until) = compute_sync_target(now, offset);
    assert_eq!(target, 1_001_000_000);
    assert_eq!(target % 1_000_000, 0);
    assert_eq!(wait_until, now + (target - (now + offset)));
    assert_eq!(wait_until + offset, target);
}

#[test]
fn sync_target_with_negative_offset() {
    let now = 5_250_000i64;
    let offset = -300_000i64;
    let (target, wait_until) = compute_sync_target(now, offset);
    assert_eq!(target, 5_000_000);
    assert_eq!(wait_until, 5_300_000);
}

fn summary() -> SessionSummary {
    SessionSummary { median_offset: 250, median_delay: 40, last: measurement(250, 40, "z") }
}

#[test]
fn outcome_of_a_successful_sync_reports_the_remeasured_offset() {
    let r = build_sync_outcome(summary(), 100, 200, Some(3), None);
    assert!(r.success);
    assert_eq!(r.post_sync_offset, 3);
    assert_eq!(r.offset, 3);
    assert_eq!(r.pre_sync_offset, 250);
    assert_eq!(r.delay, 40);
    assert_eq!(r.previous_time, 100);
    assert_eq!(r.new_time, 200);
    assert_eq!(r.code, None);
    assert_eq!(r.message, "sync complete (median of repeated measurements)");
    assert_eq!(r.server_ip, "z");
}

#[test]
fn outcome_after_a_failed_verification_query_reports_zero() {
    let r = build_sync_outcome(summary(), 100, 200, None, None);
    assert!(r.success);
    assert_eq!(r.post_sync_offset, 0);
}

#[test]
fn outcome_of_a_denied_sync_keeps_the_measurement_and_flags_the_code() {
    let r = build_sync_outcome(
        summary(),
        100,
        200,
        None,
        Some((SetTimeErrorKind::PermissionDenied, String::from("denied"))),
    );
    assert!(!r.success);
    assert_eq!(r.post_sync_offset, 250);
    assert_eq!(r.message, "denied");
    assert_eq!(r.code.as_deref(), Some("PERMISSION_DENIED"));
}

#[test]
fn outcome_tells_a_missing_sidecar_from_an_unreachable_one() {
    // the caller offers installation guidance for the one and restart
    // guidance for the other, so the codes must stay distinct
    let r = build_sync_outcome(
        summary(),
        100,
        200,
        None,
        Some((SetTimeErrorKind::SidecarNotInstalled, String::from("x"))),
    );
    assert_eq!(r.code.as_deref(), Some("SIDECAR_NOT_INSTALLED"));
    let r = build_sync_outcome(
        summary(),
        100,
        200,
        None,
        Some((SetTimeErrorKind::SidecarNotRunning, String::from("x"))),
    );
    assert_eq!(r.code.as_deref(), Some("SIDECAR_NOT_RUNNING"));
}

#[test]
fn outcome_of_other_failures_carries_no_code() {
    let r = build_sync_outcome(
        summary(),
        100,
        200,
        None,
        Some((SetTimeErrorKind::ExecError, String::from("x"))),
    );
    assert!(!r.success);
    assert_eq!(r.code, None);
}
