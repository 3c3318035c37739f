use ntp_client::setter::{
    build_set_time_result, check_time_permission, command_verdict, elevation_verdict,
    privilege_gate, set_time_error, set_time_verdict, sidecar_install_gate, split_unix_us,
    timestamp_gate, windows_direct_verdict, DirectNext, Platform, SetTimeErrorKind,
    SetTimeProbes, SidecarFailureKind,
};

fn probes() -> SetTimeProbes {
    SetTimeProbes {
        direct_ok: false,
        direct_error_code: 0,
        elevation_spawned: false,
        elevation_exit_ok: false,
        sidecar_binary: false,
        sidecar_descriptor: false,
        sidecar_ok: false,
        sidecar_failure: SidecarFailureKind::Recv,
        is_root: false,
        timedatectl_ok: false,
        date_spawned: false,
        date_ok: false,
    }
}

#[test]
fn set_time_error_codes_are_stable() {
    let cases = [
        (SetTimeErrorKind::PermissionDenied, "PERMISSION_DENIED"),
        (SetTimeErrorKind::SidecarNotInstalled, "SIDECAR_NOT_INSTALLED"),
        (SetTimeErrorKind::SidecarNotRunning, "SIDECAR_NOT_RUNNING"),
        (SetTimeErrorKind::SidecarError, "SIDECAR_ERROR"),
        (SetTimeErrorKind::UserCanceled, "USER_CANCELED"),
        (SetTimeErrorKind::UnsupportedOs, "UNSUPPORTED_OS"),
        (SetTimeErrorKind::ExecError, "EXEC_ERROR"),
        (SetTimeErrorKind::SetTimeFailed, "SET_TIME_ERROR"),
        (SetTimeErrorKind::InvalidTimestamp, "INVALID_TIMESTAMP"),
    ];
    for (kind, code) in cases {
        let e = set_time_error(kind, String::from("detail"));
        assert!(!e.success);
        assert_eq!(e.code, code);
        assert_eq!(e.error, "detail");
    }
}

#[test]
fn a_successful_write_reports_the_clock_values() {
    let r = build_set_time_result(String::from("done"), 100, 200, 50);
    assert!(r.success);
    assert_eq!(r.message, "done");
    assert_eq!(r.previous_time, Some(100));
    assert_eq!(r.new_time, Some(200));
    assert_eq!(r.adjusted_us, Some(50));
}

#[test]
fn access_denied_escalates_and_other_errors_are_final() {
    assert_eq!(windows_direct_verdict(true, 0), DirectNext::Done);
    assert_eq!(windows_direct_verdict(false, 5), DirectNext::Escalate);
    assert_eq!(windows_direct_verdict(false, 87), DirectNext::Fail);
}

#[test]
fn an_elevation_prompt_is_judged_by_its_child() {
    assert!(elevation_verdict(true, true).is_ok());
    assert_eq!(elevation_verdict(false, false), Err(SetTimeErrorKind::ExecError));
    assert_eq!(elevation_verdict(true, false), Err(SetTimeErrorKind::PermissionDenied));
}

#[test]
fn the_sidecar_must_be_fully_installed() {
    assert_eq!(sidecar_install_gate(true, true), None);
    assert_eq!(sidecar_install_gate(false, true), Some(SetTimeErrorKind::SidecarNotInstalled));
    assert_eq!(sidecar_install_gate(true, false), Some(SetTimeErrorKind::SidecarNotInstalled));
}

#[test]
fn an_unprivileged_process_fails_fast_without_a_prompt() {
    assert_eq!(privilege_gate(true), None);
    assert_eq!(privilege_gate(false), Some(SetTimeErrorKind::PermissionDenied));
}

#[test]
fn the_command_fallback_chain_is_judged_in_order() {
    assert!(command_verdict(true, false, false).is_ok());
    assert!(command_verdict(false, true, true).is_ok());
    assert_eq!(command_verdict(false, false, false), Err(SetTimeErrorKind::ExecError));
    assert_eq!(command_verdict(false, true, false), Err(SetTimeErrorKind::SetTimeFailed));
}

#[test]
fn unrepresentable_targets_are_invalid_timestamps() {
    assert_eq!(timestamp_gate(0), None);
    assert_eq!(timestamp_gate(1_700_000_000_000_000), None);
    assert_eq!(timestamp_gate(-1), Some(SetTimeErrorKind::InvalidTimestamp));
    assert_eq!(
        timestamp_gate(253_402_300_800_000_001),
        Some(SetTimeErrorKind::InvalidTimestamp)
    );
}

#[test]
fn targets_split_into_seconds_and_microseconds() {
    let (s, us) = split_unix_us(1_700_000_123_456_789);
    assert_eq!(s, 1_700_000_123);
    assert_eq!(us, 456_789);
    assert_eq!(s * 1_000_000 + us, 1_700_000_123_456_789);
}

#[test]
fn the_whole_attempt_composes_the_gates() {
    let mut p = probes();
    assert_eq!(set_time_verdict(Platform::Other, &p), Err(SetTimeErrorKind::UnsupportedOs));
    assert_eq!(
        set_time_verdict(Platform::Linux, &p),
        Err(SetTimeErrorKind::PermissionDenied)
    );
    p.is_root = true;
    assert_eq!(set_time_verdict(Platform::Linux, &p), Err(SetTimeErrorKind::ExecError));
    p.timedatectl_ok = true;
    assert_eq!(set_time_verdict(Platform::Linux, &p), Ok(()));
    assert_eq!(
        set_time_verdict(Platform::MacOs, &p),
        Err(SetTimeErrorKind::SidecarNotInstalled)
    );
    p.sidecar_binary = true;
    p.sidecar_descriptor = true;
    assert_eq!(
        set_time_verdict(Platform::MacOs, &p),
        Err(SetTimeErrorKind::SidecarNotRunning)
    );
    p.sidecar_ok = true;
    assert_eq!(set_time_verdict(Platform::MacOs, &p), Ok(()));
    assert_eq!(
        set_time_verdict(Platform::Windows, &p),
        Err(SetTimeErrorKind::SetTimeFailed)
    );
    p.direct_error_code = 5;
    assert_eq!(set_time_verdict(Platform::Windows, &p), Err(SetTimeErrorKind::ExecError));
    p.elevation_spawned = true;
    assert_eq!(
        set_time_verdict(Platform::Windows, &p),
        Err(SetTimeErrorKind::PermissionDenied)
    );
    p.elevation_exit_ok = true;
    assert_eq!(set_time_verdict(Platform::Windows, &p), Ok(()));
    p.direct_ok = true;
    assert_eq!(set_time_verdict(Platform::Windows, &p), Ok(()));
}

#[test]
fn repeating_an_attempt_with_the_same_observations_ends_the_same_way() {
    // no hidden one-shot state: the second run cannot error differently
    let mut p = probes();
    p.is_root = true;
    p.date_spawned = true;
    p.date_ok = false;
    for platform in [Platform::Windows, Platform::MacOs, Platform::Linux, Platform::Other] {
        let first = set_time_verdict(platform, &p);
        let second = set_time_verdict(platform, &p);
        assert_eq!(first, second);
    }
}

#[test]
fn permission_is_reported_per_platform() {
    let r = check_time_permission(Platform::Windows, true);
    assert!(r.has_permission);
    assert_eq!(r.platform, "windows");
    assert_eq!(r.message, "Running as Administrator");
    let r = check_time_permission(Platform::Windows, false);
    assert!(!r.has_permission);
    assert_eq!(r.message, "Requires Administrator");
    let r = check_time_permission(Platform::MacOs, false);
    assert!(r.has_permission);
    assert_eq!(r.platform, "macos");
    let r = check_time_permission(Platform::Linux, false);
    assert!(r.has_permission);
    assert_eq!(r.platform, "linux");
    let r = check_time_permission(Platform::Other, true);
    assert!(!r.has_permission);
    assert_eq!(r.platform, "unknown");
    assert_eq!(r.message, "Unsupported OS");
}
