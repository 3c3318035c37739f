//! The privileged time-setter: one decision machine shared by the
//! platform strategies (direct privileged write, one-shot interactive
//! elevation, delegation to the sidecar service). The OS calls themselves
//! are performed outside this crate; each step hands its observation to a
//! verdict function here and acts on the returned decision.

use vstd::prelude::*;

use crate::MAX_UNIX_US;

verus! {

/// The platforms the time-setter distinguishes.
#[derive(Clone, Copy, Debug, PartialEq, Eq, Structural)]
pub enum Platform {
    Windows,
    MacOs,
    Linux,
    Other,
}

/// The failure conditions of a time-set attempt, each mapped to a
/// distinct stable code so a caller can present differentiated guidance.
#[derive(Clone, Copy, Debug, PartialEq, Eq, Structural)]
pub enum SetTimeErrorKind {
    /// The process lacks the privilege and no escalation succeeded.
    PermissionDenied,
    /// The sidecar binary or its service descriptor is absent.
    SidecarNotInstalled,
    /// The sidecar is installed but no reply arrived on its port.
    SidecarNotRunning,
    /// The sidecar exchange failed for another reason.
    SidecarError,
    /// The user declined an interactive elevation prompt.
    UserCanceled,
    /// No strategy exists for this platform.
    UnsupportedOs,
    /// A helper command could not be started.
    ExecError,
    /// The OS clock-set call itself reported failure.
    SetTimeFailed,
    /// The target time cannot be represented for the OS call.
    InvalidTimestamp,
}

/// The stable code string of a time-set failure.
pub open spec fn spec_set_time_code(k: SetTimeErrorKind) -> Seq<char> {
    match k {
        SetTimeErrorKind::PermissionDenied => "PERMISSION_DENIED"@,
        SetTimeErrorKind::SidecarNotInstalled => "SIDECAR_NOT_INSTALLED"@,
        SetTimeErrorKind::SidecarNotRunning => "SIDECAR_NOT_RUNNING"@,
        SetTimeErrorKind::SidecarError => "SIDECAR_ERROR"@,
        SetTimeErrorKind::UserCanceled => "USER_CANCELED"@,
        SetTimeErrorKind::UnsupportedOs => "UNSUPPORTED_OS"@,
        SetTimeErrorKind::ExecError => "EXEC_ERROR"@,
        SetTimeErrorKind::SetTimeFailed => "SET_TIME_ERROR"@,
        SetTimeErrorKind::InvalidTimestamp => "INVALID_TIMESTAMP"@,
    }
}

/// A failed time-set attempt as reported to callers.
pub struct SetTimeError {
    pub success: bool,
    pub error: String,
    pub code: String,
}

/// Builds the error report for a failed time-set attempt.
pub fn set_time_error(kind: SetTimeErrorKind, detail: String) -> (r: SetTimeError)
    ensures
        !r.success,
        r.error == detail,
        r.code@ == spec_set_time_code(kind),
{
    let code = match kind {
        SetTimeErrorKind::PermissionDenied => String::from_str("PERMISSION_DENIED"),
        SetTimeErrorKind::SidecarNotInstalled => String::from_str("SIDECAR_NOT_INSTALLED"),
        SetTimeErrorKind::SidecarNotRunning => String::from_str("SIDECAR_NOT_RUNNING"),
        SetTimeErrorKind::SidecarError => String::from_str("SIDECAR_ERROR"),
        SetTimeErrorKind::UserCanceled => String::from_str("USER_CANCELED"),
        SetTimeErrorKind::UnsupportedOs => String::from_str("UNSUPPORTED_OS"),
        SetTimeErrorKind::ExecError => String::from_str("EXEC_ERROR"),
        SetTimeErrorKind::SetTimeFailed => String::from_str("SET_TIME_ERROR"),
        SetTimeErrorKind::InvalidTimestamp => String::from_str("INVALID_TIMESTAMP"),
    };
    SetTimeError { success: false, error: detail, code }
}

/// A successful time-set attempt: the clock values before and after the
/// write and the applied adjustment, for auditability.
pub struct SetTimeResult {
    pub success: bool,
    pub message: String,
    pub previous_time: Option<i64>,
    pub new_time: Option<i64>,
    pub adjusted_us: Option<i64>,
}

/// Assembles the report of a successful write.
pub fn build_set_time_result(message: String, previous_us: i64, new_us: i64, adjusted_us: i64) -> (r:
    SetTimeResult)
    ensures
        r.success,
        r.message == message,
        r.previous_time == Some(previous_us),
        r.new_time == Some(new_us),
        r.adjusted_us == Some(adjusted_us),
{
    SetTimeResult {
        success: true,
        message,
        previous_time: Some(previous_us),
        new_time: Some(new_us),
        adjusted_us: Some(adjusted_us),
    }
}

/// Where the sidecar exchange broke off, as observed by the client side.
#[derive(Clone, Copy, Debug, PartialEq, Eq, Structural)]
pub enum SidecarFailureKind {
    /// The local socket could not be bound.
    Bind,
    /// The receive timeout could not be set.
    Configure,
    /// The request datagram could not be sent.
    Send,
    /// No reply arrived within the timeout.
    Recv,
    /// The reply did not parse as a response.
    BadReply,
    /// The sidecar replied, reporting that the write failed.
    Remote,
}

/// What to do after the direct privileged write on Windows: an access
/// denial (OS error 5) escalates to an interactive prompt, any other
/// failure is final.
#[derive(Clone, Copy, Debug, PartialEq, Eq, Structural)]
pub enum DirectNext {
    Done,
    Escalate,
    Fail,
}

/// Decides the step after the direct clock write: success finishes,
/// access denied (error code 5) escalates, anything else fails with
/// `SetTimeFailed`.
pub fn windows_direct_verdict(ok: bool, error_code: u32) -> (r: DirectNext)
    ensures
        r == DirectNext::Done <==> ok,
        r == DirectNext::Escalate <==> (!ok && error_code == 5),
        r == DirectNext::Fail <==> (!ok && error_code != 5),
{
    if ok {
        DirectNext::Done
    } else if error_code == 5 {
        DirectNext::Escalate
    } else {
        DirectNext::Fail
    }
}

/// Judges a one-shot interactive elevation by its child process: a child
/// that could not be spawned is `ExecError`; one that exited unsuccessfully
/// is `PermissionDenied`.
pub fn elevation_verdict(spawned: bool, exit_ok: bool) -> (r: Result<(), SetTimeErrorKind>)
    ensures
        r is Ok <==> (spawned && exit_ok),
        spawned && exit_ok ==> r == Ok::<(), SetTimeErrorKind>(()),
        !spawned ==> r == Err::<(), SetTimeErrorKind>(SetTimeErrorKind::ExecError),
        spawned && !exit_ok ==> r == Err::<(), SetTimeErrorKind>(SetTimeErrorKind::PermissionDenied),
{
    if !spawned {
        Err(SetTimeErrorKind::ExecError)
    } else if exit_ok {
        Ok(())
    } else {
        Err(SetTimeErrorKind::PermissionDenied)
    }
}

/// Gate before delegating to the sidecar: both the installed binary and
/// its service descriptor must exist, else `SidecarNotInstalled`.
pub fn sidecar_install_gate(binary_exists: bool, descriptor_exists: bool) -> (r: Option<
    SetTimeErrorKind,
>)
    ensures
        r is None <==> (binary_exists && descriptor_exists),
        r is Some ==> r == Some(SetTimeErrorKind::SidecarNotInstalled),
{
    if binary_exists && descriptor_exists {
        None
    } else {
        Some(SetTimeErrorKind::SidecarNotInstalled)
    }
}

/// Maps a failed sidecar exchange to its error code: a send or receive
/// failure means the service is not running; everything else is a generic
/// sidecar error.
pub fn sidecar_failure_verdict(kind: SidecarFailureKind) -> (r: SetTimeErrorKind)
    ensures
        r == SetTimeErrorKind::SidecarNotRunning <==> (kind == SidecarFailureKind::Send || kind
            == SidecarFailureKind::Recv),
        r == SetTimeErrorKind::SidecarNotRunning || r == SetTimeErrorKind::SidecarError,
{
    match kind {
        SidecarFailureKind::Send => SetTimeErrorKind::SidecarNotRunning,
        SidecarFailureKind::Recv => SetTimeErrorKind::SidecarNotRunning,
        _ => SetTimeErrorKind::SidecarError,
    }
}

/// Gate on non-interactive platforms: an unprivileged process fails fast
/// with `PermissionDenied` instead of blocking on a password prompt.
pub fn privilege_gate(is_root: bool) -> (r: Option<SetTimeErrorKind>)
    ensures
        r is None <==> is_root,
        r is Some ==> r == Some(SetTimeErrorKind::PermissionDenied),
{
    if is_root {
        None
    } else {
        Some(SetTimeErrorKind::PermissionDenied)
    }
}

/// Gate on the target time itself: the OS decomposition is only attempted
/// for representable targets.
pub fn timestamp_gate(unix_us: i64) -> (r: Option<SetTimeErrorKind>)
    ensures
        r is None <==> 0 <= unix_us <= MAX_UNIX_US,
        r is Some ==> r == Some(SetTimeErrorKind::InvalidTimestamp),
{
    if 0 <= unix_us && unix_us <= MAX_UNIX_US {
        None
    } else {
        Some(SetTimeErrorKind::InvalidTimestamp)
    }
}

/// Judges the command-based write on Linux: `timedatectl` succeeding
/// finishes; otherwise the `date` fallback must have spawned (else
/// `ExecError`) and exited successfully (else `SetTimeFailed`).
pub fn command_verdict(timedatectl_ok: bool, date_spawned: bool, date_ok: bool) -> (r: Result<
    (),
    SetTimeErrorKind,
>)
    ensures
        r is Ok <==> (timedatectl_ok || (date_spawned && date_ok)),
        r is Ok ==> r == Ok::<(), SetTimeErrorKind>(()),
        !timedatectl_ok && !date_spawned ==> r == Err::<(), SetTimeErrorKind>(
            SetTimeErrorKind::ExecError,
        ),
        !timedatectl_ok && date_spawned && !date_ok ==> r == Err::<(), SetTimeErrorKind>(
            SetTimeErrorKind::SetTimeFailed,
        ),
{
    if timedatectl_ok {
        Ok(())
    } else if !date_spawned {
        Err(SetTimeErrorKind::ExecError)
    } else if date_ok {
        Ok(())
    } else {
        Err(SetTimeErrorKind::SetTimeFailed)
    }
}

/// Splits a target time into whole seconds and the microseconds within
/// the second, as the OS clock-set calls want it.
pub fn split_unix_us(unix_us: i64) -> (r: (i64, i64))
    requires
        0 <= unix_us <= MAX_UNIX_US,
    ensures
        r.0 == unix_us as int / 1_000_000,
        r.1 == unix_us as int % 1_000_000,
        r.0 * 1_000_000 + r.1 == unix_us,
        0 <= r.1 < 1_000_000,
{
    let secs = unix_us / 1_000_000;
    let micros = unix_us % 1_000_000;
    (secs, micros)
}

/// The absolute target of a relative adjustment: the clock reading plus
/// the offset, when that is representable.
pub fn adjust_target(previous_us: i64, offset_us: i64) -> (r: Option<i64>)
    requires
        0 <= previous_us <= MAX_UNIX_US,
    ensures
        r is Some <==> 0 <= previous_us + offset_us <= MAX_UNIX_US,
        r matches Some(t) ==> t == previous_us + offset_us,
{
    if offset_us >= 0 {
        if offset_us <= MAX_UNIX_US - previous_us {
            Some(previous_us + offset_us)
        } else {
            None
        }
    } else {
        if offset_us >= -previous_us {
            Some(previous_us + offset_us)
        } else {
            None
        }
    }
}

/// The relative adjustment an absolute target amounts to, against the
/// clock reading.
pub fn drift_between(unix_us: i64, previous_us: i64) -> (r: i64)
    requires
        0 <= unix_us <= MAX_UNIX_US,
        0 <= previous_us <= MAX_UNIX_US,
    ensures
        r == unix_us - previous_us,
{
    unix_us - previous_us
}

/// Everything one attempt observes, in the order the strategies probe it.
/// A field is only meaningful on the platform whose strategy reads it.
pub struct SetTimeProbes {
    pub direct_ok: bool,
    pub direct_error_code: u32,
    pub elevation_spawned: bool,
    pub elevation_exit_ok: bool,
    pub sidecar_binary: bool,
    pub sidecar_descriptor: bool,
    pub sidecar_ok: bool,
    pub sidecar_failure: SidecarFailureKind,
    pub is_root: bool,
    pub timedatectl_ok: bool,
    pub date_spawned: bool,
    pub date_ok: bool,
}

/// The outcome of one whole attempt, as a function of what it observed.
pub open spec fn spec_set_time_outcome(platform: Platform, p: SetTimeProbes) -> Result<
    (),
    SetTimeErrorKind,
> {
    match platform {
        Platform::Windows => {
            if p.direct_ok {
                Ok(())
            } else if p.direct_error_code != 5 {
                Err(SetTimeErrorKind::SetTimeFailed)
            } else if !p.elevation_spawned {
                Err(SetTimeErrorKind::ExecError)
            } else if p.elevation_exit_ok {
                Ok(())
            } else {
                Err(SetTimeErrorKind::PermissionDenied)
            }
        },
        Platform::MacOs => {
            if !(p.sidecar_binary && p.sidecar_descriptor) {
                Err(SetTimeErrorKind::SidecarNotInstalled)
            } else if p.sidecar_ok {
                Ok(())
            } else if p.sidecar_failure == SidecarFailureKind::Send || p.sidecar_failure
                == SidecarFailureKind::Recv {
                Err(SetTimeErrorKind::SidecarNotRunning)
            } else {
                Err(SetTimeErrorKind::SidecarError)
            }
        },
        Platform::Linux => {
            if !p.is_root {
                Err(SetTimeErrorKind::PermissionDenied)
            } else if p.timedatectl_ok {
                Ok(())
            } else if !p.date_spawned {
                Err(SetTimeErrorKind::ExecError)
            } else if p.date_ok {
                Ok(())
            } else {
                Err(SetTimeErrorKind::SetTimeFailed)
            }
        },
        Platform::Other => Err(SetTimeErrorKind::UnsupportedOs),
    }
}

/// Composes the per-step verdicts into the outcome of one attempt with
/// the given observations.
pub fn set_time_verdict(platform: Platform, p: &SetTimeProbes) -> (r: Result<
    (),
    SetTimeErrorKind,
>)
    ensures
        r == spec_set_time_outcome(platform, *p),
{
    match platform {
        Platform::Windows => {
            match windows_direct_verdict(p.direct_ok, p.direct_error_code) {
                DirectNext::Done => Ok(()),
                DirectNext::Fail => Err(SetTimeErrorKind::SetTimeFailed),
                DirectNext::Escalate => elevation_verdict(
                    p.elevation_spawned,
                    p.elevation_exit_ok,
                ),
            }
        },
        Platform::MacOs => {
            match sidecar_install_gate(p.sidecar_binary, p.sidecar_descriptor) {
                Some(k) => Err(k),
                None => {
                    if p.sidecar_ok {
                        Ok(())
                    } else {
                        Err(sidecar_failure_verdict(p.sidecar_failure))
                    }
                },
            }
        },
        Platform::Linux => {
            match privilege_gate(p.is_root) {
                Some(k) => Err(k),
                None => command_verdict(p.timedatectl_ok, p.date_spawned, p.date_ok),
            }
        },
        Platform::Other => Err(SetTimeErrorKind::UnsupportedOs),
    }
}

/// The time-setter holds no one-shot state: an attempt's outcome is a
/// function of the platform and of what the attempt observes, so
/// repeating an attempt that observes the same things gives the same
/// outcome — the second run cannot error differently.
pub proof fn lemma_set_time_repeatable(
    platform: Platform,
    first: SetTimeProbes,
    second: SetTimeProbes,
)
    requires
        first == second,
    ensures
        spec_set_time_outcome(platform, first) == spec_set_time_outcome(platform, second),
{
}

/// Whether the platform reports permission to set the clock without a new
/// probe: interactive platforms answer yes (they can prompt), Windows
/// reports its elevation state, anything else answers no.
pub struct PermissionStatus {
    pub has_permission: bool,
    pub platform: String,
    pub message: String,
}

/// Reports whether a time-set may be expected to succeed on this
/// platform, with the platform's name and a one-line explanation.
pub fn check_time_permission(platform: Platform, is_admin: bool) -> (r: PermissionStatus)
    ensures
        platform == Platform::Windows ==> r.has_permission == is_admin && r.platform@ == "windows"@
            && (is_admin ==> r.message@ == "Running as Administrator"@) && (!is_admin
            ==> r.message@ == "Requires Administrator"@),
        platform == Platform::MacOs ==> r.has_permission && r.platform@ == "macos"@ && r.message@
            == "Will prompt for password"@,
        platform == Platform::Linux ==> r.has_permission && r.platform@ == "linux"@ && r.message@
            == "Will prompt for password"@,
        platform == Platform::Other ==> !r.has_permission && r.platform@ == "unknown"@
            && r.message@ == "Unsupported OS"@,
{
    match platform {
        Platform::Windows => PermissionStatus {
            has_permission: is_admin,
            platform: String::from_str("windows"),
            message: if is_admin {
                String::from_str("Running as Administrator")
            } else {
                String::from_str("Requires Administrator")
            },
        },
        Platform::MacOs => PermissionStatus {
            has_permission: true,
            platform: String::from_str("macos"),
            message: String::from_str("Will prompt for password"),
        },
        Platform::Linux => PermissionStatus {
            has_permission: true,
            platform: String::from_str("linux"),
            message: String::from_str("Will prompt for password"),
        },
        Platform::Other => PermissionStatus {
            has_permission: false,
            platform: String::from_str("unknown"),
            message: String::from_str("Unsupported OS"),
        },
    }
}

} // verus!
