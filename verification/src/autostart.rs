//! Paths and verdicts for the autostart installation: the service
//! descriptor locations derived from the application's label, and the
//! reading of an elevation prompt's outcome. The privileged shell
//! commands themselves run outside the crate.

use vstd::prelude::*;

use crate::text::{push_char, spec_contains, str_contains};

verus! {

/// One autostart command's outcome.
pub struct AutostartResult {
    pub success: bool,
    pub message: String,
}

/// The label under which the application registers itself with the
/// system's service manager.
pub open spec fn spec_app_label() -> Seq<char> {
    "com.exptech.ntp-client"@
}

/// The label's characters with dots turned to dashes, as systemd unit
/// names want it.
pub open spec fn spec_dot_to_dash(s: Seq<char>) -> Seq<char> {
    s.map_values(
        |c: char|
            if c == '.' {
                '-'
            } else {
                c
            },
    )
}

/// Rewrites dots to dashes.
pub fn dot_to_dash(s: &str) -> (r: String)
    ensures
        r@ == spec_dot_to_dash(s@),
{
    let n = s.unicode_len();
    let mut out = String::new();
    let mut i: usize = 0;
    while i < n
        invariant
            0 <= i <= n,
            n == s@.len(),
            out@ == spec_dot_to_dash(s@.take(i as int)),
        decreases n - i,
    {
        let c = s.get_char(i);
        if c == '.' {
            push_char(&mut out, '-');
        } else {
            push_char(&mut out, c);
        }
        proof {
            assert(spec_dot_to_dash(s@.take(i as int + 1)) =~= spec_dot_to_dash(
                s@.take(i as int),
            ).push(
                if s@[i as int] == '.' {
                    '-'
                } else {
                    s@[i as int]
                },
            ));
        }
        i = i + 1;
    }
    proof {
        assert(s@.take(n as int) =~= s@);
    }
    out
}

/// The launch daemon descriptor's path: the label under
/// `/Library/LaunchDaemons/`, with the `plist` suffix.
pub fn get_launchdaemon_path() -> (r: String)
    ensures
        r@ == "/Library/LaunchDaemons/"@ + spec_app_label() + ".plist"@,
{
    let mut path = String::from_str("/Library/LaunchDaemons/");
    path.append("com.exptech.ntp-client");
    path.append(".plist");
    proof {
        assert(path@ =~= "/Library/LaunchDaemons/"@ + spec_app_label() + ".plist"@);
    }
    path
}

/// The systemd unit's path: the label, dots turned to dashes, under
/// `/etc/systemd/system/`, with the `service` suffix.
pub fn get_systemd_service_path() -> (r: String)
    ensures
        r@ == "/etc/systemd/system/"@ + spec_dot_to_dash(spec_app_label()) + ".service"@,
{
    let mut path = String::from_str("/etc/systemd/system/");
    let dashed = dot_to_dash("com.exptech.ntp-client");
    path.append(dashed.as_str());
    path.append(".service");
    proof {
        assert(path@ =~= "/etc/systemd/system/"@ + spec_dot_to_dash(spec_app_label())
            + ".service"@);
    }
    path
}

/// Whether the stderr of an elevation prompt shows that the user declined
/// it: the prompt tool reports a cancellation sentence or its error code
/// -128.
pub fn user_declined(stderr: &str) -> (r: bool)
    ensures
        r == (spec_contains(stderr@, "User canceled"@) || spec_contains(stderr@, "-128"@)),
{
    str_contains(stderr, "User canceled") || str_contains(stderr, "-128")
}

} // verus!
