//! A verified core for an NTP time-synchronization client.
//!
//! The crate covers the wire protocol (48-byte SNTP packets and the
//! four-timestamp offset/delay arithmetic), the measurement session that
//! takes a median over repeated queries, the precision deadline scheduler,
//! the privileged time-setter decision machine, and the datagram protocol
//! spoken with the elevated sidecar helper.
//!
//! All times are integer microseconds since the Unix epoch. Sockets,
//! sleeps and privileged OS calls live outside this crate; the functions
//! here receive their observations as plain values and are verified.

pub mod autostart;
pub mod history;
pub mod sched;
pub mod session;
pub mod setter;
pub mod sidecar;
pub mod stats;
pub mod text;
pub mod wire;

use vstd::prelude::*;

verus! {

/// Upper bound on a Unix-epoch timestamp in microseconds that this crate
/// accepts: the start of year 10000. A local clock reading beyond it is
/// treated as a clock failure by callers.
pub const MAX_UNIX_US: i64 = 253_402_300_800_000_000;

} // verus!
