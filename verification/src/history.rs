//! The shape of what the history store reports about itself. The store —
//! persistence, compression, queries — is a collaborator outside the
//! crate; its summary row passes through here as plain values.

use vstd::prelude::*;

verus! {

/// A summary of the measurement history: how many records the store
/// holds, the span they cover, the servers seen, and the store's size on
/// disk.
pub struct DbStats {
    pub total_records: usize,
    pub earliest_timestamp: Option<i64>,
    pub latest_timestamp: Option<i64>,
    pub servers: Vec<String>,
    pub db_size_bytes: u64,
}

} // verus!
