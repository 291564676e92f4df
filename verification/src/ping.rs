//! Ping results for the region endpoints, as plain values.

use vstd::prelude::*;

verus! {

/// The last known reachability of a region's ping target. A reachable
/// target carries the round-trip time in milliseconds.
#[derive(Clone, Debug)]
pub enum PingStatus {
    /// The endpoint has not been pinged yet.
    Unknown,
    /// The endpoint has responded to a ping, within the carried number of
    /// milliseconds.
    Reachable(u64),
    /// The endpoint has not responded to a ping.
    Unreachable,
}

impl PingStatus {
    /// The round-trip milliseconds, or `default` where no reply is known.
    pub fn as_millis_or(&self, default: u64) -> (r: u64)
        ensures
            r == (match *self {
                PingStatus::Reachable(ms) => ms,
                _ => default,
            }),
    {
        match self {
            PingStatus::Reachable(ms) => *ms,
            _ => default,
        }
    }
}

/// One ping result: the region key it belongs to, and the new status.
#[derive(Clone, Debug)]
pub struct PingUpdate(pub String, pub PingStatus);

} // verus!
