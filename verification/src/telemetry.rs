//! The record that is written for each path in each write cycle.

use vstd::prelude::*;
use crate::addr::SocketAddress;
use crate::scheduler::PathStats;

verus! {

/// The round-trip time, in milliseconds, that the engine reports before it
/// has measured one.
pub const UNMEASURED_RTT_MILLIS: u128 = 333;

/// One line of telemetry.
#[derive(Clone, Copy, Debug, PartialEq, Eq)]
pub struct PathStatsRecord {
    /// Milliseconds since the server started.
    pub elapsed: u128,
    /// The local address of the path.
    pub local: SocketAddress,
    /// The peer's address on the path.
    pub remote: SocketAddress,
    /// Bytes sent on the path so far.
    pub sent_bytes: u64,
    /// Bytes received on the path so far.
    pub recv_bytes: u64,
    /// The congestion window, in bytes.
    pub cwnd: usize,
    /// Bytes sent and not yet acknowledged.
    pub bif: usize,
    /// The round-trip time in milliseconds; zero where none was measured.
    pub rtt: u128,
}

/// A round-trip time in whole milliseconds, with the value that stands for
/// "not measured" turned into zero.
pub open spec fn reported_rtt(rtt_nanos: u128, unmeasured_millis: u128) -> u128 {
    if rtt_nanos / 1_000_000 == unmeasured_millis {
        0
    } else {
        rtt_nanos / 1_000_000
    }
}

/// The record of a path at `elapsed` milliseconds.
pub open spec fn record_of(elapsed: u128, path: PathStats) -> PathStatsRecord {
    PathStatsRecord {
        elapsed,
        local: path.local_addr,
        remote: path.peer_addr,
        sent_bytes: path.sent_bytes,
        recv_bytes: path.recv_bytes,
        cwnd: path.cwnd,
        bif: path.bytes_in_flight,
        rtt: reported_rtt(path.rtt, UNMEASURED_RTT_MILLIS),
    }
}

/// Turns a round-trip time into the milliseconds that are reported.
pub fn normalize_rtt(rtt_nanos: u128, unmeasured_millis: u128) -> (millis: u128)
    ensures
        millis == reported_rtt(rtt_nanos, unmeasured_millis),
{
    let millis: u128 = rtt_nanos / 1_000_000;
    if millis == unmeasured_millis {
        0
    } else {
        millis
    }
}

/// The record of one path.
pub fn record(elapsed: u128, path: &PathStats) -> (r: PathStatsRecord)
    ensures
        r == record_of(elapsed, *path),
{
    PathStatsRecord {
        elapsed,
        local: path.local_addr,
        remote: path.peer_addr,
        sent_bytes: path.sent_bytes,
        recv_bytes: path.recv_bytes,
        cwnd: path.cwnd,
        bif: path.bytes_in_flight,
        rtt: normalize_rtt(path.rtt, UNMEASURED_RTT_MILLIS),
    }
}

/// The records of all paths, in the engine's order.
pub fn records(elapsed: u128, paths: &[PathStats]) -> (r: Vec<PathStatsRecord>)
    ensures
        r@.len() == paths@.len(),
        forall|i: int| 0 <= i < paths@.len() ==> r@[i] == record_of(elapsed, #[trigger] paths@[i]),
{
    let mut r: Vec<PathStatsRecord> = Vec::new();
    let mut i: usize = 0;
    while i < paths.len()
        invariant
            i <= paths@.len(),
            r@.len() == i,
            forall|j: int| 0 <= j < i ==> r@[j] == record_of(elapsed, #[trigger] paths@[j]),
        decreases paths@.len() - i,
    {
        r.push(record(elapsed, &paths[i]));
        i += 1;
    }
    r
}

} // verus!
