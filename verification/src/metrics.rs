//! The measurements that the node publishes.

use crate::metrics::disk::DiskMetrics;
use crate::metrics::memory::MemoryMetrics;
use crate::metrics::network::NetworkMetrics;
use vstd::prelude::*;

pub mod disk;
pub mod laws;
pub mod memory;
pub mod network;

verus! {

/// What the node publishes, but for the load of its processors.
#[derive(Debug, Clone, Copy, PartialEq, Eq, Structural)]
pub struct MetricsPayload {
    pub v: u8,
    pub ts: u64,
    pub mem_used: u64,
    pub mem_total: u64,
    pub mem_cached: Option<u64>,
    pub mem_available: Option<u64>,
    pub disk_used: u64,
    pub disk_total: u64,
    pub net_rx: u64,
    pub net_tx: u64,
}

/// Puts together what the node publishes.
pub fn collect_metrics(ts: u64, memory: MemoryMetrics, disk: DiskMetrics, network: NetworkMetrics)
    -> (r: MetricsPayload)
    ensures
        r == (MetricsPayload {
            v: 1,
            ts,
            mem_used: memory.used,
            mem_total: if memory.total == 0 {
                1
            } else {
                memory.total
            },
            mem_cached: memory.cached,
            mem_available: memory.available,
            disk_used: disk.used,
            disk_total: disk.total,
            net_rx: network.rx,
            net_tx: network.tx,
        }),
{
    MetricsPayload {
        v: 1,
        ts,
        mem_used: memory.used,
        mem_total: if memory.total == 0 {
            1
        } else {
            memory.total
        },
        mem_cached: memory.cached,
        mem_available: memory.available,
        disk_used: disk.used,
        disk_total: disk.total,
        net_rx: network.rx,
        net_tx: network.tx,
    }
}

/// The time that payloads carry, over the milliseconds since the epoch; none where the clock
/// stands before it.
pub fn unix_timestamp_ms(since_epoch_ms: Option<u128>) -> (r: u64)
    ensures
        r == (match since_epoch_ms {
            Some(ms) => ms % 0x1_0000_0000_0000_0000,
            None => 0,
        }),
{
    match since_epoch_ms {
        Some(ms) => (ms % 0x1_0000_0000_0000_0000) as u64,
        None => 0,
    }
}

} // verus!
