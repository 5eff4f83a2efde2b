//! Buffer bookkeeping and performance counters.
//!
//! The capture layer hands frames around in plain owned buffers; the
//! pools and queues that recycle them live with the capture code, and
//! the counters they update are summarized here, exactly and without
//! floating point: rates are integer quotients and an exact ratio.

use vstd::prelude::*;

use crate::ratio::Ratio;

verus! {

/// One captured frame as it travels between capture and processing:
/// the bytes, the capture time in microseconds, and the frame length.
#[derive(Clone, Debug)]
pub struct PacketWrapper {
    pub data: Vec<u8>,
    pub timestamp: u64,
    pub len: usize,
}

/// Validate a requested pool capacity. Buffers themselves are recycled
/// lazily by the embedding capture layer, so any capacity is
/// acceptable and the call never fails.
pub fn init_global_packet_pool(capacity: usize) -> (r: Result<(), &'static str>)
    ensures
        r is Ok,
{
    let _ = capacity;
    Ok(())
}

/// Counters accumulated while packets are processed.
#[derive(Debug, Clone, Copy, PartialEq, Eq, Structural)]
pub struct PerformanceMonitor {
    pub packets_processed: u64,
    pub total_processing_time: u64,
    pub memory_pool_hits: u64,
    pub memory_pool_misses: u64,
    pub simd_operations: u64,
}

/// An exact snapshot derived from the counters.
#[derive(Debug, Clone, Copy, PartialEq, Eq, Structural)]
pub struct PerformanceStats {
    pub packets_processed: u64,
    pub avg_time_micros: u64,
    pub pool_hit_rate: Ratio,
    pub simd_operations: u64,
    pub packets_per_sec: u64,
}

impl PerformanceMonitor {
    /// All counters start at zero.
    pub fn new() -> (m: PerformanceMonitor)
        ensures
            m.packets_processed == 0,
            m.total_processing_time == 0,
            m.memory_pool_hits == 0,
            m.memory_pool_misses == 0,
            m.simd_operations == 0,
    {
        PerformanceMonitor {
            packets_processed: 0,
            total_processing_time: 0,
            memory_pool_hits: 0,
            memory_pool_misses: 0,
            simd_operations: 0,
        }
    }

    /// Count one processed packet and the microseconds it took,
    /// saturating rather than wrapping.
    pub fn record_packet(&mut self, elapsed_micros: u64)
        ensures
            final(self).packets_processed == (if old(self).packets_processed < u64::MAX {
                old(self).packets_processed + 1
            } else {
                u64::MAX as int
            }),
            final(self).total_processing_time == (if old(self).total_processing_time
                + elapsed_micros <= u64::MAX {
                old(self).total_processing_time + elapsed_micros
            } else {
                u64::MAX as int
            }),
            final(self).memory_pool_hits == old(self).memory_pool_hits,
            final(self).memory_pool_misses == old(self).memory_pool_misses,
            final(self).simd_operations == old(self).simd_operations,
    {
        if self.packets_processed < u64::MAX {
            self.packets_processed = self.packets_processed + 1;
        }
        if self.total_processing_time <= u64::MAX - elapsed_micros {
            self.total_processing_time = self.total_processing_time + elapsed_micros;
        } else {
            self.total_processing_time = u64::MAX;
        }
    }

    /// The exact derived snapshot: average time per packet and packet
    /// rate as integer quotients (zero when nothing was counted yet),
    /// and the pool hit rate as an exact ratio.
    pub fn get_performance_stats(&self) -> (r: PerformanceStats)
        ensures
            r.packets_processed == self.packets_processed,
            r.simd_operations == self.simd_operations,
            self.packets_processed > 0 ==> r.avg_time_micros == self.total_processing_time as int
                / self.packets_processed as int,
            self.packets_processed == 0 ==> r.avg_time_micros == 0,
            r.pool_hit_rate == (if self.memory_pool_hits + self.memory_pool_misses > 0 {
                Ratio {
                    num: self.memory_pool_hits as u128,
                    den: (self.memory_pool_hits + self.memory_pool_misses) as u128,
                }
            } else {
                Ratio::spec_zero()
            }),
            self.total_processing_time > 0 ==> r.packets_per_sec == ({
                let q = self.packets_processed as int * 1_000_000
                    / self.total_processing_time as int;
                if q > u64::MAX {
                    u64::MAX as int
                } else {
                    q
                }
            }),
            self.total_processing_time == 0 ==> r.packets_per_sec == 0,
    {
        let avg_time_micros = if self.packets_processed > 0 {
            self.total_processing_time / self.packets_processed
        } else {
            0
        };
        let denom = self.memory_pool_hits as u128 + self.memory_pool_misses as u128;
        let pool_hit_rate = Ratio::frac_or_zero(self.memory_pool_hits as u128, denom);
        let packets_per_sec = if self.total_processing_time > 0 {
            let pps = (self.packets_processed as u128) * 1_000_000
                / (self.total_processing_time as u128);
            if pps > u64::MAX as u128 {
                u64::MAX
            } else {
                pps as u64
            }
        } else {
            0
        };
        PerformanceStats {
            packets_processed: self.packets_processed,
            avg_time_micros,
            pool_hit_rate,
            simd_operations: self.simd_operations,
            packets_per_sec,
        }
    }
}

} // verus!
