//! Frame-processing counters: latency samples, byte throughput, and dropped
//! frames detected through the serial numbers a host assigns.
//!
//! The collector gathers integer counters; turning them into rates and
//! percentile summaries is left to the presentation layer around the
//! library.

use vstd::prelude::*;

verus! {

/// How many frames were missed between the previously observed serial and
/// the current one: a jump past the expected successor counts as that many
/// drops, while a repeat or a decrease counts none.
pub open spec fn spec_drops(prev: int, serial: int) -> int {
    if serial > prev + 1 {
        serial - prev - 1
    } else {
        0
    }
}

/// Collects per-frame performance counters.
#[derive(Debug)]
pub struct MetricsCollector {
    /// Recorded per-frame latencies, in microseconds, in arrival order.
    pub latencies_us: Vec<u64>,
    /// Total bytes processed; saturates rather than wrap.
    pub bytes: u64,
    /// The serial number of the previously tracked frame, if any.
    pub prev_serial: Option<i64>,
    /// Total dropped frames detected; saturates rather than wrap.
    pub dropped_frames: u64,
}

impl MetricsCollector {
    /// A collector with no samples.
    pub fn new() -> (r: MetricsCollector)
        ensures
            r.latencies_us@.len() == 0,
            r.bytes == 0,
            r.prev_serial is None,
            r.dropped_frames == 0,
    {
        MetricsCollector { latencies_us: Vec::new(), bytes: 0, prev_serial: None, dropped_frames: 0 }
    }

    /// Records one frame's latency given in nanoseconds; negative readings
    /// count as zero.
    pub fn record_latency_ns(&mut self, latency_ns: i64)
        ensures
            final(self).latencies_us@ =~= old(self).latencies_us@.push(
                (if latency_ns > 0 {
                    latency_ns / 1000
                } else {
                    0
                }) as u64,
            ),
            final(self).bytes == old(self).bytes,
            final(self).prev_serial == old(self).prev_serial,
            final(self).dropped_frames == old(self).dropped_frames,
    {
        let us: u64 = if latency_ns > 0 {
            (latency_ns / 1000) as u64
        } else {
            0
        };
        self.latencies_us.push(us);
    }

    /// Records one frame's latency in microseconds.
    pub fn record_latency_us(&mut self, latency_us: u64)
        ensures
            final(self).latencies_us@ =~= old(self).latencies_us@.push(latency_us),
            final(self).bytes == old(self).bytes,
            final(self).prev_serial == old(self).prev_serial,
            final(self).dropped_frames == old(self).dropped_frames,
    {
        self.latencies_us.push(latency_us);
    }

    /// Adds processed bytes to the running total, saturating at the counter
    /// width.
    pub fn record_bytes(&mut self, bytes: u64)
        ensures
            final(self).bytes == if old(self).bytes + bytes <= u64::MAX {
                old(self).bytes + bytes
            } else {
                u64::MAX as int
            },
            final(self).latencies_us@ == old(self).latencies_us@,
            final(self).prev_serial == old(self).prev_serial,
            final(self).dropped_frames == old(self).dropped_frames,
    {
        if bytes <= u64::MAX - self.bytes {
            self.bytes = self.bytes + bytes;
        } else {
            self.bytes = u64::MAX;
        }
    }

    /// Tracks a frame's serial number and returns how many frames were
    /// dropped since the previous one: the size of the gap past the
    /// expected successor.  The first frame, a repeat, or a serial running
    /// backwards count as no drop.
    pub fn track_serial(&mut self, serial: i64) -> (drops: u64)
        ensures
            drops == match old(self).prev_serial {
                Some(p) => spec_drops(p as int, serial as int),
                None => 0,
            },
            final(self).prev_serial == Some(serial),
            final(self).dropped_frames == if old(self).dropped_frames + drops <= u64::MAX {
                old(self).dropped_frames + drops
            } else {
                u64::MAX as int
            },
            final(self).latencies_us@ == old(self).latencies_us@,
            final(self).bytes == old(self).bytes,
    {
        let drops: u64 = match self.prev_serial {
            Some(p) => {
                let gap: i128 = (serial as i128) - (p as i128) - 1;
                if gap > 0 {
                    gap as u64
                } else {
                    0
                }
            },
            None => 0,
        };
        if drops <= u64::MAX - self.dropped_frames {
            self.dropped_frames = self.dropped_frames + drops;
        } else {
            self.dropped_frames = u64::MAX;
        }
        self.prev_serial = Some(serial);
        drops
    }

    /// How many latency samples were recorded; each sample is one frame.
    pub fn frames_processed(&self) -> (r: usize)
        ensures
            r == self.latencies_us@.len(),
    {
        self.latencies_us.len()
    }
}

impl Default for MetricsCollector {
    /// Same as [`MetricsCollector::new`].
    fn default() -> (r: MetricsCollector)
        ensures
            r.latencies_us@.len() == 0,
            r.bytes == 0,
            r.prev_serial is None,
            r.dropped_frames == 0,
    {
        MetricsCollector { latencies_us: Vec::new(), bytes: 0, prev_serial: None, dropped_frames: 0 }
    }
}

} // verus!
