//! Progress tracking: monotone byte counters and the arithmetic of the
//! rate-limited progress report.  The clock reads and the terminal
//! rendering live outside; they hand timestamps in and take the
//! computed figures away.  A skipped report is never an error.

use vstd::prelude::*;

verus! {

/// Minimum milliseconds between two progress reports.
pub const REPORT_INTERVAL_MS: u64 = 252;

/// Cells of the progress bar.
pub const BAR_WIDTH: u64 = 50;

/// Counters for one generation request: bytes synthesized and bytes
/// streamed so far, against the target, plus the time of the last
/// report.
pub struct ProgressInfo {
    pub current_bytes: u64,
    pub target_bytes: u64,
    pub streamed_bytes: u64,
    pub byte_size: u64,
    pub last_printed_ms: u64,
}

impl ProgressInfo {
    /// Fresh counters for a request of `target_size_bytes` bytes, whose
    /// size was stated in units of `factor` bytes.
    pub fn new(target_size_bytes: u64, factor: u64, now_ms: u64) -> (r: ProgressInfo)
        ensures
            r.current_bytes == 0,
            r.streamed_bytes == 0,
            r.target_bytes == target_size_bytes,
            r.byte_size == factor,
            r.last_printed_ms == now_ms,
    {
        ProgressInfo {
            current_bytes: 0,
            target_bytes: target_size_bytes,
            streamed_bytes: 0,
            byte_size: factor,
            last_printed_ms: now_ms,
        }
    }

    /// The request's target in bytes.
    pub fn total_size(&self) -> (r: u64)
        ensures
            r == self.target_bytes,
    {
        self.target_bytes
    }

    /// Counts `chunk_size` more bytes as synthesized; the counter only
    /// ever grows, pinning at the top of its range rather than wrapping.
    pub fn update(&mut self, chunk_size: usize)
        ensures
            final(self).current_bytes == if old(self).current_bytes + chunk_size <= u64::MAX {
                old(self).current_bytes + chunk_size
            } else {
                u64::MAX as int
            },
            final(self).target_bytes == old(self).target_bytes,
            final(self).streamed_bytes == old(self).streamed_bytes,
            final(self).byte_size == old(self).byte_size,
            final(self).last_printed_ms == old(self).last_printed_ms,
    {
        self.current_bytes = match self.current_bytes.checked_add(chunk_size as u64) {
            Some(v) => v,
            None => u64::MAX,
        };
    }

    /// Counts `chunk_size` more bytes as delivered to the transport.
    pub fn update_streamed(&mut self, chunk_size: usize)
        ensures
            final(self).streamed_bytes == if old(self).streamed_bytes + chunk_size <= u64::MAX {
                old(self).streamed_bytes + chunk_size
            } else {
                u64::MAX as int
            },
            final(self).target_bytes == old(self).target_bytes,
            final(self).current_bytes == old(self).current_bytes,
            final(self).byte_size == old(self).byte_size,
            final(self).last_printed_ms == old(self).last_printed_ms,
    {
        self.streamed_bytes = match self.streamed_bytes.checked_add(chunk_size as u64) {
            Some(v) => v,
            None => u64::MAX,
        };
    }

    /// The rate gate: report only when the minimum interval has passed
    /// since the last report.
    pub fn should_report(&self, now_ms: u64) -> (r: bool)
        ensures
            r == (now_ms >= self.last_printed_ms + REPORT_INTERVAL_MS),
    {
        match self.last_printed_ms.checked_add(REPORT_INTERVAL_MS) {
            Some(threshold) => now_ms >= threshold,
            None => false,
        }
    }

    /// Remembers that a report was printed now.
    pub fn mark_reported(&mut self, now_ms: u64)
        ensures
            final(self).last_printed_ms == now_ms,
            final(self).current_bytes == old(self).current_bytes,
            final(self).streamed_bytes == old(self).streamed_bytes,
            final(self).target_bytes == old(self).target_bytes,
            final(self).byte_size == old(self).byte_size,
    {
        self.last_printed_ms = now_ms;
    }
}

/// How many of the bar's fifty cells are filled when `done` of `target`
/// bytes are finished: the done share of the bar, never beyond full, and
/// a zero target counts as complete.
pub fn bar_filled(done: u64, target: u64) -> (r: u64)
    ensures
        target == 0 ==> r == BAR_WIDTH,
        target > 0 && done >= target ==> r == BAR_WIDTH,
        target > 0 && done < target ==> r == (BAR_WIDTH * done) as int / target as int,
        r <= BAR_WIDTH,
{
    if target == 0 {
        BAR_WIDTH
    } else if done >= target {
        BAR_WIDTH
    } else {
        proof {
            assert((done as u128) * (BAR_WIDTH as u128) <= u128::MAX) by (nonlinear_arith)
                requires
                    (done as u128) < 0x10000000000000000u128,
                    (BAR_WIDTH as u128) == 50,
            ;
        }
        let num: u128 = (done as u128) * (BAR_WIDTH as u128);
        let cells: u128 = num / (target as u128);
        proof {
            assert(cells * (target as u128) <= num) by (nonlinear_arith)
                requires
                    cells == num / (target as u128),
                    target > 0,
            ;
            assert(cells < BAR_WIDTH) by (nonlinear_arith)
                requires
                    cells * (target as u128) <= num,
                    num == (done as u128) * (BAR_WIDTH as u128),
                    done < target,
                    target > 0,
            ;
        }
        cells as u64
    }
}

} // verus!
