use vstd::prelude::*;

verus! {

/// Default upper bound on the target batch size: 512 MiB.
pub const DEFAULT_MAX_BUFFER: usize = 536870912;

/// Default early-cut hint, in bytes.
pub const DEFAULT_AVG_MSG_SIZE: usize = 100;

/// Default alignment unit for batch sizing, in bytes.
pub const DEFAULT_BLOCK_SIZE: usize = 4096;

/// The tuning knobs of a logger.
#[derive(Clone, Copy, Debug, PartialEq, Eq, Structural)]
pub struct Options {
    /// Upper bound on the target batch size, in bytes.
    pub max_buffer: usize,
    /// Expected payload size: draining stops once one more payload of this
    /// size would overflow the target.
    pub avg_msg_size: usize,
    /// Alignment unit of the target batch size, in bytes.
    pub block_size: usize,
}

impl Options {
    /// All three knobs are positive, and a batch rounded up past
    /// `max_buffer` still has a length that a buffer can hold.
    pub open spec fn wf(self) -> bool {
        &&& self.max_buffer > 0
        &&& self.avg_msg_size > 0
        &&& self.block_size > 0
        &&& self.max_buffer + self.block_size <= isize::MAX
    }

    /// The options under which the target batch size always stays a positive
    /// multiple of `block_size` no larger than `max_buffer`.
    pub open spec fn aligned(self) -> bool {
        &&& self.wf()
        &&& self.block_size >= 2
        &&& self.max_buffer % self.block_size == 0
    }

    pub fn new(max_buffer: usize, avg_msg_size: usize, block_size: usize) -> (r: Options)
        ensures
            r.max_buffer == max_buffer,
            r.avg_msg_size == avg_msg_size,
            r.block_size == block_size,
    {
        Options { max_buffer, avg_msg_size, block_size }
    }

    /// Whether these options can drive a batcher.
    pub fn is_valid(&self) -> (r: bool)
        ensures
            r == self.wf(),
    {
        self.max_buffer > 0 && self.avg_msg_size > 0 && self.block_size > 0
            && self.max_buffer <= isize::MAX as usize
            && self.block_size <= isize::MAX as usize - self.max_buffer
    }
}

impl Default for Options {
    fn default() -> (r: Options)
        ensures
            r.max_buffer == DEFAULT_MAX_BUFFER,
            r.avg_msg_size == DEFAULT_AVG_MSG_SIZE,
            r.block_size == DEFAULT_BLOCK_SIZE,
            r.aligned(),
    {
        Options {
            max_buffer: DEFAULT_MAX_BUFFER,
            avg_msg_size: DEFAULT_AVG_MSG_SIZE,
            block_size: DEFAULT_BLOCK_SIZE,
        }
    }
}

/// One flushed batch: `bytes` written in `nanos` nanoseconds. Its throughput
/// is the ratio `bytes / nanos`; a batch of zero bytes stands for "no
/// throughput measured yet".
#[derive(Clone, Copy, Debug, PartialEq, Eq, Structural)]
pub struct Measurement {
    pub bytes: u64,
    pub nanos: u64,
}

impl Measurement {
    /// The state before any batch was flushed: zero throughput.
    pub fn none() -> (r: Measurement)
        ensures
            r.bytes == 0,
            r.nanos == 0,
    {
        Measurement { bytes: 0, nanos: 0 }
    }

    pub fn new(bytes: u64, nanos: u64) -> (r: Measurement)
        ensures
            r.bytes == bytes,
            r.nanos == nanos,
    {
        Measurement { bytes, nanos }
    }
}

/// Throughput improved by at least ten percent from `last` to `cur`:
/// `cur.bytes / cur.nanos >= 11/10 * last.bytes / last.nanos`, compared
/// without division. With nothing measured before, it always holds.
pub open spec fn improved(cur: Measurement, last: Measurement) -> bool {
    last.bytes == 0 || 10 * (cur.bytes as int) * (last.nanos as int) >= 11 * (last.bytes as int)
        * (cur.nanos as int)
}

/// Throughput fell by at least ten percent from `last` to `cur`:
/// `cur.bytes / cur.nanos <= 9/10 * last.bytes / last.nanos`.
pub open spec fn degraded(cur: Measurement, last: Measurement) -> bool {
    last.bytes != 0 && 10 * (cur.bytes as int) * (last.nanos as int) <= 9 * (last.bytes as int)
        * (cur.nanos as int)
}

/// The target before alignment: doubled on improvement, three quarters of
/// it (rounded down) on degradation, unchanged otherwise.
pub open spec fn rescaled(target: int, cur: Measurement, last: Measurement) -> int {
    if improved(cur, last) {
        2 * target
    } else if degraded(cur, last) {
        target * 3 / 4
    } else {
        target
    }
}

/// The least multiple of `block` that is at least `m`.
pub open spec fn round_up(m: int, block: int) -> int {
    if m % block == 0 {
        m
    } else {
        m - m % block + block
    }
}

/// Clamp to `max_buffer`, then round up to a multiple of `block_size`.
pub open spec fn align(x: int, opts: Options) -> int {
    let m = if x < opts.max_buffer {
        x
    } else {
        opts.max_buffer as int
    };
    round_up(m, opts.block_size as int)
}

/// The target batch size after a flush measured as `cur`.
pub open spec fn next_target(target: int, cur: Measurement, last: Measurement, opts: Options) -> int {
    align(rescaled(target, cur, last), opts)
}

/// A target batch size that keeps the discipline of aligned options.
pub open spec fn disciplined(target: int, opts: Options) -> bool {
    0 < target <= opts.max_buffer && target % (opts.block_size as int) == 0
}

/// A target batch size that is a positive multiple of `block_size`.
pub open spec fn block_aligned(target: int, opts: Options) -> bool {
    0 < target && target % (opts.block_size as int) == 0
}

proof fn lemma_improved_by_difference(x: int, y: int)
    requires
        x >= 0,
        y >= 0,
    ensures
        (10 * x >= 11 * y) == (x >= y && x - y >= (y + 9) / 10),
{
    assert((10 * x >= 11 * y) == (x >= y && x - y >= (y + 9) / 10)) by (nonlinear_arith)
        requires
            x >= 0,
            y >= 0,
    ;
}

proof fn lemma_degraded_by_difference(x: int, y: int)
    requires
        x >= 0,
        y >= 0,
    ensures
        (10 * x <= 9 * y) == (x <= y && y - x >= (y + 9) / 10),
{
    assert((10 * x <= 9 * y) == (x <= y && y - x >= (y + 9) / 10)) by (nonlinear_arith)
        requires
            x >= 0,
            y >= 0,
    ;
}

proof fn lemma_wide_product(a: u64, b: u64)
    ensures
        0 <= (a as int) * (b as int) <= 0xffff_ffff_ffff_fffe_0000_0000_0000_0001,
{
    assert(0 <= (a as int) * (b as int) <= 0xffff_ffff_ffff_ffff * 0xffff_ffff_ffff_ffff)
        by (nonlinear_arith);
}

fn throughput_improved(cur: Measurement, last: Measurement) -> (r: bool)
    ensures
        r == improved(cur, last),
{
    if last.bytes == 0 {
        return true;
    }
    proof {
        lemma_wide_product(cur.bytes, last.nanos);
        lemma_wide_product(last.bytes, cur.nanos);
        lemma_improved_by_difference(
            (cur.bytes as int) * (last.nanos as int),
            (last.bytes as int) * (cur.nanos as int),
        );
        assert(10 * (cur.bytes as int) * (last.nanos as int) == 10 * ((cur.bytes as int) * (
        last.nanos as int))) by (nonlinear_arith);
        assert(11 * (last.bytes as int) * (cur.nanos as int) == 11 * ((last.bytes as int) * (
        cur.nanos as int))) by (nonlinear_arith);
    }
    let x: u128 = (cur.bytes as u128) * (last.nanos as u128);
    let y: u128 = (last.bytes as u128) * (cur.nanos as u128);
    x >= y && x - y >= (y + 9) / 10
}

fn throughput_degraded(cur: Measurement, last: Measurement) -> (r: bool)
    ensures
        r == degraded(cur, last),
{
    if last.bytes == 0 {
        return false;
    }
    proof {
        lemma_wide_product(cur.bytes, last.nanos);
        lemma_wide_product(last.bytes, cur.nanos);
        lemma_degraded_by_difference(
            (cur.bytes as int) * (last.nanos as int),
            (last.bytes as int) * (cur.nanos as int),
        );
        assert(10 * (cur.bytes as int) * (last.nanos as int) == 10 * ((cur.bytes as int) * (
        last.nanos as int))) by (nonlinear_arith);
        assert(9 * (last.bytes as int) * (cur.nanos as int) == 9 * ((last.bytes as int) * (
        cur.nanos as int))) by (nonlinear_arith);
    }
    let x: u128 = (cur.bytes as u128) * (last.nanos as u128);
    let y: u128 = (last.bytes as u128) * (cur.nanos as u128);
    x <= y && y - x >= (y + 9) / 10
}

/// The adaptive sizing rule: from the current target, the measurement of the
/// batch just flushed and that of the batch before it, the next target batch
/// size, clamped to `max_buffer` and rounded up to a multiple of
/// `block_size`.
pub fn next_target_size(target: usize, cur: Measurement, last: Measurement, opts: &Options) -> (r:
    usize)
    requires
        opts.wf(),
    ensures
        r == next_target(target as int, cur, last, *opts),
{
    let max = opts.max_buffer;
    let m: usize = if throughput_improved(cur, last) {
        if target > max / 2 {
            max
        } else {
            2 * target
        }
    } else if throughput_degraded(cur, last) {
        let shrunk: usize = target / 4 * 3 + target % 4 * 3 / 4;
        assert(shrunk == (target as int) * 3 / 4) by (nonlinear_arith)
            requires
                shrunk == target / 4 * 3 + target % 4 * 3 / 4,
        ;
        if shrunk < max {
            shrunk
        } else {
            max
        }
    } else {
        if target < max {
            target
        } else {
            max
        }
    };
    let block = opts.block_size;
    assert(m <= max);
    assert(m % block <= m) by (nonlinear_arith)
        requires
            block > 0,
    ;
    if m % block == 0 {
        m
    } else {
        m - m % block + block
    }
}

} // verus!
