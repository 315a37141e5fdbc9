use bytes::Bytes;
use vstd::prelude::*;

use crate::payload::{payload_bytes, payload_of};
use crate::history::{lemma_next_target_block_aligned, lemma_next_target_disciplined};
use crate::sizing::{block_aligned, disciplined, next_target, next_target_size, Measurement, Options};

verus! {

/// What producers put into the ingest queue: a payload with the handle that
/// signals its completion, or the terminal marker.
pub enum IngestMessage<H> {
    Write { data: Bytes, waker: H },
    Exit,
}

/// What the batcher asks of the loop that drains the ingest queue after
/// taking one message.
#[derive(Clone, Copy, Debug, PartialEq, Eq, Structural)]
pub enum DrainStep {
    /// Keep draining.
    Continue,
    /// Stop draining and flush: one more payload would likely overflow the
    /// target batch size.
    Cut,
    /// The terminal marker was taken: stop for good.
    Exit,
}

/// The abstract state of a batcher. `flushed` holds the payloads of every
/// batch flushed so far, in drain order, and `current` those of the batch
/// being assembled.
pub struct BatcherView {
    pub opts: Options,
    pub target: int,
    pub last: Measurement,
    pub flushed: Seq<Seq<u8>>,
    pub current: Seq<Seq<u8>>,
    pub stopped: bool,
}

impl BatcherView {
    pub open spec fn initial(opts: Options) -> BatcherView {
        BatcherView {
            opts,
            target: opts.block_size as int,
            last: Measurement { bytes: 0, nanos: 0 },
            flushed: Seq::empty(),
            current: Seq::empty(),
            stopped: false,
        }
    }

    /// The bytes handed to successful writes so far: the file's contents.
    pub open spec fn log(self) -> Seq<u8> {
        self.flushed.flatten()
    }

    /// The batch buffer.
    pub open spec fn batch(self) -> Seq<u8> {
        self.current.flatten()
    }

    /// The early-cut rule.
    pub open spec fn cut_due(self) -> bool {
        self.batch().len() + self.opts.avg_msg_size > self.target
    }

    pub open spec fn write(self, p: Seq<u8>) -> BatcherView {
        if self.stopped {
            self
        } else {
            BatcherView { current: self.current.push(p), ..self }
        }
    }

    /// The terminal marker abandons the batch being assembled.
    pub open spec fn exit(self) -> BatcherView {
        BatcherView { current: Seq::empty(), stopped: true, ..self }
    }

    pub open spec fn measured(self, nanos: u64) -> Measurement {
        Measurement { bytes: self.batch().len() as u64, nanos }
    }

    /// Whether a flush writes anything: an empty batch is skipped.
    pub open spec fn flushes(self) -> bool {
        !self.stopped && self.batch().len() > 0
    }

    /// The batch was written in `nanos` nanoseconds; the target batch size
    /// follows the adaptive rule.
    pub open spec fn flush(self, nanos: u64) -> BatcherView {
        if self.flushes() {
            BatcherView {
                target: next_target(self.target, self.measured(nanos), self.last, self.opts),
                last: self.measured(nanos),
                flushed: self.flushed + self.current,
                current: Seq::empty(),
                ..self
            }
        } else {
            self
        }
    }
}

/// The batcher: assembles batches from drained payloads, decides when to cut
/// them, and adjusts the target batch size after every flush. `H` is the
/// completion handle that travels with each payload.
pub struct Batcher<H> {
    opts: Options,
    target: usize,
    last: Measurement,
    batch: Vec<u8>,
    pending: Vec<H>,
    stopped: bool,
    flushed: Ghost<Seq<Seq<u8>>>,
    current: Ghost<Seq<Seq<u8>>>,
}

impl<H> View for Batcher<H> {
    type V = BatcherView;

    closed spec fn view(&self) -> BatcherView {
        BatcherView {
            opts: self.opts,
            target: self.target as int,
            last: self.last,
            flushed: self.flushed@,
            current: self.current@,
            stopped: self.stopped,
        }
    }
}

impl<H> Batcher<H> {
    pub closed spec fn wf(&self) -> bool {
        &&& self.opts.wf()
        &&& self.batch@ == self.current@.flatten()
        &&& self.pending@.len() == self.current@.len()
        &&& (self.stopped ==> self.current@.len() == 0)
    }

    /// The completion handles of the batch being assembled, in drain order.
    pub closed spec fn pending(&self) -> Seq<H> {
        self.pending@
    }

    pub fn new(opts: Options) -> (r: Self)
        requires
            opts.wf(),
        ensures
            r.wf(),
            r@ == BatcherView::initial(opts),
            r.pending().len() == 0,
            r.pending().len() == r@.current.len(),
    {
        Batcher {
            opts,
            target: opts.block_size,
            last: Measurement::none(),
            batch: Vec::new(),
            pending: Vec::new(),
            stopped: false,
            flushed: Ghost(Seq::empty()),
            current: Ghost(Seq::empty()),
        }
    }

    /// Takes one message drained from the ingest queue. A payload is appended
    /// to the batch and its handle to the pending handles; the terminal marker
    /// abandons the batch, dropping its handles unsignalled. Once stopped, the
    /// batcher ignores whatever it is given.
    pub fn accept(&mut self, msg: IngestMessage<H>) -> (r: DrainStep)
        requires
            old(self).wf(),
        ensures
            final(self).wf(),
            final(self).pending().len() == final(self)@.current.len(),
            old(self)@.stopped ==> final(self)@ == old(self)@ && final(self).pending()
                == old(self).pending() && r == DrainStep::Exit,
            !old(self)@.stopped ==> match msg {
                IngestMessage::Write { data, waker } => {
                    &&& final(self)@ == old(self)@.write(payload_of(data))
                    &&& final(self).pending() == old(self).pending().push(waker)
                    &&& r == if final(self)@.cut_due() {
                        DrainStep::Cut
                    } else {
                        DrainStep::Continue
                    }
                },
                IngestMessage::Exit => {
                    &&& final(self)@ == old(self)@.exit()
                    &&& final(self).pending().len() == 0
                    &&& r == DrainStep::Exit
                },
            },
    {
        if self.stopped {
            return DrainStep::Exit;
        }
        match msg {
            IngestMessage::Exit => {
                self.stopped = true;
                self.batch.clear();
                self.pending = Vec::new();
                self.current = Ghost(Seq::empty());
                DrainStep::Exit
            },
            IngestMessage::Write { data, waker } => {
                let bytes = payload_bytes(&data);
                self.batch.extend_from_slice(bytes);
                proof {
                    self.current@.lemma_flatten_push(payload_of(data));
                    assert(self.batch@ =~= self.current@.push(payload_of(data)).flatten());
                }
                self.pending.push(waker);
                self.current = Ghost(self.current@.push(payload_of(data)));
                if self.opts.avg_msg_size > self.target || self.batch.len() > self.target
                    - self.opts.avg_msg_size {
                    DrainStep::Cut
                } else {
                    DrainStep::Continue
                }
            },
        }
    }

    /// Whether the batch holds any bytes; an empty one is not written.
    pub fn has_batch(&self) -> (r: bool)
        requires
            self.wf(),
        ensures
            r == (self@.batch().len() > 0),
    {
        self.batch.len() > 0
    }

    /// The bytes to write.
    pub fn batch(&self) -> (r: &[u8])
        requires
            self.wf(),
        ensures
            r@ == self@.batch(),
    {
        self.batch.as_slice()
    }

    /// Records that the batch was written in `elapsed_nanos` nanoseconds
    /// (counted from the start of its assembly), adjusts the target batch
    /// size, and hands back the batch's completion handles, in drain order,
    /// for the notifier. An empty batch, or a stopped batcher, changes
    /// nothing and hands back no handle.
    pub fn complete(&mut self, elapsed_nanos: u64) -> (r: Vec<H>)
        requires
            old(self).wf(),
        ensures
            final(self).wf(),
            final(self)@ == old(self)@.flush(elapsed_nanos),
            old(self)@.flushes() ==> r@ == old(self).pending() && final(self).pending().len()
                == 0,
            !old(self)@.flushes() ==> r@.len() == 0 && final(self).pending() == old(
                self,
            ).pending(),
            old(self)@.flushes() ==> r@.len() == old(self)@.current.len(),
            final(self).pending().len() == final(self)@.current.len(),
            old(self)@.opts.aligned() && disciplined(old(self)@.target, old(self)@.opts)
                ==> disciplined(final(self)@.target, final(self)@.opts),
            old(self)@.opts.block_size >= 2 && block_aligned(old(self)@.target, old(self)@.opts)
                ==> block_aligned(final(self)@.target, final(self)@.opts),
    {
        if self.stopped || self.batch.len() == 0 {
            return Vec::new();
        }
        let cur = Measurement::new(self.batch.len() as u64, elapsed_nanos);
        proof {
            if self.opts.aligned() && disciplined(self.target as int, self.opts) {
                lemma_next_target_disciplined(self.target as int, cur, self.last, self.opts);
            }
            if self.opts.block_size >= 2 && block_aligned(self.target as int, self.opts) {
                lemma_next_target_block_aligned(self.target as int, cur, self.last, self.opts);
            }
        }
        self.target = next_target_size(self.target, cur, self.last, &self.opts);
        self.last = cur;
        self.batch.clear();
        let mut handles: Vec<H> = Vec::new();
        std::mem::swap(&mut self.pending, &mut handles);
        proof {
            vstd::seq_lib::lemma_flatten_concat(self.flushed@, self.current@);
        }
        self.flushed = Ghost(self.flushed@ + self.current@);
        self.current = Ghost(Seq::empty());
        handles
    }

    /// The current target batch size, in bytes.
    pub fn target_batch_size(&self) -> (r: usize)
        ensures
            r == self@.target,
    {
        self.target
    }

    /// Whether the terminal marker has been taken.
    pub fn is_stopped(&self) -> (r: bool)
        ensures
            r == self@.stopped,
    {
        self.stopped
    }
}

} // verus!
