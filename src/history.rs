use vstd::arithmetic::div_mod::{lemma_fundamental_div_mod, lemma_mod_multiples_basic};
use vstd::prelude::*;

use crate::batcher::BatcherView;
use crate::sizing::{
    align, block_aligned, degraded, disciplined, improved, next_target, rescaled, Measurement,
    Options,
};

verus! {

/// One step of a batcher's life, as its driving loop performs it: a payload
/// drained from the ingest queue, a batch flush that took the given number
/// of nanoseconds, or the terminal marker.
pub enum Event {
    Write(Seq<u8>),
    Flush(u64),
    Exit,
}

impl BatcherView {
    pub open spec fn apply(self, e: Event) -> BatcherView {
        match e {
            Event::Write(p) => self.write(p),
            Event::Flush(nanos) => self.flush(nanos),
            Event::Exit => self.exit(),
        }
    }

    /// The state after the events, in order.
    pub open spec fn run(self, events: Seq<Event>) -> BatcherView
        decreases events.len(),
    {
        if events.len() == 0 {
            self
        } else {
            self.apply(events[0]).run(events.drop_first())
        }
    }

    /// One producer submitting `payloads` one after the other, each awaited
    /// before the next: each is drained and then flushed, the flush of
    /// `payloads[i]` taking `nanos[i]` nanoseconds.
    pub open spec fn serial(self, payloads: Seq<Seq<u8>>, nanos: Seq<u64>) -> BatcherView
        decreases payloads.len(),
    {
        if payloads.len() == 0 || nanos.len() == 0 {
            self
        } else {
            self.write(payloads[0]).flush(nanos[0]).serial(payloads.drop_first(), nanos.drop_first())
        }
    }
}

/// The payloads of the write events, in order.
pub open spec fn written(events: Seq<Event>) -> Seq<Seq<u8>>
    decreases events.len(),
{
    if events.len() == 0 {
        Seq::empty()
    } else {
        let rest = written(events.drop_first());
        match events[0] {
            Event::Write(p) => seq![p] + rest,
            _ => rest,
        }
    }
}

pub open spec fn has_exit(events: Seq<Event>) -> bool {
    exists|i: int| 0 <= i < events.len() && events[i] is Exit
}

proof fn lemma_run_concat(v: BatcherView, a: Seq<Event>, b: Seq<Event>)
    ensures
        v.run(a + b) == v.run(a).run(b),
    decreases a.len(),
{
    if a.len() > 0 {
        assert((a + b).drop_first() =~= a.drop_first() + b);
        assert((a + b)[0] == a[0]);
        lemma_run_concat(v.apply(a[0]), a.drop_first(), b);
    } else {
        assert(a + b =~= b);
    }
}

proof fn lemma_serial_step(v: BatcherView, payloads: Seq<Seq<u8>>, nanos: Seq<u64>)
    requires
        !v.stopped,
        v.current.len() == 0,
        payloads.len() == nanos.len(),
        forall|i: int| 0 <= i < payloads.len() ==> #[trigger] payloads[i].len() > 0,
    ensures
        v.serial(payloads, nanos).log() == v.log() + payloads.flatten(),
        !v.serial(payloads, nanos).stopped,
        v.serial(payloads, nanos).current.len() == 0,
    decreases payloads.len(),
{
    if payloads.len() == 0 {
        assert(v.log() + payloads.flatten() =~= v.log());
    } else {
        let p = payloads[0];
        let w = v.write(p);
        assert(w.current =~= seq![p]);
        w.current.lemma_flatten_singleton();
        assert(w.batch().len() > 0);
        let u = w.flush(nanos[0]);
        assert(v.flushed + w.current =~= v.flushed.push(p));
        v.flushed.lemma_flatten_push(p);
        assert(u.log() == v.log() + p);
        let rest = payloads.drop_first();
        assert forall|i: int| 0 <= i < rest.len() implies #[trigger] rest[i].len() > 0 by {
            assert(rest[i] == payloads[i + 1]);
        }
        lemma_serial_step(u, rest, nanos.drop_first());
        assert(payloads.flatten() == p + rest.flatten());
        assert(v.log() + p + rest.flatten() =~= v.log() + (p + rest.flatten()));
    }
}

/// A producer that submits payloads one after the other, awaiting each,
/// finds the file holding exactly their concatenation.
pub proof fn lemma_serial_round_trip(opts: Options, payloads: Seq<Seq<u8>>, nanos: Seq<u64>)
    requires
        payloads.len() == nanos.len(),
        forall|i: int| 0 <= i < payloads.len() ==> #[trigger] payloads[i].len() > 0,
    ensures
        BatcherView::initial(opts).serial(payloads, nanos).log() == payloads.flatten(),
{
    let v = BatcherView::initial(opts);
    lemma_serial_step(v, payloads, nanos);
    assert(v.log() =~= Seq::<u8>::empty());
    assert(v.log() + payloads.flatten() =~= payloads.flatten());
}

/// Whatever the batching, payloads reach the file whole and in the order in
/// which they were drained from the ingest queue: the flushed payloads
/// followed by those of the batch being assembled are the ones held before,
/// followed by the newly drained ones. So a producer whose submissions are
/// drained in submission order finds them on disk in that order.
pub proof fn lemma_drain_order(v: BatcherView, events: Seq<Event>)
    requires
        !v.stopped,
        !has_exit(events),
    ensures
        v.run(events).flushed + v.run(events).current == v.flushed + v.current + written(
            events,
        ),
        v.run(events).log() + v.run(events).batch() == v.log() + v.batch() + written(
            events,
        ).flatten(),
        !v.run(events).stopped,
    decreases events.len(),
{
    let r = v.run(events);
    if events.len() == 0 {
        assert(v.flushed + v.current + written(events) =~= v.flushed + v.current);
    } else {
        let rest = events.drop_first();
        assert(!has_exit(rest)) by {
            if has_exit(rest) {
                let i = choose|i: int| 0 <= i < rest.len() && rest[i] is Exit;
                assert(events[i + 1] is Exit);
            }
        }
        assert(!(events[0] is Exit)) by {
            if events[0] is Exit {
                assert(has_exit(events));
            }
        }
        let u = v.apply(events[0]);
        lemma_drain_order(u, rest);
        match events[0] {
            Event::Write(p) => {
                assert(u.flushed + u.current =~= v.flushed + v.current + seq![p]);
                assert(r.flushed + r.current =~= v.flushed + v.current + written(events));
            },
            Event::Flush(n) => {
                assert(u.flushed + u.current =~= v.flushed + v.current);
                assert(r.flushed + r.current =~= v.flushed + v.current + written(events));
            },
            Event::Exit => {},
        }
    }
    vstd::seq_lib::lemma_flatten_concat(r.flushed, r.current);
    vstd::seq_lib::lemma_flatten_concat(v.flushed, v.current);
    vstd::seq_lib::lemma_flatten_concat(v.flushed + v.current, written(events));
}

proof fn lemma_stopped_stays(v: BatcherView, events: Seq<Event>)
    requires
        v.stopped,
    ensures
        v.run(events).stopped,
        v.run(events).log() == v.log(),
        v.run(events).flushed == v.flushed,
    decreases events.len(),
{
    if events.len() > 0 {
        lemma_stopped_stays(v.apply(events[0]), events.drop_first());
    }
}

/// Once the terminal marker has been taken, no further byte reaches the
/// file, whatever follows.
pub proof fn lemma_no_writes_after_exit(v: BatcherView, before: Seq<Event>, after: Seq<Event>)
    ensures
        v.run(before.push(Event::Exit) + after).log() == v.run(before).log(),
        v.run(before.push(Event::Exit) + after).stopped,
{
    lemma_run_concat(v, before.push(Event::Exit), after);
    lemma_run_concat(v, before, seq![Event::Exit]);
    assert(before.push(Event::Exit) =~= before + seq![Event::Exit]);
    let u = v.run(before);
    assert(u.run(seq![Event::Exit]) == u.exit()) by {
        let one = seq![Event::Exit];
        assert(one[0] == Event::Exit);
        assert(one.drop_first() =~= Seq::<Event>::empty());
        assert(u.exit().run(one.drop_first()) == u.exit());
    }
    lemma_stopped_stays(u.exit(), after);
}

/// Under aligned options, one adjustment keeps the target batch size a
/// positive multiple of `block_size` no larger than `max_buffer`.
pub proof fn lemma_next_target_disciplined(
    target: int,
    cur: Measurement,
    last: Measurement,
    opts: Options,
)
    requires
        opts.aligned(),
        disciplined(target, opts),
    ensures
        disciplined(next_target(target, cur, last, opts), opts),
{
    let b = opts.block_size as int;
    let mx = opts.max_buffer as int;
    lemma_fundamental_div_mod(target, b);
    lemma_fundamental_div_mod(mx, b);
    assert(target >= b) by (nonlinear_arith)
        requires
            target == b * (target / b) + target % b,
            target % b == 0,
            target > 0,
            b > 0,
    ;
    let r = rescaled(target, cur, last);
    assert(r >= 1) by (nonlinear_arith)
        requires
            r == 2 * target || r == target * 3 / 4 || r == target,
            target >= b,
            b >= 2,
    ;
    let m = if r < mx {
        r
    } else {
        mx
    };
    lemma_fundamental_div_mod(m, b);
    if m % b != 0 {
        let q = m / b;
        let bigq = mx / b;
        assert(m < mx);
        assert(q + 1 <= bigq) by (nonlinear_arith)
            requires
                m == b * q + m % b,
                m % b > 0,
                mx == b * bigq,
                m < mx,
                b > 0,
        ;
        assert(m - m % b + b == (q + 1) * b) by (nonlinear_arith)
            requires
                m == b * q + m % b,
        ;
        assert((q + 1) * b <= mx) by (nonlinear_arith)
            requires
                q + 1 <= bigq,
                mx == b * bigq,
                b > 0,
        ;
        lemma_mod_multiples_basic(q + 1, b);
    }
}

proof fn lemma_run_disciplined(v: BatcherView, events: Seq<Event>)
    requires
        v.opts.aligned(),
        disciplined(v.target, v.opts),
    ensures
        disciplined(v.run(events).target, v.opts),
        v.run(events).opts == v.opts,
    decreases events.len(),
{
    if events.len() > 0 {
        let u = v.apply(events[0]);
        if let Event::Flush(n) = events[0] {
            if v.flushes() {
                lemma_next_target_disciplined(v.target, v.measured(n), v.last, v.opts);
            }
        }
        lemma_run_disciplined(u, events.drop_first());
    }
}

/// Under aligned options, after every flush, in any run from the start, the
/// target batch size is a positive multiple of `block_size` no larger than
/// `max_buffer`.
pub proof fn lemma_target_discipline(opts: Options, events: Seq<Event>)
    requires
        opts.aligned(),
    ensures
        disciplined(BatcherView::initial(opts).run(events).target, opts),
{
    let v = BatcherView::initial(opts);
    let b = opts.block_size as int;
    lemma_fundamental_div_mod(opts.max_buffer as int, b);
    assert(b <= opts.max_buffer) by (nonlinear_arith)
        requires
            opts.max_buffer == b * ((opts.max_buffer as int) / b) + (opts.max_buffer as int) % b,
            (opts.max_buffer as int) % b == 0,
            opts.max_buffer > 0,
            b > 0,
    ;
    lemma_mod_multiples_basic(1, b);
    lemma_run_disciplined(v, events);
}

proof fn lemma_prefix_trans<A>(a: Seq<A>, b: Seq<A>, c: Seq<A>)
    requires
        a.is_prefix_of(b),
        b.is_prefix_of(c),
    ensures
        a.is_prefix_of(c),
{
    assert(a =~= c.subrange(0, a.len() as int)) by {
        assert forall|i: int| 0 <= i < a.len() implies a[i] == c[i] by {
            assert(a[i] == b[i]);
            assert(b[i] == c[i]);
        }
    }
}

/// The payloads flushed before any event keep their place, and every flushed
/// payload is one that was drained, whole and in drain order, also when the
/// terminal marker comes among the events: the flushed payloads are a prefix
/// of those held before followed by the newly drained ones, and the file a
/// prefix of their bytes.
pub proof fn lemma_flushed_in_drain_order(v: BatcherView, events: Seq<Event>)
    ensures
        v.flushed.is_prefix_of(v.run(events).flushed),
        v.run(events).flushed.is_prefix_of(v.flushed + v.current + written(events)),
        v.run(events).log().is_prefix_of((v.flushed + v.current + written(events)).flatten()),
    decreases events.len(),
{
    let r = v.run(events);
    let all = v.flushed + v.current + written(events);
    if v.stopped {
        lemma_stopped_stays(v, events);
        assert(v.flushed =~= all.subrange(0, v.flushed.len() as int));
    } else if events.len() == 0 {
        assert(v.flushed =~= all.subrange(0, v.flushed.len() as int));
        assert(r.flushed =~= all.subrange(0, r.flushed.len() as int));
    } else {
        let rest = events.drop_first();
        let u = v.apply(events[0]);
        lemma_flushed_in_drain_order(u, rest);
        match events[0] {
            Event::Write(p) => {
                assert(u.flushed + u.current + written(rest) =~= all);
            },
            Event::Flush(n) => {
                assert(u.flushed + u.current + written(rest) =~= all);
                assert(v.flushed.is_prefix_of(u.flushed)) by {
                    if v.flushes() {
                        assert(v.flushed =~= u.flushed.subrange(0, v.flushed.len() as int));
                    }
                }
                lemma_prefix_trans(v.flushed, u.flushed, r.flushed);
            },
            Event::Exit => {
                lemma_stopped_stays(u, rest);
                assert(v.flushed =~= all.subrange(0, v.flushed.len() as int));
            },
        }
    }
    let k = r.flushed.len() as int;
    assert(all =~= all.subrange(0, k) + all.subrange(k, all.len() as int));
    vstd::seq_lib::lemma_flatten_concat(all.subrange(0, k), all.subrange(k, all.len() as int));
    assert(r.flushed == all.subrange(0, k));
    assert(r.log() =~= all.flatten().subrange(0, r.log().len() as int));
}

/// With a block size of at least two, one adjustment keeps the target batch
/// size a positive multiple of `block_size`, whatever `max_buffer` is.
pub proof fn lemma_next_target_block_aligned(
    target: int,
    cur: Measurement,
    last: Measurement,
    opts: Options,
)
    requires
        opts.wf(),
        opts.block_size >= 2,
        block_aligned(target, opts),
    ensures
        block_aligned(next_target(target, cur, last, opts), opts),
{
    let b = opts.block_size as int;
    lemma_fundamental_div_mod(target, b);
    assert(target >= b) by (nonlinear_arith)
        requires
            target == b * (target / b) + target % b,
            target % b == 0,
            target > 0,
            b > 0,
    ;
    let r = rescaled(target, cur, last);
    assert(r >= 1) by (nonlinear_arith)
        requires
            r == 2 * target || r == target * 3 / 4 || r == target,
            target >= b,
            b >= 2,
    ;
    let m = if r < opts.max_buffer {
        r
    } else {
        opts.max_buffer as int
    };
    lemma_fundamental_div_mod(m, b);
    if m % b != 0 {
        let q = m / b;
        assert(m - m % b + b == (q + 1) * b) by (nonlinear_arith)
            requires
                m == b * q + m % b,
        ;
        assert(q >= 0) by (nonlinear_arith)
            requires
                m == b * q + m % b,
                m % b < b,
                m >= 1,
                b > 0,
        ;
        assert((q + 1) * b > 0) by (nonlinear_arith)
            requires
                q >= 0,
                b > 0,
        ;
        lemma_mod_multiples_basic(q + 1, b);
    }
}

proof fn lemma_run_block_aligned(v: BatcherView, events: Seq<Event>)
    requires
        v.opts.wf(),
        v.opts.block_size >= 2,
        block_aligned(v.target, v.opts),
    ensures
        block_aligned(v.run(events).target, v.opts),
        v.run(events).opts == v.opts,
    decreases events.len(),
{
    if events.len() > 0 {
        if let Event::Flush(n) = events[0] {
            if v.flushes() {
                lemma_next_target_block_aligned(v.target, v.measured(n), v.last, v.opts);
            }
        }
        lemma_run_block_aligned(v.apply(events[0]), events.drop_first());
    }
}

/// With valid options and a block size of at least two, after every flush,
/// in any run from the start, the target batch size is a positive multiple of
/// `block_size`, whatever `max_buffer` is.
pub proof fn lemma_target_block_aligned(opts: Options, events: Seq<Event>)
    requires
        opts.wf(),
        opts.block_size >= 2,
    ensures
        block_aligned(BatcherView::initial(opts).run(events).target, opts),
{
    lemma_mod_multiples_basic(1, opts.block_size as int);
    lemma_run_block_aligned(BatcherView::initial(opts), events);
}

/// The first flush of a non-empty batch always doubles the target (then
/// clamps and aligns it): nothing was measured before.
pub proof fn lemma_first_flush_grows(opts: Options, payloads: Seq<Seq<u8>>, nanos: u64)
    requires
        payloads.flatten().len() > 0,
    ensures
        ({
            let v = BatcherView { current: payloads, ..BatcherView::initial(opts) };
            v.flush(nanos).target == align(2 * opts.block_size, opts)
        }),
{
}

/// A flush whose throughput equals that of the batch before it leaves a
/// target that is already clamped and aligned unchanged.
pub proof fn lemma_steady_throughput_keeps_target(
    target: int,
    cur: Measurement,
    last: Measurement,
    opts: Options,
)
    requires
        opts.wf(),
        last.bytes > 0,
        (cur.bytes as int) * (last.nanos as int) == (last.bytes as int) * (cur.nanos as int),
        (cur.bytes as int) * (last.nanos as int) > 0,
        0 < target <= opts.max_buffer,
        target % (opts.block_size as int) == 0,
    ensures
        next_target(target, cur, last, opts) == target,
{
    let x = (cur.bytes as int) * (last.nanos as int);
    assert(10 * (cur.bytes as int) * (last.nanos as int) == 10 * x) by (nonlinear_arith)
        requires
            x == (cur.bytes as int) * (last.nanos as int),
    ;
    assert(11 * (last.bytes as int) * (cur.nanos as int) == 11 * x) by (nonlinear_arith)
        requires
            x == (last.bytes as int) * (cur.nanos as int),
    ;
    assert(9 * (last.bytes as int) * (cur.nanos as int) == 9 * x) by (nonlinear_arith)
        requires
            x == (last.bytes as int) * (cur.nanos as int),
    ;
    assert(!improved(cur, last));
    assert(!degraded(cur, last));
}

} // verus!
