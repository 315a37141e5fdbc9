use batchlog::{Batcher, DrainStep, IngestMessage, Options};
use bytes::Bytes;

/// A pattern payload of `len` bytes, distinct for each `seed`.
fn payload(seed: usize, len: usize) -> Bytes {
    let mut v = Vec::with_capacity(len);
    for i in 0..len {
        v.push(((seed * 31 + i) % 251) as u8);
    }
    Bytes::from(v)
}

/// Drains `queue` from `next` on, as the batcher loop does, until the queue
/// is empty, a cut is due, or the terminal marker comes. Returns the index of
/// the first message left, and whether the marker was taken.
fn drain(
    batcher: &mut Batcher<usize>,
    queue: &mut Vec<Option<IngestMessage<usize>>>,
    next: usize,
) -> (usize, bool) {
    let mut i = next;
    while i < queue.len() {
        let msg = queue[i].take().unwrap();
        i += 1;
        match batcher.accept(msg) {
            DrainStep::Continue => {}
            DrainStep::Cut => return (i, false),
            DrainStep::Exit => return (i, true),
        }
    }
    (i, false)
}

/// Writes the batch to `file` and records a flush that took `nanos`.
fn flush(batcher: &mut Batcher<usize>, file: &mut Vec<u8>, nanos: u64) -> Vec<usize> {
    if batcher.has_batch() {
        file.extend_from_slice(batcher.batch());
    }
    batcher.complete(nanos)
}

fn queue_of(payloads: &[Bytes]) -> Vec<Option<IngestMessage<usize>>> {
    payloads
        .iter()
        .enumerate()
        .map(|(i, p)| Some(IngestMessage::Write { data: p.clone(), waker: i }))
        .collect()
}

/// Feeds every payload through the batcher, flushing after each drain, with
/// a flush cost of a fixed overhead plus one nanosecond per byte. Returns the
/// file, the handles in the order they were handed back, and the largest
/// target batch size seen.
fn run_all(opts: Options, payloads: &[Bytes]) -> (Vec<u8>, Vec<usize>, usize) {
    let mut batcher: Batcher<usize> = Batcher::new(opts);
    let mut queue = queue_of(payloads);
    let mut file = Vec::new();
    let mut woken = Vec::new();
    let mut largest = batcher.target_batch_size();
    let mut next = 0;
    while next < queue.len() {
        let (n, exited) = drain(&mut batcher, &mut queue, next);
        assert!(!exited);
        next = n;
        let len = batcher.batch().len() as u64;
        woken.extend(flush(&mut batcher, &mut file, 100_000 + len));
        largest = largest.max(batcher.target_batch_size());
    }
    (file, woken, largest)
}

fn write_data(task_size: usize) {
    const MSG_SIZE: usize = 1000;
    let data = payload(7, MSG_SIZE);
    let mut batcher: Batcher<usize> = Batcher::new(Options::default());
    let mut woken = 0usize;
    let mut written = 0usize;
    let mut i = 0usize;
    while i < task_size {
        let step = batcher.accept(IngestMessage::Write { data: data.clone(), waker: i });
        i += 1;
        if step == DrainStep::Cut || i == task_size {
            written += batcher.batch().len();
            let handles = batcher.complete(1000 + batcher.batch().len() as u64);
            for (k, h) in handles.iter().enumerate() {
                assert_eq!(*h, woken + k);
            }
            woken += handles.len();
        }
    }
    assert_eq!(task_size, woken);
    assert_eq!(task_size * MSG_SIZE, written);
}

#[test]
fn test_write_data() {
    write_data(1024);
    write_data(1);
    write_data(10);
    write_data(100);
    write_data(1000);
    write_data(10_000);
    write_data(100_000);
    write_data(1000_000);
}

#[test]
fn tiny_single_write() {
    let (file, woken, _) = run_all(Options::default(), &[Bytes::from_static(b"hello")]);
    assert_eq!(file, b"hello".to_vec());
    assert_eq!(file.len(), 5);
    assert_eq!(woken, vec![0]);
}

#[test]
fn serial_order() {
    let mut batcher: Batcher<usize> = Batcher::new(Options::default());
    let mut file = Vec::new();
    for (i, p) in [&b"a"[..], &b"bb"[..], &b"ccc"[..]].iter().enumerate() {
        let step = batcher.accept(IngestMessage::Write { data: Bytes::copy_from_slice(p), waker: i });
        assert_eq!(step, DrainStep::Continue);
        assert_eq!(batcher.batch(), *p);
        let woken = flush(&mut batcher, &mut file, 10);
        assert_eq!(woken, vec![i]);
    }
    assert_eq!(file, b"abbccc".to_vec());
}

#[test]
fn concurrent_producers_one_logger() {
    let payloads: Vec<Bytes> = (0..100).map(|i| payload(i, 100)).collect();
    let (file, woken, _) = run_all(Options::default(), &payloads);
    assert_eq!(file.len(), 10_000);
    assert_eq!(woken, (0..100).collect::<Vec<_>>());
    for (i, p) in payloads.iter().enumerate() {
        assert_eq!(&file[i * 100..(i + 1) * 100], &p[..]);
    }
}

#[test]
fn backpressure_keeps_target_within_max_buffer() {
    let payloads: Vec<Bytes> = (0..10_000).map(|i| payload(i, 1000)).collect();
    let opts = Options::new(4096, 100, 4096);
    let (file, woken, largest) = run_all(opts, &payloads);
    assert_eq!(file.len(), 10_000_000);
    assert_eq!(woken.len(), 10_000);
    assert!(largest <= 4096);
}

#[test]
fn adaptive_growth_then_stable() {
    let max = 1 << 20;
    let opts = Options::new(max, 1000, 4096);
    let mut batcher: Batcher<usize> = Batcher::new(opts);
    let data = payload(1, 1000);
    let mut targets = vec![batcher.target_batch_size()];
    let mut n = 0usize;
    for _ in 0..40 {
        loop {
            let step = batcher.accept(IngestMessage::Write { data: data.clone(), waker: n });
            n += 1;
            if step == DrainStep::Cut {
                break;
            }
        }
        let len = batcher.batch().len() as u64;
        batcher.complete(1_000_000 + len);
        targets.push(batcher.target_batch_size());
    }
    // Doubling while the fixed cost dominates, up to the bound.
    for w in targets.windows(2).take(8) {
        assert_eq!(w[1], w[0] * 2);
    }
    assert_eq!(targets[8], max);
    for t in &targets[8..] {
        assert!(*t >= max * 3 / 4 && *t <= max);
    }
}

#[test]
fn exit_abandons_the_batch_and_stops() {
    let mut batcher: Batcher<usize> = Batcher::new(Options::default());
    let mut file = Vec::new();
    batcher.accept(IngestMessage::Write { data: Bytes::from_static(b"kept"), waker: 0 });
    assert_eq!(flush(&mut batcher, &mut file, 10), vec![0]);
    batcher.accept(IngestMessage::Write { data: Bytes::from_static(b"lost"), waker: 1 });
    assert_eq!(batcher.accept(IngestMessage::Exit), DrainStep::Exit);
    assert!(batcher.is_stopped());
    assert!(!batcher.has_batch());
    assert_eq!(
        batcher.accept(IngestMessage::Write { data: Bytes::from_static(b"late"), waker: 2 }),
        DrainStep::Exit
    );
    assert!(flush(&mut batcher, &mut file, 10).is_empty());
    assert_eq!(file, b"kept".to_vec());
}

#[test]
fn empty_batch_is_skipped() {
    let mut batcher: Batcher<usize> = Batcher::new(Options::default());
    assert!(!batcher.has_batch());
    assert!(batcher.complete(5).is_empty());
    assert_eq!(batcher.target_batch_size(), 4096);
}

#[test]
fn cut_when_next_payload_would_overflow() {
    let mut batcher: Batcher<usize> = Batcher::new(Options::new(1 << 20, 100, 4096));
    let step = batcher.accept(IngestMessage::Write { data: payload(0, 3996), waker: 0 });
    assert_eq!(step, DrainStep::Continue);
    let step = batcher.accept(IngestMessage::Write { data: payload(1, 1), waker: 1 });
    assert_eq!(step, DrainStep::Cut);
    assert_eq!(batcher.batch().len(), 3997);
}

#[test]
fn first_flush_grows_target() {
    let mut batcher: Batcher<usize> = Batcher::new(Options::default());
    batcher.accept(IngestMessage::Write { data: payload(0, 10), waker: 0 });
    batcher.complete(1_000_000_000);
    assert_eq!(batcher.target_batch_size(), 8192);
}

#[test]
fn target_stays_block_aligned_with_unaligned_max_buffer() {
    let payloads: Vec<Bytes> = (0..200).map(|i| payload(i, 700)).collect();
    let opts = Options::new(5000, 100, 4096);
    let mut batcher: Batcher<usize> = Batcher::new(opts);
    let mut queue = queue_of(&payloads);
    let mut file = Vec::new();
    let mut next = 0;
    let mut round = 0u64;
    while next < queue.len() {
        let (n, _) = drain(&mut batcher, &mut queue, next);
        next = n;
        round += 1;
        // Alternate fast and slow flushes so the target both grows and shrinks.
        let nanos = if round % 2 == 0 { 10 } else { 1_000_000 };
        let woken = flush(&mut batcher, &mut file, nanos);
        assert!(!woken.is_empty());
        let t = batcher.target_batch_size();
        assert!(t > 0 && t % 4096 == 0);
    }
    assert_eq!(file.len(), 200 * 700);
}
