use tokio::sync::oneshot::Sender;
use vstd::prelude::*;

verus! {

#[verifier::external_type_specification]
#[verifier::external_body]
#[verifier::reject_recursive_types(T)]
pub struct ExSender<T>(Sender<T>);

/// What the batcher hands the notifier: the completion handles of one
/// written batch, in drain order, or the terminal marker.
pub enum CompletionMessage {
    Wake(Vec<Sender<()>>),
    Exit,
}

/// The notifier's record of every handle it has passed to `send`, in order.
pub struct Signals {
    sent: Ghost<Seq<Sender<()>>>,
}

impl Signals {
    /// The handles signalled so far, in the order they were signalled.
    pub closed spec fn sent(&self) -> Seq<Sender<()>> {
        self.sent@
    }

    pub fn new() -> (r: Signals)
        ensures
            r.sent().len() == 0,
    {
        Signals { sent: Ghost(Seq::empty()) }
    }

    /// Relies on `tokio::sync::oneshot::Sender::send`: it consumes the handle
    /// and fails only where the receiving producer is gone, which nothing
    /// here can know in advance.
    #[verifier::external_body]
    fn signal(&mut self, waker: Sender<()>) -> (delivered: bool)
        ensures
            final(self).sent() == old(self).sent().push(waker),
    {
        waker.send(()).is_ok()
    }
}

/// Signals every handle once, in order. A handle whose producer is gone is
/// passed over without affecting the others. Returns how many signals were
/// delivered.
pub fn wake_all(signals: &mut Signals, wakers: Vec<Sender<()>>) -> (delivered: usize)
    ensures
        final(signals).sent() == old(signals).sent() + wakers@,
        delivered <= wakers@.len(),
{
    let ghost ws = wakers@;
    let ghost before = signals.sent();
    let mut delivered: usize = 0;
    let count = wakers.len();
    for waker in it: wakers
        invariant
            delivered <= it.index(),
            it.seq() == ws,
            it.seq().len() == count,
            signals.sent() == before + ws.take(it.index() as int),
    {
        assert(it.index() < it.seq().len());
        proof {
            assert(ws.take(it.index() + 1) =~= ws.take(it.index() as int).push(ws[it.index() as int]));
        }
        if signals.signal(waker) {
            delivered = delivered + 1;
        }
    }
    assert(ws.take(ws.len() as int) =~= ws);
    delivered
}

/// Serves one message of the completion queue: wakes a batch's producers,
/// and tells whether to keep serving (false on the terminal marker).
pub fn handle_completion(signals: &mut Signals, msg: CompletionMessage) -> (keep_serving: bool)
    ensures
        keep_serving == (msg is Wake),
        match msg {
            CompletionMessage::Wake(wakers) => final(signals).sent() == old(signals).sent()
                + wakers@,
            CompletionMessage::Exit => final(signals).sent() == old(signals).sent(),
        },
{
    match msg {
        CompletionMessage::Wake(wakers) => {
            wake_all(signals, wakers);
            true
        },
        CompletionMessage::Exit => false,
    }
}

} // verus!
