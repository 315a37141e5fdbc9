use batchlog::{handle_completion, wake_all, CompletionMessage, Signals};
use tokio::sync::oneshot;

#[test]
fn wake_signals_every_handle() {
    let mut signals = Signals::new();
    let (tx1, mut rx1) = oneshot::channel::<()>();
    let (tx2, mut rx2) = oneshot::channel::<()>();
    assert!(handle_completion(&mut signals, CompletionMessage::Wake(vec![tx1, tx2])));
    assert!(rx1.try_recv().is_ok());
    assert!(rx2.try_recv().is_ok());
}

#[test]
fn dropped_receiver_is_passed_over() {
    let mut signals = Signals::new();
    let (tx1, rx1) = oneshot::channel::<()>();
    let (tx2, mut rx2) = oneshot::channel::<()>();
    drop(rx1);
    assert_eq!(wake_all(&mut signals, vec![tx1, tx2]), 1);
    assert!(rx2.try_recv().is_ok());
}

#[test]
fn exit_stops_the_notifier() {
    let mut signals = Signals::new();
    assert!(!handle_completion(&mut signals, CompletionMessage::Exit));
    assert_eq!(wake_all(&mut signals, Vec::new()), 0);
}

#[test]
fn a_dropped_receiver_does_not_stop_later_signals() {
    let mut signals = Signals::new();
    let (tx1, mut rx1) = oneshot::channel::<()>();
    let (tx2, rx2) = oneshot::channel::<()>();
    let (tx3, mut rx3) = oneshot::channel::<()>();
    drop(rx2);
    assert!(handle_completion(&mut signals, CompletionMessage::Wake(vec![tx1, tx2, tx3])));
    assert!(rx1.try_recv().is_ok());
    assert!(rx3.try_recv().is_ok());
}
