use chanlib::crossbeam::{
    bounded, broadcast, delivered_flags, keep_delivered, unbounded, watcher, PriorityReceiver, NotifierStatus, ReceiverExt, RecvError,
    TryRecvError,
};

#[test]
fn test_broadcast_basic() {
    let (broadcaster, listener1) = broadcast();
    let listener2 = listener1.clone();
    let listener3 = listener1.clone();

    broadcaster.broadcast(5usize).unwrap();

    let mut counter = 0;
    for listener in vec![listener1, listener2, listener3] {
        if let Ok(value) = listener.listen() {
            counter += value;
        }
    }
    assert_eq!(counter, 15);
}

#[test]
fn test_watcher_deduplication() {
    let (mut notifier, watcher1) = watcher();
    let watcher2 = watcher1.clone();

    notifier.maybe_notify(5usize).unwrap();
    let status = notifier.maybe_notify(5).unwrap();
    assert!(matches!(status, NotifierStatus::DidNotNotify));

    let mut counter = 0;
    if let Ok(value) = watcher1.watch() {
        counter += value;
    }
    if let Ok(value) = watcher2.watch() {
        counter += value;
    }
    assert_eq!(counter, 10);
}

#[test]
fn test_concurrent_processing() {
    let (mut notifier, watcher1) = watcher();
    let watcher2 = watcher1.clone();

    notifier.maybe_notify(42).unwrap();

    let mut processed = Vec::new();
    for (id, watcher) in vec![watcher1, watcher2].into_iter().enumerate() {
        if let Ok(value) = watcher.watch() {
            processed.push((id, value));
        }
    }
    assert_eq!(processed.len(), 2);
    assert!(processed.iter().all(|&(_, value)| value == 42));
}

#[test]
fn test_late_subscribers() {
    let (mut notifier, watcher1) = watcher();

    notifier.maybe_notify(1).unwrap();

    let watcher2 = watcher1.clone();

    notifier.maybe_notify(2).unwrap();
    notifier.maybe_notify(3).unwrap();

    let mut sum1 = 0;
    let mut sum2 = 0;

    for _ in 0..3 {
        if let Ok(value) = watcher1.watch() {
            sum1 += value;
        }
    }

    for _ in 0..2 {
        if let Ok(value) = watcher2.watch() {
            sum2 += value;
        }
    }

    assert_eq!(sum1, 6);
    assert_eq!(sum2, 5);
}

#[test]
fn test_priority_channel_basic() {
    let (tx, mut rx) = unbounded();

    tx.send(3).unwrap();
    tx.send(1).unwrap();
    tx.send(4).unwrap();
    tx.send(2).unwrap();

    assert_eq!(rx.recv().unwrap(), 4);
    assert_eq!(rx.recv().unwrap(), 3);
    assert_eq!(rx.recv().unwrap(), 2);
    assert_eq!(rx.recv().unwrap(), 1);
}

#[test]
fn test_priority_channel_bounded() {
    let (tx, mut rx) = bounded(2);

    tx.send(2).unwrap();
    tx.send(1).unwrap();

    assert!(tx.try_send(3).is_err());

    assert_eq!(rx.recv().unwrap(), 2);
    tx.send(3).unwrap();

    assert_eq!(rx.recv().unwrap(), 3);
    assert_eq!(rx.recv().unwrap(), 1);
}

#[test]
fn test_priority_channel_concurrent() {
    let (tx, mut rx) = unbounded();
    let tx_clone = tx.clone();

    tx.send(3).unwrap();
    tx.send(1).unwrap();
    tx.send(5).unwrap();

    tx_clone.send(2).unwrap();
    tx_clone.send(4).unwrap();
    tx_clone.send(6).unwrap();

    let mut received = Vec::new();
    for _ in 0..6 {
        received.push(rx.recv().unwrap());
    }

    assert_eq!(received, vec![6, 5, 4, 3, 2, 1]);
}

#[test]
fn test_priority_channel_try_recv() {
    let (tx, mut rx) = unbounded();

    assert!(rx.try_recv().is_err());

    tx.send(2).unwrap();
    tx.send(1).unwrap();
    tx.send(3).unwrap();

    assert_eq!(rx.try_recv().unwrap(), 3);
    assert_eq!(rx.try_recv().unwrap(), 2);
    assert_eq!(rx.try_recv().unwrap(), 1);

    assert!(rx.try_recv().is_err());
}

#[test]
fn test_priority_channel_ordering_stability() {
    let (tx, mut rx) = unbounded();

    tx.send(2).unwrap();
    tx.send(2).unwrap();
    tx.send(1).unwrap();
    tx.send(2).unwrap();

    assert_eq!(rx.recv().unwrap(), 2);
    assert_eq!(rx.recv().unwrap(), 2);
    assert_eq!(rx.recv().unwrap(), 2);
    assert_eq!(rx.recv().unwrap(), 1);
}

#[test]
fn priority_try_recv_errors() {
    let (tx, mut rx) = unbounded();
    assert_eq!(rx.try_recv(), Err(TryRecvError::Empty));
    tx.send(7).unwrap();
    drop(tx);
    assert_eq!(rx.try_recv(), Ok(7));
    assert_eq!(rx.try_recv(), Err(TryRecvError::Disconnected));
    assert_eq!(rx.recv(), Err(RecvError));
}

#[test]
fn priority_buffer_outlives_senders() {
    let (tx, mut rx) = unbounded();
    tx.send(1).unwrap();
    tx.send(9).unwrap();
    tx.send(4).unwrap();
    assert_eq!(rx.recv(), Ok(9));
    drop(tx);
    assert_eq!(rx.recv(), Ok(4));
    assert_eq!(rx.recv(), Ok(1));
    assert_eq!(rx.recv(), Err(RecvError));
}

#[test]
fn priority_new_arrivals_compete_with_buffer() {
    let (tx, mut rx) = unbounded();
    tx.send(5).unwrap();
    tx.send(2).unwrap();
    assert_eq!(rx.recv(), Ok(5));
    tx.send(8).unwrap();
    tx.send(1).unwrap();
    assert_eq!(rx.recv(), Ok(8));
    assert_eq!(rx.recv(), Ok(2));
    assert_eq!(rx.recv(), Ok(1));
}

#[test]
fn priority_extremes() {
    let (tx, mut rx) = unbounded();
    tx.send(0).unwrap();
    tx.send(u64::MAX).unwrap();
    tx.send(u64::MAX).unwrap();
    assert_eq!(rx.try_recv(), Ok(u64::MAX));
    assert_eq!(rx.try_recv(), Ok(u64::MAX));
    assert_eq!(rx.try_recv(), Ok(0));
}

#[test]
fn receiver_ext_on_both_receivers() {
    let (tx, rx) = unbounded();
    let (plain_tx, plain_rx) = crossbeam_channel::unbounded::<u64>();
    let mut receivers: Vec<Box<dyn ReceiverExt<u64>>> = vec![Box::new(rx), Box::new(plain_rx)];
    tx.send(1).unwrap();
    tx.send(3).unwrap();
    plain_tx.send(1).unwrap();
    plain_tx.send(3).unwrap();
    assert_eq!(receivers[0].recv(), Ok(3));
    assert_eq!(receivers[1].recv(), Ok(1));
    assert_eq!(receivers[0].try_recv(), Ok(1));
    assert_eq!(receivers[1].try_recv(), Ok(3));
    assert_eq!(receivers[1].try_recv(), Err(TryRecvError::Empty));
    drop(plain_tx);
    assert_eq!(receivers[1].try_recv(), Err(TryRecvError::Disconnected));
    assert_eq!(receivers[1].recv(), Err(RecvError));
}

#[test]
fn broadcast_drops_gone_listeners() {
    let (broadcaster, listener1) = broadcast();
    let listener2 = listener1.clone();
    drop(listener2);
    assert!(broadcaster.broadcast(1u8).is_ok());
    assert!(broadcaster.broadcast(2u8).is_ok());
    assert_eq!(listener1.listen(), Ok(1));
    assert_eq!(listener1.listen(), Ok(2));
}

#[test]
fn broadcast_reaches_clones_of_broadcaster() {
    let (broadcaster, listener) = broadcast();
    let second = broadcaster.clone();
    broadcaster.broadcast("a").unwrap();
    second.broadcast("b").unwrap();
    assert_eq!(listener.listen(), Ok("a"));
    assert_eq!(listener.listen(), Ok("b"));
}

#[test]
fn keep_delivered_keeps_flagged_in_order() {
    let (tx0, rx0) = crossbeam_channel::unbounded::<u32>();
    let (tx1, rx1) = crossbeam_channel::unbounded::<u32>();
    let (tx2, rx2) = crossbeam_channel::unbounded::<u32>();
    let kept = keep_delivered(vec![tx0, tx1, tx2], &vec![true, false, true]);
    assert_eq!(kept.len(), 2);
    kept[0].send(10).unwrap();
    kept[1].send(20).unwrap();
    assert_eq!(rx0.try_recv(), Ok(10));
    assert_eq!(rx2.try_recv(), Ok(20));
    assert!(rx1.try_recv().is_err());
}

#[test]
fn keep_delivered_all_flags_keeps_all() {
    let (tx0, rx0) = crossbeam_channel::unbounded::<u32>();
    let (tx1, rx1) = crossbeam_channel::unbounded::<u32>();
    let kept = keep_delivered(vec![tx0, tx1], &vec![true, true]);
    assert_eq!(kept.len(), 2);
    kept[0].send(1).unwrap();
    kept[1].send(2).unwrap();
    assert_eq!(rx0.try_recv(), Ok(1));
    assert_eq!(rx1.try_recv(), Ok(2));
    let none = keep_delivered(kept, &vec![false, false]);
    assert!(none.is_empty());
}

#[test]
fn notifier_broadcasts_changes_only() {
    let (mut notifier, watcher) = watcher();
    assert_eq!(notifier.maybe_notify(1u32), Ok(NotifierStatus::Notified));
    assert_eq!(notifier.maybe_notify(1), Ok(NotifierStatus::DidNotNotify));
    assert_eq!(notifier.maybe_notify(2), Ok(NotifierStatus::Notified));
    assert_eq!(notifier.maybe_notify(1), Ok(NotifierStatus::Notified));
    assert_eq!(notifier.maybe_notify(1), Ok(NotifierStatus::DidNotNotify));
    assert_eq!(watcher.watch(), Ok(1));
    assert_eq!(watcher.watch(), Ok(2));
    assert_eq!(watcher.watch(), Ok(1));
}

#[test]
fn take_largest_with_merges_and_takes_the_maximum() {
    let (_tx, rx) = crossbeam_channel::unbounded::<u64>();
    let mut p = PriorityReceiver::new(rx);
    assert_eq!(p.take_largest_with(vec![]), None);
    assert_eq!(p.take_largest_with(vec![3, 1, 4, 1]), Some(4));
    assert_eq!(p.take_largest_with(vec![2]), Some(3));
    assert_eq!(p.take_largest_with(vec![]), Some(2));
    assert_eq!(p.take_largest_with(vec![1]), Some(1));
    assert_eq!(p.take_largest_with(vec![]), Some(1));
    assert_eq!(p.take_largest_with(vec![]), Some(1));
    assert_eq!(p.take_largest_with(vec![]), None);
}

#[test]
fn clones_share_the_broadcaster() {
    let (broadcaster, listener) = broadcast();
    let b2 = broadcaster.clone();
    let l2 = listener.clone();
    b2.broadcast(3u8).unwrap();
    assert_eq!(listener.listen(), Ok(3));
    assert_eq!(l2.listen(), Ok(3));
}

#[test]
fn watcher_clone_receives_later_values() {
    let (mut notifier, w1) = watcher();
    notifier.maybe_notify(String::from("a")).unwrap();
    let w2 = w1.clone();
    notifier.maybe_notify(String::from("b")).unwrap();
    assert_eq!(notifier.maybe_notify(String::from("b")), Ok(NotifierStatus::DidNotNotify));
    assert_eq!(w1.watch(), Ok(String::from("a")));
    assert_eq!(w1.watch(), Ok(String::from("b")));
    assert_eq!(w2.watch(), Ok(String::from("b")));
}

#[test]
fn listener_keeps_messages_after_broadcaster_is_gone() {
    let (broadcaster, listener) = broadcast();
    let second = listener.clone();
    broadcaster.broadcast(4u16).unwrap();
    broadcaster.broadcast(5u16).unwrap();
    drop(broadcaster);
    assert_eq!(listener.listen(), Ok(4));
    assert_eq!(listener.listen(), Ok(5));
    assert_eq!(second.listen(), Ok(4));
    assert_eq!(second.listen(), Ok(5));
}

#[test]
fn receives_descend_over_all_buffered() {
    let (_tx, rx) = crossbeam_channel::unbounded::<u64>();
    let mut p = PriorityReceiver::new(rx);
    let mut out = Vec::new();
    let first = p.take_largest_with(vec![5, 9, 1, 9, 3]);
    out.push(first.unwrap());
    for _ in 0..4 {
        out.push(p.take_largest_with(Vec::new()).unwrap());
    }
    assert_eq!(out, vec![9, 9, 5, 3, 1]);
    assert_eq!(p.take_largest_with(Vec::new()), None);
}

#[test]
fn delivered_flags_follow_outcomes() {
    let outcomes: Vec<Result<(), crossbeam_channel::TrySendError<u8>>> = vec![
        Ok(()),
        Err(crossbeam_channel::TrySendError::Full(1)),
        Ok(()),
        Err(crossbeam_channel::TrySendError::Disconnected(2)),
    ];
    assert_eq!(delivered_flags(&outcomes), vec![true, false, true, false]);
    let none: Vec<Result<(), crossbeam_channel::TrySendError<u8>>> = Vec::new();
    assert!(delivered_flags(&none).is_empty());
}

#[test]
fn bounded_channel_holds_cap_messages() {
    let (tx, mut rx) = bounded(3);
    assert!(tx.try_send(1).is_ok());
    assert!(tx.try_send(2).is_ok());
    assert!(tx.try_send(3).is_ok());
    assert!(tx.try_send(4).is_err());
    assert_eq!(rx.recv(), Ok(3));
    assert!(tx.try_send(4).is_ok());
    assert!(tx.try_send(5).is_ok());
    assert!(tx.try_send(6).is_ok());
    assert!(tx.try_send(7).is_err());
    let (zero_tx, _zero_rx) = bounded(0);
    assert!(zero_tx.try_send(1).is_err());
}

#[test]
fn unbounded_channel_takes_many_messages() {
    let (tx, mut rx) = unbounded();
    for i in 0..1000u64 {
        assert!(tx.try_send(i).is_ok());
    }
    assert_eq!(rx.recv(), Ok(999));
}
