use hotpath::channel::{ChannelState, RecvOutcome, SendOutcome};
use hotpath::channel_table::{ChannelTable, WrapConfig};
use hotpath::event_log::{Event, Outcome};
use std::sync::mpsc::{sync_channel, TryRecvError, TrySendError};

fn event(n: u64) -> Event {
    Event { timestamp_ns: n, duration_ns: 0, alloc_delta: None, outcome: Outcome::Success }
}

fn config(label: Option<&str>, capacity: Option<u64>, log: bool) -> WrapConfig {
    WrapConfig { label: label.map(|l| l.to_string()), capacity, log }
}

fn send_outcome<T>(r: &Result<(), TrySendError<T>>) -> SendOutcome {
    match r {
        Ok(()) => SendOutcome::Sent,
        Err(TrySendError::Full(_)) => SendOutcome::Full,
        Err(TrySendError::Disconnected(_)) => SendOutcome::Disconnected,
    }
}

fn recv_outcome<T>(r: &Result<T, TryRecvError>) -> RecvOutcome {
    match r {
        Ok(_) => RecvOutcome::Received,
        Err(TryRecvError::Empty) => RecvOutcome::Empty,
        Err(TryRecvError::Disconnected) => RecvOutcome::Disconnected,
    }
}

#[test]
fn fresh_channel_state_is_open_and_empty() {
    let s = ChannelState::new(Some(10));
    let snap = s.snapshot();
    assert_eq!(snap.capacity, Some(10));
    assert_eq!(snap.sent_count, 0);
    assert_eq!(snap.received_count, 0);
    assert_eq!(snap.occupancy, 0);
    assert!(!snap.closed);
    assert!(!s.is_finished());
}

#[test]
fn outcomes_are_handed_back_unchanged() {
    let mut s = ChannelState::new(None);
    for o in [SendOutcome::Sent, SendOutcome::Full, SendOutcome::Disconnected] {
        assert_eq!(s.on_send(o), o);
    }
    for o in [RecvOutcome::Received, RecvOutcome::Empty, RecvOutcome::Disconnected] {
        assert_eq!(s.on_recv(o), o);
    }
}

#[test]
fn only_successes_are_counted() {
    let mut s = ChannelState::new(Some(2));
    s.on_send(SendOutcome::Sent);
    s.on_send(SendOutcome::Sent);
    s.on_send(SendOutcome::Full);
    s.on_recv(RecvOutcome::Received);
    s.on_recv(RecvOutcome::Empty);
    let snap = s.snapshot();
    assert_eq!(snap.sent_count, 2);
    assert_eq!(snap.received_count, 1);
    assert_eq!(snap.occupancy, 1);
    assert!(!snap.closed);
}

#[test]
fn sent_never_falls_below_received() {
    let mut s = ChannelState::new(None);
    // the report of a receive may overtake the report of its send
    s.on_recv(RecvOutcome::Received);
    let snap = s.snapshot();
    assert_eq!(snap.received_count, 1);
    assert_eq!(snap.sent_count, 1);
    assert_eq!(snap.occupancy, 0);
    s.on_send(SendOutcome::Sent);
    let snap = s.snapshot();
    assert_eq!(snap.sent_count, 1);
    assert_eq!(snap.received_count, 1);
    s.on_send(SendOutcome::Sent);
    assert_eq!(s.snapshot().sent_count, 2);
    assert_eq!(s.snapshot().occupancy, 1);
}

#[test]
fn sent_covers_received_at_every_step() {
    let mut s = ChannelState::new(Some(3));
    let script = [1u8, 1, 0, 0, 0, 1, 0, 1, 1, 1, 1, 0, 0, 0, 0, 0, 1];
    for step in script {
        if step == 1 {
            s.on_send(SendOutcome::Sent);
        } else {
            s.on_recv(RecvOutcome::Received);
        }
        let snap = s.snapshot();
        assert!(snap.sent_count >= snap.received_count);
        assert!(snap.occupancy <= snap.sent_count - snap.received_count);
        assert!(snap.occupancy <= 3);
    }
}

#[test]
fn occupancy_is_held_to_the_declared_capacity() {
    let mut s = ChannelState::new(Some(2));
    for _ in 0..5 {
        s.on_send(SendOutcome::Sent);
    }
    assert_eq!(s.snapshot().sent_count, 5);
    assert_eq!(s.snapshot().occupancy, 2);
    let mut u = ChannelState::new(None);
    for _ in 0..5 {
        u.on_send(SendOutcome::Sent);
    }
    assert_eq!(u.snapshot().occupancy, 5);
}

#[test]
fn disconnect_closes_the_channel() {
    let mut s = ChannelState::new(None);
    s.on_send(SendOutcome::Disconnected);
    assert!(s.snapshot().closed);
    assert_eq!(s.snapshot().sent_count, 0);
    let mut r = ChannelState::new(None);
    r.on_recv(RecvOutcome::Disconnected);
    assert!(r.snapshot().closed);
}

#[test]
fn dropping_a_half_closes_and_both_freeze() {
    let mut s = ChannelState::new(None);
    s.on_send(SendOutcome::Sent);
    s.receiver_dropped();
    assert!(s.snapshot().closed);
    assert!(!s.is_finished());
    s.on_send(SendOutcome::Sent);
    assert_eq!(s.snapshot().sent_count, 2);
    s.sender_dropped();
    assert!(s.is_finished());
    let before = s;
    s.on_send(SendOutcome::Sent);
    s.on_recv(RecvOutcome::Received);
    s.on_send(SendOutcome::Disconnected);
    assert_eq!(s, before);
}

#[test]
fn wrapped_bounded_channel_send_three_receive_three() {
    let mut table = ChannelTable::new(16);
    assert!(table.acquire());
    let (tx, rx) = sync_channel::<u32>(10);
    let id = table.wrap(config(Some("bounded"), Some(10), true)).unwrap();
    for i in 0..3u32 {
        let r = tx.try_send(i);
        assert_eq!(table.on_send(id, send_outcome(&r), event(i as u64)), SendOutcome::Sent);
        assert!(r.is_ok());
    }
    for i in 0..3u32 {
        let r = rx.try_recv();
        assert_eq!(table.on_recv(id, recv_outcome(&r), event(10 + i as u64)), RecvOutcome::Received);
        assert_eq!(r, Ok(i));
    }
    let snap = table.snapshot(id).unwrap();
    assert_eq!(snap.id, id);
    assert_eq!(snap.label, "bounded");
    assert_eq!(snap.sent_count, 3);
    assert_eq!(snap.received_count, 3);
    assert_eq!(snap.capacity, Some(10));
    assert_eq!(snap.occupancy, 0);
    assert!(!snap.closed);
    assert_eq!(table.log(id).unwrap().len(), 6);
}

#[test]
fn wrapped_and_unwrapped_channels_answer_alike() {
    let mut table = ChannelTable::new(4);
    assert!(table.acquire());
    let id = table.wrap(config(None, Some(2), false)).unwrap();
    let (wtx, wrx) = sync_channel::<u8>(2);
    let (ptx, prx) = sync_channel::<u8>(2);
    // 1 = send, 0 = receive
    let script = [1u8, 1, 1, 0, 1, 0, 0, 0, 1, 0, 0, 1, 1, 1, 0];
    for (n, step) in script.iter().enumerate() {
        if *step == 1 {
            let plain = send_outcome(&ptx.try_send(n as u8));
            let raw = send_outcome(&wtx.try_send(n as u8));
            let wrapped = table.on_send(id, raw, event(n as u64));
            assert_eq!(wrapped, plain);
        } else {
            let plain = prx.try_recv();
            let raw = wrx.try_recv();
            let wrapped = table.on_recv(id, recv_outcome(&raw), event(n as u64));
            assert_eq!(wrapped, recv_outcome(&plain));
            assert_eq!(raw, plain);
        }
        let snap = table.snapshot(id).unwrap();
        assert!(snap.sent_count >= snap.received_count);
        assert!(snap.occupancy <= 2);
    }
    drop(prx);
    drop(wrx);
    table.receiver_dropped(id);
    let plain = send_outcome(&ptx.try_send(0));
    let wrapped = table.on_send(id, send_outcome(&wtx.try_send(0)), event(99));
    assert_eq!(plain, SendOutcome::Disconnected);
    assert_eq!(wrapped, plain);
    // nothing was logged with logging off
    assert!(table.log(id).unwrap().is_empty());
}

#[test]
fn one_shot_channel_closed_before_use() {
    let mut table = ChannelTable::new(4);
    assert!(table.acquire());
    let (tx, rx) = sync_channel::<String>(1);
    let id = table.wrap(config(Some("oneshot-closed"), Some(1), true)).unwrap();
    drop(rx);
    table.receiver_dropped(id);
    let r = tx.try_send("Hello oneshot!".to_string());
    let seen = table.on_send(id, send_outcome(&r), event(1));
    assert!(r.is_err());
    assert_eq!(seen, SendOutcome::Disconnected);
    drop(tx);
    table.sender_dropped(id);
    let snap = table.snapshot(id).unwrap();
    assert!(snap.closed);
    assert_eq!(snap.sent_count, 0);
    assert_eq!(snap.received_count, 0);
    // the pair stays readable after both halves are gone
    assert_eq!(table.len(), 1);
    assert_eq!(table.on_send(id, SendOutcome::Sent, event(2)), SendOutcome::Sent);
    assert_eq!(table.snapshot(id).unwrap().sent_count, 0);
}

#[test]
fn wrapped_pairs_get_rising_ids_and_labels_of_their_own() {
    let mut table = ChannelTable::new(0);
    assert!(table.acquire());
    let a = table.wrap(config(None, None, false)).unwrap();
    let b = table.wrap(config(None, Some(5), false)).unwrap();
    let c = table.wrap(config(Some("named"), None, false)).unwrap();
    assert_eq!((a, b, c), (1, 2, 3));
    let snaps = table.snapshots();
    assert_eq!(snaps.len(), 3);
    assert_eq!(snaps[0].label, "channel-1");
    assert_eq!(snaps[1].label, "channel-2");
    assert_eq!(snaps[2].label, "named");
    assert_eq!(snaps[0].capacity, None);
    assert_eq!(snaps[1].capacity, Some(5));
    assert_eq!(table.find(2), Some(1));
    assert_eq!(table.find(7), None);
    assert!(table.snapshot(7).is_none());
    assert!(table.log(7).is_none());
}

#[test]
fn reports_for_unknown_ids_change_nothing() {
    let mut table = ChannelTable::new(4);
    assert!(table.acquire());
    let id = table.wrap(config(None, None, true)).unwrap();
    assert_eq!(table.on_send(id + 1, SendOutcome::Sent, event(1)), SendOutcome::Sent);
    assert_eq!(table.on_recv(id + 1, RecvOutcome::Received, event(1)), RecvOutcome::Received);
    table.sender_dropped(id + 1);
    table.receiver_dropped(id + 1);
    let snap = table.snapshot(id).unwrap();
    assert_eq!(snap.sent_count, 0);
    assert_eq!(snap.received_count, 0);
    assert!(!snap.closed);
}

#[test]
fn channel_log_keeps_accepted_messages_only() {
    let mut table = ChannelTable::new(2);
    assert!(table.acquire());
    let id = table.wrap(config(None, Some(1), true)).unwrap();
    table.on_send(id, SendOutcome::Sent, event(1));
    table.on_send(id, SendOutcome::Full, event(2));
    table.on_recv(id, RecvOutcome::Empty, event(3));
    table.on_recv(id, RecvOutcome::Received, event(4));
    table.on_send(id, SendOutcome::Sent, event(5));
    assert_eq!(table.log(id).unwrap(), vec![event(4), event(5)]);
}

#[test]
fn table_without_guard_enters_and_counts_nothing() {
    let mut table = ChannelTable::new(4);
    assert!(!table.is_active());
    assert_eq!(table.wrap(config(Some("early"), Some(1), true)), None);
    assert_eq!(table.len(), 0);
    assert_eq!(table.on_send(1, SendOutcome::Sent, event(1)), SendOutcome::Sent);
    assert_eq!(table.on_recv(1, RecvOutcome::Received, event(2)), RecvOutcome::Received);
    table.sender_dropped(1);
    assert!(table.snapshots().is_empty());
    assert!(table.snapshot(1).is_none());
    // a pair wrapped before the guard is not counted after it either
    assert!(table.acquire());
    assert_eq!(table.on_send(1, SendOutcome::Sent, event(3)), SendOutcome::Sent);
    let id = table.wrap(config(None, None, true)).unwrap();
    assert_eq!(id, 1);
    assert_eq!(table.snapshot(id).unwrap().sent_count, 0);
}

#[test]
fn table_guards_nest_and_the_last_release_clears() {
    let mut table = ChannelTable::new(4);
    assert!(table.acquire());
    let id = table.wrap(config(None, None, true)).unwrap();
    table.on_send(id, SendOutcome::Sent, event(1));
    assert!(table.acquire());
    assert_eq!(table.guards(), 2);
    table.release();
    assert!(table.is_active());
    table.on_send(id, SendOutcome::Sent, event(2));
    assert_eq!(table.snapshot(id).unwrap().sent_count, 2);
    table.release();
    assert!(!table.is_active());
    assert_eq!(table.len(), 0);
    assert!(table.snapshot(id).is_none());
    assert_eq!(table.on_send(id, SendOutcome::Sent, event(3)), SendOutcome::Sent);
    assert_eq!(table.len(), 0);
    table.release();
    assert_eq!(table.guards(), 0);
    // numbers are not given twice
    assert!(table.acquire());
    assert_eq!(table.wrap(config(None, None, false)), Some(id + 1));
}
