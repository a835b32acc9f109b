use futures_channel::mpsc::unbounded;
use mixhub::broadcast::{ws_push, SubscriberRegistry};
use tokio_tungstenite::tungstenite::protocol::Message;

#[test]
fn broadcast_reaches_every_registered_subscriber() {
    let mut reg = SubscriberRegistry::new();
    let (tx1, mut rx1) = unbounded::<Message>();
    let (tx2, mut rx2) = unbounded::<Message>();
    let id1 = reg.register(tx1);
    let id2 = reg.register(tx2);
    assert_ne!(id1, id2);

    let report = ws_push(&reg, "snapshot-1");
    assert_eq!(report.len(), 2);
    assert_eq!(report[0], (id1, true));
    assert_eq!(report[1], (id2, true));

    assert_eq!(
        rx1.try_next().expect("a frame is queued").expect("open"),
        Message::Text("snapshot-1".into())
    );
    assert_eq!(
        rx2.try_next().expect("a frame is queued").expect("open"),
        Message::Text("snapshot-1".into())
    );
}

#[test]
fn unregistered_subscriber_misses_later_broadcasts() {
    let mut reg = SubscriberRegistry::new();
    let (tx1, mut rx1) = unbounded::<Message>();
    let (tx2, mut rx2) = unbounded::<Message>();
    let id1 = reg.register(tx1);
    let id2 = reg.register(tx2);

    reg.unregister(id1);
    let report = ws_push(&reg, "snapshot-2");
    assert_eq!(report.len(), 1);
    assert_eq!(report[0].0, id2);

    // the registry dropped id1's sender and queued nothing for it
    assert_eq!(rx1.try_next().expect("channel closed empty"), None);
    assert_eq!(
        rx2.try_next().expect("a frame is queued").expect("open"),
        Message::Text("snapshot-2".into())
    );
}

#[test]
fn subscriber_registered_after_a_broadcast_does_not_receive_it() {
    let mut reg = SubscriberRegistry::new();
    let (tx1, mut rx1) = unbounded::<Message>();
    let id1 = reg.register(tx1);

    let report = ws_push(&reg, "early");
    assert_eq!(report.len(), 1);
    assert_eq!(report[0].0, id1);

    let (tx2, mut rx2) = unbounded::<Message>();
    let id2 = reg.register(tx2);
    assert_ne!(id2, id1);
    // nothing was ever queued for the late subscriber
    assert!(rx2.try_next().is_err());

    let report = ws_push(&reg, "late");
    assert_eq!(report.len(), 2);
    assert_eq!(
        rx1.try_next().expect("a frame is queued").expect("open"),
        Message::Text("early".into())
    );
    assert_eq!(
        rx1.try_next().expect("a frame is queued").expect("open"),
        Message::Text("late".into())
    );
    // the late subscriber got only the late broadcast
    assert_eq!(
        rx2.try_next().expect("a frame is queued").expect("open"),
        Message::Text("late".into())
    );
    assert!(rx2.try_next().is_err());
}

#[test]
fn failed_delivery_does_not_abort_the_remaining_subscribers() {
    let mut reg = SubscriberRegistry::new();
    let (tx1, rx1) = unbounded::<Message>();
    let (tx2, mut rx2) = unbounded::<Message>();
    let id1 = reg.register(tx1);
    let id2 = reg.register(tx2);
    drop(rx1); // the first subscriber's receiving half is gone

    let report = ws_push(&reg, "still-delivered");
    assert_eq!(report.len(), 2);
    assert_eq!(report[0], (id1, false));
    assert_eq!(report[1], (id2, true));
    assert_eq!(
        rx2.try_next().expect("a frame is queued").expect("open"),
        Message::Text("still-delivered".into())
    );
}

#[test]
fn unregistering_an_absent_id_is_a_no_op() {
    let mut reg = SubscriberRegistry::new();
    let (tx1, _rx1) = unbounded::<Message>();
    let id1 = reg.register(tx1);
    reg.unregister(id1 + 17);
    assert_eq!(reg.len(), 1);
    reg.unregister(id1);
    assert_eq!(reg.len(), 0);
    reg.unregister(id1);
    assert_eq!(reg.len(), 0);
}
