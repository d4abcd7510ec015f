use market_stream_core::models::{Heartbeat, StreamMessage};
use market_stream_core::relay::BoundedRelay;

fn beat(tag: &str) -> StreamMessage {
    StreamMessage::Heartbeat(Heartbeat {
        time: "2024-01-01T00:00:00Z".to_string(),
        message_type: tag.to_string(),
    })
}

fn tag_of(msg: &StreamMessage) -> &str {
    match msg {
        StreamMessage::Heartbeat(hb) => hb.message_type.as_str(),
        _ => panic!("relay tests only queue heartbeats"),
    }
}

#[test]
fn full_relay_refuses_and_returns_the_event() {
    let mut relay = BoundedRelay::new(2);
    assert_eq!(relay.capacity(), 2);
    assert!(relay.try_push(beat("a")).is_ok());
    assert!(relay.try_push(beat("b")).is_ok());
    assert!(relay.is_full());
    let refused = relay.try_push(beat("c")).unwrap_err();
    assert_eq!(tag_of(&refused), "c");
    assert_eq!(relay.len(), 2);

    let drained = relay.pop().unwrap();
    assert_eq!(tag_of(&drained), "a");
    assert!(!relay.is_full());
    assert!(relay.try_push(refused).is_ok());
    assert_eq!(relay.len(), 2);

    assert_eq!(tag_of(&relay.pop().unwrap()), "b");
    assert_eq!(tag_of(&relay.pop().unwrap()), "c");
    assert!(relay.pop().is_none());
}

#[test]
fn events_come_out_in_push_order() {
    let mut relay = BoundedRelay::new(8);
    for tag in ["1", "2", "3", "4"] {
        assert!(relay.try_push(beat(tag)).is_ok());
    }
    let mut seen = Vec::new();
    while let Some(msg) = relay.pop() {
        seen.push(tag_of(&msg).to_string());
    }
    assert_eq!(seen, vec!["1", "2", "3", "4"]);
}

#[test]
fn closed_relay_refuses_new_events_but_drains() {
    let mut relay = BoundedRelay::new(4);
    assert!(relay.try_push(beat("kept")).is_ok());
    relay.close();
    assert!(relay.is_shut());
    let refused = relay.try_push(beat("late")).unwrap_err();
    assert_eq!(tag_of(&refused), "late");
    assert_eq!(tag_of(&relay.pop().unwrap()), "kept");
    assert!(relay.pop().is_none());
}

#[test]
fn channel_backpressure_blocks_producer_until_consumer_drains() {
    let runtime = tokio::runtime::Builder::new_multi_thread()
        .worker_threads(2)
        .enable_time()
        .build()
        .unwrap();
    runtime.block_on(async {
        let (tx, mut rx) = tokio::sync::mpsc::channel::<u32>(1);
        tx.send(1).await.unwrap();
        assert!(tx.try_send(2).is_err());
        let consumer = tokio::spawn(async move {
            tokio::time::sleep(std::time::Duration::from_millis(150)).await;
            let first = rx.recv().await;
            let second = rx.recv().await;
            (first, second)
        });
        let started = std::time::Instant::now();
        tx.send(2).await.unwrap();
        let waited = started.elapsed();
        assert!(
            waited >= std::time::Duration::from_millis(100),
            "send returned after {:?}, before the consumer drained",
            waited
        );
        assert_eq!(consumer.await.unwrap(), (Some(1), Some(2)));
    });
}
