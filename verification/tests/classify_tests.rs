use market_stream_core::classify::classify_line;
use market_stream_core::codec::{convert_heartbeat_to_proto, convert_price_tick_to_proto};
use market_stream_core::lines::LineSplitter;
use market_stream_core::models::StreamMessage;

#[test]
fn heartbeat_line_becomes_heartbeat_frame() {
    let line = br#"{"type":"HEARTBEAT","time":"2024-01-01T00:00:00.123456789Z"}"#;
    let msg = classify_line(line).expect("heartbeat line must classify");
    let hb = match msg {
        StreamMessage::Heartbeat(hb) => hb,
        other => panic!("expected heartbeat, got {}", other.get_type()),
    };
    assert_eq!(hb.message_type, "HEARTBEAT");
    let frame = convert_heartbeat_to_proto(hb).unwrap();
    assert_eq!(frame.time.seconds, 1704067200);
    assert_eq!(frame.time.nanos, 123456789);
    assert_eq!(frame.message_type, "HEARTBEAT");
}

#[test]
fn price_tick_line_preserves_levels_and_text() {
    let line = br#"{"instrument":"EUR_USD","time":"2024-01-01T00:00:00Z","closeoutAsk":"1.10050","closeoutBid":"1.10030","status":"tradeable","asks":[{"price":"1.10050","liquidity":"1000000"}],"bids":[{"price":"1.10030","liquidity":"1000000"}]}"#;
    let msg = classify_line(line).expect("price tick line must classify");
    assert_eq!(msg.get_type(), "PRICE_TICK");
    let tick = match msg {
        StreamMessage::PriceTick(t) => t,
        other => panic!("expected price tick, got {}", other.get_type()),
    };
    assert_eq!(tick.instrument, "EUR_USD");
    assert_eq!(tick.status, "tradeable");
    assert_eq!(tick.closeout_ask, "1.10050");
    assert_eq!(tick.closeout_bid, "1.10030");
    assert_eq!(tick.asks.len(), 1);
    assert_eq!(tick.asks[0].price, "1.10050");
    assert_eq!(tick.asks[0].liquidity, 1000000);
    assert_eq!(tick.bids.len(), 1);
    assert_eq!(tick.bids[0].price, "1.10030");
    assert_eq!(tick.bids[0].liquidity, 1000000);

    let frame = convert_price_tick_to_proto(tick).unwrap();
    assert_eq!(frame.time.seconds, 1704067200);
    assert_eq!(frame.time.nanos, 0);
    assert_eq!(frame.closeout_ask, "1.10050");
    assert_eq!(frame.closeout_bid, "1.10030");
    assert_eq!(frame.asks.len(), 1);
    assert_eq!(frame.asks[0].price, "1.10050");
    assert_eq!(frame.asks[0].liquidity, 1000000);
    assert_eq!(frame.bids[0].price, "1.10030");
}

#[test]
fn ladder_order_is_preserved() {
    let line = br#"{"instrument":"EUR_USD","time":"2024-01-01T00:00:00Z","closeoutAsk":"3","closeoutBid":"0","status":"tradeable","asks":[{"price":"1.2","liquidity":"1"},{"price":"1.1","liquidity":"2"},{"price":"1.3","liquidity":"3"}],"bids":[{"price":"0.9","liquidity":"4"},{"price":"0.8","liquidity":"5"}]}"#;
    let msg = classify_line(line).unwrap();
    let tick = match msg {
        StreamMessage::PriceTick(t) => t,
        other => panic!("expected price tick, got {}", other.get_type()),
    };
    let frame = convert_price_tick_to_proto(tick).unwrap();
    let ask_prices: Vec<&str> = frame.asks.iter().map(|l| l.price.as_str()).collect();
    assert_eq!(ask_prices, vec!["1.2", "1.1", "1.3"]);
    let ask_liq: Vec<u64> = frame.asks.iter().map(|l| l.liquidity).collect();
    assert_eq!(ask_liq, vec![1, 2, 3]);
    let bid_prices: Vec<&str> = frame.bids.iter().map(|l| l.price.as_str()).collect();
    assert_eq!(bid_prices, vec!["0.9", "0.8"]);
}

#[test]
fn unrecognized_object_is_surfaced_not_dropped() {
    let msg = classify_line(br#"{"foo":"bar"}"#).expect("valid JSON must classify");
    assert!(matches!(msg, StreamMessage::Unknown(_)));
    assert_eq!(msg.get_type(), "UNKNOWN");
}

#[test]
fn heartbeat_tag_never_classifies_as_price_tick() {
    let lines: [&[u8]; 3] = [
        br#"{"type":"HEARTBEAT","time":"2024-01-01T00:00:00Z"}"#,
        br#"{"type":"HEARTBEAT","instrument":"EUR_USD","time":"2024-01-01T00:00:00Z"}"#,
        br#"{"type":"HEARTBEAT"}"#,
    ];
    for line in lines {
        let msg = classify_line(line).unwrap();
        assert!(
            !matches!(msg, StreamMessage::PriceTick(_)),
            "misclassified: {}",
            String::from_utf8_lossy(line)
        );
    }
}

#[test]
fn tagged_heartbeat_with_bad_fields_downgrades_to_unknown() {
    let msg = classify_line(br#"{"type":"HEARTBEAT","time":42}"#).unwrap();
    assert_eq!(msg.get_type(), "UNKNOWN");
    let msg = classify_line(br#"{"type":"HEARTBEAT"}"#).unwrap();
    assert_eq!(msg.get_type(), "UNKNOWN");
}

#[test]
fn instrument_with_missing_field_downgrades_to_unknown() {
    let msg = classify_line(
        br#"{"instrument":"EUR_USD","time":"2024-01-01T00:00:00Z","closeoutAsk":"1","closeoutBid":"1","status":"tradeable","asks":[]}"#,
    )
    .unwrap();
    assert_eq!(msg.get_type(), "UNKNOWN");
}

#[test]
fn bad_liquidity_text_downgrades_to_unknown() {
    for liq in ["12.5", "", "-3", "1e3", "18446744073709551616"] {
        let line = format!(
            r#"{{"instrument":"EUR_USD","time":"t","closeoutAsk":"1","closeoutBid":"1","status":"s","asks":[{{"price":"1","liquidity":"{}"}}],"bids":[]}}"#,
            liq
        );
        let msg = classify_line(line.as_bytes()).unwrap();
        assert_eq!(msg.get_type(), "UNKNOWN", "liquidity {:?}", liq);
    }
}

#[test]
fn liquidity_accepts_from_str_forms() {
    for (liq, expect) in [("+7", 7u64), ("007", 7), ("18446744073709551615", u64::MAX)] {
        let line = format!(
            r#"{{"instrument":"EUR_USD","time":"t","closeoutAsk":"1","closeoutBid":"1","status":"s","asks":[{{"price":"1","liquidity":"{}"}}],"bids":[]}}"#,
            liq
        );
        let msg = classify_line(line.as_bytes()).unwrap();
        match msg {
            StreamMessage::PriceTick(t) => assert_eq!(t.asks[0].liquidity, expect),
            other => panic!("expected tick for {:?}, got {}", liq, other.get_type()),
        }
    }
}

#[test]
fn blank_and_malformed_lines_yield_nothing() {
    assert!(classify_line(b"").is_none());
    assert!(classify_line(b"   \r").is_none());
    assert!(classify_line(b"{not json}").is_none());
    assert!(classify_line(b"\"").is_none());
}

#[test]
fn non_object_json_is_unknown() {
    let msg = classify_line(b"[1,2,3]").unwrap();
    assert_eq!(msg.get_type(), "UNKNOWN");
    let msg = classify_line(b"\"hello\"").unwrap();
    assert_eq!(msg.get_type(), "UNKNOWN");
}

#[test]
fn malformed_line_does_not_break_the_next_line() {
    let mut splitter = LineSplitter::new();
    splitter.feed(b"{oops\n{\"type\":\"HEARTBEAT\",\"time\":\"2024-01-01T00:00:00Z\"}\n");
    let first = splitter.next_line().unwrap();
    assert!(classify_line(&first).is_none());
    let second = splitter.next_line().unwrap();
    let msg = classify_line(&second).expect("valid line after malformed one");
    assert_eq!(msg.get_type(), "HEARTBEAT");
    assert!(splitter.next_line().is_none());
}
