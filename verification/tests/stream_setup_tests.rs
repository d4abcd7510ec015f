use market_stream_core::config::Config;
use market_stream_core::lines::LineSplitter;
use market_stream_core::pipeline::{Phase, PhaseEvent};

fn sample_config() -> Config {
    Config {
        auth_token: "SECRET-REDACTED".to_string(),
        account_id: "001-011-1234567-001".to_string(),
        environment: "fxpractice".to_string(),
        instruments: "EUR_USD,USD_CAD".to_string(),
        publish_bind_address: "tcp://*:9500".to_string(),
    }
}

#[test]
fn base_url_names_the_environment() {
    assert_eq!(
        sample_config().base_url(),
        "https://stream-fxpractice.vendor.example"
    );
}

#[test]
fn stream_url_percent_encodes_the_instrument_list() {
    assert_eq!(
        sample_config().stream_url(),
        "https://stream-fxpractice.vendor.example/v3/accounts/001-011-1234567-001/pricing/stream?instruments=EUR_USD%2CUSD_CAD"
    );
}

#[test]
fn unreserved_instruments_pass_through_unchanged() {
    let mut config = sample_config();
    config.instruments = "EUR_USD".to_string();
    assert_eq!(
        config.stream_url(),
        "https://stream-fxpractice.vendor.example/v3/accounts/001-011-1234567-001/pricing/stream?instruments=EUR_USD"
    );
}

#[test]
fn splitter_reassembles_lines_across_chunks() {
    let mut splitter = LineSplitter::new();
    splitter.feed(b"{\"a\":1}\n{\"b\"");
    let first = splitter.next_line().unwrap();
    assert_eq!(first, b"{\"a\":1}");
    assert!(splitter.next_line().is_none());
    splitter.feed(b":2}\n\n{\"c\":3}");
    assert_eq!(splitter.next_line().unwrap(), b"{\"b\":2}");
    assert_eq!(splitter.next_line().unwrap(), b"");
    assert!(splitter.next_line().is_none());
    splitter.feed(b"\n");
    assert_eq!(splitter.next_line().unwrap(), b"{\"c\":3}");
    assert!(splitter.next_line().is_none());
}

#[test]
fn lifecycle_follows_the_documented_transitions() {
    let p = Phase::Idle.step(PhaseEvent::StartRequested);
    assert_eq!(p, Phase::Connecting);
    let p = p.step(PhaseEvent::StreamOpened);
    assert_eq!(p, Phase::Streaming);
    let drained = p.step(PhaseEvent::ShutdownSignal);
    assert_eq!(drained, Phase::Draining);
    assert_eq!(drained.step(PhaseEvent::RelayDrained), Phase::Closed);
    assert_eq!(p.step(PhaseEvent::StreamEnded), Phase::Closed);
}

#[test]
fn closed_pipeline_never_reconnects() {
    for event in [
        PhaseEvent::StartRequested,
        PhaseEvent::StreamOpened,
        PhaseEvent::ShutdownSignal,
        PhaseEvent::RelayDrained,
        PhaseEvent::StreamEnded,
    ] {
        assert_eq!(Phase::Closed.step(event), Phase::Closed);
    }
}
