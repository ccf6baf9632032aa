use flowsurface::config::Config;
use flowsurface::data_format::{Candlestick, ChartData, Violation};
use flowsurface::network::{
    decode_update, subscription_frame, Action, FeedAction, FeedClient, FeedError, FeedEvent,
    Frame, Phase, SubscriptionRequest,
};

fn valid_snapshot() -> ChartData {
    ChartData::new(
        "AAPL".to_string(),
        "1m".to_string(),
        vec![
            Candlestick { timestamp: 0, open: 10, high: 12, low: 9, close: 11, volume: 1 },
            Candlestick { timestamp: 60, open: 11, high: 11, low: 8, close: 9, volume: 2 },
        ],
        None,
    )
}

fn text(payload: &str, parsed: Result<ChartData, String>) -> FeedEvent {
    FeedEvent::Received(Frame::Text { payload_len: payload.len(), parsed })
}

fn streaming_client() -> FeedClient {
    let mut client = FeedClient::new(&Vec::new()).unwrap();
    assert_eq!(client.step(FeedEvent::Start), FeedAction::Connect);
    assert_eq!(client.step(FeedEvent::Connected), FeedAction::Receive);
    assert_eq!(client.phase(), Phase::Streaming);
    client
}

#[test]
fn subscribe_request_matches_the_wire_format() {
    let request = SubscriptionRequest::new(Action::Subscribe, "AAPL".to_string());
    assert_eq!(request.encode(), Ok("{\"action\":\"subscribe\",\"symbol\":\"AAPL\"}".to_string()));
    let request = SubscriptionRequest::new(Action::Unsubscribe, "GOOGL".to_string());
    assert_eq!(
        request.encode(),
        Ok("{\"action\":\"unsubscribe\",\"symbol\":\"GOOGL\"}".to_string())
    );
}

#[test]
fn symbol_is_escaped_as_a_json_string() {
    let request = SubscriptionRequest::new(Action::Subscribe, "A\"B\\C\n".to_string());
    let frame = request.encode().unwrap();
    assert_eq!(frame, "{\"action\":\"subscribe\",\"symbol\":\"A\\\"B\\\\C\\n\"}");
    let parsed: serde_json::Value = serde_json::from_str(&frame).unwrap();
    assert_eq!(parsed["symbol"].as_str(), Some("A\"B\\C\n"));
    assert_eq!(parsed["action"].as_str(), Some("subscribe"));
}

#[test]
fn frame_is_built_around_the_quoted_symbol() {
    assert_eq!(
        subscription_frame(Action::Unsubscribe, "\"X\""),
        "{\"action\":\"unsubscribe\",\"symbol\":\"X\"}"
    );
    assert_eq!(Action::Subscribe.name(), "subscribe");
    assert_eq!(Action::Unsubscribe.name(), "unsubscribe");
}

#[test]
fn client_connects_subscribes_in_order_then_reads() {
    let config = Config::new();
    let mut client = FeedClient::new(&config.symbols).unwrap();
    assert_eq!(client.phase(), Phase::Idle);
    assert_eq!(client.step(FeedEvent::Start), FeedAction::Connect);
    assert_eq!(client.phase(), Phase::Connecting);
    assert_eq!(
        client.step(FeedEvent::Connected),
        FeedAction::Send { frame: "{\"action\":\"subscribe\",\"symbol\":\"AAPL\"}".to_string() }
    );
    assert_eq!(client.phase(), Phase::Subscribing { next: 0 });
    assert_eq!(
        client.step(FeedEvent::Sent),
        FeedAction::Send { frame: "{\"action\":\"subscribe\",\"symbol\":\"GOOGL\"}".to_string() }
    );
    assert_eq!(client.phase(), Phase::Subscribing { next: 1 });
    assert_eq!(client.step(FeedEvent::Sent), FeedAction::Receive);
    assert_eq!(client.phase(), Phase::Streaming);
    assert_eq!(
        client.step(text("{...}", Ok(valid_snapshot()))),
        FeedAction::Deliver(Ok(valid_snapshot()))
    );
    assert_eq!(client.phase(), Phase::Streaming);
}

#[test]
fn non_json_frame_gives_one_decode_error_and_the_stream_goes_on() {
    let mut client = streaming_client();
    let payload = "this is not json";
    let message = serde_json::from_str::<serde_json::Value>(payload).unwrap_err().to_string();
    assert_eq!(
        client.step(text("{}", Ok(valid_snapshot()))),
        FeedAction::Deliver(Ok(valid_snapshot()))
    );
    assert_eq!(
        client.step(text(payload, Err(message.clone()))),
        FeedAction::Deliver(Err(FeedError::Decode { payload_len: 16, message }))
    );
    assert_eq!(client.phase(), Phase::Streaming);
    assert_eq!(
        client.step(text("{}", Ok(valid_snapshot()))),
        FeedAction::Deliver(Ok(valid_snapshot()))
    );
    assert_eq!(client.phase(), Phase::Streaming);
}

#[test]
fn malformed_bar_is_reported_not_delivered() {
    let mut snapshot = valid_snapshot();
    snapshot.data[1].high = 7;
    let mut client = streaming_client();
    assert_eq!(
        client.step(text("0123456789", Ok(snapshot.clone()))),
        FeedAction::Deliver(Err(FeedError::InvariantViolation {
            payload_len: 10,
            violation: Violation::PriceOrder { index: 1 },
        }))
    );
    assert_eq!(client.phase(), Phase::Streaming);
    assert_eq!(
        decode_update(10, Ok(snapshot)),
        Err(FeedError::InvariantViolation {
            payload_len: 10,
            violation: Violation::PriceOrder { index: 1 },
        })
    );
    let mut open_outside = valid_snapshot();
    open_outside.data[0].open = 13;
    assert_eq!(
        decode_update(3, Ok(open_outside)),
        Err(FeedError::InvariantViolation {
            payload_len: 3,
            violation: Violation::PriceOrder { index: 0 },
        })
    );
}

#[test]
fn update_is_the_normalized_snapshot() {
    let mut snapshot = valid_snapshot();
    snapshot.data.push(Candlestick {
        timestamp: 60,
        open: 11,
        high: 15,
        low: 8,
        close: 14,
        volume: 3,
    });
    let update = decode_update(40, Ok(snapshot.clone())).unwrap();
    assert_eq!(update.data, vec![snapshot.data[0], snapshot.data[2]]);
    assert_eq!(
        decode_update(4, Err("EOF while parsing".to_string())),
        Err(FeedError::Decode { payload_len: 4, message: "EOF while parsing".to_string() })
    );
}

#[test]
fn control_frames_are_passed_over() {
    let mut client = streaming_client();
    assert_eq!(client.step(FeedEvent::Received(Frame::Binary)), FeedAction::Receive);
    assert_eq!(client.step(FeedEvent::Received(Frame::Ping)), FeedAction::Receive);
    assert_eq!(client.step(FeedEvent::Received(Frame::Pong)), FeedAction::Receive);
    assert_eq!(client.phase(), Phase::Streaming);
}

#[test]
fn close_frame_ends_the_stream() {
    let mut client = streaming_client();
    assert_eq!(client.step(FeedEvent::Received(Frame::Close)), FeedAction::Finish(None));
    assert_eq!(client.phase(), Phase::Closed);
    let mut client = streaming_client();
    assert_eq!(client.step(FeedEvent::Ended), FeedAction::Finish(None));
    assert_eq!(client.phase(), Phase::Closed);
}

#[test]
fn transport_failure_is_the_last_element() {
    let mut client = streaming_client();
    assert_eq!(
        client.step(FeedEvent::TransportFailed { cause: "reset by peer".to_string() }),
        FeedAction::Finish(Some(FeedError::Connection { cause: "reset by peer".to_string() }))
    );
    assert_eq!(client.phase(), Phase::Closed);
    assert_eq!(client.step(text("{}", Ok(valid_snapshot()))), FeedAction::Nothing);
    assert_eq!(client.step(FeedEvent::Start), FeedAction::Nothing);
    assert_eq!(client.phase(), Phase::Closed);
}

#[test]
fn failed_handshake_is_a_connection_error() {
    let mut client = FeedClient::new(&vec!["AAPL".to_string()]).unwrap();
    client.step(FeedEvent::Start);
    assert_eq!(
        client.step(FeedEvent::ConnectFailed { cause: "dns".to_string() }),
        FeedAction::Finish(Some(FeedError::Connection { cause: "dns".to_string() }))
    );
    assert_eq!(client.phase(), Phase::Closed);
}

#[test]
fn failed_write_is_a_send_error() {
    let mut client = FeedClient::new(&vec!["AAPL".to_string()]).unwrap();
    client.step(FeedEvent::Start);
    client.step(FeedEvent::Connected);
    assert_eq!(
        client.step(FeedEvent::SendFailed { cause: "closed".to_string() }),
        FeedAction::Finish(Some(FeedError::Send { cause: "closed".to_string() }))
    );
    assert_eq!(client.phase(), Phase::Closed);
    let mut client = FeedClient::new(&vec!["AAPL".to_string()]).unwrap();
    client.step(FeedEvent::Start);
    client.step(FeedEvent::Connected);
    assert_eq!(
        client.step(FeedEvent::TransportFailed { cause: "tls".to_string() }),
        FeedAction::Finish(Some(FeedError::Connection { cause: "tls".to_string() }))
    );
}

#[test]
fn event_out_of_turn_changes_nothing() {
    let mut client = FeedClient::new(&vec!["AAPL".to_string()]).unwrap();
    assert_eq!(client.step(FeedEvent::Connected), FeedAction::Nothing);
    assert_eq!(client.step(FeedEvent::Sent), FeedAction::Nothing);
    assert_eq!(client.step(FeedEvent::Ended), FeedAction::Nothing);
    assert_eq!(client.phase(), Phase::Idle);
    client.step(FeedEvent::Start);
    assert_eq!(client.step(FeedEvent::Start), FeedAction::Nothing);
    assert_eq!(client.step(FeedEvent::Received(Frame::Ping)), FeedAction::Nothing);
    assert_eq!(client.phase(), Phase::Connecting);
    client.step(FeedEvent::Connected);
    assert_eq!(client.step(FeedEvent::Connected), FeedAction::Nothing);
    assert_eq!(client.step(FeedEvent::Received(Frame::Close)), FeedAction::Nothing);
    assert_eq!(client.phase(), Phase::Subscribing { next: 0 });
}

#[test]
fn consumer_that_is_done_ends_the_stream() {
    let mut client = streaming_client();
    assert_eq!(client.step(FeedEvent::Stop), FeedAction::Finish(None));
    assert_eq!(client.phase(), Phase::Closed);
    assert_eq!(client.step(FeedEvent::Stop), FeedAction::Nothing);
    let mut client = FeedClient::new(&vec!["AAPL".to_string()]).unwrap();
    client.step(FeedEvent::Start);
    client.step(FeedEvent::Connected);
    assert_eq!(client.step(FeedEvent::Stop), FeedAction::Finish(None));
    assert_eq!(client.phase(), Phase::Closed);
    let mut idle = FeedClient::new(&Vec::new()).unwrap();
    assert_eq!(idle.step(FeedEvent::Stop), FeedAction::Finish(None));
    assert_eq!(idle.phase(), Phase::Closed);
}
