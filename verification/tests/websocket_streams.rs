use orderbook_imbalance::enums::BybitCategory;
use orderbook_imbalance::orderbook::OrderbookUpdate;
use orderbook_imbalance::streams::{OrderbookAction, OrderbookStreams};
use orderbook_imbalance::ws::{
    is_snapshot_message, message_topic, orderbook_stream, orderbook_streams, parse_url,
    stream_symbol, subscription_frame, subscription_message, trade_action, trade_stream, trade_streams,
    ws_url, TopicMessage, TradeAction,
};

fn symbols() -> Vec<String> {
    vec!["BTCUSDT".to_string(), "ETHUSDT".to_string()]
}

#[test]
fn stream_addresses() {
    assert_eq!(ws_url(BybitCategory::Linear), "wss://stream.bybit.com/v5/public/linear");
    assert_eq!(ws_url(BybitCategory::Spot), "wss://stream.bybit.com/v5/public/spot");
    assert_eq!(ws_url(BybitCategory::Option), "wss://stream.bybit.com/v5/public/option");
}

#[test]
fn stream_address_parses() {
    let url = parse_url(&ws_url(BybitCategory::Inverse)).ok().unwrap();
    assert_eq!(url.as_str(), "wss://stream.bybit.com/v5/public/inverse");
    assert_eq!(url.host_str(), Some("stream.bybit.com"));
}

#[test]
fn relative_address_is_refused() {
    match parse_url("stream.bybit.com/v5") {
        Ok(_) => panic!("accepted a relative URL"),
        Err(err) => {
            assert_eq!(err.kind, url::ParseError::RelativeUrlWithoutBase);
            assert_eq!(err.message, "relative URL without a base");
        }
    }
    match parse_url("wss://host:99999/") {
        Ok(_) => panic!("accepted a bad port"),
        Err(err) => {
            assert_eq!(err.kind, url::ParseError::InvalidPort);
            assert_eq!(err.message, "invalid port number");
        }
    }
}

#[test]
fn orderbook_stream_depths() {
    assert_eq!(orderbook_stream(BybitCategory::Linear, "BTCUSDT", None), "orderbook.50.BTCUSDT");
    assert_eq!(orderbook_stream(BybitCategory::Linear, "BTCUSDT", Some(1000)), "orderbook.500.BTCUSDT");
    assert_eq!(orderbook_stream(BybitCategory::Inverse, "BTCUSD", Some(500)), "orderbook.500.BTCUSD");
    assert_eq!(orderbook_stream(BybitCategory::Spot, "BTCUSDT", Some(1000)), "orderbook.200.BTCUSDT");
    assert_eq!(orderbook_stream(BybitCategory::Option, "X", Some(1000)), "orderbook.100.X");
    assert_eq!(orderbook_stream(BybitCategory::Spot, "BTCUSDT", Some(1)), "orderbook.1.BTCUSDT");
    assert_eq!(orderbook_stream(BybitCategory::Spot, "BTCUSDT", Some(0)), "orderbook.0.BTCUSDT");
}

#[test]
fn stream_lists() {
    assert_eq!(
        orderbook_streams(BybitCategory::Linear, &symbols(), Some(25)),
        vec!["orderbook.25.BTCUSDT".to_string(), "orderbook.25.ETHUSDT".to_string()]
    );
    assert_eq!(
        trade_streams(&symbols()),
        vec!["publicTrade.BTCUSDT".to_string(), "publicTrade.ETHUSDT".to_string()]
    );
    assert_eq!(trade_stream("SOLUSDT"), "publicTrade.SOLUSDT");
}

#[test]
fn symbol_read_back_from_stream_names() {
    let ob = orderbook_stream(BybitCategory::Linear, "BTCUSDT", Some(200));
    assert_eq!(stream_symbol(&ob), "BTCUSDT");
    assert_eq!(stream_symbol(&trade_stream("ETHUSDT")), "ETHUSDT");
    assert_eq!(stream_symbol("nodots"), "nodots");
    assert_eq!(stream_symbol("ends."), "");
}

#[test]
fn subscription_request_text() {
    let streams = vec!["orderbook.50.BTCUSDT".to_string(), "orderbook.50.ETHUSDT".to_string()];
    assert_eq!(
        subscription_message(&streams).ok().unwrap(),
        "{\"args\":[\"orderbook.50.BTCUSDT\",\"orderbook.50.ETHUSDT\"],\"op\":\"subscribe\"}"
    );
    assert_eq!(subscription_message(&vec![]).ok().unwrap(), "{\"args\":[],\"op\":\"subscribe\"}");
    assert_eq!(subscription_frame("[]"), "{\"args\":[],\"op\":\"subscribe\"}");
}

#[test]
fn subscription_escapes_quotes() {
    let streams = vec!["a\"b".to_string()];
    assert_eq!(
        subscription_message(&streams).ok().unwrap(),
        "{\"args\":[\"a\\\"b\"],\"op\":\"subscribe\"}"
    );
}

#[test]
fn subscription_escapes_controls() {
    let streams = vec!["a\\b\u{8}\t\n\u{c}\r\u{1}\u{1f} é".to_string(), "".to_string()];
    assert_eq!(
        subscription_message(&streams).ok().unwrap(),
        "{\"args\":[\"a\\\\b\\b\\t\\n\\f\\r\\u0001\\u001f é\",\"\"],\"op\":\"subscribe\"}"
    );
}

#[test]
fn topic_of_messages() {
    let msg = "{\"topic\":\"orderbook.50.BTCUSDT\",\"type\":\"snapshot\",\"ts\":1672304484978,\"data\":{}}";
    match message_topic(msg) {
        TopicMessage::Topic(stream) => assert_eq!(stream, "orderbook.50.BTCUSDT"),
        _ => panic!("topic not found"),
    }
    assert!(is_snapshot_message(msg));
    let delta = "{\"topic\":\"orderbook.50.BTCUSDT\",\"type\":\"delta\",\"ts\":1,\"data\":{}}";
    assert!(!is_snapshot_message(delta));
    assert!(matches!(message_topic("{\"success\":true,\"op\":\"subscribe\"}"), TopicMessage::NoTopic));
    assert!(matches!(message_topic("{\"topic\""), TopicMessage::Malformed));
    assert!(matches!(message_topic(""), TopicMessage::NoTopic));
}

#[test]
fn topic_is_fourth_quoted_field() {
    match message_topic("topic\"a\"b\"c\"d") {
        TopicMessage::Topic(stream) => assert_eq!(stream, "c"),
        _ => panic!("topic not found"),
    }
    match message_topic("topic\"a\"b\"") {
        TopicMessage::Topic(stream) => assert_eq!(stream, ""),
        _ => panic!("topic not found"),
    }
}

fn update(timestamp: u64, bids: &[(f64, f64)]) -> OrderbookUpdate {
    OrderbookUpdate {
        timestamp,
        bids: bids.iter().map(|(p, q)| (p.to_bits(), q.to_bits())).collect(),
        asks: Vec::new(),
    }
}

#[test]
fn followed_streams_keep_their_own_books() {
    let (streams, mut books) = OrderbookStreams::follow(BybitCategory::Linear, &symbols(), None);
    assert_eq!(streams, vec!["orderbook.50.BTCUSDT".to_string(), "orderbook.50.ETHUSDT".to_string()]);
    assert!(books.is_watched("orderbook.50.BTCUSDT"));
    assert!(!books.is_watched("orderbook.1.BTCUSDT"));
    assert!(books.apply_update("orderbook.50.BTCUSDT", true, &update(1, &[(1.0, 2.0)])));
    assert!(!books.apply_update("orderbook.1.BTCUSDT", true, &update(1, &[(1.0, 3.0)])));
    assert!(books.apply_update("orderbook.50.ETHUSDT", false, &update(2, &[(5.0, 4.0)])));
    let (b, _) = books.depth_quantities("orderbook.50.BTCUSDT", 5).unwrap();
    assert_eq!(b, vec![2.0f64.to_bits()]);
    let (e, _) = books.depth_quantities("orderbook.50.ETHUSDT", 5).unwrap();
    assert_eq!(e, vec![4.0f64.to_bits()]);
    assert!(books.depth_quantities("orderbook.1.BTCUSDT", 5).is_none());
    assert!(books.apply_update("orderbook.50.BTCUSDT", false, &update(3, &[(1.0, 0.0), (0.5, 1.0)])));
    let (b, _) = books.depth_quantities("orderbook.50.BTCUSDT", 5).unwrap();
    assert_eq!(b, vec![1.0f64.to_bits()]);
}

#[test]
fn following_again_empties_the_book() {
    let mut books = OrderbookStreams::new();
    books.watch("s".to_string());
    assert!(books.apply_update("s", true, &update(1, &[(1.0, 2.0)])));
    books.watch("t".to_string());
    books.watch("s".to_string());
    let (b, a) = books.depth_quantities("s", 5).unwrap();
    assert!(b.is_empty() && a.is_empty());
    assert!(books.is_watched("t"));
}

#[test]
fn orderbook_actions() {
    let (_, books) = OrderbookStreams::follow(BybitCategory::Linear, &symbols(), None);
    let snapshot = "{\"topic\":\"orderbook.50.BTCUSDT\",\"type\":\"snapshot\",\"ts\":1,\"data\":{}}";
    match books.next_action(snapshot) {
        OrderbookAction::Apply { stream, snapshot } => {
            assert_eq!(stream, "orderbook.50.BTCUSDT");
            assert!(snapshot);
        }
        _ => panic!("expected an update"),
    }
    let delta = "{\"topic\":\"orderbook.50.ETHUSDT\",\"type\":\"delta\",\"ts\":1,\"data\":{}}";
    match books.next_action(delta) {
        OrderbookAction::Apply { stream, snapshot } => {
            assert_eq!(stream, "orderbook.50.ETHUSDT");
            assert!(!snapshot);
        }
        _ => panic!("expected an update"),
    }
    let other = "{\"topic\":\"orderbook.1.BTCUSDT\",\"type\":\"delta\"}";
    assert!(matches!(books.next_action(other), OrderbookAction::Ignore));
    assert!(matches!(books.next_action("{\"op\":\"pong\"}"), OrderbookAction::Ignore));
    assert!(matches!(books.next_action("topic"), OrderbookAction::Malformed));
}

#[test]
fn trade_actions() {
    let msg = "{\"topic\":\"publicTrade.BTCUSDT\",\"type\":\"snapshot\",\"ts\":1,\"data\":[]}";
    match trade_action(msg) {
        TradeAction::Store { symbol } => assert_eq!(symbol, "BTCUSDT"),
        _ => panic!("expected trades"),
    }
    assert!(matches!(trade_action("{\"success\":true}"), TradeAction::Ignore));
    assert!(matches!(trade_action("{\"topic\":1}"), TradeAction::Malformed));
}
