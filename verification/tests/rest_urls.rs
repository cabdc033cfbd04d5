use orderbook_imbalance::enums::{BybitCategory, BybitStatus};
use orderbook_imbalance::rest::{instruments_info_url, orderbook_url};
use orderbook_imbalance::url_params::add_params_to_url;

fn param(name: &str, value: Option<&str>) -> (String, Option<String>) {
    (name.to_string(), value.map(|v| v.to_string()))
}

#[test]
fn category_names() {
    assert_eq!(BybitCategory::Spot.to_string(), "spot");
    assert_eq!(BybitCategory::Linear.to_string(), "linear");
    assert_eq!(BybitCategory::Inverse.to_string(), "inverse");
    assert_eq!(BybitCategory::Option.to_string(), "option");
}

#[test]
fn status_names() {
    assert_eq!(BybitStatus::PreLaunch.to_string(), "PreLaunch");
    assert_eq!(BybitStatus::Trading.to_string(), "Trading");
    assert_eq!(BybitStatus::Settling.to_string(), "Settling");
    assert_eq!(BybitStatus::Delivering.to_string(), "Delivering");
    assert_eq!(BybitStatus::Closed.to_string(), "Closed");
}

#[test]
fn params_join_with_question_mark_then_ampersand() {
    let url = add_params_to_url(
        "https://api.bybit.com/v5/market/orderbook".to_string(),
        vec![
            param("category", Some("linear")),
            param("symbol", Some("BTCUSDT")),
            param("limit", Some("50")),
        ],
    );
    assert_eq!(url, "https://api.bybit.com/v5/market/orderbook?category=linear&symbol=BTCUSDT&limit=50");
}

#[test]
fn params_without_value_are_skipped() {
    let url = add_params_to_url(
        "https://x".to_string(),
        vec![param("a", None), param("b", Some("1")), param("c", None), param("d", Some("2"))],
    );
    assert_eq!(url, "https://x?b=1&d=2");
}

#[test]
fn no_params_with_value_leave_url_unchanged() {
    let url = add_params_to_url("https://x/y".to_string(), vec![param("a", None), param("b", None)]);
    assert_eq!(url, "https://x/y");
    let url = add_params_to_url("https://x/y".to_string(), vec![]);
    assert_eq!(url, "https://x/y");
}

#[test]
fn empty_name_and_value_still_count() {
    let url = add_params_to_url("u".to_string(), vec![param("", Some("")), param("k", Some("v"))]);
    assert_eq!(url, "u?=&k=v");
}

#[test]
fn query_is_added_even_after_existing_question_mark() {
    let url = add_params_to_url("u?x=1".to_string(), vec![param("k", Some("v"))]);
    assert_eq!(url, "u?x=1?k=v");
}

#[test]
fn orderbook_url_caps_limit_by_category() {
    assert_eq!(
        orderbook_url(BybitCategory::Linear, "BTCUSDT".to_string(), Some(250)),
        "https://api.bybit.com/v5/market/orderbook?category=linear&symbol=BTCUSDT&limit=200"
    );
    assert_eq!(
        orderbook_url(BybitCategory::Spot, "ETHUSDT".to_string(), Some(200)),
        "https://api.bybit.com/v5/market/orderbook?category=spot&symbol=ETHUSDT&limit=200"
    );
    assert_eq!(
        orderbook_url(BybitCategory::Inverse, "BTCUSD".to_string(), Some(7)),
        "https://api.bybit.com/v5/market/orderbook?category=inverse&symbol=BTCUSD&limit=7"
    );
    assert_eq!(
        orderbook_url(BybitCategory::Option, "BTC-29DEC23-40000-C".to_string(), Some(30)),
        "https://api.bybit.com/v5/market/orderbook?category=option&symbol=BTC-29DEC23-40000-C&limit=25"
    );
    assert_eq!(
        orderbook_url(BybitCategory::Option, "X".to_string(), Some(0)),
        "https://api.bybit.com/v5/market/orderbook?category=option&symbol=X&limit=0"
    );
}

#[test]
fn orderbook_url_without_limit() {
    assert_eq!(
        orderbook_url(BybitCategory::Spot, "BTCUSDT".to_string(), None),
        "https://api.bybit.com/v5/market/orderbook?category=spot&symbol=BTCUSDT"
    );
}

#[test]
fn instruments_info_url_with_all_params() {
    assert_eq!(
        instruments_info_url(
            BybitCategory::Linear,
            Some("BTCUSDT".to_string()),
            Some(BybitStatus::Trading),
            Some("BTC".to_string()),
            Some(5000),
            Some("abc".to_string()),
        ),
        "https://api.bybit.com/v5/market/instruments-info?category=linear&symbol=BTCUSDT&status=Trading&baseCoin=BTC&limit=1000&cursor=abc"
    );
}

#[test]
fn instruments_info_url_with_some_params() {
    assert_eq!(
        instruments_info_url(BybitCategory::Spot, None, None, None, None, None),
        "https://api.bybit.com/v5/market/instruments-info?category=spot"
    );
    assert_eq!(
        instruments_info_url(BybitCategory::Option, None, Some(BybitStatus::PreLaunch), None, Some(999), None),
        "https://api.bybit.com/v5/market/instruments-info?category=option&status=PreLaunch&limit=999"
    );
    assert_eq!(
        instruments_info_url(BybitCategory::Inverse, None, None, None, Some(1000), Some("c".to_string())),
        "https://api.bybit.com/v5/market/instruments-info?category=inverse&limit=1000&cursor=c"
    );
}
