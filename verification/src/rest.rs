//! URLs of the REST market-data requests.

use vstd::prelude::*;
use vstd::string::*;

use crate::enums::{category_name, status_name, BybitCategory, BybitStatus};
use crate::text::{decimal_string, decimal_text};
use crate::url_params::{add_params_to_url, param_views, query_text, ParamView};

verus! {

/// The address of the REST API.
pub const BASE_URL: &'static str = "https://api.bybit.com";

/// The largest order-book depth that a REST request may ask for in a
/// category.
pub open spec fn orderbook_limit_cap(category: BybitCategory) -> u8 {
    match category {
        BybitCategory::Option => 25,
        _ => 200,
    }
}

/// A requested limit held to a cap: no limit stays no limit.
pub open spec fn capped_limit(limit: Option<nat>, cap: nat) -> Option<nat> {
    match limit {
        Some(l) => Some(
            if l < cap {
                l
            } else {
                cap
            },
        ),
        None => None,
    }
}

/// The decimal text of an optional number.
pub open spec fn decimal_option(n: Option<nat>) -> Option<Seq<char>> {
    match n {
        Some(v) => Some(decimal_text(v)),
        None => None,
    }
}

/// The text of an optional string.
pub open spec fn text_option(s: Option<String>) -> Option<Seq<char>> {
    match s {
        Some(v) => Some(v@),
        None => None,
    }
}

/// Widens an optional byte to a number.
pub open spec fn nat_option_u8(n: Option<u8>) -> Option<nat> {
    match n {
        Some(v) => Some(v as nat),
        None => None,
    }
}

/// Widens an optional 16-bit number to a number.
pub open spec fn nat_option_u16(n: Option<u16>) -> Option<nat> {
    match n {
        Some(v) => Some(v as nat),
        None => None,
    }
}

/// The parameters of an order-book request.
pub open spec fn orderbook_params(category: BybitCategory, symbol: Seq<char>, limit: Option<u8>) -> Seq<
    ParamView,
> {
    seq![
        ("category"@, Some(category_name(category))),
        ("symbol"@, Some(symbol)),
        ("limit"@, decimal_option(capped_limit(nat_option_u8(limit), orderbook_limit_cap(category) as nat))),
    ]
}

/// An order-book request asks for at most 25 levels of an option and at
/// most 200 of any other category; a limit within the cap is asked for as
/// given, and no limit stays no limit.
pub proof fn lemma_orderbook_limit(category: BybitCategory, symbol: Seq<char>, limit: u8)
    ensures
        category == BybitCategory::Option ==> orderbook_limit_cap(category) == 25,
        category != BybitCategory::Option ==> orderbook_limit_cap(category) == 200,
        limit <= orderbook_limit_cap(category) ==> orderbook_params(category, symbol, Some(limit))[2]
            == ("limit"@, Some(decimal_text(limit as nat))),
        limit > orderbook_limit_cap(category) ==> orderbook_params(category, symbol, Some(limit))[2]
            == ("limit"@, Some(decimal_text(orderbook_limit_cap(category) as nat))),
        orderbook_params(category, symbol, None)[2] == ("limit"@, None::<Seq<char>>),
{
}

/// An instruments request asks for at most 1000 instruments; a limit
/// within that is asked for as given.
pub proof fn lemma_instruments_limit(
    category: BybitCategory,
    symbol: Option<String>,
    status: Option<BybitStatus>,
    base_coin: Option<String>,
    limit: u16,
    cursor: Option<String>,
)
    ensures
        limit <= 1000 ==> instruments_params(category, symbol, status, base_coin, Some(limit), cursor)[4]
            == ("limit"@, Some(decimal_text(limit as nat))),
        limit > 1000 ==> instruments_params(category, symbol, status, base_coin, Some(limit), cursor)[4]
            == ("limit"@, Some(decimal_text(1000))),
{
}

fn optional_decimal(n: Option<u64>) -> (s: Option<String>)
    ensures
        text_option(s) == decimal_option(
            match n {
                Some(v) => Some(v as nat),
                None => None,
            },
        ),
{
    match n {
        Some(v) => Some(decimal_string(v)),
        None => None,
    }
}

/// The URL of the REST request for the order book of `symbol`; the depth
/// asked for is held to the cap of the category.
pub fn orderbook_url(category: BybitCategory, symbol: String, limit: Option<u8>) -> (url: String)
    ensures
        url@ == BASE_URL@ + "/v5/market/orderbook"@ + query_text(
            orderbook_params(category, symbol@, limit),
        ),
{
    let cap: u8 = match category {
        BybitCategory::Spot | BybitCategory::Linear | BybitCategory::Inverse => 200,
        BybitCategory::Option => 25,
    };
    let ghost symbol_text = symbol@;
    let capped: Option<u64> = match limit {
        Some(l) => Some(
            if l < cap {
                l as u64
            } else {
                cap as u64
            },
        ),
        None => None,
    };
    let mut url = BASE_URL.to_string();
    url.append("/v5/market/orderbook");
    let params = vec![
        ("category".to_string(), Some(category.to_string())),
        ("symbol".to_string(), Some(symbol)),
        ("limit".to_string(), optional_decimal(capped)),
    ];
    assert(param_views(params@) =~= orderbook_params(category, symbol_text, limit));
    add_params_to_url(url, params)
}

/// The largest number of instruments that one REST request may ask for.
pub const INSTRUMENTS_LIMIT_CAP: u16 = 1000;

/// The name of an optional status.
pub open spec fn status_option(status: Option<BybitStatus>) -> Option<Seq<char>> {
    match status {
        Some(s) => Some(status_name(s)),
        None => None,
    }
}

/// The parameters of an instruments-info request.
pub open spec fn instruments_params(
    category: BybitCategory,
    symbol: Option<String>,
    status: Option<BybitStatus>,
    base_coin: Option<String>,
    limit: Option<u16>,
    cursor: Option<String>,
) -> Seq<ParamView> {
    seq![
        ("category"@, Some(category_name(category))),
        ("symbol"@, text_option(symbol)),
        ("status"@, status_option(status)),
        ("baseCoin"@, text_option(base_coin)),
        ("limit"@, decimal_option(capped_limit(nat_option_u16(limit), INSTRUMENTS_LIMIT_CAP as nat))),
        ("cursor"@, text_option(cursor)),
    ]
}

/// The URL of the REST request for instrument information; the number of
/// instruments asked for is held to 1000.
pub fn instruments_info_url(
    category: BybitCategory,
    symbol: Option<String>,
    status: Option<BybitStatus>,
    base_coin: Option<String>,
    limit: Option<u16>,
    cursor: Option<String>,
) -> (url: String)
    ensures
        url@ == BASE_URL@ + "/v5/market/instruments-info"@ + query_text(
            instruments_params(category, symbol, status, base_coin, limit, cursor),
        ),
{
    let ghost expected = instruments_params(category, symbol, status, base_coin, limit, cursor);
    let capped: Option<u64> = match limit {
        Some(l) => Some(
            if l < INSTRUMENTS_LIMIT_CAP {
                l as u64
            } else {
                INSTRUMENTS_LIMIT_CAP as u64
            },
        ),
        None => None,
    };
    let status_text: Option<String> = match status {
        Some(s) => Some(s.to_string()),
        None => None,
    };
    let mut url = BASE_URL.to_string();
    url.append("/v5/market/instruments-info");
    let params = vec![
        ("category".to_string(), Some(category.to_string())),
        ("symbol".to_string(), symbol),
        ("status".to_string(), status_text),
        ("baseCoin".to_string(), base_coin),
        ("limit".to_string(), optional_decimal(capped)),
        ("cursor".to_string(), cursor),
    ];
    assert(param_views(params@) =~= expected);
    add_params_to_url(url, params)
}

} // verus!
