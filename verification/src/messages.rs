//! The records of the REST replies and websocket messages, field for field
//! as the API sends them. Prices and quantities stay the decimal texts in
//! which they arrive.

use vstd::prelude::*;

verus! {

/// The envelope of every REST reply.
pub struct BaseRest {
    /// `retCode`: 0 on success.
    pub ret_code: u8,
    /// `retMsg`.
    pub ret_msg: String,
    /// `time`: server time in milliseconds.
    pub timestamp: u64,
}

/// The envelope of every websocket topic message.
pub struct BaseWs {
    /// `topic`: the stream name.
    pub topic: String,
    /// `ts`: message time in milliseconds.
    pub timestamp: u64,
    /// `type`: `snapshot` or `delta`.
    pub data_type: String,
}

/// The reply to an instruments-info request.
pub struct InstrumentsRest {
    pub base: BaseRest,
    pub result: InstrumentsDataRest,
}

/// The instruments of a category.
pub struct InstrumentsDataRest {
    pub category: String,
    pub list: Vec<InstrumentInfo>,
}

/// One instrument.
pub struct InstrumentInfo {
    pub symbol: String,
    pub base_coin: String,
    pub quote_coin: String,
    pub innovation: String,
    pub status: String,
    pub margin_trading: String,
    pub lot_size_filter: LotSizeFilter,
    pub price_filter: PriceFilter,
}

/// The order-size limits of an instrument.
pub struct LotSizeFilter {
    pub base_precision: String,
    pub quote_precision: String,
    pub min_order_qty: String,
    pub max_order_qty: String,
    pub min_order_amt: String,
    pub max_order_amt: String,
}

/// The price step of an instrument.
pub struct PriceFilter {
    pub tick_size: String,
}

/// The reply to an order-book request.
pub struct OrderBookRest {
    pub base: BaseRest,
    pub result: OrderBookDataRest,
}

/// An order book as the REST API gives it: `[price, size]` pairs.
pub struct OrderBookDataRest {
    pub symbol_id: String,
    pub bids: Vec<[String; 2]>,
    pub asks: Vec<[String; 2]>,
    pub timestamp: u64,
    pub update_id: u64,
}

/// An order-book message of the websocket.
pub struct OrderbookWs {
    pub base: BaseWs,
    pub data: OrderbookDataWs,
}

/// The levels of an order-book message: `[price, size]` pairs.
pub struct OrderbookDataWs {
    pub symbol_id: String,
    pub bids: Vec<[String; 2]>,
    pub asks: Vec<[String; 2]>,
    pub update_id: u64,
    pub sequence: u64,
}

/// A public-trade message of the websocket.
pub struct TradesWs {
    pub base: BaseWs,
    pub data: Vec<TradesDataWs>,
}

/// One trade.
pub struct TradesDataWs {
    /// `T`: trade time in milliseconds.
    pub timestamp: i64,
    pub symbol_id: String,
    /// `S`: `Buy` or `Sell`.
    pub side: String,
    pub amount: String,
    pub price: String,
    pub trade_id: String,
    pub block_trade: bool,
}

} // verus!
