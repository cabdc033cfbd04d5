//! The trade records that the program stores, each with the order-book
//! imbalances of its symbol at the time it arrived.

use vstd::prelude::*;

use crate::messages::TradesDataWs;

verus! {

/// The text that `str::to_lowercase` gives for a text.
pub uninterp spec fn lowercase_text(s: Seq<char>) -> Seq<char>;

/// Calls `str::to_lowercase`. Claimed of it: the result depends on the
/// text alone; what the lowercase mapping is, is left to that name.
#[verifier::external_body]
fn to_lowercase(s: &str) -> (res: String)
    ensures
        res@ == lowercase_text(s@),
{
    s.to_lowercase()
}

/// A trade as it is stored: the trade's own fields, its side in lower
/// case, and the imbalances of the book at depths 1, 5, 10, 25 and 50 as
/// decimal texts.
pub struct TradesDataItem {
    pub timestamp: i64,
    pub symbol: String,
    pub trade_id: String,
    pub side: String,
    pub amount: String,
    pub price: String,
    pub orderbook_imbalance_1: String,
    pub orderbook_imbalance_5: String,
    pub orderbook_imbalance_10: String,
    pub orderbook_imbalance_25: String,
    pub orderbook_imbalance_50: String,
}

impl TradesDataItem {
    /// The record of a trade whose side is already in the stored form, with
    /// the imbalances of its symbol in the order of the depths.
    pub fn with_side(trade_data: TradesDataWs, side: String, orderbook_imbalances: [String; 5]) -> (item:
        TradesDataItem)
        ensures
            item.timestamp == trade_data.timestamp,
            item.symbol@ == trade_data.symbol_id@,
            item.trade_id@ == trade_data.trade_id@,
            item.side@ == side@,
            item.amount@ == trade_data.amount@,
            item.price@ == trade_data.price@,
            item.orderbook_imbalance_1@ == orderbook_imbalances[0]@,
            item.orderbook_imbalance_5@ == orderbook_imbalances[1]@,
            item.orderbook_imbalance_10@ == orderbook_imbalances[2]@,
            item.orderbook_imbalance_25@ == orderbook_imbalances[3]@,
            item.orderbook_imbalance_50@ == orderbook_imbalances[4]@,
    {
        TradesDataItem {
            timestamp: trade_data.timestamp,
            symbol: trade_data.symbol_id,
            trade_id: trade_data.trade_id,
            side,
            amount: trade_data.amount,
            price: trade_data.price,
            orderbook_imbalance_1: orderbook_imbalances[0].clone(),
            orderbook_imbalance_5: orderbook_imbalances[1].clone(),
            orderbook_imbalance_10: orderbook_imbalances[2].clone(),
            orderbook_imbalance_25: orderbook_imbalances[3].clone(),
            orderbook_imbalance_50: orderbook_imbalances[4].clone(),
        }
    }

    /// The record of a trade, with its side in lower case and the
    /// imbalances of its symbol in the order of the depths.
    pub fn new(trade_data: TradesDataWs, orderbook_imbalances: [String; 5]) -> (item: TradesDataItem)
        ensures
            item.timestamp == trade_data.timestamp,
            item.symbol@ == trade_data.symbol_id@,
            item.trade_id@ == trade_data.trade_id@,
            item.side@ == lowercase_text(trade_data.side@),
            item.amount@ == trade_data.amount@,
            item.price@ == trade_data.price@,
            item.orderbook_imbalance_1@ == orderbook_imbalances[0]@,
            item.orderbook_imbalance_5@ == orderbook_imbalances[1]@,
            item.orderbook_imbalance_10@ == orderbook_imbalances[2]@,
            item.orderbook_imbalance_25@ == orderbook_imbalances[3]@,
            item.orderbook_imbalance_50@ == orderbook_imbalances[4]@,
    {
        let side = to_lowercase(trade_data.side.as_str());
        TradesDataItem::with_side(trade_data, side, orderbook_imbalances)
    }
}

/// The records of the trades of one message, in the message's order, each
/// with the same imbalances.
pub fn trade_records(trades: Vec<TradesDataWs>, orderbook_imbalances: &[String; 5]) -> (items: Vec<
    TradesDataItem,
>)
    ensures
        items@.len() == trades@.len(),
        forall|i: int|
            0 <= i < trades@.len() ==> {
                let item = #[trigger] items@[i];
                let trade = trades@[i];
                &&& item.timestamp == trade.timestamp
                &&& item.symbol@ == trade.symbol_id@
                &&& item.trade_id@ == trade.trade_id@
                &&& item.side@ == lowercase_text(trade.side@)
                &&& item.amount@ == trade.amount@
                &&& item.price@ == trade.price@
                &&& item.orderbook_imbalance_1@ == orderbook_imbalances[0]@
                &&& item.orderbook_imbalance_5@ == orderbook_imbalances[1]@
                &&& item.orderbook_imbalance_10@ == orderbook_imbalances[2]@
                &&& item.orderbook_imbalance_25@ == orderbook_imbalances[3]@
                &&& item.orderbook_imbalance_50@ == orderbook_imbalances[4]@
            },
{
    let ghost all = trades@;
    let mut items: Vec<TradesDataItem> = Vec::new();
    for trade in it: trades
        invariant
            all == it.seq(),
            items@.len() == it.index(),
            forall|i: int|
                0 <= i < it.index() ==> {
                    let item = #[trigger] items@[i];
                    let trade = all[i];
                    &&& item.timestamp == trade.timestamp
                    &&& item.symbol@ == trade.symbol_id@
                    &&& item.trade_id@ == trade.trade_id@
                    &&& item.side@ == lowercase_text(trade.side@)
                    &&& item.amount@ == trade.amount@
                    &&& item.price@ == trade.price@
                    &&& item.orderbook_imbalance_1@ == orderbook_imbalances[0]@
                    &&& item.orderbook_imbalance_5@ == orderbook_imbalances[1]@
                    &&& item.orderbook_imbalance_10@ == orderbook_imbalances[2]@
                    &&& item.orderbook_imbalance_25@ == orderbook_imbalances[3]@
                    &&& item.orderbook_imbalance_50@ == orderbook_imbalances[4]@
                },
    {
        let imbalances = [
            orderbook_imbalances[0].clone(),
            orderbook_imbalances[1].clone(),
            orderbook_imbalances[2].clone(),
            orderbook_imbalances[3].clone(),
            orderbook_imbalances[4].clone(),
        ];
        items.push(TradesDataItem::new(trade, imbalances));
    }
    items
}

} // verus!
