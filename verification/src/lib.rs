//! Order-book imbalance tracking for the Bybit v5 market-data API.
//!
//! The library holds the verified logic: request URLs and their query
//! strings, websocket stream names and topic parsing, the local order book
//! kept from snapshot and delta messages, and the message records that the
//! program stores. Network, database and floating-point work happen in the
//! program that drives it.

pub mod text;
pub mod enums;
pub mod messages;
pub mod url_params;
pub mod rest;
pub mod orderbook;
pub mod ws;
pub mod streams;
pub mod trades;
