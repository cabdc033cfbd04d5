//! The enumerations of the Bybit API that requests and messages use.

use vstd::prelude::*;

verus! {

/// The HTTP method of a REST request.
#[derive(Clone, Copy, Debug, PartialEq, Eq, Structural)]
pub enum RestMethod {
    GET,
    POST,
    PUT,
    DELETE,
}

/// The product category of a market.
#[derive(Clone, Copy, Debug, PartialEq, Eq, Structural)]
pub enum BybitCategory {
    Spot,
    Linear,
    Inverse,
    Option,
}

/// The name under which the API knows a category.
pub open spec fn category_name(category: BybitCategory) -> Seq<char> {
    match category {
        BybitCategory::Spot => "spot"@,
        BybitCategory::Linear => "linear"@,
        BybitCategory::Inverse => "inverse"@,
        BybitCategory::Option => "option"@,
    }
}

impl BybitCategory {
    /// The name under which the API knows the category.
    pub fn to_string(&self) -> (name: String)
        ensures
            name@ == category_name(*self),
    {
        match self {
            BybitCategory::Spot => "spot".to_string(),
            BybitCategory::Linear => "linear".to_string(),
            BybitCategory::Inverse => "inverse".to_string(),
            BybitCategory::Option => "option".to_string(),
        }
    }
}

/// The trading status of an instrument.
#[derive(Clone, Copy, Debug, PartialEq, Eq, Structural)]
pub enum BybitStatus {
    PreLaunch,
    Trading,
    Settling,
    Delivering,
    Closed,
}

/// The name under which the API knows a status.
pub open spec fn status_name(status: BybitStatus) -> Seq<char> {
    match status {
        BybitStatus::PreLaunch => "PreLaunch"@,
        BybitStatus::Trading => "Trading"@,
        BybitStatus::Settling => "Settling"@,
        BybitStatus::Delivering => "Delivering"@,
        BybitStatus::Closed => "Closed"@,
    }
}

impl BybitStatus {
    /// The name under which the API knows the status.
    pub fn to_string(&self) -> (name: String)
        ensures
            name@ == status_name(*self),
    {
        match self {
            BybitStatus::PreLaunch => "PreLaunch".to_string(),
            BybitStatus::Trading => "Trading".to_string(),
            BybitStatus::Settling => "Settling".to_string(),
            BybitStatus::Delivering => "Delivering".to_string(),
            BybitStatus::Closed => "Closed".to_string(),
        }
    }
}

/// The direction of the price change of a trade against the trade before it.
#[derive(Clone, Copy, Debug, PartialEq, Eq, Structural)]
pub enum DirectionPriceChange {
    /// The price rose.
    PlusTick,
    /// The price equals that of the trade before, which rose.
    ZeroPlusTick,
    /// The price fell.
    MinusTick,
    /// The price equals that of the trade before, which fell.
    ZeroMinusTick,
}

} // verus!
