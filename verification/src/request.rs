//! Models for making requests.
use vstd::prelude::*;
use crate::types::{AppId, ContextId, AssetId, Amount, ServerTime, TradeId};

verus! {

/// Options for getting trade offers.
#[derive(Debug, Clone, Copy, PartialEq, Eq)]
pub struct GetTradeOffersOptions {
    /// Whether to get only active trade offers.
    pub active_only: bool,
    /// Whether to get only historical trade offers.
    pub historical_only: bool,
    /// Whether to get sent trade offers.
    pub get_sent_offers: bool,
    /// Whether to get received trade offers.
    pub get_received_offers: bool,
    /// Whether to get descriptions for items in the trade offers.
    pub get_descriptions: bool,
    /// The time to get trade offers from.
    pub historical_cutoff: Option<ServerTime>,
}

/// Options for getting trade history.
#[derive(Debug, Clone, Copy, PartialEq, Eq)]
pub struct GetTradeHistoryOptions {
    /// The number of trades to get.
    pub max_trades: u32,
    /// The time to start getting trades after.
    pub start_after_time: Option<ServerTime>,
    /// The trade ID to start getting trades after.
    pub start_after_tradeid: Option<TradeId>,
    /// Whether we are navigating backwards in the trade history.
    pub navigating_back: bool,
    /// Whether to include failed trades in the response.
    pub include_failed: bool,
}

/// Options of a request for trade history.
#[derive(Debug, Clone, Copy, PartialEq, Eq)]
pub struct GetTradeHistoryRequestOptions {
    /// The number of trades to get.
    pub max_trades: u32,
    /// The time to start getting trades after.
    pub start_after_time: Option<ServerTime>,
    /// The trade ID to start getting trades after.
    pub start_after_tradeid: Option<TradeId>,
    /// Whether we are navigating backwards in the trade history.
    pub navigating_back: bool,
    /// Whether to get descriptions for items in the trade history.
    pub get_descriptions: bool,
    /// Whether to include failed trades in the response.
    pub include_failed: bool,
    /// Whether to include the total number of trades in the response.
    pub include_total: bool,
}

/// An item to put in a new trade offer.
#[derive(Debug, Clone, Copy, PartialEq, Eq)]
pub struct NewTradeOfferItem {
    /// The app ID.
    pub appid: AppId,
    /// The context ID.
    pub contextid: ContextId,
    /// The asset ID.
    pub assetid: AssetId,
    /// The amount.
    pub amount: Amount,
}

/// An item, by its app, context and asset IDs, with an amount.
#[derive(Debug, Clone, Copy, PartialEq, Eq)]
pub struct Item {
    /// The app ID.
    pub appid: u32,
    /// The context ID.
    pub contextid: u32,
    /// The asset ID.
    pub assetid: u64,
    /// The amount.
    pub amount: u32,
}

/// A new trade offer.
#[derive(Debug, Clone)]
pub struct NewTradeOffer {
    /// The 64-bit Steam ID of the partner.
    pub partner: u64,
    /// The partner's trade token, needed unless we are friends.
    pub token: Option<String>,
    /// The message of the offer.
    pub message: Option<String>,
    /// The items we give.
    pub items_to_give: Vec<NewTradeOfferItem>,
    /// The items we receive.
    pub items_to_receive: Vec<NewTradeOfferItem>,
}

} // verus!
