//! The price-quotation services that the ledger consumes.
use crate::commodity::{Amount, CommodityId};
use crate::time::Timestamp;
use vstd::prelude::*;

verus! {

/// A price quoted for a commodity.
#[derive(Clone, Debug)]
pub struct PriceQuote {
    pub quoted_price: Amount,
    pub received_date: Timestamp,
    pub source: String,
}

/// The span that a price history covers.
#[derive(Clone, Copy, Debug, PartialEq, Eq, Structural)]
pub enum HistoryRange {
    Hour,
    Day,
    Week,
    Month,
    Year,
}

/// Prices over a range, starting at `start_date`.
#[derive(Clone, Debug)]
pub struct PriceHistory {
    pub prices: Vec<Amount>,
    pub start_date: Timestamp,
    pub range: HistoryRange,
    pub received_date: Timestamp,
    pub source: String,
}

/// An outside service, with its own kind of error.
pub trait QuoteService {
    type Error;
}

/// Quotes the current price of a commodity.
pub trait CommodityPriceService: QuoteService {
    fn get_price(&self, commodity: CommodityId) -> Result<PriceQuote, Self::Error>;
}

/// Quotes past prices of a commodity.
pub trait CommodityPriceHistoryService: QuoteService {
    fn get_historical_price(&self, commodity: CommodityId, as_of: Timestamp) -> Result<PriceQuote, Self::Error>;

    fn get_price_trailing_history(&self, commodity: CommodityId, trailing: HistoryRange) -> Result<PriceHistory, Self::Error>;
}

} // verus!
