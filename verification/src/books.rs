//! Order book levels, best bid/ask (L1) snapshots and L2 book events.
use crate::time::Timestamp;
use rust_decimal::Decimal;
use vstd::prelude::*;

verus! {

/// A price level: a price and the amount resting at it.
#[derive(Copy, Clone, Debug, PartialEq)]
pub struct Level {
    pub price: Decimal,
    pub amount: Decimal,
}

impl Level {
    /// The level of `amount` at `price`.
    pub fn new(price: Decimal, amount: Decimal) -> (r: Self)
        ensures
            r.price == price && r.amount == amount,
    {
        Level { price, amount }
    }
}

/// Best bid and best ask of an instrument, either of which may be absent.
#[derive(Copy, Clone, Debug, PartialEq)]
pub struct OrderBookL1 {
    pub last_update_time: Timestamp,
    pub best_bid: Option<Level>,
    pub best_ask: Option<Level>,
}

impl OrderBookL1 {
    /// The L1 book with the given time and sides.
    pub fn new(last_update_time: Timestamp, best_bid: Option<Level>, best_ask: Option<Level>) -> (r: Self)
        ensures
            r.last_update_time == last_update_time && r.best_bid == best_bid && r.best_ask == best_ask,
    {
        OrderBookL1 { last_update_time, best_bid, best_ask }
    }
}

/// An L2 order book: a sequence number, an optional engine time, and bid and ask
/// levels in the order the exchange listed them.
#[derive(Clone, Debug, PartialEq)]
pub struct OrderBook {
    pub sequence: u64,
    pub time_engine: Option<Timestamp>,
    pub bids: Vec<Level>,
    pub asks: Vec<Level>,
}

/// A full L2 snapshot or an incremental L2 update.
#[derive(Clone, Debug, PartialEq)]
pub enum OrderBookEvent {
    Snapshot(OrderBook),
    Update(OrderBook),
}

} // verus!
