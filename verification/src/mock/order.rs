//! Orders, trades and balances exchanged with the mock exchange.
use crate::exchange_id::ExchangeId;
use crate::side::Side;
use crate::time::Timestamp;
use rust_decimal::Decimal;
use vstd::prelude::*;

verus! {

/// Kind of an order.
#[derive(Copy, Clone, Debug, PartialEq, Eq, Structural)]
pub enum OrderKind {
    Market,
    Limit,
}

/// How long an order stays in force.
#[derive(Copy, Clone, Debug, PartialEq, Eq, Structural)]
pub enum TimeInForce {
    GoodUntilCancelled { post_only: bool },
    GoodUntilEndOfDay,
    FillOrKill,
    ImmediateOrCancel,
}

/// Identifies an order: its exchange, instrument, strategy and client order id.
#[derive(Clone, Debug, PartialEq)]
pub struct OrderKey {
    pub exchange: ExchangeId,
    pub instrument: String,
    pub strategy: String,
    pub cid: String,
}

impl OrderKey {
    /// A copy of the key.
    pub fn copy(&self) -> (r: Self)
        ensures
            r == *self,
    {
        OrderKey {
            exchange: self.exchange,
            instrument: self.instrument.clone(),
            strategy: self.strategy.clone(),
            cid: self.cid.clone(),
        }
    }
}

/// What a request to open an order asks for.
#[derive(Clone, Debug, PartialEq)]
pub struct RequestOpen {
    pub side: Side,
    pub price: Decimal,
    pub quantity: Decimal,
    pub kind: OrderKind,
    pub time_in_force: TimeInForce,
}

/// A request to open an order.
#[derive(Clone, Debug, PartialEq)]
pub struct OrderRequestOpen {
    pub key: OrderKey,
    pub state: RequestOpen,
}

/// A request to cancel an order (the exchange order id, where known).
#[derive(Clone, Debug, PartialEq)]
pub struct OrderRequestCancel {
    pub key: OrderKey,
    pub id: Option<String>,
}

/// State of an order the exchange has accepted.
#[derive(Clone, Debug, PartialEq)]
pub struct Open {
    pub id: String,
    pub time_exchange: Timestamp,
    pub filled_quantity: Decimal,
}

/// State of an order the exchange has cancelled.
#[derive(Clone, Debug, PartialEq)]
pub struct Cancelled {
    pub id: String,
    pub time_exchange: Timestamp,
}

/// Errors an exchange API answers with.
#[derive(Clone, Debug, PartialEq)]
pub enum ApiError {
    /// The instrument is not configured (instrument, message).
    InstrumentInvalid(String, String),
    /// Not enough of an asset (asset, message).
    BalanceInsufficient(String, String),
    /// The order was rejected (message).
    OrderRejected(String),
}

/// Why an order request failed.
#[derive(Clone, Debug, PartialEq)]
pub enum OrderError {
    Rejected(ApiError),
}

/// An order together with the outcome of a request about it.
#[derive(Clone, Debug, PartialEq)]
pub struct Order<State> {
    pub key: OrderKey,
    pub side: Side,
    pub price: Decimal,
    pub quantity: Decimal,
    pub kind: OrderKind,
    pub time_in_force: TimeInForce,
    pub state: State,
}

impl Order<Open> {
    /// A copy of the order.
    pub fn copy(&self) -> (r: Self)
        ensures
            r == *self,
    {
        Order {
            key: self.key.copy(),
            side: self.side,
            price: self.price,
            quantity: self.quantity,
            kind: self.kind,
            time_in_force: self.time_in_force,
            state: Open {
                id: self.state.id.clone(),
                time_exchange: self.state.time_exchange,
                filled_quantity: self.state.filled_quantity,
            },
        }
    }
}

/// Total and free amounts of an asset.
#[derive(Copy, Clone, Debug, PartialEq)]
pub struct Balance {
    pub total: Decimal,
    pub free: Decimal,
}

/// The balance of one asset, with the exchange time it was last changed.
#[derive(Clone, Debug, PartialEq)]
pub struct AssetBalance {
    pub asset: String,
    pub balance: Balance,
    pub time_exchange: Timestamp,
}

impl AssetBalance {
    /// A copy of the balance.
    pub fn copy(&self) -> (r: Self)
        ensures
            r == *self,
    {
        AssetBalance { asset: self.asset.clone(), balance: self.balance, time_exchange: self.time_exchange }
    }
}

/// A fill: fees are counted in the instrument's quote asset.
#[derive(Clone, Debug, PartialEq)]
pub struct Trade {
    pub id: String,
    pub order_id: String,
    pub instrument: String,
    pub strategy: String,
    pub time_exchange: Timestamp,
    pub side: Side,
    pub price: Decimal,
    pub quantity: Decimal,
    pub fees: Decimal,
}

impl Trade {
    /// A copy of the trade.
    pub fn copy(&self) -> (r: Self)
        ensures
            r == *self,
    {
        Trade {
            id: self.id.clone(),
            order_id: self.order_id.clone(),
            instrument: self.instrument.clone(),
            strategy: self.strategy.clone(),
            time_exchange: self.time_exchange,
            side: self.side,
            price: self.price,
            quantity: self.quantity,
            fees: self.fees,
        }
    }
}

/// What an order that filled at once notifies: the changed balance and the trade.
#[derive(Clone, Debug, PartialEq)]
pub struct OpenOrderNotifications {
    pub balance: AssetBalance,
    pub trade: Trade,
}

} // verus!
