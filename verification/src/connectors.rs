//! Connectors of the exchanges whose streams can be configured: each a unit type,
//! but for Deribit, whose connector carries its configuration.
use crate::exchange_id::ExchangeId;
use vstd::prelude::*;

verus! {

/// The Binance Spot connector.
#[derive(Copy, Clone, Debug, PartialEq, Eq, Structural)]
pub struct BinanceSpot;

/// The Binance USD-margined futures connector.
#[derive(Copy, Clone, Debug, PartialEq, Eq, Structural)]
pub struct BinanceFuturesUsd;

/// The Bitfinex connector.
#[derive(Copy, Clone, Debug, PartialEq, Eq, Structural)]
pub struct Bitfinex;

/// The BitMEX connector.
#[derive(Copy, Clone, Debug, PartialEq, Eq, Structural)]
pub struct Bitmex;

/// The Bybit Spot connector.
#[derive(Copy, Clone, Debug, PartialEq, Eq, Structural)]
pub struct BybitSpot;

/// The Bybit USD perpetuals connector.
#[derive(Copy, Clone, Debug, PartialEq, Eq, Structural)]
pub struct BybitPerpetualsUsd;

/// The Coinbase connector.
#[derive(Copy, Clone, Debug, PartialEq, Eq, Structural)]
pub struct Coinbase;

/// The Gateio Spot connector.
#[derive(Copy, Clone, Debug, PartialEq, Eq, Structural)]
pub struct GateioSpot;

/// The Gateio USD futures connector.
#[derive(Copy, Clone, Debug, PartialEq, Eq, Structural)]
pub struct GateioFuturesUsd;

/// The Gateio BTC futures connector.
#[derive(Copy, Clone, Debug, PartialEq, Eq, Structural)]
pub struct GateioFuturesBtc;

/// The Gateio BTC perpetuals connector.
#[derive(Copy, Clone, Debug, PartialEq, Eq, Structural)]
pub struct GateioPerpetualsBtc;

/// The Gateio USD perpetuals connector.
#[derive(Copy, Clone, Debug, PartialEq, Eq, Structural)]
pub struct GateioPerpetualsUsd;

/// The Gateio options connector.
#[derive(Copy, Clone, Debug, PartialEq, Eq, Structural)]
pub struct GateioOptions;

/// The Kraken connector.
#[derive(Copy, Clone, Debug, PartialEq, Eq, Structural)]
pub struct Kraken;

/// The OKX connector.
#[derive(Copy, Clone, Debug, PartialEq, Eq, Structural)]
pub struct Okx;

} // verus!
