//! Errors of market data sockets and streams, as the library's logic raises them.
use crate::exchange_id::ExchangeId;
use barter_integration::subscription::SubscriptionId;
use vstd::prelude::*;

verus! {

/// Why a socket operation failed.
#[derive(Clone, Debug, PartialEq, Eq)]
pub enum SocketError {
    /// Subscribing (or authenticating) failed, with a message.
    Subscribe(String),
    /// The WebSocket itself failed, with its error's text.
    WebSocket(String),
    /// A payload could not be deserialised: the error's text and the payload.
    Deserialise { error: String, payload: String },
    /// A message named a subscription that nothing is routed by.
    Unidentifiable(SubscriptionId),
}

/// Why market data could not be processed.
#[derive(Clone, Debug, PartialEq, Eq)]
pub enum DataError {
    /// An order book update does not follow the last one applied.
    InvalidSequence { prev_last_update_id: u64, first_update_id: u64 },
    /// The initial order book snapshot is not a snapshot.
    InitialSnapshotInvalid(String),
    /// No stream can be initialised for this exchange and subscription kind.
    Unsupported { exchange: ExchangeId, sub_kind: SubKind },
    /// No channel was created for this exchange and subscription kind.
    ChannelNotFound { exchange: ExchangeId, sub_kind: SubKind },
    /// The socket failed.
    Socket(SocketError),
}

/// Kind of market data a subscription asks for.
#[derive(Copy, Clone, Debug, PartialEq, Eq, Structural)]
pub enum SubKind {
    PublicTrades,
    OrderBooksL1,
    OrderBooksL2,
    OrderBooksL3,
    Liquidations,
    Candles,
}

} // verus!
