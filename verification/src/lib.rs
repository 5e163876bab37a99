//! Verified core of the Barter market-data and mock-execution components.

pub mod books;
pub mod connector_factory;
pub mod connector_meta;
pub mod connectors;
pub mod decimal;
pub mod deribit;
pub mod dynamic;
pub mod error;
pub mod exchange_id;
pub mod keyed;
pub mod sequencer;
pub mod side;
pub mod text;
pub mod time;
pub mod transformer;
pub mod market_fanout;
pub mod mock;
