pub mod account;
pub mod order;
pub mod plan;
pub mod requests;
pub mod snapshot;
pub mod exchange;
pub mod fill;
pub mod manage;
