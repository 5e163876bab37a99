pub mod channel;
pub mod connector;
pub mod message;
pub mod subscription;
pub mod trade;
pub mod market;
pub mod book;
