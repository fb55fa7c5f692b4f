//! Subscriptions over websockets: a client subscribes to new block headers or to the events of new
//! blocks, and can use the RPC methods of the node over the same connection.

pub mod broadcast;
pub mod connection;
pub mod data;
pub mod events;
pub mod feed;
pub mod run;
pub mod session;
pub mod subscriptions;
pub mod writer;
