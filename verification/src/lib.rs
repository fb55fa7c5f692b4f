//! Decisions of a StarkNet node: which chain it follows, how it joins the peer-to-peer network, and
//! how it serves subscriptions over websockets.

pub mod chain;
pub mod felt;
pub mod head;
pub mod p2p_network;
pub mod startup;
pub mod websocket;
