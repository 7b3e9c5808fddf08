//! Decision logic of a websocket relay server for trading nodes and their
//! clients: configuration, the asset store and its upload protocol, the
//! subscription handshake, the outgoing send loop with retries, the incoming
//! message dispatch, and the bookkeeping done when a connection ends.
//!
//! Every function here is pure logic over plain values; the network, the
//! file system and the clock are driven by the caller, which hands each
//! outcome back as an event.

pub mod assets;
pub mod config;
pub mod connection;
pub mod delivery;
pub mod forwarder;
pub mod message;
pub mod nodes;
pub mod receiver;
pub mod subscription;
pub mod upload;
