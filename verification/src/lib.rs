//! The verified core of a WebSocket data-service gateway.
//!
//! A consumer pays for a stream with a signed TAP receipt. The gateway validates the receipt,
//! stores it, relays an upstream feed, aggregates stored receipts into vouchers and collects the
//! vouchers on chain. Everything that is decided or computed on the way is here; sockets, the
//! database, HTTP and the chain are the business of the program around it.

pub mod abi;
pub mod aggregator;
pub mod collector;
pub mod config;
pub mod db;
pub mod gateway;
pub mod pricing;
pub mod primitives;
pub mod tap;
pub mod text;
pub mod ws;
