//! Current SOL/USD price from several public APIs, tried in a fixed order.
//!
//! `source` says what to request from each API and how to read its reply, `price`
//! holds prices as exact decimals and shows them in dollars and cents, and
//! `fallback` decides which source to ask next and when the run is over.
pub mod fallback;
pub mod json;
pub mod price;
pub mod source;
