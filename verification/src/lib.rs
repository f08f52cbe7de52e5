//! A deterministic, single-threaded trading-simulation kernel for level-2
//! limit-order-book data, with machine-checked contracts.
//!
//! The modules, leaves first: domain primitives ([`types`], [`orders`]) over
//! shared arithmetic and text helpers ([`arith`], [`text`]); the event codec
//! ([`codec`]) and the framing of recorded tapes ([`replay`]); the order book
//! ([`book`]); order management ([`oms`]); the portfolio ([`portfolio`]);
//! risk policies ([`risk`]); the strategy interface and the built-in
//! strategies ([`strategy`], [`strategies`]); the venue interface and its
//! simulator ([`venue`], [`venue_sim`]); run-time meters ([`metrics`]); the
//! engine that drives them all for each event ([`engine`]); and what a run
//! over a whole tape keeps track of ([`session`]).

pub mod arith;
pub mod book;
pub mod codec;
pub mod engine;
pub mod metrics;
pub mod oms;
pub mod orders;
pub mod portfolio;
pub mod replay;
pub mod risk;
pub mod session;
pub mod strategies;
pub mod strategy;
pub mod text;
pub mod types;
pub mod venue;
pub mod venue_sim;

pub use types::{CoreError, LevelUpdate, MarketEvent, Price, Qty, Side, Symbol, SymbolId, SymbolTable};
