//! A load generator for a blockchain RPC endpoint, without the I/O.
//!
//! The core is the dispatch and pacing engine: the pool of source accounts
//! ([`pool`], [`account`]), the round scheduler ([`scheduler`]), one
//! account's dispatch with confirmation gating ([`dispatch`], [`driver`]),
//! the metrics ([`metrics`]) and the configuration ([`config`]). What a
//! dispatch and a run come to whatever the chain answers is stated and
//! proved in [`progress`].
//!
//! Around it stand the smaller rules of the command line tools: keys and
//! addresses ([`keys`]), 256-bit amounts ([`uint256`]), network names
//! ([`network`]), key files ([`mnemonics`]), funding ([`funding`]), block
//! walks ([`blocks`]), the operations on the ledgers ([`ops`], [`txns`],
//! [`remote`]) and the profiler ([`profiler`]).
//!
//! Nothing here talks to a chain, reads a file or sleeps. The state machines
//! name what is to be done and take what came of it; the caller does it.

pub mod account;
pub mod blocks;
pub mod config;
pub mod dispatch;
pub mod driver;
pub mod error;
pub mod funding;
pub mod keys;
pub mod metrics;
pub mod mnemonics;
pub mod network;
pub mod ops;
pub mod pool;
pub mod profiler;
pub mod progress;
pub mod remote;
pub mod scheduler;
pub mod text;
pub mod txns;
pub mod uint256;
