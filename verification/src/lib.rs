//! Compares a miner's unpaid balance across several mining pools.
//!
//! Each pool's HTTP API reports the balance in its own unit (wei, Gwei or
//! ETH) and under its own JSON field. This library holds the verified part
//! of that pipeline: the per-pool URL shapes and field paths, a decimal
//! parser that turns a JSON number's text into a fixed-point wei amount,
//! the hashrate/baseline normalization formula, the deterministic ranking
//! with percent-of-top figures, and the report formatting. Fetching over
//! the network and reading the configuration file are left to the caller.
//!
//! All ETH quantities are fixed-point integers counted in wei
//! (10^-18 ETH); hashrates are counted in thousandths of the configured
//! unit, so the arithmetic is exact and proved free of overflow.

pub mod pools;
pub mod decimal;
pub mod display;
pub mod balance;
pub mod config;
pub mod rank;
pub mod report;
pub mod fetch;
