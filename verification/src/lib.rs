//! An automated spot-trading agent for a centralized cryptocurrency
//! exchange: indicator math over exact fixed-point decimals, an SMA-crossover
//! strategy, a pre-trade risk gate, and the decision logic of the trading
//! engine, all with verified contracts.

pub mod config;
pub mod decimal;
pub mod engine;
pub mod indicators;
pub mod models;
pub mod risk;
pub mod signing;
pub mod stream;
pub mod strategy;
pub mod text;

pub use config::Environment;
pub use decimal::Dec;
