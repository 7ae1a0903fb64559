//! Exchange environments and the plain configuration records that the
//! trading core consumes.

use crate::decimal::Dec;
use crate::text::str_eq;
use vstd::prelude::*;

verus! {

/// Exchange section of the configuration.
#[derive(Debug, Clone)]
pub struct ExchangeConfig {
    pub name: String,
    pub symbols: Vec<String>,
    pub update_interval_ms: u64,
}

/// Risk section of the configuration; percentages on the 0-100 scale.
#[derive(Debug, Clone)]
pub struct RiskConfig {
    pub max_position_pct: Dec,
    pub max_daily_loss_pct: Dec,
    pub max_open_positions: u32,
    pub default_stop_loss_pct: Dec,
    pub default_take_profit_pct: Dec,
}

/// Logging section of the configuration.
#[derive(Debug, Clone)]
pub struct LoggingConfig {
    pub level: String,
    pub file_enabled: bool,
    pub file_path: String,
}

/// API credentials and the environment they belong to.
#[derive(Debug, Clone)]
pub struct ExchangeCredentials {
    pub api_key: String,
    pub secret_key: String,
    pub environment: Environment,
}

/// The exchange environment a process talks to. It never changes at runtime
/// for a single process.
#[derive(Debug, Clone, Copy, PartialEq, Eq, Structural)]
pub enum Environment {
    Testnet,
    Mainnet,
}

impl Environment {
    /// Base URL of the exchange REST API for this environment.
    pub fn base_url(&self) -> (r: &'static str)
        ensures
            *self == Environment::Testnet ==> r@ == "https://testnet.binance.vision"@,
            *self == Environment::Mainnet ==> r@ == "https://api.binance.com"@,
    {
        match self {
            Environment::Testnet => "https://testnet.binance.vision",
            Environment::Mainnet => "https://api.binance.com",
        }
    }

    /// Root URL of the exchange WebSocket stream for this environment.
    pub fn ws_url(&self) -> (r: &'static str)
        ensures
            *self == Environment::Testnet ==> r@ == "wss://testnet.binance.vision/ws"@,
            *self == Environment::Mainnet ==> r@ == "wss://stream.binance.com:9443/ws"@,
    {
        match self {
            Environment::Testnet => "wss://testnet.binance.vision/ws",
            Environment::Mainnet => "wss://stream.binance.com:9443/ws",
        }
    }

    /// The environment a lowercased name selects; anything unrecognized
    /// falls back to the testnet.
    pub fn from_name(name: &str) -> (r: Environment)
        ensures
            r == if name@ == "mainnet"@ || name@ == "production"@ || name@ == "prod"@ {
                Environment::Mainnet
            } else {
                Environment::Testnet
            },
    {
        if str_eq(name, "mainnet") || str_eq(name, "production") || str_eq(name, "prod") {
            Environment::Mainnet
        } else {
            Environment::Testnet
        }
    }
}

} // verus!
