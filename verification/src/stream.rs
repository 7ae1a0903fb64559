//! The streaming ticker feed's state and message routing. Connecting,
//! reading frames and reconnecting are I/O and live with the caller; the
//! decision of what an incoming text frame means is made here.

use crate::config::Environment;
use crate::models::WsTickerUpdate;
use crate::text::{spec_ends_with, str_ends_with};
use vstd::prelude::*;

verus! {

/// The streaming ticker feed of one environment.
pub struct BinanceWebSocket {
    pub environment: Environment,
}

impl BinanceWebSocket {
    /// A feed handle for the given environment.
    pub fn new(environment: Environment) -> (r: BinanceWebSocket)
        ensures
            r.environment == environment,
    {
        BinanceWebSocket { environment }
    }
}

/// A message the feed hands its subscriber.
#[derive(Debug, Clone)]
pub enum WsMessage {
    Ticker(WsTickerUpdate),
    Connected,
    Disconnected,
    Error(String),
}

/// Route one decoded stream frame: a frame from a ticker stream becomes a
/// ticker message, anything else is dropped.
pub fn route_stream_frame(stream: &str, update: WsTickerUpdate) -> (r: Option<WsMessage>)
    ensures
        r is Some <==> spec_ends_with(stream@, "@ticker"@),
        r matches Some(m) ==> m == WsMessage::Ticker(update),
{
    if str_ends_with(stream, "@ticker") {
        Some(WsMessage::Ticker(update))
    } else {
        None
    }
}

} // verus!
