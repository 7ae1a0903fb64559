//! Typed records exchanged with the venue: balances, candles, tickers,
//! orders and market data. Monetary fields arrive as decimal strings and are
//! read through verified parsing into [`Dec`] values.

use crate::decimal::{in_range, parse_default_units, Dec};
use vstd::prelude::*;

verus! {

/// Account snapshot returned by the exchange.
#[derive(Debug, Clone)]
pub struct AccountInfo {
    pub maker_commission: i64,
    pub taker_commission: i64,
    pub buyer_commission: i64,
    pub seller_commission: i64,
    pub can_trade: bool,
    pub can_withdraw: bool,
    pub can_deposit: bool,
    pub update_time: u64,
    pub account_type: String,
    pub balances: Vec<Balance>,
}

/// One asset's balance; `free` and `locked` are decimal strings as sent by
/// the exchange.
#[derive(Debug, Clone)]
pub struct Balance {
    pub asset: String,
    pub free: String,
    pub locked: String,
}

impl Balance {
    /// The spendable amount; zero when the field does not parse.
    pub fn free_decimal(&self) -> (r: Dec)
        ensures
            r.units == parse_default_units(self.free@),
            in_range(r.units as int),
    {
        Dec::parse_or_zero(self.free.as_str())
    }

    /// The locked amount; zero when the field does not parse.
    pub fn locked_decimal(&self) -> (r: Dec)
        ensures
            r.units == parse_default_units(self.locked@),
            in_range(r.units as int),
    {
        Dec::parse_or_zero(self.locked.as_str())
    }

    /// Free plus locked.
    pub fn total(&self) -> (r: Dec)
        ensures
            r.units == parse_default_units(self.free@) + parse_default_units(self.locked@),
    {
        self.free_decimal().add(self.locked_decimal())
    }
}

/// Latest price of one symbol.
#[derive(Debug, Clone)]
pub struct TickerPrice {
    pub symbol: String,
    pub price: String,
}

impl TickerPrice {
    /// The price; zero when the field does not parse.
    pub fn price_decimal(&self) -> (r: Dec)
        ensures
            r.units == parse_default_units(self.price@),
            in_range(r.units as int),
    {
        Dec::parse_or_zero(self.price.as_str())
    }
}

/// One candle, ordered oldest to newest in a series.
#[derive(Debug, Clone)]
pub struct Kline {
    pub open_time: u64,
    pub open: String,
    pub high: String,
    pub low: String,
    pub close: String,
    pub volume: String,
    pub close_time: u64,
    pub quote_asset_volume: String,
    pub number_of_trades: u64,
    pub taker_buy_base_asset_volume: String,
    pub taker_buy_quote_asset_volume: String,
}

/// The unit count of a candle's close price.
pub open spec fn kline_close_units(k: Kline) -> int {
    parse_default_units(k.close@)
}

/// The close-price unit counts of a market snapshot, oldest first.
pub open spec fn close_units_seq(md: MarketData) -> Seq<int> {
    md.klines@.map_values(|k: Kline| kline_close_units(k))
}

impl Kline {
    /// The close price, the canonical price of the candle.
    pub fn close_decimal(&self) -> (r: Dec)
        ensures
            r.units == kline_close_units(*self),
            in_range(r.units as int),
    {
        Dec::parse_or_zero(self.close.as_str())
    }

    /// The open price.
    pub fn open_decimal(&self) -> (r: Dec)
        ensures
            r.units == parse_default_units(self.open@),
            in_range(r.units as int),
    {
        Dec::parse_or_zero(self.open.as_str())
    }

    /// The high price.
    pub fn high_decimal(&self) -> (r: Dec)
        ensures
            r.units == parse_default_units(self.high@),
            in_range(r.units as int),
    {
        Dec::parse_or_zero(self.high.as_str())
    }

    /// The low price.
    pub fn low_decimal(&self) -> (r: Dec)
        ensures
            r.units == parse_default_units(self.low@),
            in_range(r.units as int),
    {
        Dec::parse_or_zero(self.low.as_str())
    }
}

/// Which way an order trades.
#[derive(Debug, Clone, Copy, PartialEq, Eq, Structural)]
pub enum OrderSide {
    Buy,
    Sell,
}

impl OrderSide {
    /// The wire name of the side.
    pub fn as_str(&self) -> (r: &'static str)
        ensures
            *self == OrderSide::Buy ==> r@ == "BUY"@,
            *self == OrderSide::Sell ==> r@ == "SELL"@,
    {
        match self {
            OrderSide::Buy => "BUY",
            OrderSide::Sell => "SELL",
        }
    }
}

/// Exchange order types.
#[derive(Debug, Clone, Copy, PartialEq, Eq, Structural)]
pub enum OrderType {
    Market,
    Limit,
    StopLoss,
    StopLossLimit,
    TakeProfit,
    TakeProfitLimit,
    LimitMaker,
}

impl OrderType {
    /// The wire name of the order type.
    pub fn as_str(&self) -> (r: &'static str)
        ensures
            *self == OrderType::Market ==> r@ == "MARKET"@,
            *self == OrderType::Limit ==> r@ == "LIMIT"@,
            *self == OrderType::StopLoss ==> r@ == "STOP_LOSS"@,
            *self == OrderType::StopLossLimit ==> r@ == "STOP_LOSS_LIMIT"@,
            *self == OrderType::TakeProfit ==> r@ == "TAKE_PROFIT"@,
            *self == OrderType::TakeProfitLimit ==> r@ == "TAKE_PROFIT_LIMIT"@,
            *self == OrderType::LimitMaker ==> r@ == "LIMIT_MAKER"@,
    {
        match self {
            OrderType::Market => "MARKET",
            OrderType::Limit => "LIMIT",
            OrderType::StopLoss => "STOP_LOSS",
            OrderType::StopLossLimit => "STOP_LOSS_LIMIT",
            OrderType::TakeProfit => "TAKE_PROFIT",
            OrderType::TakeProfitLimit => "TAKE_PROFIT_LIMIT",
            OrderType::LimitMaker => "LIMIT_MAKER",
        }
    }
}

/// How long an order stays on the book.
#[derive(Debug, Clone, Copy, PartialEq, Eq, Structural)]
pub enum TimeInForce {
    Gtc,
    Ioc,
    Fok,
}

impl TimeInForce {
    /// The wire name of the time-in-force.
    pub fn as_str(&self) -> (r: &'static str)
        ensures
            *self == TimeInForce::Gtc ==> r@ == "GTC"@,
            *self == TimeInForce::Ioc ==> r@ == "IOC"@,
            *self == TimeInForce::Fok ==> r@ == "FOK"@,
    {
        match self {
            TimeInForce::Gtc => "GTC",
            TimeInForce::Ioc => "IOC",
            TimeInForce::Fok => "FOK",
        }
    }
}

/// An order to submit.
#[derive(Debug, Clone)]
pub struct OrderRequest {
    pub symbol: String,
    pub side: OrderSide,
    pub order_type: OrderType,
    pub quantity: Dec,
    pub price: Option<Dec>,
    pub time_in_force: Option<TimeInForce>,
    pub stop_price: Option<Dec>,
}

impl OrderRequest {
    /// A market order.
    pub fn market(symbol: &str, side: OrderSide, quantity: Dec) -> (r: OrderRequest)
        ensures
            r.symbol@ == symbol@,
            r.side == side,
            r.order_type == OrderType::Market,
            r.quantity == quantity,
            r.price is None,
            r.time_in_force is None,
            r.stop_price is None,
    {
        OrderRequest {
            symbol: symbol.to_owned(),
            side,
            order_type: OrderType::Market,
            quantity,
            price: None,
            time_in_force: None,
            stop_price: None,
        }
    }

    /// A good-till-cancel limit order.
    pub fn limit(symbol: &str, side: OrderSide, quantity: Dec, price: Dec) -> (r: OrderRequest)
        ensures
            r.symbol@ == symbol@,
            r.side == side,
            r.order_type == OrderType::Limit,
            r.quantity == quantity,
            r.price == Some(price),
            r.time_in_force == Some(TimeInForce::Gtc),
            r.stop_price is None,
    {
        OrderRequest {
            symbol: symbol.to_owned(),
            side,
            order_type: OrderType::Limit,
            quantity,
            price: Some(price),
            time_in_force: Some(TimeInForce::Gtc),
            stop_price: None,
        }
    }
}

/// Acknowledgement of a placed order.
#[derive(Debug, Clone)]
pub struct OrderResponse {
    pub symbol: String,
    pub order_id: u64,
    pub client_order_id: String,
    pub transact_time: u64,
    pub price: String,
    pub orig_qty: String,
    pub executed_qty: String,
    pub status: String,
    pub time_in_force: String,
    pub order_type: String,
    pub side: String,
}

/// An order still on the book.
#[derive(Debug, Clone)]
pub struct OpenOrder {
    pub symbol: String,
    pub order_id: u64,
    pub client_order_id: String,
    pub price: String,
    pub orig_qty: String,
    pub executed_qty: String,
    pub status: String,
    pub time_in_force: String,
    pub order_type: String,
    pub side: String,
    pub time: u64,
    pub update_time: u64,
}

/// Acknowledgement of a cancelled order.
#[derive(Debug, Clone)]
pub struct CancelOrderResponse {
    pub symbol: String,
    pub order_id: u64,
    pub client_order_id: String,
    pub status: String,
}

/// A symbol's market snapshot: current price and candle history, oldest
/// candle first.
#[derive(Debug, Clone)]
pub struct MarketData {
    pub symbol: String,
    pub current_price: Dec,
    pub klines: Vec<Kline>,
    pub timestamp: u64,
}

impl MarketData {
    /// The close price of each candle, oldest first.
    pub fn close_prices(&self) -> (r: Vec<Dec>)
        ensures
            r@.len() == self.klines@.len(),
            forall|i: int|
                0 <= i < r@.len() ==> (#[trigger] r@[i]).units == kline_close_units(
                    self.klines@[i],
                ) && in_range(r@[i].units as int),
    {
        let mut r: Vec<Dec> = Vec::new();
        let n: usize = self.klines.len();
        let mut i: usize = 0;
        while i < n
            invariant
                i <= n,
                n == self.klines@.len(),
                r@.len() == i,
                forall|j: int|
                    0 <= j < i ==> (#[trigger] r@[j]).units == kline_close_units(
                        self.klines@[j],
                    ) && in_range(r@[j].units as int),
            decreases n - i,
        {
            let d: Dec = self.klines[i].close_decimal();
            r.push(d);
            i = i + 1;
        }
        r
    }
}

/// A ticker frame from the streaming feed.
#[derive(Debug, Clone)]
pub struct WsTickerUpdate {
    pub event_type: String,
    pub event_time: u64,
    pub symbol: String,
    pub close_price: String,
}

/// Venue-wide metadata.
#[derive(Debug, Clone)]
pub struct ExchangeInfo {
    pub timezone: String,
    pub server_time: u64,
    pub symbols: Vec<SymbolInfo>,
}

/// Metadata of one listed symbol.
#[derive(Debug, Clone)]
pub struct SymbolInfo {
    pub symbol: String,
    pub status: String,
    pub base_asset: String,
    pub quote_asset: String,
    pub base_asset_precision: u32,
    pub quote_precision: u32,
}

} // verus!
