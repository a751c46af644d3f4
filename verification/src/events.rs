//! The unified event model: exchange and data-kind vocabulary shared by
//! every adapter and by the gateway loop.

use crate::decimal::Decimal;
use vstd::prelude::*;

verus! {

/// Supported exchange types.
#[derive(Debug, Clone, Copy, PartialEq, Eq, Structural, Hash)]
pub enum ExchangeType {
    Binance,
    Okx,
}

impl ExchangeType {
    /// Stable string form used in logs and keys.
    pub fn as_str(&self) -> (r: &'static str)
        ensures
            self is Binance ==> r@ == "binance"@,
            self is Okx ==> r@ == "okx"@,
    {
        match self {
            ExchangeType::Binance => "binance",
            ExchangeType::Okx => "okx",
        }
    }
}

/// Market data kinds that can be subscribed to.
#[derive(Debug, Clone, Copy, PartialEq, Eq, Structural, Hash)]
pub enum DataType {
    AggTrade,
    Kline,
    Depth,
    BookTicker,
}

impl DataType {
    /// Canonical token for the data kind.
    pub fn as_str(&self) -> (r: &'static str)
        ensures
            self is AggTrade ==> r@ == "aggTrade"@,
            self is Kline ==> r@ == "kline"@,
            self is Depth ==> r@ == "depth"@,
            self is BookTicker ==> r@ == "bookTicker"@,
    {
        match self {
            DataType::AggTrade => "aggTrade",
            DataType::Kline => "kline",
            DataType::Depth => "depth",
            DataType::BookTicker => "bookTicker",
        }
    }
}

/// K-line (candlestick) time intervals.
#[derive(Debug, Clone, Copy, PartialEq, Eq, Structural, Hash)]
pub enum KlineInterval {
    OneMinute,
    FiveMinutes,
    FifteenMinutes,
    ThirtyMinutes,
    OneHour,
    FourHours,
    OneDay,
}

impl KlineInterval {
    /// Canonical string token of the interval.
    pub fn as_str(&self) -> (r: &'static str)
        ensures
            self is OneMinute ==> r@ == "1m"@,
            self is FiveMinutes ==> r@ == "5m"@,
            self is FifteenMinutes ==> r@ == "15m"@,
            self is ThirtyMinutes ==> r@ == "30m"@,
            self is OneHour ==> r@ == "1h"@,
            self is FourHours ==> r@ == "4h"@,
            self is OneDay ==> r@ == "1d"@,
    {
        match self {
            KlineInterval::OneMinute => "1m",
            KlineInterval::FiveMinutes => "5m",
            KlineInterval::FifteenMinutes => "15m",
            KlineInterval::ThirtyMinutes => "30m",
            KlineInterval::OneHour => "1h",
            KlineInterval::FourHours => "4h",
            KlineInterval::OneDay => "1d",
        }
    }

    /// Fixed duration of the interval in milliseconds.
    pub fn duration_ms(&self) -> (r: i64)
        ensures
            r == self.spec_duration_ms(),
    {
        match self {
            KlineInterval::OneMinute => 60_000,
            KlineInterval::FiveMinutes => 300_000,
            KlineInterval::FifteenMinutes => 900_000,
            KlineInterval::ThirtyMinutes => 1_800_000,
            KlineInterval::OneHour => 3_600_000,
            KlineInterval::FourHours => 14_400_000,
            KlineInterval::OneDay => 86_400_000,
        }
    }

    /// Duration of the interval in milliseconds.
    pub open spec fn spec_duration_ms(&self) -> i64 {
        match self {
            KlineInterval::OneMinute => 60_000,
            KlineInterval::FiveMinutes => 300_000,
            KlineInterval::FifteenMinutes => 900_000,
            KlineInterval::ThirtyMinutes => 1_800_000,
            KlineInterval::OneHour => 3_600_000,
            KlineInterval::FourHours => 14_400_000,
            KlineInterval::OneDay => 86_400_000,
        }
    }
}

/// The canonical string token of a kline subscription's interval;
/// one minute where the subscription names none.
pub open spec fn spec_interval_token(iv: Option<KlineInterval>) -> Seq<char> {
    match iv {
        Some(KlineInterval::OneMinute) => "1m"@,
        Some(KlineInterval::FiveMinutes) => "5m"@,
        Some(KlineInterval::FifteenMinutes) => "15m"@,
        Some(KlineInterval::ThirtyMinutes) => "30m"@,
        Some(KlineInterval::OneHour) => "1h"@,
        Some(KlineInterval::FourHours) => "4h"@,
        Some(KlineInterval::OneDay) => "1d"@,
        None => "1m"@,
    }
}

/// The canonical interval token of a subscription, as a string slice.
pub fn interval_token(iv: &Option<KlineInterval>) -> (r: &'static str)
    ensures
        r@ == spec_interval_token(*iv),
{
    match iv {
        Some(i) => i.as_str(),
        None => "1m",
    }
}

/// Aggregated trade data.
#[derive(Debug, Clone)]
pub struct AggTrade {
    pub exchange: ExchangeType,
    pub symbol: String,
    pub price: Decimal,
    pub quantity: Decimal,
    pub timestamp: i64,
    pub is_buyer_maker: bool,
    pub trade_id: u64,
}

/// K-line (candlestick) data.
#[derive(Debug, Clone)]
pub struct Kline {
    pub exchange: ExchangeType,
    pub symbol: String,
    pub interval: String,
    pub open_time: i64,
    pub close_time: i64,
    pub open: Decimal,
    pub high: Decimal,
    pub low: Decimal,
    pub close: Decimal,
    pub volume: Decimal,
    pub is_closed: bool,
}

/// An order-book depth delta as received, not a maintained book. Empty
/// bid or ask lists are valid: they occur whenever price levels cannot be
/// extracted from a frame.
#[derive(Debug, Clone)]
pub struct DepthUpdate {
    pub exchange: ExchangeType,
    pub symbol: String,
    pub bids: Vec<(Decimal, Decimal)>,
    pub asks: Vec<(Decimal, Decimal)>,
    pub timestamp: i64,
}

/// Best bid/ask ticker.
#[derive(Debug, Clone)]
pub struct BookTicker {
    pub exchange: ExchangeType,
    pub symbol: String,
    pub bid_price: Decimal,
    pub bid_qty: Decimal,
    pub ask_price: Decimal,
    pub ask_qty: Decimal,
    pub timestamp: i64,
}

/// Unified market data event.
#[derive(Debug, Clone)]
pub enum MarketEvent {
    AggTrade(AggTrade),
    Kline(Kline),
    DepthUpdate(DepthUpdate),
    BookTicker(BookTicker),
}

impl MarketEvent {
    /// The exchange the event came from.
    pub open spec fn spec_exchange(&self) -> ExchangeType {
        match self {
            MarketEvent::AggTrade(t) => t.exchange,
            MarketEvent::Kline(k) => k.exchange,
            MarketEvent::DepthUpdate(d) => d.exchange,
            MarketEvent::BookTicker(b) => b.exchange,
        }
    }

    /// The symbol the event concerns.
    pub open spec fn spec_symbol(&self) -> Seq<char> {
        match self {
            MarketEvent::AggTrade(t) => t.symbol@,
            MarketEvent::Kline(k) => k.symbol@,
            MarketEvent::DepthUpdate(d) => d.symbol@,
            MarketEvent::BookTicker(b) => b.symbol@,
        }
    }

    /// The data kind of the event.
    pub open spec fn spec_event_type(&self) -> DataType {
        match self {
            MarketEvent::AggTrade(_) => DataType::AggTrade,
            MarketEvent::Kline(_) => DataType::Kline,
            MarketEvent::DepthUpdate(_) => DataType::Depth,
            MarketEvent::BookTicker(_) => DataType::BookTicker,
        }
    }

    /// Exchange accessor used uniformly by the loop and the sink selector.
    pub fn exchange(&self) -> (r: ExchangeType)
        ensures
            r == self.spec_exchange(),
    {
        match self {
            MarketEvent::AggTrade(t) => t.exchange,
            MarketEvent::Kline(k) => k.exchange,
            MarketEvent::DepthUpdate(d) => d.exchange,
            MarketEvent::BookTicker(b) => b.exchange,
        }
    }

    /// Symbol accessor used uniformly by the loop and the sink selector.
    pub fn symbol(&self) -> (r: &str)
        ensures
            r@ == self.spec_symbol(),
    {
        match self {
            MarketEvent::AggTrade(t) => t.symbol.as_str(),
            MarketEvent::Kline(k) => k.symbol.as_str(),
            MarketEvent::DepthUpdate(d) => d.symbol.as_str(),
            MarketEvent::BookTicker(b) => b.symbol.as_str(),
        }
    }

    /// Data-kind accessor used uniformly by the loop and the sink selector.
    pub fn event_type(&self) -> (r: DataType)
        ensures
            r == self.spec_event_type(),
    {
        match self {
            MarketEvent::AggTrade(_) => DataType::AggTrade,
            MarketEvent::Kline(_) => DataType::Kline,
            MarketEvent::DepthUpdate(_) => DataType::Depth,
            MarketEvent::BookTicker(_) => DataType::BookTicker,
        }
    }
}

/// Subscription request: interval is required and meaningful only for
/// `Kline` subscriptions and ignored otherwise.
#[derive(Debug, Clone)]
pub struct Subscription {
    pub symbol: String,
    pub data_type: DataType,
    pub interval: Option<KlineInterval>,
}

/// The gateway's error classes.
#[derive(Debug, Clone)]
pub enum GatewayError {
    /// Connect, handshake or socket failure; recovered by reconnecting.
    Transport(String),
    /// Malformed frame or unrecognized protocol element; the frame is dropped.
    Parse(String),
    /// The publish sink rejected an event; the event is dropped.
    Sink(String),
}

/// Result of handling a market event.
#[derive(Debug)]
pub enum EventResult {
    /// Event was successfully processed.
    Processed,
    /// Event was skipped (filtering logic).
    Skipped,
    /// Event processing failed.
    Failed(GatewayError),
}

} // verus!
