//! Channel selection for the publish sink.
//!
//! Every parsed event is republished on a named channel. The sink itself
//! (its connection, retry, durability) is an external collaborator and
//! lives with the caller; what the library owns is the rule that picks
//! the channel, a total, pure function of the event kind.

use crate::events::DataType;
use crate::events::MarketEvent;
use vstd::prelude::*;
use vstd::string::StringExecFns;

verus! {

/// Channel for aggregated trades.
pub const CHANNEL_TICK: &'static str = "flash_arb:tick";

/// Channel for klines.
pub const CHANNEL_KLINE: &'static str = "flash_arb:kline";

/// Channel for depth deltas.
pub const CHANNEL_DEPTH: &'static str = "flash_arb:depth";

/// Channel for best bid/ask tickers.
pub const CHANNEL_TICKER: &'static str = "flash_arb:ticker";

/// Configuration for the publish sink connection.
#[derive(Debug, Clone)]
pub struct RedisConfig {
    pub url: String,
}

impl Default for RedisConfig {
    /// The local default sink target.
    fn default() -> (r: Self)
        ensures
            r.url@ == "redis://127.0.0.1:6379"@,
    {
        RedisConfig { url: String::from_str("redis://127.0.0.1:6379") }
    }
}

/// The channel each data kind is published on.
pub open spec fn spec_channel_for(kind: DataType) -> Seq<char> {
    match kind {
        DataType::AggTrade => "flash_arb:tick"@,
        DataType::Kline => "flash_arb:kline"@,
        DataType::Depth => "flash_arb:depth"@,
        DataType::BookTicker => "flash_arb:ticker"@,
    }
}

/// The channel an event is published on: a total, pure function of the
/// event's kind, and of nothing else.
pub fn event_channel(event: &MarketEvent) -> (r: &'static str)
    ensures
        r@ == spec_channel_for(event.spec_event_type()),
{
    match event {
        MarketEvent::AggTrade(_) => CHANNEL_TICK,
        MarketEvent::Kline(_) => CHANNEL_KLINE,
        MarketEvent::DepthUpdate(_) => CHANNEL_DEPTH,
        MarketEvent::BookTicker(_) => CHANNEL_TICKER,
    }
}

} // verus!
