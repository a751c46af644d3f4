//! Market-data gateway core: a unified event model for cryptocurrency
//! exchange feeds, per-exchange wire-protocol handling that turns raw
//! JSON frames into normalized events, and the pure decision logic of
//! the supervising gateway loop.

mod binance;
mod decimal;
mod events;
mod gateway;
mod json;
mod okx;
mod publisher;
mod strutil;
mod transport;

pub use binance::BINANCE_FUTURES_TESTNET_WS;
pub use binance::BINANCE_FUTURES_WS;
pub use binance::BinanceClient;
pub use decimal::Decimal;
pub use decimal::parse_decimal;
pub use decimal::parse_i64;
pub use events::AggTrade;
pub use events::BookTicker;
pub use events::DataType;
pub use events::DepthUpdate;
pub use events::EventResult;
pub use events::ExchangeType;
pub use events::GatewayError;
pub use events::Kline;
pub use events::KlineInterval;
pub use events::MarketEvent;
pub use events::Subscription;
pub use gateway::create_subscriptions;
pub use gateway::should_reconnect;
pub use json::JsonValue;
pub use json::json_parse;
pub use okx::OKX_WS_DEMO;
pub use okx::OKX_WS_PUBLIC;
pub use okx::OkxClient;
pub use publisher::CHANNEL_DEPTH;
pub use publisher::CHANNEL_KLINE;
pub use publisher::CHANNEL_TICK;
pub use publisher::CHANNEL_TICKER;
pub use publisher::RedisConfig;
pub use publisher::event_channel;
pub use transport::RecvStep;
pub use transport::WsFrame;
