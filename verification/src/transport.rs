//! What each received transport frame means to an adapter.
//!
//! The WebSocket transport lives with the caller, which feeds every frame
//! it reads into the adapter's `recv_step` and acts on the returned
//! instruction: hand an event on, answer a ping with a pong, keep
//! waiting, or treat the connection as gone. Driving this as a loop keeps
//! resource use bounded under a ping flood; transparently answering pings
//! before waiting on is part of the contract.

use crate::binance::BinanceClient;
use crate::binance::binance_frame_parse_ok;
use crate::events::GatewayError;
use crate::events::MarketEvent;
use crate::json::spec_json_parse;
use crate::okx::OkxClient;
use crate::okx::okx_frame_parse_ok;
use vstd::prelude::*;

verus! {

/// One frame as read from the transport, reduced to plain values.
pub enum WsFrame {
    /// A text frame: a candidate data frame.
    Text(String),
    /// A binary frame: ignored by both protocols.
    Binary(Vec<u8>),
    /// A transport-level ping carrying a payload to echo.
    Ping(Vec<u8>),
    /// A transport-level pong: ignored.
    Pong(Vec<u8>),
    /// A close frame.
    Close,
    /// The stream ended.
    Ended,
    /// A hard transport fault, with its description.
    Fault(String),
}

/// What the caller must do with the frame it handed in.
pub enum RecvStep {
    /// A parsed market event to deliver.
    Event(MarketEvent),
    /// Echo this payload as a pong, then keep waiting for data.
    SendPong(Vec<u8>),
    /// A control frame was consumed: keep waiting for data.
    Continue,
    /// The frame was dropped as a soft failure: report no event.
    Skip,
    /// The connection is over; the adapter is now disconnected.
    Ended,
    /// A hard transport fault; the adapter is now disconnected.
    Fault(GatewayError),
}

/// The full meaning of one Binance `recv_step` call: how the adapter
/// state moves and which instruction comes back for each frame. Only a
/// close, a stream end or a hard fault clears the connected flag; soft
/// failures never do.
pub open spec fn binance_recv_transition(
    pre: BinanceClient,
    post: BinanceClient,
    frame: WsFrame,
    now_ms: i64,
    r: RecvStep,
) -> bool {
    &&& post.ws_url == pre.ws_url
    &&& post.symbols == pre.symbols
    &&& post.exchange_type == pre.exchange_type
    &&& match frame {
        WsFrame::Close | WsFrame::Ended | WsFrame::Fault(_) => !post.connected,
        _ => post.connected == pre.connected,
    }
    &&& match frame {
        WsFrame::Text(t) => match spec_json_parse(t@) {
            None => r is Skip,
            Some(v) => match r {
                RecvStep::Event(e) => binance_frame_parse_ok(
                    v,
                    pre.exchange_type,
                    now_ms,
                    Some(e),
                ),
                RecvStep::Skip => binance_frame_parse_ok(v, pre.exchange_type, now_ms, None),
                _ => false,
            },
        },
        WsFrame::Binary(_) => r is Skip,
        WsFrame::Ping(p) => r matches RecvStep::SendPong(q) && q == p,
        WsFrame::Pong(_) => r is Continue,
        WsFrame::Close => r is Ended,
        WsFrame::Ended => r is Ended,
        WsFrame::Fault(m) => r matches RecvStep::Fault(GatewayError::Transport(mm)) && mm == m,
    }
}

/// The full meaning of one OKX `recv_step` call, with the same shape.
pub open spec fn okx_recv_transition(
    pre: OkxClient,
    post: OkxClient,
    frame: WsFrame,
    now_ms: i64,
    r: RecvStep,
) -> bool {
    &&& post.ws_url == pre.ws_url
    &&& post.symbols == pre.symbols
    &&& post.exchange_type == pre.exchange_type
    &&& match frame {
        WsFrame::Close | WsFrame::Ended | WsFrame::Fault(_) => !post.connected,
        _ => post.connected == pre.connected,
    }
    &&& match frame {
        WsFrame::Text(t) => match spec_json_parse(t@) {
            None => r is Skip,
            Some(v) => match r {
                RecvStep::Event(e) => okx_frame_parse_ok(v, pre.exchange_type, now_ms, Some(e)),
                RecvStep::Skip => okx_frame_parse_ok(v, pre.exchange_type, now_ms, None),
                _ => false,
            },
        },
        WsFrame::Binary(_) => r is Skip,
        WsFrame::Ping(p) => r matches RecvStep::SendPong(q) && q == p,
        WsFrame::Pong(_) => r is Continue,
        WsFrame::Close => r is Ended,
        WsFrame::Ended => r is Ended,
        WsFrame::Fault(m) => r matches RecvStep::Fault(GatewayError::Transport(mm)) && mm == m,
    }
}

impl BinanceClient {
    /// Digest one transport frame and decide what it means.
    pub fn recv_step(&mut self, frame: WsFrame, now_ms: i64) -> (r: RecvStep)
        ensures
            binance_recv_transition(*old(self), *final(self), frame, now_ms, r),
    {
        match frame {
            WsFrame::Text(t) => match self.parse_message(t.as_str(), now_ms) {
                Some(e) => RecvStep::Event(e),
                None => RecvStep::Skip,
            },
            WsFrame::Binary(_) => RecvStep::Skip,
            WsFrame::Ping(p) => RecvStep::SendPong(p),
            WsFrame::Pong(_) => RecvStep::Continue,
            WsFrame::Close => {
                self.connected = false;
                RecvStep::Ended
            },
            WsFrame::Ended => {
                self.connected = false;
                RecvStep::Ended
            },
            WsFrame::Fault(m) => {
                self.connected = false;
                RecvStep::Fault(GatewayError::Transport(m))
            },
        }
    }
}

impl OkxClient {
    /// Digest one transport frame and decide what it means.
    pub fn recv_step(&mut self, frame: WsFrame, now_ms: i64) -> (r: RecvStep)
        ensures
            okx_recv_transition(*old(self), *final(self), frame, now_ms, r),
    {
        match frame {
            WsFrame::Text(t) => match self.parse_message(t.as_str(), now_ms) {
                Some(e) => RecvStep::Event(e),
                None => RecvStep::Skip,
            },
            WsFrame::Binary(_) => RecvStep::Skip,
            WsFrame::Ping(p) => RecvStep::SendPong(p),
            WsFrame::Pong(_) => RecvStep::Continue,
            WsFrame::Close => {
                self.connected = false;
                RecvStep::Ended
            },
            WsFrame::Ended => {
                self.connected = false;
                RecvStep::Ended
            },
            WsFrame::Fault(m) => {
                self.connected = false;
                RecvStep::Fault(GatewayError::Transport(m))
            },
        }
    }
}

/// Malformed frames are soft failures: a text frame that is no JSON
/// document, or on which frame parsing yields nothing — an unknown or
/// missing event type, or a required field absent or ill-typed — yields
/// no event and no error, and leaves the connection state exactly as it
/// was.
pub proof fn lemma_soft_failure_binance(
    pre: BinanceClient,
    post: BinanceClient,
    frame: WsFrame,
    now_ms: i64,
    r: RecvStep,
)
    requires
        binance_recv_transition(pre, post, frame, now_ms, r),
        frame is Text,
        ({
            let t = frame->Text_0;
            match spec_json_parse(t@) {
                None => true,
                Some(v) => binance_frame_parse_ok(v, pre.exchange_type, now_ms, None),
            }
        }),
    ensures
        r is Skip,
        post.connected == pre.connected,
{
    let t = frame->Text_0;
    match spec_json_parse(t@) {
        None => {},
        Some(v) => {
            match r {
                RecvStep::Event(e) => {
                    assert(binance_frame_parse_ok(v, pre.exchange_type, now_ms, Some(e)));
                    assert(false);
                },
                RecvStep::Skip => {},
                _ => {
                    assert(false);
                },
            }
        },
    }
}

/// Malformed frames are soft failures for the OKX adapter too: a text
/// frame that is no JSON document, or on which frame parsing yields
/// nothing — a subscription acknowledgment, a frame without its `arg`
/// envelope, one naming an unknown channel, or one missing a required
/// field — yields no event and no error, and leaves the connection
/// state exactly as it was.
pub proof fn lemma_soft_failure_okx(
    pre: OkxClient,
    post: OkxClient,
    frame: WsFrame,
    now_ms: i64,
    r: RecvStep,
)
    requires
        okx_recv_transition(pre, post, frame, now_ms, r),
        frame is Text,
        ({
            let t = frame->Text_0;
            match spec_json_parse(t@) {
                None => true,
                Some(v) => okx_frame_parse_ok(v, pre.exchange_type, now_ms, None),
            }
        }),
    ensures
        r is Skip,
        post.connected == pre.connected,
{
    let t = frame->Text_0;
    match spec_json_parse(t@) {
        None => {},
        Some(v) => {
            match r {
                RecvStep::Event(e) => {
                    assert(okx_frame_parse_ok(v, pre.exchange_type, now_ms, Some(e)));
                    assert(false);
                },
                RecvStep::Skip => {},
                _ => {
                    assert(false);
                },
            }
        },
    }
}

} // verus!
