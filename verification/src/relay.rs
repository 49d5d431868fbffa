//! Forwarding between a WebSocket and a byte stream (TCP or stdio), as
//! decisions on each event.

use vstd::prelude::*;
use crate::error::{Error, ErrorView};

verus! {

broadcast use vstd::string::group_string_axioms;

/// A WebSocket message, as the relay sees it.
#[derive(Clone, Debug)]
pub enum WsMessage {
    Text(String),
    Binary(Vec<u8>),
    Ping(Vec<u8>),
    Pong(Vec<u8>),
    Close,
    Frame,
}

/// What reading the WebSocket gave.
#[derive(Clone, Debug)]
pub enum WsEvent {
    /// A message arrived.
    Message(WsMessage),
    /// Reading failed, with this message.
    Failed(String),
    /// The stream has ended.
    Ended,
}

/// What to do with a WebSocket event on the way to the byte stream.
#[derive(Clone, Debug)]
pub enum WsStep {
    /// Write these bytes to the stream.
    Write(Vec<u8>),
    /// Nothing to forward.
    Skip,
    /// This direction is finished.
    Finish,
    /// This direction fails with this error.
    Fail(Error),
}

/// Forwards WebSocket → stream: binary data and the UTF-8 bytes of text are
/// written, a close or the end of the stream finishes, ping, pong and raw
/// frames are skipped, and a read error fails as a WebSocket error.
pub fn ws_to_stream(event: WsEvent) -> (r: WsStep)
    ensures
        match event {
            WsEvent::Ended => r is Finish,
            WsEvent::Failed(m) => r matches WsStep::Fail(e) && e@ == ErrorView::WebSocket(m@),
            WsEvent::Message(WsMessage::Binary(d)) => r matches WsStep::Write(b) && b@ == d@,
            WsEvent::Message(WsMessage::Text(t)) => r matches WsStep::Write(b) && b@ == vstd::utf8::encode_utf8(t@),
            WsEvent::Message(WsMessage::Close) => r is Finish,
            WsEvent::Message(_) => r is Skip,
        },
{
    match event {
        WsEvent::Ended => WsStep::Finish,
        WsEvent::Failed(m) => WsStep::Fail(Error::websocket(m.as_str())),
        WsEvent::Message(WsMessage::Binary(d)) => WsStep::Write(d),
        WsEvent::Message(WsMessage::Text(t)) => {
            let b = vstd::slice::slice_to_vec(t.as_str().as_bytes());
            WsStep::Write(b)
        },
        WsEvent::Message(WsMessage::Close) => WsStep::Finish,
        WsEvent::Message(_) => WsStep::Skip,
    }
}

/// What to do with a read from the byte stream on the way to the WebSocket.
#[derive(Clone, Debug)]
pub enum StreamStep {
    /// Send these bytes as a binary message.
    Send(Vec<u8>),
    /// Send a close message, then finish.
    CloseAndFinish,
    /// This direction is finished.
    Finish,
}

/// Forwards stream → WebSocket: a read of `n > 0` bytes into `buf` is sent
/// as one binary message; end of stream (`n == 0`) finishes, first sending
/// a close message when `close_on_end` (the stdio tunnel does).
pub fn stream_to_ws(buf: &[u8], n: usize, close_on_end: bool) -> (r: StreamStep)
    requires
        n <= buf@.len(),
    ensures
        n == 0 && close_on_end ==> r is CloseAndFinish,
        n == 0 && !close_on_end ==> r is Finish,
        n > 0 ==> (r matches StreamStep::Send(d) && d@ == buf@.take(n as int)),
{
    if n == 0 {
        if close_on_end {
            StreamStep::CloseAndFinish
        } else {
            StreamStep::Finish
        }
    } else {
        let mut d: Vec<u8> = Vec::new();
        for i in 0..n
            invariant
                n <= buf@.len(),
                d@ == buf@.take(i as int),
        {
            d.push(buf[i]);
            assert(buf@.take(i + 1) == buf@.take(i as int).push(buf@[i as int]));
        }
        StreamStep::Send(d)
    }
}

} // verus!
