//! What a WebSocket connection does with each thing that happens on it.
use vstd::prelude::*;
use crate::frame::{inbound_view, spec_classify, FrameError, InboundFrame, InboundView};

verus! {

/// Something received from the client.
#[derive(Clone, Copy, Debug, PartialEq, Eq, Structural)]
pub enum Inbound {
    /// A binary message: a frame.
    Binary,
    /// A text message.
    Text,
    /// A control message other than close (ping, pong).
    Other,
    /// The client closed the connection.
    Close,
    /// Receiving failed.
    ReceiveError,
    /// No more messages will arrive.
    Ended,
}

/// Something from the video feed a connection subscribes to.
#[derive(Clone, Copy, Debug, PartialEq, Eq, Structural)]
pub enum VideoFeed {
    /// A framed packet is ready to be sent.
    Packet,
    /// The client fell behind and this many packets were dropped.
    Lagged(u64),
    /// The feed closed.
    Closed,
}

/// What the connection does next.
#[derive(Clone, Copy, Debug, PartialEq, Eq, Structural)]
pub enum SocketAction {
    /// Read the frame as input and apply it.
    HandleFrame,
    /// Send the packet to the client.
    SendPacket,
    /// Send the pong back to the client at once.
    SendPong,
    /// Nothing; wait for the next event.
    Ignore,
    /// End the connection.
    Disconnect,
}

/// The action for something received from the client.
pub open spec fn spec_on_inbound(ev: Inbound) -> SocketAction {
    match ev {
        Inbound::Binary => SocketAction::HandleFrame,
        Inbound::Text | Inbound::Other => SocketAction::Ignore,
        Inbound::Close | Inbound::ReceiveError | Inbound::Ended => SocketAction::Disconnect,
    }
}

/// Decides what to do with something received from the client: binary
/// frames are handled, text and control messages are ignored, and a close,
/// an error or the end of the stream ends the connection.
pub fn on_inbound(ev: Inbound) -> (a: SocketAction)
    ensures
        a == spec_on_inbound(ev),
{
    match ev {
        Inbound::Binary => SocketAction::HandleFrame,
        Inbound::Text | Inbound::Other => SocketAction::Ignore,
        Inbound::Close | Inbound::ReceiveError | Inbound::Ended => SocketAction::Disconnect,
    }
}

/// Decides what to do with something from the video feed: packets are
/// sent, and a client that lags is dropped, as when the feed closes.
pub fn on_video(ev: VideoFeed) -> (a: SocketAction)
    ensures
        a == (match ev {
            VideoFeed::Packet => SocketAction::SendPacket,
            _ => SocketAction::Disconnect,
        }),
{
    match ev {
        VideoFeed::Packet => SocketAction::SendPacket,
        VideoFeed::Lagged(_) => SocketAction::Disconnect,
        VideoFeed::Closed => SocketAction::Disconnect,
    }
}

/// The action for a received frame, once read.
pub open spec fn spec_on_frame(v: InboundView) -> SocketAction {
    match v {
        InboundView::Ping(_) => SocketAction::SendPong,
        InboundView::Input(_, _) => SocketAction::HandleFrame,
        InboundView::Ignored(_) => SocketAction::Ignore,
        InboundView::TooShort(_) => SocketAction::Ignore,
    }
}

/// Decides what to do with a received frame: a ping is answered at once,
/// before any input is parsed; an input frame is applied; other frames are
/// left alone, and a frame too short to read is reported and skipped.
pub fn on_frame(frame: &Result<InboundFrame, FrameError>) -> (a: SocketAction)
    ensures
        a == spec_on_frame(inbound_view(*frame)),
{
    match frame {
        Ok(InboundFrame::Ping { .. }) => SocketAction::SendPong,
        Ok(InboundFrame::Input { .. }) => SocketAction::HandleFrame,
        Ok(InboundFrame::Ignored { .. }) => SocketAction::Ignore,
        Err(FrameError::TooShort { .. }) => SocketAction::Ignore,
    }
}

/// Law: a frame, however malformed, never ends the connection; a bad
/// frame is reported and the next one is read.
pub proof fn lemma_frames_keep_connection(ev: Inbound)
    ensures
        spec_on_inbound(ev) == SocketAction::Disconnect <==> (ev == Inbound::Close || ev
            == Inbound::ReceiveError || ev == Inbound::Ended),
        forall|v: InboundView| spec_on_frame(v) != SocketAction::Disconnect,
{
}

/// Law: only binary messages are read as frames, and text and control
/// messages are ignored.
pub proof fn lemma_inbound_actions(ev: Inbound)
    ensures
        spec_on_inbound(ev) == SocketAction::HandleFrame <==> ev == Inbound::Binary,
        spec_on_inbound(ev) == SocketAction::Ignore <==> (ev == Inbound::Text || ev == Inbound::Other),
{
}

/// Law: a received frame is answered with a pong exactly when its first
/// byte is the ping type 0x04, and applied as input exactly when it has a
/// whole header and its first byte is the input type 0x03; anything else
/// is left alone.
pub proof fn lemma_frame_actions(bytes: Seq<u8>)
    ensures
        spec_on_frame(spec_classify(bytes)) == SocketAction::SendPong <==> (bytes.len() >= 1
            && bytes[0] == 4),
        spec_on_frame(spec_classify(bytes)) == SocketAction::HandleFrame <==> (bytes.len() >= 2
            && bytes[0] == 3),
        spec_on_frame(spec_classify(bytes)) == SocketAction::Ignore <==> !((bytes.len() >= 1
            && bytes[0] == 4) || (bytes.len() >= 2 && bytes[0] == 3)),
{
}

} // verus!
