//! The routing decisions of the receiver loops, and the builders for the
//! control frames the dispatchers emit.
//!
//! A receiver loop reads a 13-byte header, asks one of the route functions
//! here what to do, performs the corresponding I/O, and loops. No frame-level
//! decision is fatal to the link: every unknown or unroutable frame resolves
//! to draining its body so that the stream stays in sync.

use crate::message::Message;
use crate::message::MessageHeader;
use crate::message::MessageType;
use vstd::prelude::*;

verus! {

/// What a receiver loop does with a frame, given its kind and whether a
/// writer for the frame's stream-id is installed.
#[derive(Clone, Debug, PartialEq, Eq, Structural)]
pub enum RouteAction {
    /// A control frame that needs no further work; nothing follows it.
    Ignore,
    /// Remove the stream's writer, which tears the stream down.
    CloseStream,
    /// Deliver the body to the stream's installed writer.
    Forward,
    /// No writer yet: open a new stream for this id, then deliver the body.
    OpenStream,
    /// Discard exactly the body's bytes so the link stays framed.
    DrainBody,
}

/// The client receiver's decision for one frame (control link from the
/// server): heartbeats are ignored, a close tears the stream down, data goes
/// to the stream's writer or opens a new outbound stream, and every other
/// kind has its body drained.
pub open spec fn spec_client_route(kind: MessageType, writer_present: bool) -> RouteAction {
    match kind {
        MessageType::Heartbeat => RouteAction::Ignore,
        MessageType::Close => RouteAction::CloseStream,
        MessageType::Data => if writer_present {
            RouteAction::Forward
        } else {
            RouteAction::OpenStream
        },
        _ => RouteAction::DrainBody,
    }
}

/// The server receiver's decision for one frame (control link from a
/// client): heartbeats are ignored, data and close frames go to the stream's
/// writer when one exists, and everything unroutable has its body drained.
pub open spec fn spec_server_route(kind: MessageType, writer_present: bool) -> RouteAction {
    match kind {
        MessageType::Heartbeat => RouteAction::Ignore,
        MessageType::Close => if writer_present {
            RouteAction::CloseStream
        } else {
            RouteAction::DrainBody
        },
        MessageType::Data => if writer_present {
            RouteAction::Forward
        } else {
            RouteAction::DrainBody
        },
        _ => RouteAction::DrainBody,
    }
}

/// Decides how the client side handles a frame read from the server.
pub fn client_route(kind: &MessageType, writer_present: bool) -> (r: RouteAction)
    ensures
        r == spec_client_route(*kind, writer_present),
{
    match *kind {
        MessageType::Heartbeat => RouteAction::Ignore,
        MessageType::Close => RouteAction::CloseStream,
        MessageType::Data => if writer_present {
            RouteAction::Forward
        } else {
            RouteAction::OpenStream
        },
        _ => RouteAction::DrainBody,
    }
}

/// Decides how the server side handles a frame read from a client.
pub fn server_route(kind: &MessageType, writer_present: bool) -> (r: RouteAction)
    ensures
        r == spec_server_route(*kind, writer_present),
{
    match *kind {
        MessageType::Heartbeat => RouteAction::Ignore,
        MessageType::Close => if writer_present {
            RouteAction::CloseStream
        } else {
            RouteAction::DrainBody
        },
        MessageType::Data => if writer_present {
            RouteAction::Forward
        } else {
            RouteAction::DrainBody
        },
        _ => RouteAction::DrainBody,
    }
}

/// The heartbeat frame: stream 0, no body. The client enqueues one of these
/// every heartbeat interval to keep the link demonstrably alive.
pub fn heartbeat_message() -> (r: Message)
    ensures
        r.spec_header() == (MessageHeader { id: 0, kind: MessageType::Heartbeat, length: 0 }),
        r.spec_data().len() == 0,
{
    let header = MessageHeader::new(0, MessageType::Heartbeat, 0);
    Message::new(header, Vec::new())
}

/// The close frame for a stream: no body. Emitted when a user or target
/// socket reaches end of input, so the peer tears the stream down too.
pub fn close_message(id: u32) -> (r: Message)
    ensures
        r.spec_header() == (MessageHeader { id, kind: MessageType::Close, length: 0 }),
        r.spec_data().len() == 0,
{
    let header = MessageHeader::new(id, MessageType::Close, 0);
    Message::new(header, Vec::new())
}

/// Wraps `n` bytes just read from a socket (into the possibly longer buffer
/// `payload`) as a data frame for stream `id`. Only the first `n` bytes are
/// ever put on the wire.
pub fn data_message(id: u32, payload: Vec<u8>, n: usize) -> (r: Message)
    requires
        n <= payload@.len(),
    ensures
        r.spec_header() == (MessageHeader { id, kind: MessageType::Data, length: n as u64 }),
        r.spec_data() == payload@,
        r.spec_header().length <= r.spec_data().len(),
{
    let header = MessageHeader::new(id, MessageType::Data, n as u64);
    Message::new(header, payload)
}

} // verus!
