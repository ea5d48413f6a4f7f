use tunneler::dispatch::client_route;
use tunneler::dispatch::close_message;
use tunneler::dispatch::data_message;
use tunneler::dispatch::heartbeat_message;
use tunneler::dispatch::server_route;
use tunneler::dispatch::RouteAction;
use tunneler::generate_key;
use tunneler::transfer::IoOutcome;
use tunneler::transfer::StepVerdict;
use tunneler::transfer::Transfer;
use tunneler::MessageType;

/// The client receiver's routing table, case by case.
#[test]
fn client_routes() {
    assert_eq!(RouteAction::Ignore, client_route(&MessageType::Heartbeat, false));
    assert_eq!(RouteAction::CloseStream, client_route(&MessageType::Close, true));
    assert_eq!(RouteAction::CloseStream, client_route(&MessageType::Close, false));
    assert_eq!(RouteAction::Forward, client_route(&MessageType::Data, true));
    assert_eq!(RouteAction::OpenStream, client_route(&MessageType::Data, false));
    assert_eq!(RouteAction::DrainBody, client_route(&MessageType::Key, true));
    assert_eq!(RouteAction::DrainBody, client_route(&MessageType::Establish, false));
}

/// The server receiver's routing table: unroutable frames are drained, never
/// fatal.
#[test]
fn server_routes() {
    assert_eq!(RouteAction::Ignore, server_route(&MessageType::Heartbeat, false));
    assert_eq!(RouteAction::Forward, server_route(&MessageType::Data, true));
    assert_eq!(RouteAction::DrainBody, server_route(&MessageType::Data, false));
    assert_eq!(RouteAction::CloseStream, server_route(&MessageType::Close, true));
    assert_eq!(RouteAction::DrainBody, server_route(&MessageType::Close, false));
    assert_eq!(RouteAction::DrainBody, server_route(&MessageType::Verify, true));
}

/// The heartbeat frame on the wire: id 0, kind byte 3, length 0.
#[test]
fn heartbeat_frame_shape() {
    let msg = heartbeat_message();
    let bytes = msg.serialize();
    assert_eq!(13, bytes.len());
    assert_eq!(0, bytes[0]);
    assert_eq!(3, bytes[4]);
    assert_eq!(vec![0u8; 8], bytes[5..13].to_vec());
}

/// The close frame for a stream: its id, kind close, no body.
#[test]
fn close_frame_shape() {
    let msg = close_message(9);
    let bytes = msg.serialize();
    assert_eq!(13, bytes.len());
    assert_eq!(9, bytes[0]);
    assert_eq!(1, bytes[4]);
}

/// A data frame wraps only the bytes actually read.
#[test]
fn data_frame_wraps_read_bytes() {
    let buf = vec![5u8; 4092];
    let msg = data_message(3, buf, 2);
    let bytes = msg.serialize();
    assert_eq!(15, bytes.len());
    assert_eq!(3, bytes[0]);
    assert_eq!(2, bytes[4]);
    assert_eq!(vec![5, 5], bytes[13..].to_vec());
}

/// Exact-transfer accounting: progress accumulates, the end of the stream is
/// a reset, a false readiness event is retried, a failure aborts.
#[test]
fn transfer_accounting() {
    let mut t = Transfer::new(10);
    assert_eq!(10, t.remaining());
    assert_eq!(StepVerdict::More, t.step(IoOutcome::Moved(4)));
    assert_eq!(StepVerdict::Retry, t.step(IoOutcome::Interrupted));
    assert_eq!(6, t.remaining());
    assert_eq!(StepVerdict::Done, t.step(IoOutcome::Moved(6)));
    assert_eq!(0, t.remaining());

    let mut reset = Transfer::new(5);
    assert_eq!(StepVerdict::Reset, reset.step(IoOutcome::End));
    assert_eq!(5, reset.remaining());

    let mut failed = Transfer::new(5);
    assert_eq!(StepVerdict::Abort, failed.step(IoOutcome::Failed));
}

/// The generated key is exactly two bytes per round.
#[test]
fn generate_key_length() {
    assert_eq!(128, generate_key(64).len());
    assert_eq!(0, generate_key(0).len());
    assert_eq!(2, generate_key(1).len());
}
