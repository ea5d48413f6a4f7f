use tunneler::handshake::modulus_large_enough;
use tunneler::handshake::split_key_payload;
use tunneler::ClientHandshake;
use tunneler::Message;
use tunneler::MessageHeader;
use tunneler::MessageType;
use tunneler::ServerHandshake;

// A fixed, well-formed public key for the client-side tests: a 256-byte
// modulus with every bit set (so 2048 significant bits) and the common
// exponent 65537, little-endian. Encryption under it is fast and
// deterministic in time, unlike generating a fresh keypair, which can
// overrun a test's time budget.
fn fixed_key_frame() -> Message {
    let mut body = vec![0xFFu8; 256];
    body.extend_from_slice(&[1, 0, 1]);
    let header = MessageHeader::new(0, MessageType::Key, body.len() as u64);
    Message::new(header, body)
}

// Drives a fresh server handshake to the point where it awaits the
// encrypted secret, without generating a keypair.
fn server_awaiting_verify(secret: &[u8]) -> ServerHandshake {
    let mut server = ServerHandshake::new(secret.to_vec());
    let n = vec![0xFFu8; 256];
    let e = vec![1, 0, 1];
    let _key_msg = server.key_message(&n, &e);
    server
}

/// The whole decision flow with the right secret: the client answers the key
/// frame with a `Verify` frame, the matching secret is acknowledged, and the
/// client treats the acknowledgement as success.
#[test]
fn handshake_good_key() {
    let secret = b"a shared secret".to_vec();

    let mut client = ClientHandshake::new(secret.clone());
    let key_msg = fixed_key_frame();
    let verify_msg = client
        .on_key_frame(key_msg.get_header(), &key_msg.get_data().to_vec())
        .expect("encryption under the fixed key");
    assert_eq!(&MessageType::Verify, verify_msg.get_header().get_kind());
    assert_eq!(0, verify_msg.get_header().get_id());
    assert_eq!(
        verify_msg.get_data().len() as u64,
        verify_msg.get_header().get_length()
    );

    let mut server = server_awaiting_verify(&secret);
    let ack = server
        .verify(Some(secret))
        .expect("matching secret acknowledged");
    assert_eq!(&MessageType::Acknowledge, ack.get_header().get_kind());
    assert_eq!(0, ack.get_header().get_id());
    assert_eq!(0, ack.get_header().get_length());

    assert!(client.on_answer(ack.get_header()));
}

/// A wrong secret is never acknowledged: the server refuses and sends
/// nothing.
#[test]
fn handshake_bad_key() {
    let mut server = server_awaiting_verify(b"the real secret");
    assert!(server.verify(Some(b"something else".to_vec())).is_none());
}

/// The decision refuses a near miss: one byte of difference is enough.
#[test]
fn handshake_verify_decision_near_miss() {
    let mut server = server_awaiting_verify(b"k");
    assert!(server.verify(Some(b"K".to_vec())).is_none());
}

/// A ciphertext that does not decrypt yields no secret to present, and that
/// too is refused.
#[test]
fn handshake_rejects_undecryptable() {
    let mut server = server_awaiting_verify(b"secret");
    assert!(server.verify(None).is_none());
}

/// The key frame the server sends has the wire shape the client splits.
#[test]
fn handshake_server_key_message_shape() {
    let mut server = ServerHandshake::new(b"s".to_vec());
    let n = vec![0xFFu8; 256];
    let e = vec![1, 0, 1];
    let key_msg = server.key_message(&n, &e);
    assert_eq!(&MessageType::Key, key_msg.get_header().get_kind());
    assert_eq!(0, key_msg.get_header().get_id());
    assert_eq!(259, key_msg.get_header().get_length());
    let (n_back, e_back) = split_key_payload(&key_msg.get_data().to_vec()).unwrap();
    assert_eq!(n, n_back);
    assert_eq!(e, e_back);
}

/// The client aborts on a first frame that is not a key frame.
#[test]
fn handshake_client_rejects_wrong_kind() {
    let mut client = ClientHandshake::new(b"s".to_vec());
    let header = MessageHeader::new(0, MessageType::Data, 300);
    let body = vec![0u8; 300];
    assert!(client.on_key_frame(&header, &body).is_none());
}

/// The client aborts on a key payload too short to carry the modulus.
#[test]
fn handshake_client_rejects_short_payload() {
    let mut client = ClientHandshake::new(b"s".to_vec());
    let header = MessageHeader::new(0, MessageType::Key, 10);
    let body = vec![0u8; 10];
    assert!(client.on_key_frame(&header, &body).is_none());
}

/// A key frame whose modulus is too small to pad even an empty message is
/// refused before the cipher ever sees it.
#[test]
fn handshake_client_rejects_tiny_modulus() {
    let mut client = ClientHandshake::new(b"s".to_vec());
    let mut body = vec![0u8; 256];
    body.extend_from_slice(&[1, 0, 1]);
    let header = MessageHeader::new(0, MessageType::Key, body.len() as u64);
    assert!(client.on_key_frame(&header, &body).is_none());
}

/// A modulus at the size floor passes the guard but cannot hold the secret;
/// the cipher reports the message as too long and the handshake fails
/// cleanly.
#[test]
fn handshake_client_rejects_cramped_modulus() {
    let mut client = ClientHandshake::new(b"some secret".to_vec());
    let mut body = vec![0u8; 256];
    body[10] = 1;
    body.extend_from_slice(&[1, 0, 1]);
    let header = MessageHeader::new(0, MessageType::Key, body.len() as u64);
    assert!(client.on_key_frame(&header, &body).is_none());
}

/// The modulus size floor itself: nonzero at byte 10 passes, anything
/// shorter does not.
#[test]
fn modulus_size_floor() {
    let mut n = vec![0u8; 256];
    assert!(!modulus_large_enough(&n));
    n[9] = 1;
    assert!(!modulus_large_enough(&n));
    n[10] = 1;
    assert!(modulus_large_enough(&n));
}

/// The payload layout: 256 bytes of modulus, the rest exponent.
#[test]
fn key_payload_split() {
    let mut payload = vec![7u8; 256];
    payload.extend_from_slice(&[1, 0, 1]);
    let (n, e) = split_key_payload(&payload).unwrap();
    assert_eq!(256, n.len());
    assert_eq!(vec![1, 0, 1], e);

    assert!(split_key_payload(&vec![0u8; 255]).is_none());
}

/// The client treats anything but an acknowledge answer as failure.
#[test]
fn handshake_client_rejects_wrong_answer() {
    let mut client = ClientHandshake::new(b"s".to_vec());
    let key_msg = fixed_key_frame();
    let _verify = client
        .on_key_frame(key_msg.get_header(), &key_msg.get_data().to_vec())
        .expect("encryption under the fixed key");

    let wrong = MessageHeader::new(0, MessageType::Close, 0);
    assert!(!client.on_answer(&wrong));
}
