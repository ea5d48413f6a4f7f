use tunneler::Message;
use tunneler::MessageHeader;
use tunneler::MessageType;

#[test]
fn message_type_deserialize_connect() {
    assert_eq!(Some(MessageType::Connect), MessageType::deserialize(0));
}
#[test]
fn message_type_deserialize_close() {
    assert_eq!(Some(MessageType::Close), MessageType::deserialize(1));
}
#[test]
fn message_type_deserialize_data() {
    assert_eq!(Some(MessageType::Data), MessageType::deserialize(2));
}
#[test]
fn message_type_deserialize_heartbeat() {
    assert_eq!(Some(MessageType::Heartbeat), MessageType::deserialize(3));
}
#[test]
fn message_type_deserialize_establish() {
    assert_eq!(Some(MessageType::Establish), MessageType::deserialize(4));
}
#[test]
fn message_type_deserialize_key() {
    assert_eq!(Some(MessageType::Key), MessageType::deserialize(5));
}
#[test]
fn message_type_deserialize_verify() {
    assert_eq!(Some(MessageType::Verify), MessageType::deserialize(6));
}
#[test]
fn message_type_deserialize_acknowledge() {
    assert_eq!(Some(MessageType::Acknowledge), MessageType::deserialize(7));
}
#[test]
fn message_type_deserialize_invalid() {
    assert_eq!(None, MessageType::deserialize(123));
}

#[test]
fn message_type_serialize_connect() {
    assert_eq!(0, MessageType::Connect.serialize());
}
#[test]
fn message_type_serialize_close() {
    assert_eq!(1, MessageType::Close.serialize());
}
#[test]
fn message_type_serialize_data() {
    assert_eq!(2, MessageType::Data.serialize());
}
#[test]
fn message_type_serialize_heartbeat() {
    assert_eq!(3, MessageType::Heartbeat.serialize());
}
#[test]
fn message_type_serialize_establish() {
    assert_eq!(4, MessageType::Establish.serialize());
}
#[test]
fn message_type_serialize_key() {
    assert_eq!(5, MessageType::Key.serialize());
}
#[test]
fn message_type_serialize_verify() {
    assert_eq!(6, MessageType::Verify.serialize());
}
#[test]
fn message_type_serialize_acknowledge() {
    assert_eq!(7, MessageType::Acknowledge.serialize());
}

/// Every byte outside the kind table is invalid.
#[test]
fn message_type_deserialize_all_unknown_bytes() {
    for b in 8..=255u8 {
        assert_eq!(None, MessageType::deserialize(b));
    }
}

/// Every kind decodes back from its own byte.
#[test]
fn message_type_round_trip_all_kinds() {
    let kinds = vec![
        MessageType::Connect,
        MessageType::Close,
        MessageType::Data,
        MessageType::Heartbeat,
        MessageType::Establish,
        MessageType::Key,
        MessageType::Verify,
        MessageType::Acknowledge,
    ];
    for kind in kinds {
        assert_eq!(Some(kind.clone()), MessageType::deserialize(kind.serialize()));
    }
}

#[test]
fn message_header_deserialize_connect() {
    let mut input = [0; 13];
    input[0] = 13;
    input[4] = 0;
    input[5] = 20;
    assert_eq!(
        Some(MessageHeader::new(13, MessageType::Connect, 20)),
        MessageHeader::deserialize(input)
    );
}

/// A header always comes back from its own bytes.
#[test]
fn message_header_round_trip() {
    let header = MessageHeader::new(0xDEADBEEF, MessageType::Verify, 0x0102030405060708);
    let bytes = header.serialize();
    assert_eq!(Some(header), MessageHeader::deserialize(bytes));
}

/// The serialized header is little-endian in both numeric fields.
#[test]
fn message_header_serialize_layout() {
    let header = MessageHeader::new(0x01020304, MessageType::Data, 0x1122334455667788);
    let bytes = header.serialize();
    assert_eq!(
        [0x04, 0x03, 0x02, 0x01, 2, 0x88, 0x77, 0x66, 0x55, 0x44, 0x33, 0x22, 0x11],
        bytes
    );
}

/// An invalid kind byte fails the whole header.
#[test]
fn message_header_deserialize_unknown_kind() {
    let mut input = [0; 13];
    input[4] = 99;
    assert_eq!(None, MessageHeader::deserialize(input));
}

#[test]
fn message_serialize_connect() {
    let mut inner_data = vec![0; 4092];
    inner_data[0] = 1;
    inner_data[1] = 1;
    let output = Message::new(MessageHeader::new(13, MessageType::Connect, 2), inner_data)
        .serialize();

    let mut expected = vec![0; 15];
    expected[0] = 13;
    expected[5] = 2;
    expected[13] = 1;
    expected[14] = 1;
    assert_eq!(expected, output);
}

#[test]
fn message_serialize_data() {
    let mut inner_data = vec![0; 4092];
    inner_data[2] = 33;
    let msg = Message::new(MessageHeader::new(13, MessageType::Data, 12), inner_data);
    let output = msg.serialize();

    let mut expected = vec![0; 25];
    expected[0] = 13;
    expected[4] = 2;
    expected[5] = 12;
    expected[15] = 33;
    assert_eq!(expected, output);
}

/// Exact framing: the serialized message is 13 bytes plus the header's
/// length, and opens with the serialized header.
#[test]
fn message_serialize_exact_framing() {
    let data = vec![7, 8, 9, 10, 11];
    let header = MessageHeader::new(42, MessageType::Data, 3);
    let msg = Message::new(header, data);
    let bytes = msg.serialize();
    assert_eq!(13 + 3, bytes.len());
    assert_eq!(msg.get_header().serialize().to_vec(), bytes[0..13].to_vec());
    assert_eq!(vec![7, 8, 9], bytes[13..].to_vec());
}

/// An empty body is a bare header on the wire.
#[test]
fn message_serialize_empty_body() {
    let msg = Message::new(MessageHeader::new(1, MessageType::Heartbeat, 0), Vec::new());
    let bytes = msg.serialize();
    assert_eq!(13, bytes.len());
}
