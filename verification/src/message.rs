//! The frame codec: a fixed 13-byte header (`id` as little-endian u32, one
//! `kind` byte, `length` as little-endian u64) followed by `length` bytes of
//! body.

use vstd::bytes::lemma_auto_spec_u32_to_from_le_bytes;
use vstd::bytes::lemma_auto_spec_u64_to_from_le_bytes;
use vstd::bytes::spec_u32_from_le_bytes;
use vstd::bytes::spec_u32_to_le_bytes;
use vstd::bytes::spec_u64_from_le_bytes;
use vstd::bytes::spec_u64_to_le_bytes;
use vstd::bytes::u32_from_le_bytes;
use vstd::bytes::u32_to_le_bytes;
use vstd::bytes::u64_from_le_bytes;
use vstd::bytes::u64_to_le_bytes;
use vstd::prelude::*;
use vstd::slice::slice_index_get;
use vstd::slice::slice_subrange;

verus! {

/// Appends every byte of `src` to `dst`, in order.
pub(crate) fn push_bytes(dst: &mut Vec<u8>, src: &[u8])
    ensures
        final(dst)@ == old(dst)@ + src@,
{
    let n = src.len();
    let mut i: usize = 0;
    while i < n
        invariant
            n == src@.len(),
            i <= n,
            dst@ == old(dst)@ + src@.take(i as int),
        decreases n - i,
    {
        let b = *slice_index_get(src, i);
        dst.push(b);
        i = i + 1;
        proof {
            assert(src@.take(i as int) =~= src@.take(i - 1).push(src@[i - 1]));
        }
    }
    proof {
        assert(src@.take(n as int) =~= src@);
    }
}

/// The kind of a frame, carried as a single byte on the wire.
#[derive(Clone, Debug, PartialEq, Eq, Structural)]
pub enum MessageType {
    Connect,
    Close,
    Data,
    Heartbeat,
    Establish,
    Key,
    Verify,
    Acknowledge,
}

/// The byte a kind is encoded as.
pub open spec fn kind_byte(kind: MessageType) -> u8 {
    match kind {
        MessageType::Connect => 0,
        MessageType::Close => 1,
        MessageType::Data => 2,
        MessageType::Heartbeat => 3,
        MessageType::Establish => 4,
        MessageType::Key => 5,
        MessageType::Verify => 6,
        MessageType::Acknowledge => 7,
    }
}

/// The kind a byte decodes to; every byte above 7 is invalid.
pub open spec fn kind_of_byte(b: u8) -> Option<MessageType> {
    if b == 0 {
        Some(MessageType::Connect)
    } else if b == 1 {
        Some(MessageType::Close)
    } else if b == 2 {
        Some(MessageType::Data)
    } else if b == 3 {
        Some(MessageType::Heartbeat)
    } else if b == 4 {
        Some(MessageType::Establish)
    } else if b == 5 {
        Some(MessageType::Key)
    } else if b == 6 {
        Some(MessageType::Verify)
    } else if b == 7 {
        Some(MessageType::Acknowledge)
    } else {
        None
    }
}

impl MessageType {
    /// Decodes a kind byte; returns `None` exactly on the bytes outside the
    /// table, so an unknown kind can never be mistaken for a known one.
    pub fn deserialize(data: u8) -> (r: Option<MessageType>)
        ensures
            r == kind_of_byte(data),
    {
        match data {
            0 => Some(MessageType::Connect),
            1 => Some(MessageType::Close),
            2 => Some(MessageType::Data),
            3 => Some(MessageType::Heartbeat),
            4 => Some(MessageType::Establish),
            5 => Some(MessageType::Key),
            6 => Some(MessageType::Verify),
            7 => Some(MessageType::Acknowledge),
            _ => None,
        }
    }

    /// Encodes the kind as its wire byte.
    pub fn serialize(&self) -> (r: u8)
        ensures
            r == kind_byte(*self),
    {
        match *self {
            MessageType::Connect => 0,
            MessageType::Close => 1,
            MessageType::Data => 2,
            MessageType::Heartbeat => 3,
            MessageType::Establish => 4,
            MessageType::Key => 5,
            MessageType::Verify => 6,
            MessageType::Acknowledge => 7,
        }
    }
}

/// Decoding inverts encoding: a kind always comes back from its own byte.
pub proof fn lemma_kind_round_trip(kind: MessageType)
    ensures
        kind_of_byte(kind_byte(kind)) == Some(kind),
{
}

/// Every byte outside the table is invalid: no kind decodes from it.
pub proof fn lemma_unknown_kind_invalid(b: u8)
    requires
        b > 7,
    ensures
        kind_of_byte(b) is None,
{
}

/// The fixed-size frame header.
#[derive(Clone, Debug, PartialEq, Eq, Structural)]
pub struct MessageHeader {
    /// The stream this frame belongs to; 0 is reserved for control frames.
    pub id: u32,
    /// What the frame means.
    pub kind: MessageType,
    /// How many body bytes follow the header.
    pub length: u64,
}

/// The 13 bytes a header serializes to: `id` little-endian, the kind byte,
/// `length` little-endian.
pub open spec fn spec_serialize_header(h: MessageHeader) -> Seq<u8> {
    spec_u32_to_le_bytes(h.id) + seq![kind_byte(h.kind)] + spec_u64_to_le_bytes(h.length)
}

/// The header 13 bytes decode to, or `None` iff the kind byte is invalid.
pub open spec fn spec_deserialize_header(b: Seq<u8>) -> Option<MessageHeader>
    recommends
        b.len() == 13,
{
    match kind_of_byte(b[4]) {
        Some(kind) => Some(
            MessageHeader {
                id: spec_u32_from_le_bytes(b.subrange(0, 4)),
                kind,
                length: spec_u64_from_le_bytes(b.subrange(5, 13)),
            },
        ),
        None => None,
    }
}

impl MessageHeader {
    pub fn new(id: u32, kind: MessageType, length: u64) -> (r: MessageHeader)
        ensures
            r == (MessageHeader { id, kind, length }),
    {
        MessageHeader { id, kind, length }
    }

    /// Decodes 13 raw bytes; fails exactly when the kind byte is not in the
    /// table, and otherwise recovers every field.
    pub fn deserialize(raw_data: [u8; 13]) -> (r: Option<MessageHeader>)
        ensures
            r == spec_deserialize_header(raw_data@),
    {
        let s = raw_data.as_slice();
        let id = u32_from_le_bytes(slice_subrange(s, 0, 4));
        let kind_part = raw_data[4];
        let length = u64_from_le_bytes(slice_subrange(s, 5, 13));

        match MessageType::deserialize(kind_part) {
            Some(kind) => Some(MessageHeader { id, kind, length }),
            None => None,
        }
    }

    /// Encodes the header as its 13 wire bytes, independent of machine
    /// endianness.
    pub fn serialize(&self) -> (r: [u8; 13])
        ensures
            r@ == spec_serialize_header(*self),
    {
        let id = u32_to_le_bytes(self.id);
        let kind = self.kind.serialize();
        let length = u64_to_le_bytes(self.length);

        let output: [u8; 13] = [
            id[0],
            id[1],
            id[2],
            id[3],
            kind,
            length[0],
            length[1],
            length[2],
            length[3],
            length[4],
            length[5],
            length[6],
            length[7],
        ];

        proof {
            assert(output@ =~= spec_serialize_header(*self));
        }

        output
    }

    pub fn get_id(&self) -> (r: u32)
        ensures
            r == self.id,
    {
        self.id
    }

    pub fn get_kind(&self) -> (r: &MessageType)
        ensures
            *r == self.kind,
    {
        &self.kind
    }

    pub fn get_length(&self) -> (r: u64)
        ensures
            r == self.length,
    {
        self.length
    }
}

/// A frame: a header followed by its body bytes. The stored buffer may be
/// longer than `header.length`; only the first `header.length` bytes of it
/// belong to the frame.
#[derive(Clone, Debug, PartialEq)]
pub struct Message {
    header: MessageHeader,
    data: Vec<u8>,
}

/// The bytes a message serializes to: the 13 header bytes followed by exactly
/// `header.length` body bytes.
pub open spec fn spec_serialize_message(m: Message) -> Seq<u8>
    recommends
        m.spec_header().length <= m.spec_data().len(),
{
    spec_serialize_header(m.spec_header()) + m.spec_data().take(m.spec_header().length as int)
}

impl Message {
    /// The header of this message.
    pub closed spec fn spec_header(self) -> MessageHeader {
        self.header
    }

    /// The stored body buffer (possibly longer than `header.length`).
    pub closed spec fn spec_data(self) -> Seq<u8> {
        self.data@
    }

    pub fn new(header: MessageHeader, data: Vec<u8>) -> (r: Message)
        ensures
            r.spec_header() == header,
            r.spec_data() == data@,
    {
        Message { header, data }
    }

    /// Encodes the frame: 13 header bytes, then exactly `header.length` body
    /// bytes. Excess buffer bytes are never emitted; a buffer shorter than
    /// `header.length` is a caller error and is excluded up front.
    pub fn serialize(&self) -> (r: Vec<u8>)
        requires
            self.spec_header().length <= self.spec_data().len(),
        ensures
            r@ == spec_serialize_message(*self),
            r@.len() == 13 + self.spec_header().length,
            r@.subrange(0, 13) == spec_serialize_header(self.spec_header()),
            r@.skip(13) == self.spec_data().take(self.spec_header().length as int),
    {
        let buf_len: usize = self.data.len();
        proof {
            assert(self.header.length <= buf_len as u64);
        }
        let data_length: usize = self.header.length as usize;

        let header = self.header.serialize();

        let mut output: Vec<u8> = Vec::new();
        push_bytes(&mut output, header.as_slice());
        push_bytes(&mut output, slice_subrange(self.data.as_slice(), 0, data_length));

        proof {
            assert(output@ =~= spec_serialize_message(*self));
            assert(output@.subrange(0, 13) =~= spec_serialize_header(self.spec_header()));
            assert(output@.skip(13) =~= self.spec_data().take(self.spec_header().length as int));
        }

        output
    }

    pub fn get_header(&self) -> (r: &MessageHeader)
        ensures
            *r == self.spec_header(),
    {
        &self.header
    }

    pub fn get_data(&self) -> (r: &[u8])
        ensures
            r@ == self.spec_data(),
    {
        self.data.as_slice()
    }
}

/// Exact framing: a serialized message is exactly 13 bytes longer than its
/// body length says, and opens with exactly the serialized header.
pub proof fn lemma_message_framing(m: Message)
    requires
        m.spec_header().length <= m.spec_data().len(),
    ensures
        spec_serialize_message(m).len() == 13 + m.spec_header().length,
        spec_serialize_message(m).subrange(0, 13) == spec_serialize_header(m.spec_header()),
{
    lemma_auto_spec_u32_to_from_le_bytes();
    lemma_auto_spec_u64_to_from_le_bytes();
    assert(spec_serialize_message(m).subrange(0, 13) =~= spec_serialize_header(m.spec_header()));
}

/// Serialization is lossless: every header decodes back from its own bytes.
pub proof fn lemma_header_round_trip(h: MessageHeader)
    ensures
        spec_deserialize_header(spec_serialize_header(h)) == Some(h),
{
    lemma_auto_spec_u32_to_from_le_bytes();
    lemma_auto_spec_u64_to_from_le_bytes();
    let b = spec_serialize_header(h);
    assert(b[4] == kind_byte(h.kind));
    assert(b.subrange(0, 4) =~= spec_u32_to_le_bytes(h.id));
    assert(b.subrange(5, 13) =~= spec_u64_to_le_bytes(h.length));
}

} // verus!
