//! The RSA challenge–response handshake that admits a client to the server.
//!
//! The server generates a fresh 2048-bit keypair per control connection and
//! sends its public parts as `modulus ‖ exponent` (the modulus fixed at 256
//! bytes) in a `Key` frame. The client encrypts the shared secret under that
//! key and answers with a `Verify` frame. The server decrypts and compares:
//! only an exact match of the configured secret is acknowledged; anything
//! else refuses the connection. The cryptography is the rsa crate's, relied
//! on through the trusted functions below; every decision around it is
//! verified.

use crate::message::push_bytes;
use crate::message::Message;
use crate::message::MessageHeader;
use crate::message::MessageType;
use rsa::PublicKey;
use rsa::PublicKeyParts;
use vstd::prelude::*;
use vstd::slice::slice_index_get;
use vstd::slice::slice_subrange;

verus! {

/// The rsa crate's private key, carried as an opaque value.
#[verifier::external_type_specification]
#[verifier::external_body]
pub struct ExRsaPrivateKey(rsa::RSAPrivateKey);

/// Relies on rsa::RSAPrivateKey::new with 2048 bits: generates a keypair
/// from the operating system's randomness. Nothing can be promised of a
/// random value; generation may also fail, which surfaces as `None`. (As
/// everywhere rand's OsRng is drawn from, the process aborts if the
/// operating system's randomness source itself is unavailable.)
#[verifier::external_body]
fn rsa_generate_2048() -> (r: Option<rsa::RSAPrivateKey>) {
    match rsa::RSAPrivateKey::new(&mut rand::rngs::OsRng, 2048) {
        Ok(key) => Some(key),
        Err(_) => None,
    }
}

/// Relies on rsa::RSAPublicKey::from and num_bigint_dig's
/// BigUint::to_bytes_le: the key's public modulus, little-endian, in as few
/// bytes as it takes (256 for a 2048-bit modulus; the caller checks).
#[verifier::external_body]
fn rsa_modulus_le(key: &rsa::RSAPrivateKey) -> (r: Vec<u8>) {
    let pub_key = rsa::RSAPublicKey::from(key);
    pub_key.n().to_bytes_le()
}

/// Relies on rsa::RSAPublicKey::from and num_bigint_dig's
/// BigUint::to_bytes_le: the key's public exponent, little-endian.
#[verifier::external_body]
fn rsa_exponent_le(key: &rsa::RSAPrivateKey) -> (r: Vec<u8>) {
    let pub_key = rsa::RSAPublicKey::from(key);
    pub_key.e().to_bytes_le()
}

/// Relies on BigUint::from_bytes_le, rsa::RSAPublicKey::new and
/// PublicKey::encrypt with PKCS#1 v1.5 padding: encrypts under the public
/// key given as little-endian modulus and exponent. The crate validates only
/// the exponent, and its padding arithmetic indexes out of bounds for a
/// modulus of fewer than 11 significant bytes, so such a modulus is excluded
/// here; the verified caller refuses it first. The padding draws fresh
/// randomness (aborting only if the operating system's randomness source
/// fails), so nothing can be promised of the ciphertext; a key the crate
/// rejects, or a message too long for it, surfaces as `None`.
#[verifier::external_body]
fn rsa_encrypt_pkcs1v15(n_le: &Vec<u8>, e_le: &Vec<u8>, msg: &Vec<u8>) -> (r: Option<Vec<u8>>)
    requires
        exists|i: int| 10 <= i < n_le@.len() && n_le@[i] != 0,
{
    let n = rsa::BigUint::from_bytes_le(n_le.as_slice());
    let e = rsa::BigUint::from_bytes_le(e_le.as_slice());
    let key = match rsa::RSAPublicKey::new(n, e) {
        Ok(k) => k,
        Err(_) => {
            return None;
        },
    };
    match key.encrypt(&mut rand::rngs::OsRng, rsa::PaddingScheme::PKCS1v15Encrypt, msg.as_slice())
    {
        Ok(cipher) => Some(cipher),
        Err(_) => None,
    }
}

/// Relies on rsa::RSAPrivateKey::decrypt with PKCS#1 v1.5 padding: recovers
/// what was encrypted under this key's public half, and fails (`None`) on
/// anything else. The key is opaque, so nothing is stated of the plaintext;
/// the caller decides on whatever came back.
#[verifier::external_body]
fn rsa_decrypt_pkcs1v15(key: &rsa::RSAPrivateKey, cipher: &Vec<u8>) -> (r: Option<Vec<u8>>) {
    match key.decrypt(rsa::PaddingScheme::PKCS1v15Encrypt, cipher.as_slice()) {
        Ok(plain) => Some(plain),
        Err(_) => None,
    }
}

/// Compares a presented secret with the configured one without an early exit
/// on content: every byte is examined, so the time taken does not depend on
/// where the first mismatch lies (only on the lengths).
pub fn secrets_match(a: &[u8], b: &[u8]) -> (r: bool)
    ensures
        r == (a@ == b@),
{
    if a.len() != b.len() {
        return false;
    }
    let n = a.len();
    let mut diff: u8 = 0;
    let mut i: usize = 0;
    while i < n
        invariant
            n == a@.len(),
            n == b@.len(),
            i <= n,
            (diff == 0) <==> (forall|q: int| 0 <= q < i ==> a@[q] == b@[q]),
        decreases n - i,
    {
        let x = *slice_index_get(a, i);
        let y = *slice_index_get(b, i);
        let ghost prior = diff;
        diff = diff | (x ^ y);
        proof {
            assert(((x ^ y) == 0) == (x == y)) by (bit_vector);
            assert(((prior | (x ^ y)) == 0) == (prior == 0 && (x ^ y) == 0)) by (bit_vector);
        }
        i = i + 1;
    }
    if diff == 0 {
        proof {
            assert(a@ =~= b@);
        }
        true
    } else {
        false
    }
}

/// Whether a little-endian modulus has at least 11 significant bytes: some
/// byte at index 10 or above is nonzero. Anything smaller cannot carry even
/// an empty PKCS#1 v1.5 payload, and the cipher must never see it.
pub fn modulus_large_enough(n_le: &Vec<u8>) -> (r: bool)
    ensures
        r == exists|i: int| 10 <= i < n_le@.len() && n_le@[i] != 0,
{
    let n = n_le.len();
    if n <= 10 {
        return false;
    }
    let mut i: usize = 10;
    while i < n
        invariant
            10 <= i <= n,
            n == n_le@.len(),
            forall|q: int| 10 <= q < i ==> n_le@[q] == 0,
        decreases n - i,
    {
        if *slice_index_get(n_le.as_slice(), i) != 0 {
            proof {
                assert(10 <= i < n_le@.len() && n_le@[i as int] != 0);
            }
            return true;
        }
        i = i + 1;
    }
    false
}

/// Splits a key-exchange payload into modulus and exponent: the first 256
/// bytes and the rest, or nothing if fewer than 256 bytes arrived.
pub fn split_key_payload(payload: &Vec<u8>) -> (r: Option<(Vec<u8>, Vec<u8>)>)
    ensures
        match r {
            Some(p) => {
                &&& payload@.len() >= 256
                &&& p.0@ == payload@.take(256)
                &&& p.1@ == payload@.skip(256)
            },
            None => payload@.len() < 256,
        },
{
    if payload.len() < 256 {
        return None;
    }
    let mut n_le: Vec<u8> = Vec::new();
    push_bytes(&mut n_le, slice_subrange(payload.as_slice(), 0, 256));
    let mut e_le: Vec<u8> = Vec::new();
    push_bytes(&mut e_le, slice_subrange(payload.as_slice(), 256, payload.len()));
    proof {
        assert(n_le@ =~= payload@.take(256));
        assert(e_le@ =~= payload@.skip(256));
    }
    Some((n_le, e_le))
}

/// The key-exchange payload layout is lossless: a 256-byte modulus and any
/// exponent come back exactly from their concatenation.
pub proof fn lemma_key_payload_round_trip(n_le: Seq<u8>, e_le: Seq<u8>)
    requires
        n_le.len() == 256,
    ensures
        (n_le + e_le).take(256) == n_le,
        (n_le + e_le).skip(256) == e_le,
{
    assert((n_le + e_le).take(256) =~= n_le);
    assert((n_le + e_le).skip(256) =~= e_le);
}

/// Whether the server acknowledges: exactly when decryption succeeded and
/// produced the configured secret, byte for byte.
pub open spec fn spec_acknowledges(secret: Seq<u8>, presented: Option<Seq<u8>>) -> bool {
    match presented {
        Some(p) => p == secret,
        None => false,
    }
}

/// Handshake authentication: a client presenting anything other than the
/// configured secret is never acknowledged.
pub proof fn lemma_wrong_secret_never_acknowledged(secret: Seq<u8>, presented: Seq<u8>)
    requires
        presented != secret,
    ensures
        !spec_acknowledges(secret, Some(presented)),
{
}

/// Where a handshake stands.
#[derive(Clone, Debug, PartialEq, Eq, Structural)]
pub enum HandshakePhase {
    /// The server still owes its public key.
    SendKey,
    /// The key frame is out; the encrypted secret is awaited.
    AwaitVerify,
    /// The secret matched; the link is authenticated.
    Established,
    /// The handshake failed; the connection is to be closed.
    Refused,
}

/// The server's side of one handshake: its configured secret and where the
/// exchange stands. No frame after the key frame is accepted unless it
/// carries the exact secret.
pub struct ServerHandshake {
    secret: Vec<u8>,
    phase: HandshakePhase,
}

impl ServerHandshake {
    /// The configured shared secret.
    pub closed spec fn spec_secret(self) -> Seq<u8> {
        self.secret@
    }

    /// Where the exchange stands.
    pub closed spec fn spec_phase(self) -> HandshakePhase {
        self.phase
    }

    /// Starts a handshake for one accepted control connection.
    pub fn new(secret: Vec<u8>) -> (r: ServerHandshake)
        ensures
            r.spec_secret() == secret@,
            r.spec_phase() == HandshakePhase::SendKey,
    {
        ServerHandshake { secret, phase: HandshakePhase::SendKey }
    }

    /// Builds the `Key` frame from the public parts: stream 0, body exactly
    /// `modulus ‖ exponent` with the modulus fixed at 256 bytes.
    pub fn key_message(&mut self, n_le: &Vec<u8>, e_le: &Vec<u8>) -> (r: Message)
        requires
            old(self).spec_phase() == HandshakePhase::SendKey,
            n_le@.len() == 256,
        ensures
            final(self).spec_secret() == old(self).spec_secret(),
            final(self).spec_phase() == HandshakePhase::AwaitVerify,
            n_le@.len() + e_le@.len() <= usize::MAX,
            r.spec_header() == (MessageHeader {
                id: 0,
                kind: MessageType::Key,
                length: (n_le@.len() + e_le@.len()) as u64,
            }),
            r.spec_data() == n_le@ + e_le@,
    {
        let mut payload: Vec<u8> = Vec::new();
        push_bytes(&mut payload, n_le.as_slice());
        push_bytes(&mut payload, e_le.as_slice());
        let len = payload.len();
        self.phase = HandshakePhase::AwaitVerify;
        let header = MessageHeader::new(0, MessageType::Key, len as u64);
        Message::new(header, payload)
    }

    /// Generates the keypair and produces the `Key` frame; nothing if key
    /// generation failed or the modulus is not the 256 bytes the wire format
    /// fixes.
    pub fn begin(&mut self) -> (r: Option<(rsa::RSAPrivateKey, Message)>)
        requires
            old(self).spec_phase() == HandshakePhase::SendKey,
        ensures
            final(self).spec_secret() == old(self).spec_secret(),
            match r {
                Some(p) => {
                    &&& final(self).spec_phase() == HandshakePhase::AwaitVerify
                    &&& p.1.spec_header().id == 0
                    &&& p.1.spec_header().kind == MessageType::Key
                    &&& p.1.spec_header().length == p.1.spec_data().len()
                    &&& p.1.spec_data().len() >= 256
                },
                None => final(self).spec_phase() == HandshakePhase::SendKey,
            },
    {
        let key = match rsa_generate_2048() {
            Some(k) => k,
            None => {
                return None;
            },
        };
        let n_le = rsa_modulus_le(&key);
        if n_le.len() != 256 {
            return None;
        }
        let e_le = rsa_exponent_le(&key);
        let msg = self.key_message(&n_le, &e_le);
        Some((key, msg))
    }

    /// Whether the frame that answered the key frame is the expected
    /// `Verify`; any other kind aborts the handshake.
    pub fn expects_verify(&self, header: &MessageHeader) -> (r: bool)
        ensures
            r == (header.kind == MessageType::Verify),
    {
        match header.kind {
            MessageType::Verify => true,
            _ => false,
        }
    }

    /// The authentication decision: acknowledged if and only if decryption
    /// succeeded and handed back exactly the configured secret. On a match
    /// the `Acknowledge` frame is produced and the handshake is established;
    /// on anything else it is refused and nothing is sent.
    pub fn verify(&mut self, presented: Option<Vec<u8>>) -> (r: Option<Message>)
        requires
            old(self).spec_phase() == HandshakePhase::AwaitVerify,
        ensures
            final(self).spec_secret() == old(self).spec_secret(),
            match r {
                Some(ack) => {
                    &&& spec_acknowledges(
                        old(self).spec_secret(),
                        match presented {
                            Some(p) => Some(p@),
                            None => None,
                        },
                    )
                    &&& final(self).spec_phase() == HandshakePhase::Established
                    &&& ack.spec_header() == (MessageHeader {
                        id: 0,
                        kind: MessageType::Acknowledge,
                        length: 0,
                    })
                    &&& ack.spec_data().len() == 0
                },
                None => {
                    &&& !spec_acknowledges(
                        old(self).spec_secret(),
                        match presented {
                            Some(p) => Some(p@),
                            None => None,
                        },
                    )
                    &&& final(self).spec_phase() == HandshakePhase::Refused
                },
            },
    {
        match presented {
            Some(p) => {
                if secrets_match(p.as_slice(), self.secret.as_slice()) {
                    self.phase = HandshakePhase::Established;
                    let header = MessageHeader::new(0, MessageType::Acknowledge, 0);
                    Some(Message::new(header, Vec::new()))
                } else {
                    self.phase = HandshakePhase::Refused;
                    None
                }
            },
            None => {
                self.phase = HandshakePhase::Refused;
                None
            },
        }
    }

    /// Decrypts the `Verify` body with the connection's private key and
    /// decides. The decision is `verify`'s, and holds for whatever the
    /// decryption returned: an acknowledgement is produced only when the
    /// plaintext is exactly the configured secret.
    pub fn verify_ciphertext(&mut self, key: &rsa::RSAPrivateKey, cipher: &Vec<u8>) -> (r: Option<
        Message,
    >)
        requires
            old(self).spec_phase() == HandshakePhase::AwaitVerify,
        ensures
            final(self).spec_secret() == old(self).spec_secret(),
            match r {
                Some(ack) => {
                    &&& final(self).spec_phase() == HandshakePhase::Established
                    &&& ack.spec_header() == (MessageHeader {
                        id: 0,
                        kind: MessageType::Acknowledge,
                        length: 0,
                    })
                    &&& ack.spec_data().len() == 0
                },
                None => final(self).spec_phase() == HandshakePhase::Refused,
            },
    {
        let presented = rsa_decrypt_pkcs1v15(key, cipher);
        self.verify(presented)
    }
}

/// The client's side of one handshake: the secret it will present and where
/// the exchange stands.
pub struct ClientHandshake {
    secret: Vec<u8>,
    phase: ClientPhase,
}

/// Where the client's handshake stands.
#[derive(Clone, Debug, PartialEq, Eq, Structural)]
pub enum ClientPhase {
    /// The server's `Key` frame is awaited.
    AwaitKey,
    /// The encrypted secret is out; the `Acknowledge` frame is awaited.
    AwaitAcknowledge,
    /// The server acknowledged; the link is authenticated.
    Established,
    /// The handshake failed; the client backs off and retries.
    Failed,
}

impl ClientHandshake {
    /// The secret this client presents.
    pub closed spec fn spec_secret(self) -> Seq<u8> {
        self.secret@
    }

    /// Where the exchange stands.
    pub closed spec fn spec_phase(self) -> ClientPhase {
        self.phase
    }

    /// Starts a handshake for one dialed control connection.
    pub fn new(secret: Vec<u8>) -> (r: ClientHandshake)
        ensures
            r.spec_secret() == secret@,
            r.spec_phase() == ClientPhase::AwaitKey,
    {
        ClientHandshake { secret, phase: ClientPhase::AwaitKey }
    }

    /// Answers the server's first frame. A `Key` frame with a full 256-byte
    /// modulus prefix has the secret encrypted under the received key and
    /// wrapped as the `Verify` frame; any other kind, a short payload, a
    /// degenerate modulus (fewer than 11 significant bytes, which the cipher
    /// could not even pad), or a key the rsa crate rejects fails the
    /// handshake.
    pub fn on_key_frame(&mut self, header: &MessageHeader, body: &Vec<u8>) -> (r: Option<Message>)
        requires
            old(self).spec_phase() == ClientPhase::AwaitKey,
        ensures
            final(self).spec_secret() == old(self).spec_secret(),
            header.kind != MessageType::Key ==> r is None,
            body@.len() < 256 ==> r is None,
            (body@.len() >= 256 && (forall|i: int| 10 <= i < 256 ==> body@[i] == 0)) ==> r is None,
            match r {
                Some(msg) => {
                    &&& final(self).spec_phase() == ClientPhase::AwaitAcknowledge
                    &&& msg.spec_header().id == 0
                    &&& msg.spec_header().kind == MessageType::Verify
                    &&& msg.spec_header().length == msg.spec_data().len()
                },
                None => final(self).spec_phase() == ClientPhase::Failed,
            },
    {
        let is_key = match header.kind {
            MessageType::Key => true,
            _ => false,
        };
        if !is_key {
            self.phase = ClientPhase::Failed;
            return None;
        }
        let parts = match split_key_payload(body) {
            Some(p) => p,
            None => {
                self.phase = ClientPhase::Failed;
                return None;
            },
        };
        if !modulus_large_enough(&parts.0) {
            proof {
                assert forall|i: int| 10 <= i < 256 implies body@[i] == 0 by {
                    assert(parts.0@[i] == body@.take(256)[i]);
                }
            }
            self.phase = ClientPhase::Failed;
            return None;
        }
        let cipher = match rsa_encrypt_pkcs1v15(&parts.0, &parts.1, &self.secret) {
            Some(c) => c,
            None => {
                self.phase = ClientPhase::Failed;
                return None;
            },
        };
        self.phase = ClientPhase::AwaitAcknowledge;
        let len = cipher.len();
        let header = MessageHeader::new(0, MessageType::Verify, len as u64);
        Some(Message::new(header, cipher))
    }

    /// Judges the server's answer to the `Verify` frame: established exactly
    /// on an `Acknowledge` header, failed on everything else.
    pub fn on_answer(&mut self, header: &MessageHeader) -> (r: bool)
        requires
            old(self).spec_phase() == ClientPhase::AwaitAcknowledge,
        ensures
            final(self).spec_secret() == old(self).spec_secret(),
            r == (header.kind == MessageType::Acknowledge),
            final(self).spec_phase() == (if r {
                ClientPhase::Established
            } else {
                ClientPhase::Failed
            }),
    {
        match header.kind {
            MessageType::Acknowledge => {
                self.phase = ClientPhase::Established;
                true
            },
            _ => {
                self.phase = ClientPhase::Failed;
                false
            },
        }
    }
}

} // verus!
