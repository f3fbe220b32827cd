//! The transit record layer: record keys, nonces, sealed records and their
//! framing on the wire.

use vstd::prelude::*;
use vstd::slice::{slice_subrange, slice_to_vec};
use vstd::string::StringSliceAdditionalSpecFns;
use crate::crypto::{
    hashed_bytes, hkdf_sha256, secretbox_open, secretbox_opened, secretbox_seal,
    secretbox_sealed, sha256_digest, sha256_finish, sha256_start, sha256_update, Sha256Stream,
    KEY_BYTES, MAC_BYTES, NONCE_BYTES,
};
use crate::engine::key::derive_key;
use crate::hexcode::{hex_encode, hex_encoding};
use crate::text::utf8_text;
use crate::transfer::{
    transit_ack, transit_ack_document, transit_ack_of_text, TransitAck, TransitAckValue,
};
use crate::json::json_rendered;

verus! {

/// Number of plaintext bytes in every record of a file but the last.
pub const RECORD_CHUNK: usize = 4096;

/// Why a step of the transit layer failed.
#[derive(Clone, Copy, Debug, PartialEq, Eq, Structural)]
pub enum TransitError {
    /// The key does not have the length of a secretbox key.
    BadKey,
    /// The packet is shorter than a nonce.
    ShortPacket,
    /// The box did not verify under the key.
    DecryptionFailed,
    /// The record is too long for its length to be framed.
    RecordTooLong,
    /// Every nonce has been used.
    NonceExhausted,
    /// More plaintext arrived than the offer announced.
    TooMuchData,
    /// A record was handed over after the last one.
    AlreadyComplete,
    /// The bytes do not hold a whole number of records that make up the file.
    Incomplete,
    /// The acknowledgement cannot be read.
    BadAck,
    /// The receiver's digest differs from the sender's.
    ChecksumMismatch,
    /// The relay did not answer the request with `ok`.
    RelayRefused,
    /// The peer's handshake is not the one that the key calls for.
    HandshakeMismatch,
    /// Bytes were handed to a handshake that expects none.
    OutOfTurn,
}

/// The key derived from a transit key for a purpose named by a text.
pub open spec fn purpose_key(key: Seq<u8>, purpose: &str) -> Seq<u8> {
    hkdf_sha256(key, purpose.spec_bytes(), KEY_BYTES as nat)
}

/// Derives the 32-byte key for a purpose from the transit key.
pub fn derive_key_from_purpose(key: &[u8], purpose: &str) -> (derived: Vec<u8>)
    ensures
        derived@ == purpose_key(key@, purpose),
        derived@.len() == KEY_BYTES,
{
    derive_key(key, purpose.as_bytes(), KEY_BYTES)
}

/// The key under which the sender seals records.
pub open spec fn sender_record_key(key: Seq<u8>) -> Seq<u8> {
    purpose_key(key, "transit_record_sender_key")
}

/// The key under which the receiver seals its acknowledgement.
pub open spec fn receiver_record_key(key: Seq<u8>) -> Seq<u8> {
    purpose_key(key, "transit_record_receiver_key")
}

/// Derives the two record keys: the sender's, then the receiver's.
pub fn make_record_keys(key: &[u8]) -> (keys: (Vec<u8>, Vec<u8>))
    ensures
        keys.0@ == sender_record_key(key@),
        keys.1@ == receiver_record_key(key@),
        keys.0@.len() == KEY_BYTES,
        keys.1@.len() == KEY_BYTES,
{
    let sender = derive_key_from_purpose(key, "transit_record_sender_key");
    let receiver = derive_key_from_purpose(key, "transit_record_receiver_key");
    (sender, receiver)
}

/// Byte `i` of the nonce of record number `n` as it stands on the wire: the
/// reversal of the little-endian counter, so the number reads big-endian
/// and its low byte comes last.
pub open spec fn wire_nonce_byte(n: u64, i: int) -> u8 {
    if i == 23 {
        (n & 0xff) as u8
    } else if i == 22 {
        ((n >> 8) & 0xff) as u8
    } else if i == 21 {
        ((n >> 16) & 0xff) as u8
    } else if i == 20 {
        ((n >> 24) & 0xff) as u8
    } else if i == 19 {
        ((n >> 32) & 0xff) as u8
    } else if i == 18 {
        ((n >> 40) & 0xff) as u8
    } else if i == 17 {
        ((n >> 48) & 0xff) as u8
    } else if i == 16 {
        ((n >> 56) & 0xff) as u8
    } else {
        0u8
    }
}

/// The nonce of record number `n` as it stands on the wire.
pub open spec fn wire_nonce(n: u64) -> Seq<u8> {
    Seq::new(NONCE_BYTES as nat, |i: int| wire_nonce_byte(n, i))
}

/// Writes the wire nonce of record number `n`.
pub fn make_wire_nonce(n: u64) -> (nonce: Vec<u8>)
    ensures
        nonce@ == wire_nonce(n),
{
    let mut nonce: Vec<u8> = Vec::new();
    let mut i: usize = 0;
    while i < 16
        invariant
            i <= 16,
            nonce@.len() == i,
            forall|j: int| 0 <= j < i ==> nonce@[j] == 0u8,
        decreases 16 - i,
    {
        nonce.push(0u8);
        i += 1;
    }
    nonce.push(((n >> 56) & 0xff) as u8);
    nonce.push(((n >> 48) & 0xff) as u8);
    nonce.push(((n >> 40) & 0xff) as u8);
    nonce.push(((n >> 32) & 0xff) as u8);
    nonce.push(((n >> 24) & 0xff) as u8);
    nonce.push(((n >> 16) & 0xff) as u8);
    nonce.push(((n >> 8) & 0xff) as u8);
    nonce.push((n & 0xff) as u8);
    assert(nonce@ =~= wire_nonce(n));
    nonce
}

/// Two record numbers with one wire nonce are one number: every increment
/// of the counter shows in the bytes on the wire.
pub proof fn lemma_wire_nonce_injective(a: u64, b: u64)
    requires
        wire_nonce(a) == wire_nonce(b),
    ensures
        a == b,
{
    let x = wire_nonce(a);
    let y = wire_nonce(b);
    assert(x[23] == y[23] && x[22] == y[22] && x[21] == y[21] && x[20] == y[20]);
    assert(x[19] == y[19] && x[18] == y[18] && x[17] == y[17] && x[16] == y[16]);
    assert(((a & 0xff) as u8 == (b & 0xff) as u8 && ((a >> 8) & 0xff) as u8 == ((b >> 8)
        & 0xff) as u8 && ((a >> 16) & 0xff) as u8 == ((b >> 16) & 0xff) as u8 && ((a >> 24)
        & 0xff) as u8 == ((b >> 24) & 0xff) as u8 && ((a >> 32) & 0xff) as u8 == ((b >> 32)
        & 0xff) as u8 && ((a >> 40) & 0xff) as u8 == ((b >> 40) & 0xff) as u8 && ((a >> 48)
        & 0xff) as u8 == ((b >> 48) & 0xff) as u8 && ((a >> 56) & 0xff) as u8 == ((b >> 56)
        & 0xff) as u8) ==> a == b) by (bit_vector);
}

/// A sealed record shows its number: it begins with the wire nonce of the
/// number under which it was sealed, so two records of one stream that
/// were sealed under different numbers differ on the wire.
pub proof fn lemma_record_shows_nonce(plaintext: Seq<u8>, a: u64, b: u64, key: Seq<u8>)
    ensures
        sealed_record(plaintext, a, key).subrange(0, NONCE_BYTES as int) == wire_nonce(a),
        a != b ==> sealed_record(plaintext, a, key) != sealed_record(plaintext, b, key),
{
    assert(sealed_record(plaintext, a, key).subrange(0, NONCE_BYTES as int) =~= wire_nonce(a));
    assert(sealed_record(plaintext, b, key).subrange(0, NONCE_BYTES as int) =~= wire_nonce(b));
    if a != b && sealed_record(plaintext, a, key) == sealed_record(plaintext, b, key) {
        lemma_wire_nonce_injective(a, b);
    }
}

/// The sealed record of a plaintext: the wire nonce, then the box made
/// under that nonce.
pub open spec fn sealed_record(plaintext: Seq<u8>, nonce: u64, key: Seq<u8>) -> Seq<u8> {
    wire_nonce(nonce) + secretbox_sealed(plaintext, wire_nonce(nonce), key)
}

/// What a sealed record holds under a key: the plaintext of the box that
/// follows the nonce, or why there is none.
pub open spec fn record_plaintext(packet: Seq<u8>, key: Seq<u8>) -> Result<Seq<u8>, TransitError> {
    if packet.len() < NONCE_BYTES {
        Err(TransitError::ShortPacket)
    } else if key.len() != KEY_BYTES {
        Err(TransitError::BadKey)
    } else {
        match secretbox_opened(
            packet.subrange(NONCE_BYTES as int, packet.len() as int),
            packet.subrange(0, NONCE_BYTES as int),
            key,
        ) {
            Some(plaintext) => Ok(plaintext),
            None => Err(TransitError::DecryptionFailed),
        }
    }
}

/// Seals a plaintext as record number `nonce` under `key`.
///
/// What comes out opens again, under the same key, to the plaintext.
pub fn encrypt_record(plaintext: &[u8], nonce: u64, key: &[u8]) -> (sealed: Result<
    Vec<u8>,
    TransitError,
>)
    ensures
        key@.len() != KEY_BYTES ==> sealed == Err::<Vec<u8>, TransitError>(TransitError::BadKey),
        key@.len() == KEY_BYTES ==> sealed is Ok,
        sealed matches Ok(packet) ==> {
            &&& packet@ == sealed_record(plaintext@, nonce, key@)
            &&& packet@.len() == NONCE_BYTES + plaintext@.len() + MAC_BYTES
            &&& record_plaintext(packet@, key@) == Ok::<Seq<u8>, TransitError>(plaintext@)
        },
{
    if key.len() != KEY_BYTES {
        return Err(TransitError::BadKey);
    }
    let nonce_bytes = make_wire_nonce(nonce);
    let boxed = secretbox_seal(plaintext, nonce_bytes.as_slice(), key);
    let mut packet = nonce_bytes;
    let ghost head = packet@;
    packet.extend_from_slice(boxed.as_slice());
    proof {
        assert(packet@.subrange(0, NONCE_BYTES as int) =~= head);
        assert(packet@.subrange(NONCE_BYTES as int, packet@.len() as int) =~= boxed@);
    }
    Ok(packet)
}

/// Opens a sealed record under `key`.
pub fn decrypt_record(enc_packet: &[u8], key: &[u8]) -> (opened: Result<Vec<u8>, TransitError>)
    ensures
        opened matches Ok(plaintext) ==> record_plaintext(enc_packet@, key@) == Ok::<
            Seq<u8>,
            TransitError,
        >(plaintext@) && plaintext@.len() + NONCE_BYTES + MAC_BYTES == enc_packet@.len(),
        opened matches Err(e) ==> record_plaintext(enc_packet@, key@) == Err::<
            Seq<u8>,
            TransitError,
        >(e),
{
    if enc_packet.len() < NONCE_BYTES {
        return Err(TransitError::ShortPacket);
    }
    if key.len() != KEY_BYTES {
        return Err(TransitError::BadKey);
    }
    let nonce = slice_subrange(enc_packet, 0, NONCE_BYTES);
    let boxed = slice_subrange(enc_packet, NONCE_BYTES, enc_packet.len());
    match secretbox_open(boxed, nonce, key) {
        Some(plaintext) => Ok(plaintext),
        None => Err(TransitError::DecryptionFailed),
    }
}

/// The four bytes of a record's length, most significant first.
pub open spec fn be32(n: u32) -> Seq<u8> {
    seq![
        ((n >> 24) & 0xff) as u8,
        ((n >> 16) & 0xff) as u8,
        ((n >> 8) & 0xff) as u8,
        (n & 0xff) as u8,
    ]
}

/// The number that four bytes denote, most significant first.
pub open spec fn be32_value(b0: u8, b1: u8, b2: u8, b3: u8) -> u32 {
    ((b0 as u32) << 24) | ((b1 as u32) << 16) | ((b2 as u32) << 8) | (b3 as u32)
}

/// A record as it stands on the wire: its length in four bytes, then the
/// record.
pub open spec fn framed(packet: Seq<u8>) -> Seq<u8> {
    be32(packet.len() as u32) + packet
}

/// The first record of a byte stream and the number of bytes it takes up,
/// where the stream holds a whole record.
pub open spec fn first_record(stream: Seq<u8>) -> Option<(Seq<u8>, int)> {
    if stream.len() < 4 {
        None
    } else {
        let length = be32_value(stream[0], stream[1], stream[2], stream[3]) as int;
        if stream.len() < 4 + length {
            None
        } else {
            Some((stream.subrange(4, 4 + length), 4 + length))
        }
    }
}

/// Reading the length that `be32` wrote gives the number back.
pub proof fn lemma_be32_round_trip(n: u32)
    ensures
        be32_value(be32(n)[0], be32(n)[1], be32(n)[2], be32(n)[3]) == n,
{
    assert(be32_value(
        ((n >> 24) & 0xff) as u8,
        ((n >> 16) & 0xff) as u8,
        ((n >> 8) & 0xff) as u8,
        (n & 0xff) as u8,
    ) == n) by (bit_vector);
}

/// A framed record, followed by anything, is read back as that record.
pub proof fn lemma_first_record_of_framed(packet: Seq<u8>, rest: Seq<u8>)
    requires
        packet.len() <= u32::MAX,
    ensures
        first_record(framed(packet) + rest) == Some((packet, 4 + packet.len() as int)),
        (framed(packet) + rest).subrange(
            4 + packet.len() as int,
            (framed(packet) + rest).len() as int,
        ) == rest,
{
    let stream = framed(packet) + rest;
    lemma_be32_round_trip(packet.len() as u32);
    assert(stream[0] == be32(packet.len() as u32)[0]);
    assert(stream[1] == be32(packet.len() as u32)[1]);
    assert(stream[2] == be32(packet.len() as u32)[2]);
    assert(stream[3] == be32(packet.len() as u32)[3]);
    assert(stream.subrange(4, 4 + packet.len() as int) =~= packet);
    assert(stream.subrange(4 + packet.len() as int, stream.len() as int) =~= rest);
}

/// Puts a record's length in front of it.
pub fn frame_record(packet: &[u8]) -> (wire: Result<Vec<u8>, TransitError>)
    ensures
        packet@.len() > u32::MAX ==> wire == Err::<Vec<u8>, TransitError>(
            TransitError::RecordTooLong,
        ),
        packet@.len() <= u32::MAX ==> wire is Ok,
        wire matches Ok(bytes) ==> bytes@ == framed(packet@),
{
    if packet.len() > 0xffff_ffff {
        return Err(TransitError::RecordTooLong);
    }
    let n: u32 = packet.len() as u32;
    let mut wire: Vec<u8> = Vec::new();
    wire.push(((n >> 24) & 0xff) as u8);
    wire.push(((n >> 16) & 0xff) as u8);
    wire.push(((n >> 8) & 0xff) as u8);
    wire.push((n & 0xff) as u8);
    let ghost head = wire@;
    wire.extend_from_slice(packet);
    assert(head =~= be32(n));
    Ok(wire)
}

/// The number of bytes that the record after a four-byte length holds.
pub fn record_length(header: &[u8]) -> (length: u32)
    requires
        header@.len() == 4,
    ensures
        length == be32_value(header@[0], header@[1], header@[2], header@[3]),
{
    ((header[0] as u32) << 24) | ((header[1] as u32) << 16) | ((header[2] as u32) << 8) | (
    header[3] as u32)
}

/// Takes the first record off the bytes received so far.
///
/// Gives the record and the number of bytes it took up, or nothing while
/// the bytes do not yet hold a whole record.
pub fn receive_record(stream: &[u8]) -> (record: Option<(Vec<u8>, usize)>)
    ensures
        record matches Some((packet, used)) ==> first_record(stream@) == Some(
            (packet@, used as int),
        ),
        record is None ==> first_record(stream@) is None,
{
    if stream.len() < 4 {
        return None;
    }
    let length = record_length(slice_subrange(stream, 0, 4));
    if ((stream.len() - 4) as u64) < (length as u64) {
        return None;
    }
    let end: usize = 4 + length as usize;
    let packet = slice_to_vec(slice_subrange(stream, 4, end));
    Some((packet, end))
}

/// The plaintext of chunk number `k` of a file: 4096 bytes, or what is left.
pub open spec fn chunk_of(data: Seq<u8>, k: nat) -> Seq<u8> {
    let from = if k * RECORD_CHUNK <= data.len() {
        k * RECORD_CHUNK
    } else {
        data.len() as int
    };
    let to = if (k + 1) * RECORD_CHUNK <= data.len() {
        (k + 1) * RECORD_CHUNK
    } else {
        data.len() as int
    };
    data.subrange(from, to)
}

/// The number of records that a file is sent as: one for each full chunk,
/// and a last one that is shorter, empty if need be.
pub open spec fn chunk_count(length: nat) -> nat {
    length / (RECORD_CHUNK as nat) + 1
}

/// Record number `k` of a file as it stands on the wire.
pub open spec fn record_of(data: Seq<u8>, key: Seq<u8>, k: nat) -> Seq<u8> {
    framed(sealed_record(chunk_of(data, k), k as u64, key))
}

/// The records of a file from number `from` on, as they follow each other
/// on the wire.
pub open spec fn records_from(data: Seq<u8>, key: Seq<u8>, from: nat) -> Seq<u8>
    decreases chunk_count(data.len()) - from,
{
    if from >= chunk_count(data.len()) {
        Seq::empty()
    } else {
        record_of(data, key, from) + records_from(data, key, from + 1)
    }
}

/// Everything that the sender of a file writes to the wire.
pub open spec fn transfer_wire(data: Seq<u8>, key: Seq<u8>) -> Seq<u8> {
    records_from(data, key, 0)
}

/// What a receiver that expects `remaining` bytes makes of a byte stream:
/// the plaintext of the records it reads until it has that many bytes, or
/// the reason for which it stops.
pub open spec fn received_plaintext(stream: Seq<u8>, key: Seq<u8>, remaining: nat) -> Result<
    Seq<u8>,
    TransitError,
>
    decreases stream.len(),
{
    if remaining == 0 {
        Ok(Seq::empty())
    } else {
        match first_record(stream) {
            None => Err(TransitError::Incomplete),
            Some((packet, used)) => match record_plaintext(packet, key) {
                Err(e) => Err(e),
                Ok(plaintext) => if plaintext.len() > remaining {
                    Err(TransitError::TooMuchData)
                } else if used <= 0 || used > stream.len() {
                    Err(TransitError::Incomplete)
                } else {
                    match received_plaintext(
                        stream.subrange(used, stream.len() as int),
                        key,
                        (remaining - plaintext.len()) as nat,
                    ) {
                        Ok(rest) => Ok(plaintext + rest),
                        Err(e) => Err(e),
                    }
                },
            },
        }
    }
}

/// Whether record number `k` of a file is as long as its chunk, a nonce and
/// an authenticator, and opens to its chunk.
pub open spec fn chunk_opens(data: Seq<u8>, key: Seq<u8>, k: nat) -> bool {
    let packet = sealed_record(chunk_of(data, k), k as u64, key);
    &&& packet.len() == chunk_of(data, k).len() + NONCE_BYTES + MAC_BYTES
    &&& record_plaintext(packet, key) == Ok::<Seq<u8>, TransitError>(chunk_of(data, k))
}

/// Whether every record of a file opens to its chunk.
pub open spec fn all_chunks_open(data: Seq<u8>, key: Seq<u8>) -> bool {
    forall|k: nat| k < chunk_count(data.len()) ==> #[trigger] chunk_opens(data, key, k)
}

/// A receiver that reads the records of a file from number `from` on, and
/// expects what is left of the file from there, receives exactly that.
pub proof fn lemma_records_received(data: Seq<u8>, key: Seq<u8>, from: nat)
    requires
        all_chunks_open(data, key),
    ensures
        from < chunk_count(data.len()) ==> received_plaintext(
            records_from(data, key, from),
            key,
            (data.len() - from * RECORD_CHUNK) as nat,
        ) == Ok::<Seq<u8>, TransitError>(
            data.subrange(from * RECORD_CHUNK as int, data.len() as int),
        ),
    decreases chunk_count(data.len()) - from,
{
    let count = chunk_count(data.len());
    if from < count {
        assert(from * RECORD_CHUNK <= data.len()) by (nonlinear_arith)
            requires
                from < data.len() / (RECORD_CHUNK as nat) + 1,
                RECORD_CHUNK == 4096,
        {
        }
        let left = (data.len() - from * RECORD_CHUNK) as nat;
        let tail = data.subrange(from * RECORD_CHUNK as int, data.len() as int);
        let stream = records_from(data, key, from);
        if left == 0 {
            assert(tail =~= Seq::<u8>::empty());
            assert(received_plaintext(stream, key, 0) == Ok::<Seq<u8>, TransitError>(
                Seq::empty(),
            ));
        } else {
            let chunk = chunk_of(data, from);
            let packet = sealed_record(chunk, from as u64, key);
            let rest = records_from(data, key, from + 1);
            assert(chunk_opens(data, key, from));
            assert(chunk.len() <= RECORD_CHUNK);
            assert(chunk.len() <= left);
            lemma_first_record_of_framed(packet, rest);
            assert(stream == framed(packet) + rest);
            assert(first_record(stream) == Some((packet, 4 + packet.len() as int)));
            assert(stream.subrange(4 + packet.len() as int, stream.len() as int) == rest);
            let after = (left - chunk.len()) as nat;
            if from + 1 < count {
                assert((from + 1) * RECORD_CHUNK <= data.len()) by (nonlinear_arith)
                    requires
                        from + 1 < data.len() / (RECORD_CHUNK as nat) + 1,
                        RECORD_CHUNK == 4096,
                {
                }
                lemma_records_received(data, key, from + 1);
                assert(chunk.len() == RECORD_CHUNK);
                assert(after == data.len() - (from + 1) * RECORD_CHUNK) by (nonlinear_arith)
                    requires
                        after == data.len() - from * RECORD_CHUNK - RECORD_CHUNK,
                {
                }
                let next = data.subrange((from + 1) * RECORD_CHUNK as int, data.len() as int);
                assert(received_plaintext(rest, key, after) == Ok::<Seq<u8>, TransitError>(next));
                assert(chunk + next =~= tail);
            } else {
                assert(data.len() < (from + 1) * RECORD_CHUNK) by (nonlinear_arith)
                    requires
                        from + 1 >= data.len() / (RECORD_CHUNK as nat) + 1,
                        RECORD_CHUNK == 4096,
                {
                }
                assert(chunk =~= tail);
                assert(after == 0);
                assert(received_plaintext(rest, key, 0) == Ok::<Seq<u8>, TransitError>(
                    Seq::empty(),
                ));
                assert(chunk + Seq::<u8>::empty() =~= tail);
            }
        }
    }
}

/// The receiver of a file whose records all open receives the file.
pub proof fn lemma_transfer_received(data: Seq<u8>, key: Seq<u8>)
    requires
        all_chunks_open(data, key),
    ensures
        received_plaintext(transfer_wire(data, key), key, data.len()) == Ok::<
            Seq<u8>,
            TransitError,
        >(data),
{
    lemma_records_received(data, key, 0);
    assert(data.subrange(0, data.len() as int) =~= data);
}

/// Seals a whole file for the wire: its chunks as sealed, framed records,
/// numbered from zero, and the SHA-256 digest of the file.
///
/// A receiver that expects the file's length and reads these records
/// receives the file, and so computes the same digest.
pub fn send_records(data: &[u8], skey: &[u8]) -> (sent: Result<(Vec<u8>, Vec<u8>), TransitError>)
    ensures
        skey@.len() != KEY_BYTES ==> sent == Err::<(Vec<u8>, Vec<u8>), TransitError>(
            TransitError::BadKey,
        ),
        skey@.len() == KEY_BYTES ==> sent is Ok,
        sent matches Ok((wire, checksum)) ==> {
            &&& wire@ == transfer_wire(data@, skey@)
            &&& checksum@ == sha256_digest(data@)
            &&& all_chunks_open(data@, skey@)
            &&& received_plaintext(wire@, skey@, data@.len()) == Ok::<Seq<u8>, TransitError>(
                data@,
            )
        },
{
    if skey.len() != KEY_BYTES {
        return Err(TransitError::BadKey);
    }
    let total: usize = data.len();
    let count: usize = total / RECORD_CHUNK + 1;
    let mut wire: Vec<u8> = Vec::new();
    let mut k: usize = 0;
    assert(Seq::<u8>::empty() + records_from(data@, skey@, 0) =~= transfer_wire(data@, skey@));
    while k < count
        invariant
            k <= count,
            count == chunk_count(data@.len()),
            total == data@.len(),
            skey@.len() == KEY_BYTES,
            wire@ + records_from(data@, skey@, k as nat) == transfer_wire(data@, skey@),
            forall|j: nat| j < k ==> #[trigger] chunk_opens(data@, skey@, j),
        decreases count - k,
    {
        assert(k * RECORD_CHUNK <= data@.len()) by (nonlinear_arith)
            requires
                k < data@.len() / (RECORD_CHUNK as nat) + 1,
                RECORD_CHUNK == 4096,
        {
        }
        assert(k * RECORD_CHUNK == k * 4096) by (nonlinear_arith)
            requires
                RECORD_CHUNK == 4096,
        {
        }
        let from: usize = k * 4096;
        let to: usize = if data.len() - from >= RECORD_CHUNK {
            from + RECORD_CHUNK
        } else {
            data.len()
        };
        let chunk = slice_subrange(data, from, to);
        proof {
            assert((k + 1) * RECORD_CHUNK == k * RECORD_CHUNK + RECORD_CHUNK) by (nonlinear_arith);
            assert(chunk@ =~= chunk_of(data@, k as nat));
        }
        let packet = match encrypt_record(chunk, k as u64, skey) {
            Ok(p) => p,
            Err(e) => {
                return Err(e);
            },
        };
        let record = match frame_record(packet.as_slice()) {
            Ok(r) => r,
            Err(e) => {
                return Err(e);
            },
        };
        proof {
            assert(chunk_opens(data@, skey@, k as nat));
            assert(record@ == record_of(data@, skey@, k as nat));
            assert((wire@ + record@) + records_from(data@, skey@, (k + 1) as nat) =~= wire@
                + records_from(data@, skey@, k as nat));
        }
        wire.extend_from_slice(record.as_slice());
        k += 1;
    }
    proof {
        assert(records_from(data@, skey@, k as nat) =~= Seq::<u8>::empty());
        assert(wire@ + Seq::<u8>::empty() =~= wire@);
        lemma_transfer_received(data@, skey@);
    }
    let checksum = crate::crypto::sha256(data);
    Ok((wire, checksum))
}

/// Reads the records of a file that is `filesize` bytes long from the
/// bytes that came over the wire: the file, and its SHA-256 digest.
pub fn receive_records(wire: &[u8], filesize: u64, skey: &[u8]) -> (received: Result<
    (Vec<u8>, Vec<u8>),
    TransitError,
>)
    ensures
        received matches Ok((plaintext, checksum)) ==> received_plaintext(
            wire@,
            skey@,
            filesize as nat,
        ) == Ok::<Seq<u8>, TransitError>(plaintext@) && checksum@ == sha256_digest(plaintext@),
        received matches Err(e) ==> received_plaintext(wire@, skey@, filesize as nat) == Err::<
            Seq<u8>,
            TransitError,
        >(e),
{
    let mut plaintext: Vec<u8> = Vec::new();
    let mut remaining: u64 = filesize;
    let mut pos: usize = 0;
    assert(wire@.subrange(0, wire@.len() as int) =~= wire@);
    assert(forall|rest: Seq<u8>| Seq::<u8>::empty() + rest =~= rest);
    while remaining > 0
        invariant
            pos <= wire@.len(),
            received_plaintext(wire@, skey@, filesize as nat) == match received_plaintext(
                wire@.subrange(pos as int, wire@.len() as int),
                skey@,
                remaining as nat,
            ) {
                Ok(rest) => Ok::<Seq<u8>, TransitError>(plaintext@ + rest),
                Err(e) => Err(e),
            },
        decreases wire@.len() - pos,
    {
        let stream = slice_subrange(wire, pos, wire.len());
        let (packet, used) = match receive_record(stream) {
            Some(found) => found,
            None => {
                return Err(TransitError::Incomplete);
            },
        };
        let chunk = match decrypt_record(packet.as_slice(), skey) {
            Ok(c) => c,
            Err(e) => {
                return Err(e);
            },
        };
        if chunk.len() as u64 > remaining {
            return Err(TransitError::TooMuchData);
        }
        let ghost before = plaintext@;
        proof {
            let after = wire@.subrange(pos + used, wire@.len() as int);
            assert(stream@.subrange(used as int, stream@.len() as int) =~= after);
            let left = (remaining - chunk@.len()) as nat;
            match received_plaintext(after, skey@, left) {
                Ok(rest) => {
                    assert((before + chunk@) + rest =~= before + (chunk@ + rest));
                },
                Err(_) => {},
            }
        }
        plaintext.extend_from_slice(chunk.as_slice());
        assert(plaintext@ =~= before + chunk@);
        remaining = remaining - chunk.len() as u64;
        pos = pos + used;
    }
    proof {
        assert(plaintext@ + Seq::<u8>::empty() =~= plaintext@);
    }
    let checksum = crate::crypto::sha256(plaintext.as_slice());
    Ok((plaintext, checksum))
}

/// Why a sender refuses a chunk: the file is complete; or else the record
/// numbers are used up; or else the chunk is too long for a record.
pub open spec fn seal_refusal(complete: bool, next_nonce: u64) -> TransitError {
    if complete {
        TransitError::AlreadyComplete
    } else if next_nonce == u64::MAX {
        TransitError::NonceExhausted
    } else {
        TransitError::RecordTooLong
    }
}

/// The sending side of a file transfer, one chunk at a time: it numbers
/// the records, keeps the digest of what it has sealed, and knows when the
/// file is complete.
pub struct RecordSender {
    key: Vec<u8>,
    next: u64,
    digest: Sha256Stream,
    complete: bool,
}

impl RecordSender {
    #[verifier::type_invariant]
    spec fn holds_a_key(self) -> bool {
        self.key@.len() == KEY_BYTES
    }

    /// The key under which the records are sealed.
    pub closed spec fn key(self) -> Seq<u8> {
        self.key@
    }

    /// The number of the next record.
    pub closed spec fn next_nonce(self) -> u64 {
        self.next
    }

    /// The plaintext sealed so far.
    pub closed spec fn sent(self) -> Seq<u8> {
        hashed_bytes(self.digest)
    }

    /// Whether the last record of the file has been sealed: the one that
    /// carries less than a full chunk.
    pub closed spec fn complete(self) -> bool {
        self.complete
    }

    /// A sender that has sealed nothing yet.
    pub fn new(skey: &[u8]) -> (sender: Result<RecordSender, TransitError>)
        ensures
            skey@.len() != KEY_BYTES ==> (sender matches Err(e) && e == TransitError::BadKey),
            skey@.len() == KEY_BYTES ==> (sender matches Ok(s) && s.key() == skey@
                && s.next_nonce() == 0 && s.sent() == Seq::<u8>::empty() && !s.complete()),
    {
        if skey.len() != KEY_BYTES {
            return Err(TransitError::BadKey);
        }
        Ok(
            RecordSender {
                key: slice_to_vec(skey),
                next: 0,
                digest: sha256_start(),
                complete: false,
            },
        )
    }

    /// Whether the file is complete, so that no chunk may follow.
    pub fn is_complete(&self) -> (complete: bool)
        ensures
            complete == self.complete(),
    {
        self.complete
    }

    /// Seals the next chunk and frames it for the wire. A chunk of less
    /// than 4096 bytes completes the file.
    ///
    /// Fails, and changes nothing, when the file is complete, when the
    /// record numbers are used up or when the chunk is too long for a
    /// record.
    pub fn seal_chunk(&mut self, chunk: &[u8]) -> (record: Result<Vec<u8>, TransitError>)
        ensures
            final(self).key() == old(self).key(),
            record matches Ok(bytes) ==> {
                &&& bytes@ == framed(sealed_record(chunk@, old(self).next_nonce(), old(self).key()))
                &&& record_plaintext(
                    sealed_record(chunk@, old(self).next_nonce(), old(self).key()),
                    old(self).key(),
                ) == Ok::<Seq<u8>, TransitError>(chunk@)
                &&& final(self).next_nonce() == old(self).next_nonce() + 1
                &&& final(self).sent() == old(self).sent() + chunk@
                &&& final(self).complete() == (chunk@.len() < RECORD_CHUNK)
            },
            record matches Err(e) ==> {
                &&& final(self).next_nonce() == old(self).next_nonce()
                &&& final(self).sent() == old(self).sent()
                &&& final(self).complete() == old(self).complete()
                &&& e == seal_refusal(old(self).complete(), old(self).next_nonce())
            },
            record is Ok <==> !old(self).complete() && old(self).next_nonce() < u64::MAX
                && chunk@.len() + NONCE_BYTES + MAC_BYTES <= u32::MAX,
    {
        proof {
            use_type_invariant(&*self);
        }
        if self.complete {
            return Err(TransitError::AlreadyComplete);
        }
        if self.next == u64::MAX {
            return Err(TransitError::NonceExhausted);
        }
        let packet = match encrypt_record(chunk, self.next, self.key.as_slice()) {
            Ok(p) => p,
            Err(e) => {
                return Err(e);
            },
        };
        let bytes = match frame_record(packet.as_slice()) {
            Ok(b) => b,
            Err(e) => {
                return Err(e);
            },
        };
        sha256_update(&mut self.digest, chunk);
        self.next = self.next + 1;
        self.complete = chunk.len() < RECORD_CHUNK;
        Ok(bytes)
    }

    /// The SHA-256 digest of the plaintext sealed so far.
    pub fn finish(self) -> (checksum: Vec<u8>)
        ensures
            checksum@ == sha256_digest(self.sent()),
    {
        sha256_finish(self.digest)
    }
}

/// The receiving side of a file transfer, one record at a time: it counts
/// down the bytes still owed and keeps the digest of what it has opened.
pub struct RecordReceiver {
    key: Vec<u8>,
    remaining: u64,
    digest: Sha256Stream,
}

impl RecordReceiver {
    #[verifier::type_invariant]
    spec fn holds_a_key(self) -> bool {
        self.key@.len() == KEY_BYTES
    }

    /// The key under which the records are opened.
    pub closed spec fn key(self) -> Seq<u8> {
        self.key@
    }

    /// The number of bytes of the file that have not arrived yet.
    pub closed spec fn left(self) -> u64 {
        self.remaining
    }

    /// The plaintext opened so far.
    pub closed spec fn received(self) -> Seq<u8> {
        hashed_bytes(self.digest)
    }

    /// A receiver that expects a file of `filesize` bytes.
    pub fn new(filesize: u64, skey: &[u8]) -> (receiver: Result<RecordReceiver, TransitError>)
        ensures
            skey@.len() != KEY_BYTES ==> (receiver matches Err(e) && e == TransitError::BadKey),
            skey@.len() == KEY_BYTES ==> (receiver matches Ok(r) && r.key() == skey@ && r.left()
                == filesize && r.received() == Seq::<u8>::empty()),
    {
        if skey.len() != KEY_BYTES {
            return Err(TransitError::BadKey);
        }
        Ok(RecordReceiver { key: slice_to_vec(skey), remaining: filesize, digest: sha256_start() })
    }

    /// The number of bytes of the file that have not arrived yet.
    pub fn remaining(&self) -> (left: u64)
        ensures
            left == self.left(),
    {
        self.remaining
    }

    /// Opens the next record and gives its plaintext.
    ///
    /// Fails, and changes nothing, when the file is already complete, when
    /// the record does not open, or when it holds more than is still owed.
    pub fn open_record(&mut self, enc_packet: &[u8]) -> (chunk: Result<Vec<u8>, TransitError>)
        ensures
            final(self).key() == old(self).key(),
            chunk matches Ok(plaintext) ==> {
                &&& old(self).left() > 0
                &&& record_plaintext(enc_packet@, old(self).key()) == Ok::<
                    Seq<u8>,
                    TransitError,
                >(plaintext@)
                &&& plaintext@.len() <= old(self).left()
                &&& final(self).left() == old(self).left() - plaintext@.len()
                &&& final(self).received() == old(self).received() + plaintext@
            },
            chunk matches Err(e) ==> {
                &&& final(self).left() == old(self).left()
                &&& final(self).received() == old(self).received()
                &&& if old(self).left() == 0 {
                    e == TransitError::AlreadyComplete
                } else {
                    match record_plaintext(enc_packet@, old(self).key()) {
                        Err(why) => e == why,
                        Ok(plaintext) => e == TransitError::TooMuchData && plaintext.len() > old(
                            self,
                        ).left(),
                    }
                }
            },
    {
        proof {
            use_type_invariant(&*self);
        }
        if self.remaining == 0 {
            return Err(TransitError::AlreadyComplete);
        }
        let plaintext = match decrypt_record(enc_packet, self.key.as_slice()) {
            Ok(p) => p,
            Err(e) => {
                return Err(e);
            },
        };
        if plaintext.len() as u64 > self.remaining {
            return Err(TransitError::TooMuchData);
        }
        sha256_update(&mut self.digest, plaintext.as_slice());
        self.remaining = self.remaining - plaintext.len() as u64;
        Ok(plaintext)
    }

    /// The SHA-256 digest of the plaintext opened so far.
    pub fn finish(self) -> (checksum: Vec<u8>)
        ensures
            checksum@ == sha256_digest(self.received()),
    {
        sha256_finish(self.digest)
    }
}

/// Whether two byte strings are the same.
pub fn same_bytes(a: &[u8], b: &[u8]) -> (same: bool)
    ensures
        same == (a@ == b@),
{
    if a.len() != b.len() {
        return false;
    }
    let mut i: usize = 0;
    while i < a.len()
        invariant
            i <= a.len(),
            a.len() == b.len(),
            forall|j: int| 0 <= j < i ==> a@[j] == b@[j],
        decreases a.len() - i,
    {
        if a[i] != b[i] {
            return false;
        }
        i += 1;
    }
    assert(a@ =~= b@);
    true
}

/// The text of the acknowledgement that confirms a digest.
pub open spec fn transit_ack_text(sha256: Seq<char>) -> Seq<char> {
    json_rendered(transit_ack_document(TransitAckValue { ack: "ok"@, sha256 }))
}

/// The sealed acknowledgement of a finished transfer: it confirms the
/// digest `sha256`, and is sealed under the receiver's record key with the
/// nonce zero.
pub fn make_transit_ack_msg(sha256: &str, key: &[u8]) -> (sealed: Result<Vec<u8>, TransitError>)
    ensures
        key@.len() != KEY_BYTES ==> sealed == Err::<Vec<u8>, TransitError>(TransitError::BadKey),
        key@.len() == KEY_BYTES ==> sealed is Ok,
        sealed matches Ok(packet) ==> {
            let plaintext = vstd::utf8::encode_utf8(transit_ack_text(sha256@));
            &&& packet@ == sealed_record(plaintext, 0, key@)
            &&& record_plaintext(packet@, key@) == Ok::<Seq<u8>, TransitError>(plaintext)
        },
{
    let plaintext = transit_ack("ok", sha256).serialize();
    encrypt_record(plaintext.as_str().as_bytes(), 0, key)
}

/// What the sender makes of the receiver's sealed acknowledgement, given
/// the digest of what it sent: nothing to object to where the record opens
/// to the text of an acknowledgement that carries this digest in
/// hexadecimal, and otherwise the reason why not.
pub open spec fn ack_verdict(enc_ack: Seq<u8>, rkey: Seq<u8>, checksum: Seq<u8>) -> Result<
    (),
    TransitError,
> {
    match record_plaintext(enc_ack, rkey) {
        Err(e) => Err(e),
        Ok(bytes) => if !vstd::utf8::valid_utf8(bytes) {
            Err(TransitError::BadAck)
        } else {
            match transit_ack_of_text(vstd::utf8::decode_utf8(bytes)) {
                None => Err(TransitError::BadAck),
                Some(ack) => if ack.sha256 == hex_encoding(checksum) {
                    Ok(())
                } else {
                    Err(TransitError::ChecksumMismatch)
                },
            }
        },
    }
}

/// Checks the receiver's sealed acknowledgement against the digest of what
/// was sent.
pub fn check_transit_ack(enc_ack: &[u8], rkey: &[u8], checksum: &[u8]) -> (verdict: Result<
    (),
    TransitError,
>)
    ensures
        verdict == ack_verdict(enc_ack@, rkey@, checksum@),
{
    let bytes = match decrypt_record(enc_ack, rkey) {
        Ok(b) => b,
        Err(e) => {
            return Err(e);
        },
    };
    let text = match utf8_text(bytes.as_slice()) {
        Some(t) => t,
        None => {
            return Err(TransitError::BadAck);
        },
    };
    let ack = match TransitAck::deserialize(text.as_str()) {
        Some(a) => a,
        None => {
            return Err(TransitError::BadAck);
        },
    };
    let expected = hex_encode(checksum);
    if crate::text::same_text(ack.sha256.as_str(), expected.as_str()) {
        Ok(())
    } else {
        Err(TransitError::ChecksumMismatch)
    }
}

} // verus!
