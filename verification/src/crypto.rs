//! The cryptographic primitives that the protocol rests on. Each is taken
//! from the crate that provides it; what is claimed of it here is believed,
//! not proved.

use vstd::prelude::*;

verus! {

/// Length of a SHA-256 digest, in bytes.
pub const DIGEST_BYTES: usize = 32;

/// Length of a secretbox key, in bytes.
pub const KEY_BYTES: usize = 32;

/// Length of a secretbox nonce, in bytes.
pub const NONCE_BYTES: usize = 24;

/// Number of bytes by which a sealed box is longer than its plaintext.
pub const MAC_BYTES: usize = 16;

/// Length of a SPAKE2 message on the Ed25519 group: one byte for the side
/// and the encoded group element.
pub const PAKE_MESSAGE_BYTES: usize = 33;

/// Longest output that HKDF-SHA256 gives: 255 blocks of digest length.
pub const HKDF_MAX_BYTES: usize = 8160;

/// The SHA-256 digest of a byte string.
pub uninterp spec fn sha256_digest(data: Seq<u8>) -> Seq<u8>;

/// The first `length` bytes that HKDF-SHA256 derives from the input key
/// `key` with no salt and the context `purpose`.
pub uninterp spec fn hkdf_sha256(key: Seq<u8>, purpose: Seq<u8>, length: nat) -> Seq<u8>;

/// Calls `hkdf::Hkdf::<Sha256>::new` with no salt and then `expand`, which
/// fills a buffer of the length asked for and fails only for more than 255
/// blocks of output.
#[verifier::external_body]
pub(crate) fn hkdf_expand(key: &[u8], purpose: &[u8], length: usize) -> (derived: Vec<u8>)
    requires
        length <= HKDF_MAX_BYTES,
    ensures
        derived@ == hkdf_sha256(key@, purpose@, length as nat),
        derived@.len() == length,
{
    let mut derived = vec![0u8; length];
    hkdf::Hkdf::<sha2::Sha256>::new(None, key).expand(purpose, &mut derived).unwrap();
    derived
}

/// The box that secretbox makes of a plaintext under a nonce and a key.
pub uninterp spec fn secretbox_sealed(plaintext: Seq<u8>, nonce: Seq<u8>, key: Seq<u8>) -> Seq<u8>;

/// What secretbox finds in a box under a nonce and a key: the plaintext, or
/// nothing where the box does not verify.
pub uninterp spec fn secretbox_opened(boxed: Seq<u8>, nonce: Seq<u8>, key: Seq<u8>) -> Option<
    Seq<u8>,
>;

/// Calls `sodiumoxide::crypto::secretbox::seal`. The box is the plaintext's
/// length plus the authenticator's, and `open` with the same nonce and key
/// verifies it and gives the plaintext back.
#[verifier::external_body]
pub(crate) fn secretbox_seal(plaintext: &[u8], nonce: &[u8], key: &[u8]) -> (boxed: Vec<u8>)
    requires
        nonce@.len() == NONCE_BYTES,
        key@.len() == KEY_BYTES,
    ensures
        boxed@ == secretbox_sealed(plaintext@, nonce@, key@),
        boxed@.len() == plaintext@.len() + MAC_BYTES,
        secretbox_opened(boxed@, nonce@, key@) == Some(plaintext@),
{
    let nonce = sodiumoxide::crypto::secretbox::Nonce::from_slice(nonce).unwrap();
    let key = sodiumoxide::crypto::secretbox::Key::from_slice(key).unwrap();
    sodiumoxide::crypto::secretbox::seal(plaintext, &nonce, &key)
}

/// Calls `sodiumoxide::crypto::secretbox::open`, which refuses a box
/// shorter than the authenticator and one that does not verify, and gives a
/// plaintext shorter than the box by the authenticator's length.
#[verifier::external_body]
pub(crate) fn secretbox_open(boxed: &[u8], nonce: &[u8], key: &[u8]) -> (plaintext: Option<
    Vec<u8>,
>)
    requires
        nonce@.len() == NONCE_BYTES,
        key@.len() == KEY_BYTES,
    ensures
        plaintext is Some <==> secretbox_opened(boxed@, nonce@, key@) is Some,
        plaintext matches Some(p) ==> secretbox_opened(boxed@, nonce@, key@) == Some(p@) && p@.len()
            + MAC_BYTES == boxed@.len(),
{
    let nonce = sodiumoxide::crypto::secretbox::Nonce::from_slice(nonce).unwrap();
    let key = sodiumoxide::crypto::secretbox::Key::from_slice(key).unwrap();
    sodiumoxide::crypto::secretbox::open(boxed, &nonce, &key).ok()
}

/// Calls `sodiumoxide::crypto::secretbox::gen_nonce`: a nonce of 24 random
/// bytes.
#[verifier::external_body]
pub(crate) fn random_nonce() -> (nonce: Vec<u8>)
    ensures
        nonce@.len() == NONCE_BYTES,
{
    sodiumoxide::crypto::secretbox::gen_nonce().0.to_vec()
}

/// Calls `rand::random` for eight random bytes.
#[verifier::external_body]
pub(crate) fn random_side_bytes() -> (bytes: Vec<u8>)
    ensures
        bytes@.len() == 8,
{
    rand::random::<[u8; 8]>().to_vec()
}

/// Calls `rand::Rng::gen_range` on the thread's generator for a number at
/// or above zero and below `bound`.
#[verifier::external_body]
pub(crate) fn random_below(bound: usize) -> (n: usize)
    requires
        bound > 0,
    ensures
        n < bound,
{
    rand::Rng::gen_range(&mut rand::thread_rng(), 0..bound)
}

/// One side's secret state of a SPAKE2 exchange that has been started, as
/// `spake2::Spake2` holds it. Nothing of it is visible to the library: it is
/// made by `pake_start` and used up by `pake_finish`.
#[verifier::external_body]
pub struct PakeState {
    inner: spake2::Spake2<spake2::Ed25519Group>,
}

/// The password that the exchange was started with, as `spake2::Spake2`
/// keeps it.
pub uninterp spec fn pake_password(state: PakeState) -> Seq<u8>;

/// The identity that the symmetric exchange was started with, as
/// `spake2::Spake2` keeps it.
pub uninterp spec fn pake_identity(state: PakeState) -> Seq<u8>;

/// The message for the peer that was handed out when the exchange was
/// started: the byte `S` and the group element that `spake2::Spake2` keeps.
pub uninterp spec fn pake_outbound(state: PakeState) -> Seq<u8>;

/// What `spake2::Spake2::finish` gives for a started exchange and the
/// peer's message: the key, or nothing where it refuses the message.
pub uninterp spec fn pake_finished(state: PakeState, inbound: Seq<u8>) -> Option<Seq<u8>>;

/// Calls `spake2::Spake2::<Ed25519Group>::start_symmetric`, which draws a
/// random scalar and gives the state to keep and the message for the peer:
/// the byte `S` and the 32 bytes of a group element. The state keeps the
/// password, the identity and that message.
#[verifier::external_body]
pub(crate) fn pake_start(password: &[u8], identity: &[u8]) -> (started: (PakeState, Vec<u8>))
    ensures
        started.1@.len() == PAKE_MESSAGE_BYTES,
        started.1@ == pake_outbound(started.0),
        pake_password(started.0) == password@,
        pake_identity(started.0) == identity@,
{
    let (inner, outbound) = spake2::Spake2::<spake2::Ed25519Group>::start_symmetric(
        &spake2::Password::new(password),
        &spake2::Identity::new(identity),
    );
    (PakeState { inner }, outbound)
}

/// Calls `spake2::Spake2::finish`, which refuses a message of another
/// length than 33 bytes, one from the wrong side and one that is no group
/// element, and otherwise gives the SHA-256 digest of the transcript: a
/// function of the state and the message, of 32 bytes.
#[verifier::external_body]
pub(crate) fn pake_finish(state: PakeState, inbound: &[u8]) -> (key: Option<Vec<u8>>)
    ensures
        key.is_some() == pake_finished(state, inbound@).is_some(),
        key matches Some(k) ==> pake_finished(state, inbound@) == Some(k@) && k@.len()
            == KEY_BYTES,
        inbound@.len() != PAKE_MESSAGE_BYTES ==> key is None,
{
    state.inner.finish(inbound).ok()
}

/// A running SHA-256 computation, as `sha2::Sha256` holds it. Nothing of
/// it is visible to the library but the bytes that it has been fed.
#[verifier::external_body]
pub struct Sha256Stream {
    inner: sha2::Sha256,
}

/// The bytes that have been fed to a running SHA-256 computation, in order.
pub uninterp spec fn hashed_bytes(stream: Sha256Stream) -> Seq<u8>;

/// Calls `sha2::Sha256::new`: a computation that has been fed nothing.
#[verifier::external_body]
pub(crate) fn sha256_start() -> (stream: Sha256Stream)
    ensures
        hashed_bytes(stream) == Seq::<u8>::empty(),
{
    Sha256Stream { inner: <sha2::Sha256 as sha2::Digest>::new() }
}

/// Calls `sha2::Digest::update`, which feeds `data` after what was fed
/// before, and does not panic.
#[verifier::external_body]
pub(crate) fn sha256_update(stream: &mut Sha256Stream, data: &[u8])
    ensures
        hashed_bytes(*final(stream)) == hashed_bytes(*old(stream)) + data@,
    no_unwind
{
    sha2::Digest::update(&mut stream.inner, data)
}

/// Calls `sha2::Digest::finalize`: the digest of all that was fed.
#[verifier::external_body]
pub(crate) fn sha256_finish(stream: Sha256Stream) -> (digest: Vec<u8>)
    ensures
        digest@ == sha256_digest(hashed_bytes(stream)),
        digest@.len() == DIGEST_BYTES,
{
    sha2::Digest::finalize(stream.inner).to_vec()
}

/// The SHA-256 digest of `data`, which is 32 bytes long.
pub fn sha256(data: &[u8]) -> (digest: Vec<u8>)
    ensures
        digest@ == sha256_digest(data@),
        digest@.len() == DIGEST_BYTES,
{
    let mut stream = sha256_start();
    sha256_update(&mut stream, data);
    assert(Seq::<u8>::empty() + data@ =~= data@);
    sha256_finish(stream)
}

} // verus!
