//! The handshake that opens a transit connection: the lines that the two
//! sides and the relay exchange, and the order in which they are sent and
//! expected.

use vstd::prelude::*;
use vstd::slice::slice_to_vec;
use vstd::string::StringExecFns;
use vstd::utf8::encode_utf8;
use crate::crypto::random_side_bytes;
use crate::hexcode::{hex_encode, hex_encoding};
use crate::text::join3;
use crate::transit::{
    derive_key_from_purpose, make_record_keys, purpose_key, receiver_record_key, same_bytes,
    sender_record_key, TransitError,
};

verus! {

/// Whether a connection goes to the peer itself or to a relay.
#[derive(Clone, Copy, Debug, PartialEq, Eq, Structural)]
pub enum HostType {
    Direct,
    Relay,
}

/// Which side of the transfer this is.
#[derive(Clone, Copy, Debug, PartialEq, Eq, Structural)]
pub enum Role {
    Sender,
    Receiver,
}

/// How far a handshake has come.
#[derive(Clone, Copy, Debug, PartialEq, Eq, Structural)]
pub enum HandshakeState {
    /// The request to the relay is out; its answer is awaited.
    AwaitRelay,
    /// This side's line is out; the peer's is awaited.
    AwaitPeer,
    Done,
    Failed,
}

/// The line by which the sender of a transfer presents itself.
pub open spec fn sender_line(key: Seq<u8>) -> Seq<char> {
    "transit sender "@ + hex_encoding(purpose_key(key, "transit_sender")) + " ready\n\n"@
}

/// The line by which the receiver of a transfer presents itself.
pub open spec fn receiver_line(key: Seq<u8>) -> Seq<char> {
    "transit receiver "@ + hex_encoding(purpose_key(key, "transit_receiver")) + " ready\n\n"@
}

/// The line that asks a relay to join this connection to the peer's.
pub open spec fn relay_line(key: Seq<u8>, tside: Seq<char>) -> Seq<char> {
    "please relay "@ + hex_encoding(purpose_key(key, "transit_relay_token")) + " for side "@
        + tside + "\n"@
}

/// The receiver's handshake line for a transit key.
pub fn make_receive_handshake(key: &[u8]) -> (line: String)
    ensures
        line@ == receiver_line(key@),
{
    let sub_key = derive_key_from_purpose(key, "transit_receiver");
    join3("transit receiver ", hex_encode(sub_key.as_slice()).as_str(), " ready\n\n")
}

/// The sender's handshake line for a transit key.
pub fn make_send_handshake(key: &[u8]) -> (line: String)
    ensures
        line@ == sender_line(key@),
{
    let sub_key = derive_key_from_purpose(key, "transit_sender");
    join3("transit sender ", hex_encode(sub_key.as_slice()).as_str(), " ready\n\n")
}

/// The request to a relay for a transit key and this connection's side.
pub fn make_relay_handshake(key: &[u8], tside: &str) -> (line: String)
    ensures
        line@ == relay_line(key@, tside@),
{
    let sub_key = derive_key_from_purpose(key, "transit_relay_token");
    let mut line = join3("please relay ", hex_encode(sub_key.as_slice()).as_str(), " for side ");
    line.append(tside);
    line.append("\n");
    line
}

/// Whether a text is the hexadecimal form of eight bytes.
pub open spec fn is_transit_side(tside: Seq<char>) -> bool {
    exists|bytes: Seq<u8>| bytes.len() == 8 && tside == #[trigger] hex_encoding(bytes)
}

/// A fresh name for one side of a relayed connection: eight random bytes
/// in hexadecimal.
pub fn generate_transit_side() -> (tside: String)
    ensures
        is_transit_side(tside@),
        tside@.len() == 16,
{
    let bytes = random_side_bytes();
    hex_encode(bytes.as_slice())
}

/// What to do next in a handshake.
#[derive(Debug, PartialEq)]
pub enum HandshakeNext {
    /// Write `send`, then read exactly `expect` bytes and hand them over.
    Exchange { send: Vec<u8>, expect: usize },
    /// Write `send`: the handshake has succeeded, and records are sealed
    /// under `skey` by the sender and under `rkey` by the receiver.
    Finished { send: Vec<u8>, skey: Vec<u8>, rkey: Vec<u8> },
    /// Close the connection.
    Failed(TransitError),
}

/// The value of a `HandshakeNext`.
pub enum HandshakeNextValue {
    Exchange { send: Seq<u8>, expect: nat },
    Finished { send: Seq<u8>, skey: Seq<u8>, rkey: Seq<u8> },
    Failed(TransitError),
}

impl View for HandshakeNext {
    type V = HandshakeNextValue;

    open spec fn view(&self) -> HandshakeNextValue {
        match self {
            HandshakeNext::Exchange { send, expect } => HandshakeNextValue::Exchange {
                send: send@,
                expect: *expect as nat,
            },
            HandshakeNext::Finished { send, skey, rkey } => HandshakeNextValue::Finished {
                send: send@,
                skey: skey@,
                rkey: rkey@,
            },
            HandshakeNext::Failed(e) => HandshakeNextValue::Failed(*e),
        }
    }
}

/// The bytes of this side's own line.
pub open spec fn own_line(role: Role, key: Seq<u8>) -> Seq<u8> {
    match role {
        Role::Sender => encode_utf8(sender_line(key)),
        Role::Receiver => encode_utf8(receiver_line(key)),
    }
}

/// The bytes that the peer owes: for the sender the receiver's line, for
/// the receiver the sender's line followed by `go`.
pub open spec fn expected_from_peer(role: Role, key: Seq<u8>) -> Seq<u8> {
    match role {
        Role::Sender => encode_utf8(receiver_line(key)),
        Role::Receiver => encode_utf8(sender_line(key)) + encode_utf8("go\n"@),
    }
}

/// The bytes by which a relay accepts a request.
pub open spec fn relay_ok() -> Seq<u8> {
    encode_utf8("ok\n"@)
}

/// The step that presents this side to the peer.
pub open spec fn present_step(role: Role, key: Seq<u8>) -> HandshakeNextValue {
    HandshakeNextValue::Exchange {
        send: own_line(role, key),
        expect: expected_from_peer(role, key).len(),
    }
}

/// The first step of a handshake: over a relay the request to it, else
/// this side's line.
pub open spec fn first_step(role: Role, host_type: HostType, key: Seq<u8>, tside: Seq<char>)
    -> (HandshakeState, HandshakeNextValue) {
    match host_type {
        HostType::Relay => (
            HandshakeState::AwaitRelay,
            HandshakeNextValue::Exchange {
                send: encode_utf8(relay_line(key, tside)),
                expect: relay_ok().len(),
            },
        ),
        HostType::Direct => (HandshakeState::AwaitPeer, present_step(role, key)),
    }
}

/// The step that follows the arrival of `bytes`.
///
/// A relay's `ok` is followed by this side's line. The peer's line, if it
/// is the one that the key calls for, ends the handshake: the sender then
/// writes `go`. Anything else fails the handshake, as do bytes that arrive
/// when it is over.
pub open spec fn handshake_step(role: Role, state: HandshakeState, key: Seq<u8>, bytes: Seq<u8>)
    -> (HandshakeState, HandshakeNextValue) {
    match state {
        HandshakeState::AwaitRelay => if bytes == relay_ok() {
            (HandshakeState::AwaitPeer, present_step(role, key))
        } else {
            (HandshakeState::Failed, HandshakeNextValue::Failed(TransitError::RelayRefused))
        },
        HandshakeState::AwaitPeer => if bytes == expected_from_peer(role, key) {
            (
                HandshakeState::Done,
                HandshakeNextValue::Finished {
                    send: match role {
                        Role::Sender => encode_utf8("go\n"@),
                        Role::Receiver => Seq::empty(),
                    },
                    skey: sender_record_key(key),
                    rkey: receiver_record_key(key),
                },
            )
        } else {
            (HandshakeState::Failed, HandshakeNextValue::Failed(TransitError::HandshakeMismatch))
        },
        HandshakeState::Done => (
            HandshakeState::Failed,
            HandshakeNextValue::Failed(TransitError::OutOfTurn),
        ),
        HandshakeState::Failed => (
            HandshakeState::Failed,
            HandshakeNextValue::Failed(TransitError::OutOfTurn),
        ),
    }
}

/// One side's part in the handshake over one connection.
pub struct Handshake {
    pub role: Role,
    pub state: HandshakeState,
    pub key: Vec<u8>,
}

fn peer_bytes(role: Role, key: &[u8]) -> (bytes: Vec<u8>)
    ensures
        bytes@ == expected_from_peer(role, key@),
{
    match role {
        Role::Sender => slice_to_vec(make_receive_handshake(key).as_str().as_bytes()),
        Role::Receiver => {
            let mut bytes = slice_to_vec(make_send_handshake(key).as_str().as_bytes());
            let ghost line = bytes@;
            let go = "go\n".as_bytes();
            bytes.extend_from_slice(go);
            assert(bytes@ =~= line + go@);
            bytes
        },
    }
}

fn present(role: Role, key: &[u8]) -> (next: HandshakeNext)
    ensures
        next@ == present_step(role, key@),
{
    let send = match role {
        Role::Sender => slice_to_vec(make_send_handshake(key).as_str().as_bytes()),
        Role::Receiver => slice_to_vec(make_receive_handshake(key).as_str().as_bytes()),
    };
    let expect = peer_bytes(role, key).len();
    HandshakeNext::Exchange { send, expect }
}

impl Handshake {
    /// Begins a handshake in the given role, with `tside` as the name of
    /// this side towards a relay.
    pub fn begin(role: Role, host_type: HostType, key: &[u8], tside: &str) -> (begun: (
        Handshake,
        HandshakeNext,
    ))
        ensures
            begun.0.role == role,
            begun.0.key@ == key@,
            (begun.0.state, begun.1@) == first_step(role, host_type, key@, tside@),
    {
        match host_type {
            HostType::Relay => {
                let send = slice_to_vec(make_relay_handshake(key, tside).as_str().as_bytes());
                let expect = "ok\n".as_bytes().len();
                (
                    Handshake { role, state: HandshakeState::AwaitRelay, key: slice_to_vec(key) },
                    HandshakeNext::Exchange { send, expect },
                )
            },
            HostType::Direct => (
                Handshake { role, state: HandshakeState::AwaitPeer, key: slice_to_vec(key) },
                present(role, key),
            ),
        }
    }

    /// Takes the bytes that were read and says what to do next.
    pub fn received(&mut self, bytes: &[u8]) -> (next: HandshakeNext)
        ensures
            final(self).role == old(self).role,
            final(self).key@ == old(self).key@,
            (final(self).state, next@) == handshake_step(
                old(self).role,
                old(self).state,
                old(self).key@,
                bytes@,
            ),
    {
        match self.state {
            HandshakeState::AwaitRelay => {
                if same_bytes(bytes, "ok\n".as_bytes()) {
                    self.state = HandshakeState::AwaitPeer;
                    present(self.role, self.key.as_slice())
                } else {
                    self.state = HandshakeState::Failed;
                    HandshakeNext::Failed(TransitError::RelayRefused)
                }
            },
            HandshakeState::AwaitPeer => {
                let expected = peer_bytes(self.role, self.key.as_slice());
                if same_bytes(bytes, expected.as_slice()) {
                    self.state = HandshakeState::Done;
                    let (skey, rkey) = make_record_keys(self.key.as_slice());
                    let send = match self.role {
                        Role::Sender => slice_to_vec("go\n".as_bytes()),
                        Role::Receiver => Vec::new(),
                    };
                    HandshakeNext::Finished { send, skey, rkey }
                } else {
                    self.state = HandshakeState::Failed;
                    HandshakeNext::Failed(TransitError::HandshakeMismatch)
                }
            },
            HandshakeState::Done => {
                self.state = HandshakeState::Failed;
                HandshakeNext::Failed(TransitError::OutOfTurn)
            },
            HandshakeState::Failed => HandshakeNext::Failed(TransitError::OutOfTurn),
        }
    }
}

/// Begins the sender's handshake over a connection of the given kind, under
/// a fresh name for this side.
pub fn tx_handshake_exchange(host_type: HostType, key: &[u8]) -> (begun: (Handshake, HandshakeNext))
    ensures
        begun.0.role == Role::Sender,
        begun.0.key@ == key@,
        exists|tside: Seq<char>|
            is_transit_side(tside) && (begun.0.state, begun.1@) == #[trigger] first_step(
                Role::Sender,
                host_type,
                key@,
                tside,
            ),
{
    let tside = generate_transit_side();
    Handshake::begin(Role::Sender, host_type, key, tside.as_str())
}

/// Begins the receiver's handshake over a connection of the given kind,
/// under a fresh name for this side.
pub fn rx_handshake_exchange(host_type: HostType, key: &[u8]) -> (begun: (Handshake, HandshakeNext))
    ensures
        begun.0.role == Role::Receiver,
        begun.0.key@ == key@,
        exists|tside: Seq<char>|
            is_transit_side(tside) && (begun.0.state, begun.1@) == #[trigger] first_step(
                Role::Receiver,
                host_type,
                key@,
                tside,
            ),
{
    let tside = generate_transit_side();
    Handshake::begin(Role::Receiver, host_type, key, tside.as_str())
}

} // verus!
