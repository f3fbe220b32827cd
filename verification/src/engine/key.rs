//! Key derivation, the sealing of mailbox messages, and the machine that
//! runs the key exchange.

use vstd::prelude::*;
use vstd::slice::{slice_subrange, slice_to_vec};
use vstd::string::StringExecFns;
use vstd::utf8::{decode_utf8, encode_utf8, valid_utf8};
use crate::crypto::{
    hkdf_expand, hkdf_sha256, pake_finish, pake_finished, pake_identity, pake_outbound,
    pake_password, pake_start, random_nonce, secretbox_open, secretbox_opened, secretbox_seal,
    secretbox_sealed, sha256, sha256_digest, PakeState, HKDF_MAX_BYTES, KEY_BYTES, NONCE_BYTES,
};
use crate::engine::events::{
    below, quiet, rank, BossEvent, Event, Key, KeyEvent, MailboxEvent, Phase, ReceiveEvent,
};
use crate::hexcode::{hex_decode, hex_decoding, hex_encode, hex_encoding, is_hex_text};
use crate::json::{json_parsed, json_rendered, member_views_of, Json, JsonMember, JsonValue};
use crate::text::{decimal_digits, decimal_text, utf8_text};

verus! {

/// Derives `length` bytes from `key` for the given purpose, by HKDF-SHA256
/// without salt.
pub fn derive_key(key: &[u8], purpose: &[u8], length: usize) -> (derived: Vec<u8>)
    requires
        length <= HKDF_MAX_BYTES,
    ensures
        derived@ == hkdf_sha256(key@, purpose@, length as nat),
        derived@.len() == length,
{
    hkdf_expand(key, purpose, length)
}

/// The name of a phase as it stands on the wire.
pub open spec fn phase_label(phase: Phase) -> Seq<char> {
    match phase {
        Phase::Pake => "pake"@,
        Phase::Version => "version"@,
        Phase::Message(n) => decimal_digits(n as nat),
    }
}

/// The name of a phase as it stands on the wire.
pub fn phase_name(phase: Phase) -> (name: String)
    ensures
        name@ == phase_label(phase),
{
    match phase {
        Phase::Pake => "pake".to_owned(),
        Phase::Version => "version".to_owned(),
        Phase::Message(n) => decimal_text(n),
    }
}

/// The purpose for which the key of a side's message in a phase is derived:
/// the side, `:phase:`, and the name of the phase.
pub open spec fn phase_purpose(side: Seq<char>, phase: Phase) -> Seq<char> {
    side + ":phase:"@ + phase_label(phase)
}

/// The key under which a side seals its message of a phase.
pub open spec fn phase_key(side: Seq<char>, key: Seq<u8>, phase: Phase) -> Seq<u8> {
    hkdf_sha256(key, encode_utf8(phase_purpose(side, phase)), KEY_BYTES as nat)
}

/// Derives the key under which a side seals its message of a phase.
pub fn derive_phase_key(side: &str, key: &[u8], phase: Phase) -> (derived: Vec<u8>)
    ensures
        derived@ == phase_key(side@, key@, phase),
        derived@.len() == KEY_BYTES,
{
    let mut purpose = String::from_str(side);
    purpose.append(":phase:");
    purpose.append(phase_name(phase).as_str());
    derive_key(key, purpose.as_str().as_bytes(), KEY_BYTES)
}

/// The verifier of a key: its SHA-256 digest.
pub fn derive_verifier(key: &[u8]) -> (verifier: Vec<u8>)
    ensures
        verifier@ == sha256_digest(key@),
        verifier@.len() == 32,
{
    sha256(key)
}

/// A sealed mailbox message: the nonce, then the box made under it.
pub open spec fn data_sealed(key: Seq<u8>, nonce: Seq<u8>, plaintext: Seq<u8>) -> Seq<u8> {
    nonce + secretbox_sealed(plaintext, nonce, key)
}

/// What a sealed mailbox message holds under a key, where it is long
/// enough for a nonce and its box verifies.
pub open spec fn data_opened(key: Seq<u8>, body: Seq<u8>) -> Option<Seq<u8>> {
    if body.len() < NONCE_BYTES {
        None
    } else {
        secretbox_opened(
            body.subrange(NONCE_BYTES as int, body.len() as int),
            body.subrange(0, NONCE_BYTES as int),
            key,
        )
    }
}

/// Seals a mailbox message under a key with the given nonce.
pub fn encrypt_data_with(key: &[u8], nonce: &[u8], plaintext: &[u8]) -> (body: Vec<u8>)
    requires
        key@.len() == KEY_BYTES,
        nonce@.len() == NONCE_BYTES,
    ensures
        body@ == data_sealed(key@, nonce@, plaintext@),
        data_opened(key@, body@) == Some(plaintext@),
{
    let boxed = secretbox_seal(plaintext, nonce, key);
    let mut body = slice_to_vec(nonce);
    body.extend_from_slice(boxed.as_slice());
    proof {
        assert(body@ =~= nonce@ + boxed@);
        assert(body@.subrange(0, NONCE_BYTES as int) =~= nonce@);
        assert(body@.subrange(NONCE_BYTES as int, body@.len() as int) =~= boxed@);
    }
    body
}

/// Whether `body` is a plaintext sealed under a key with some nonce, and
/// opens again under the key.
pub open spec fn seals(key: Seq<u8>, plaintext: Seq<u8>, body: Seq<u8>) -> bool {
    &&& data_opened(key, body) == Some(plaintext)
    &&& exists|nonce: Seq<u8>|
        nonce.len() == NONCE_BYTES && body == #[trigger] data_sealed(key, nonce, plaintext)
}

/// Seals a mailbox message under a key with a fresh random nonce. Whatever
/// the nonce, the message opens again under the key.
pub fn encrypt_data(key: &[u8], plaintext: &[u8]) -> (body: Vec<u8>)
    requires
        key@.len() == KEY_BYTES,
    ensures
        seals(key@, plaintext@, body@),
{
    let nonce = random_nonce();
    encrypt_data_with(key, nonce.as_slice(), plaintext)
}

/// Opens a sealed mailbox message under a key.
pub fn decrypt_data(key: &[u8], body: &[u8]) -> (plaintext: Option<Vec<u8>>)
    requires
        key@.len() == KEY_BYTES,
    ensures
        plaintext matches Some(p) ==> data_opened(key@, body@) == Some(p@),
        plaintext is None ==> data_opened(key@, body@) is None,
{
    if body.len() < NONCE_BYTES {
        return None;
    }
    let nonce = slice_subrange(body, 0, NONCE_BYTES);
    let boxed = slice_subrange(body, NONCE_BYTES, body.len());
    secretbox_open(boxed, nonce, key)
}

/// The document that carries a message of the key exchange.
pub open spec fn pake_document(message: Seq<u8>) -> JsonValue {
    JsonValue::Object(seq![JsonValue::text_entry("pake_v1"@, hex_encoding(message))])
}

/// The body of the mailbox message that carries a message of the key
/// exchange.
pub fn pake_body(message: &[u8]) -> (body: Vec<u8>)
    ensures
        body@ == encode_utf8(json_rendered(pake_document(message@))),
{
    let mut members: Vec<(String, Json)> = Vec::new();
    members.push(("pake_v1".to_owned(), Json::Text(hex_encode(message))));
    let doc = Json::object(members);
    assert(member_views_of(members@) =~= pake_document(message@)->Object_0);
    slice_to_vec(doc.render().as_str().as_bytes())
}

/// The message of the key exchange that the body of a mailbox message
/// carries: the body is to be the text of a document whose member
/// `pake_v1` is the message in hexadecimal.
pub open spec fn pake_payload_of(body: Seq<u8>) -> Option<Seq<u8>> {
    if !valid_utf8(body) {
        None
    } else {
        match json_parsed(decode_utf8(body)) {
            None => None,
            Some(doc) => match doc.text_member("pake_v1"@) {
                None => None,
                Some(hex) => if is_hex_text(hex) {
                    Some(hex_decoding(hex))
                } else {
                    None
                },
            },
        }
    }
}

/// Reads the message of the key exchange from the body of a mailbox
/// message.
pub fn pake_payload(body: &[u8]) -> (message: Option<Vec<u8>>)
    ensures
        message matches Some(m) ==> pake_payload_of(body@) == Some(m@),
        message is None ==> pake_payload_of(body@) is None,
{
    let text = match utf8_text(body) {
        Some(t) => t,
        None => {
            return None;
        },
    };
    let doc = match Json::parse(text.as_str()) {
        Some(d) => d,
        None => {
            return None;
        },
    };
    match doc.text_member("pake_v1") {
        Some(hex) => hex_decode(hex.as_str()),
        None => None,
    }
}

/// The document by which a side states its versions: it has none to state.
pub open spec fn versions_document() -> JsonValue {
    JsonValue::Object(
        seq![JsonMember { name: "app_versions"@, value: JsonValue::Object(Seq::empty()) }],
    )
}

/// The plaintext of the `version` message.
pub open spec fn versions_plaintext() -> Seq<u8> {
    encode_utf8(json_rendered(versions_document()))
}

/// The plaintext of the `version` message.
pub fn versions_message() -> (plaintext: Vec<u8>)
    ensures
        plaintext@ == versions_plaintext(),
{
    let none: Vec<(String, Json)> = Vec::new();
    let inner = Json::object(none);
    assert(member_views_of(none@) =~= Seq::<JsonMember>::empty());
    let mut members: Vec<(String, Json)> = Vec::new();
    members.push(("app_versions".to_owned(), inner));
    let doc = Json::object(members);
    assert(member_views_of(members@) =~= versions_document()->Object_0);
    slice_to_vec(doc.render().as_str().as_bytes())
}

/// Whether `out` is what follows the completion of the key exchange with
/// `key`: the key and its verifier go to the boss, this side's sealed
/// `version` message goes to the mailbox, and the key goes to the receive
/// machine.
pub open spec fn announces_key(side: Seq<char>, key: Seq<u8>, out: Seq<Event>) -> bool {
    &&& out.len() == 4
    &&& out[0] matches Event::Boss(BossEvent::GotKey(k)) && k.0@ == key
    &&& out[1] matches Event::Boss(BossEvent::GotVerifier(v)) && v@ == sha256_digest(key)
    &&& out[2] matches Event::Mailbox(MailboxEvent::AddMessage(phase, body)) && phase
        == Phase::Version && seals(
        phase_key(side, key, Phase::Version),
        versions_plaintext(),
        body@,
    )
    &&& out[3] matches Event::Receive(ReceiveEvent::GotKey(k)) && k.0@ == key
}

/// Appends to `out` what follows the completion of the key exchange.
pub fn announce_key(side: &str, key: Vec<u8>, out: &mut Vec<Event>)
    ensures
        final(out)@.len() == old(out)@.len() + 4,
        final(out)@.subrange(0, old(out)@.len() as int) == old(out)@,
        announces_key(
            side@,
            key@,
            final(out)@.subrange(old(out)@.len() as int, final(out)@.len() as int),
        ),
{
    let verifier = derive_verifier(key.as_slice());
    let version_key = derive_phase_key(side, key.as_slice(), Phase::Version);
    let body = encrypt_data(version_key.as_slice(), versions_message().as_slice());
    let ghost before = out@;
    out.push(Event::Boss(BossEvent::GotKey(Key(key.clone()))));
    out.push(Event::Boss(BossEvent::GotVerifier(verifier)));
    out.push(Event::Mailbox(MailboxEvent::AddMessage(Phase::Version, body)));
    out.push(Event::Receive(ReceiveEvent::GotKey(Key(key))));
    proof {
        assert(out@.subrange(0, before.len() as int) =~= before);
        let tail = out@.subrange(before.len() as int, out@.len() as int);
        let n = before.len() as int;
        assert(tail[0] == out@[n]);
        assert(tail[1] == out@[n + 1]);
        assert(tail[2] == out@[n + 2]);
        assert(tail[3] == out@[n + 3]);
    }
}

/// Whether `out` is what follows the outcome of the key exchange: a
/// fright where the exchange has given no key, and else the announcement
/// of the key.
pub open spec fn concludes(side: Seq<char>, outcome: Option<Seq<u8>>, out: Seq<Event>) -> bool {
    match outcome {
        None => out == seq![Event::Boss(BossEvent::Scared)],
        Some(key) => announces_key(side, key, out),
    }
}

/// Appends to `out` what follows the outcome of the key exchange.
pub fn conclude_exchange(side: &str, outcome: Option<Vec<u8>>, out: &mut Vec<Event>)
    ensures
        final(out)@.len() >= old(out)@.len(),
        final(out)@.subrange(0, old(out)@.len() as int) == old(out)@,
        concludes(
            side@,
            match outcome {
                Some(key) => Some(key@),
                None => None,
            },
            final(out)@.subrange(old(out)@.len() as int, final(out)@.len() as int),
        ),
{
    let ghost before = out@;
    match outcome {
        None => {
            out.push(Event::Boss(BossEvent::Scared));
            proof {
                assert(out@.subrange(0, before.len() as int) =~= before);
                assert(out@.subrange(before.len() as int, out@.len() as int) =~= seq![
                    Event::Boss(BossEvent::Scared),
                ]);
            }
        },
        Some(key) => {
            announce_key(side, key, out);
        },
    }
}

pub enum KeyState {
    Idle,
    /// The code is known and this side's message is out.
    HasCode(PakeState),
    /// The peer's message has come and the code is not known yet.
    HasPake(Vec<u8>),
    Done,
}

pub struct KeyMachine {
    pub state: KeyState,
    pub appid: String,
    pub side: String,
}

/// Whether `exchange` was started for `code` in the application `appid`:
/// with the code as its password and the application's name as its
/// identity.
pub open spec fn started_with(exchange: PakeState, code: Seq<char>, appid: Seq<char>) -> bool {
    &&& pake_password(exchange) == encode_utf8(code)
    &&& pake_identity(exchange) == encode_utf8(appid)
}

/// Whether `event` posts this side's message of `exchange`: the message
/// that came with the exchange when it was started, carried in the `pake`
/// phase.
pub open spec fn starts_exchange(exchange: PakeState, event: Event) -> bool {
    event matches Event::Mailbox(MailboxEvent::AddMessage(phase, body)) && phase == Phase::Pake
        && body@ == encode_utf8(json_rendered(pake_document(pake_outbound(exchange))))
}

/// Whether `out` is how `exchange` ends on the body `inbound` of the
/// peer's message: in an error, where the body carries no message at all;
/// in fright, where the exchange refuses the peer's message; and else with
/// the announcement of the key that the exchange gives for it.
pub open spec fn ends_exchange(
    side: Seq<char>,
    exchange: PakeState,
    inbound: Seq<u8>,
    out: Seq<Event>,
) -> bool {
    match pake_payload_of(inbound) {
        None => out == seq![Event::Boss(BossEvent::Error)],
        Some(payload) => concludes(side, pake_finished(exchange, payload), out),
    }
}

impl KeyMachine {
    /// Whether `next` and `out` are the state that follows `event` and
    /// what the machine emits on it.
    ///
    /// The code starts the exchange, with the code as password and the
    /// application's name as identity: this side's message goes to the
    /// mailbox. The exchange ends when both the code and the peer's message
    /// are there. An event that comes a second time is an error if it is
    /// the code, and is passed over if it is the peer's message.
    pub open spec fn follows(self, event: KeyEvent, next: KeyState, out: Seq<Event>) -> bool {
        match (self.state, event) {
            (KeyState::Idle, KeyEvent::GotCode(code)) => {
                &&& next matches KeyState::HasCode(exchange)
                &&& started_with(exchange, code.0@, self.appid@)
                &&& out.len() == 1
                &&& starts_exchange(exchange, out[0])
            },
            (KeyState::HasPake(inbound), KeyEvent::GotCode(code)) => {
                &&& next is Done
                &&& out.len() >= 1
                &&& exists|exchange: PakeState|
                    {
                        &&& started_with(exchange, code.0@, self.appid@)
                        &&& #[trigger] starts_exchange(exchange, out[0])
                        &&& ends_exchange(
                            self.side@,
                            exchange,
                            inbound@,
                            out.subrange(1, out.len() as int),
                        )
                    }
            },
            (_, KeyEvent::GotCode(_)) => next == self.state && out == seq![
                Event::Boss(BossEvent::Error),
            ],
            (KeyState::Idle, KeyEvent::GotPake(inbound)) => next == KeyState::HasPake(inbound)
                && out == Seq::<Event>::empty(),
            (KeyState::HasCode(exchange), KeyEvent::GotPake(inbound)) => next is Done
                && ends_exchange(self.side@, exchange, inbound@, out),
            (_, KeyEvent::GotPake(_)) => next == self.state && out == Seq::<Event>::empty(),
        }
    }

    /// A machine for a side of an application, before the code is known.
    pub fn new(appid: &str, side: &str) -> (machine: KeyMachine)
        ensures
            machine.state is Idle,
            machine.appid@ == appid@,
            machine.side@ == side@,
    {
        KeyMachine { state: KeyState::Idle, appid: appid.to_owned(), side: side.to_owned() }
    }

    fn finish(&self, exchange: PakeState, inbound: &[u8], out: &mut Vec<Event>)
        ensures
            final(out)@.subrange(0, old(out)@.len() as int) == old(out)@,
            final(out)@.len() >= old(out)@.len(),
            ends_exchange(
                self.side@,
                exchange,
                inbound@,
                final(out)@.subrange(old(out)@.len() as int, final(out)@.len() as int),
            ),
            forall|i: int|
                old(out)@.len() <= i < final(out)@.len() ==> rank(#[trigger] final(out)@[i]) <= 8
                    && !(final(out)@[i] is API),
    {
        let ghost before = out@;
        match pake_payload(inbound) {
            None => {
                out.push(Event::Boss(BossEvent::Error));
                proof {
                    assert(out@.subrange(0, before.len() as int) =~= before);
                    assert(out@.subrange(before.len() as int, out@.len() as int) =~= seq![
                        Event::Boss(BossEvent::Error),
                    ]);
                }
            },
            Some(message) => {
                let outcome = pake_finish(exchange, message.as_slice());
                conclude_exchange(self.side.as_str(), outcome, out);
                proof {
                    let tail = out@.subrange(before.len() as int, out@.len() as int);
                    assert(concludes(self.side@, pake_finished(exchange, message@), tail));
                    assert forall|i: int| before.len() <= i < out@.len() implies rank(
                        #[trigger] out@[i],
                    ) <= 8 && !(out@[i] is API) by {
                        assert(out@[i] == tail[i - before.len()]);
                    }
                }
            },
        }
    }

    /// Whether `after` and `out` are the machine and what it has emitted
    /// once it has processed `event`.
    pub open spec fn processed(self, event: KeyEvent, after: KeyMachine, out: Seq<Event>) -> bool {
        &&& after.appid == self.appid
        &&& after.side == self.side
        &&& self.follows(event, after.state, out)
    }

    /// Processes one event.
    pub fn process(&mut self, event: KeyEvent) -> (out: Vec<Event>)
        ensures
            old(self).processed(event, *final(self), out@),
            below(out@, rank(Event::Key(event))),
            quiet(out@),
    {
        let mut out: Vec<Event> = Vec::new();
        let mut state = KeyState::Idle;
        core::mem::swap(&mut state, &mut self.state);
        match (state, event) {
            (KeyState::Idle, KeyEvent::GotCode(code)) => {
                let (exchange, outbound) = pake_start(
                    code.0.as_str().as_bytes(),
                    self.appid.as_str().as_bytes(),
                );
                out.push(
                    Event::Mailbox(
                        MailboxEvent::AddMessage(Phase::Pake, pake_body(outbound.as_slice())),
                    ),
                );
                self.state = KeyState::HasCode(exchange);
            },
            (KeyState::HasPake(inbound), KeyEvent::GotCode(code)) => {
                let (exchange, outbound) = pake_start(
                    code.0.as_str().as_bytes(),
                    self.appid.as_str().as_bytes(),
                );
                out.push(
                    Event::Mailbox(
                        MailboxEvent::AddMessage(Phase::Pake, pake_body(outbound.as_slice())),
                    ),
                );
                let ghost first = out@;
                let ghost started = exchange;
                self.finish(exchange, inbound.as_slice(), &mut out);
                proof {
                    assert(out@.subrange(0, 1)[0] == first[0]);
                    assert(starts_exchange(started, out@[0]));
                    assert forall|i: int| 0 <= i < out@.len() implies rank(#[trigger] out@[i]) < 9
                        && !(out@[i] is API) by {
                        if i == 0 {
                            assert(out@[0] == first[0]);
                        }
                    }
                }
                self.state = KeyState::Done;
            },
            (other, KeyEvent::GotCode(_)) => {
                out.push(Event::Boss(BossEvent::Error));
                assert(out@ =~= seq![Event::Boss(BossEvent::Error)]);
                self.state = other;
            },
            (KeyState::Idle, KeyEvent::GotPake(inbound)) => {
                self.state = KeyState::HasPake(inbound);
            },
            (KeyState::HasCode(exchange), KeyEvent::GotPake(inbound)) => {
                self.finish(exchange, inbound.as_slice(), &mut out);
                proof {
                    assert(out@.subrange(0, out@.len() as int) =~= out@);
                    assert forall|i: int| 0 <= i < out@.len() implies rank(#[trigger] out@[i]) < 9
                        && !(out@[i] is API) by {}
                }
                self.state = KeyState::Done;
            },
            (other, KeyEvent::GotPake(_)) => {
                self.state = other;
            },
        }
        out
    }
}

} // verus!
