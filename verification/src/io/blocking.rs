//! The decisions of a blocking client: how a relay is named, what is sent,
//! and the steps of sending and receiving.

use vstd::prelude::*;
use vstd::slice::slice_to_vec;
use vstd::string::StringExecFns;
use vstd::utf8::{decode_utf8, encode_utf8, valid_utf8};
use crate::crypto::{hkdf_sha256, KEY_BYTES};
use crate::engine::api::{APIAction, APIEvent, IOEvent, TimerHandle, WSHandle};
use crate::engine::key::derive_key;
use crate::engine::WormholeCore;
use crate::handshake::{HostType, Role};
use crate::io::hints::{
    build_direct_hints, build_relay_hints, direct_hints_for, direct_hosts_from,
    get_direct_relay_hosts, hosts_are, relay_hints_for, relay_hosts_from, Host, Interface,
};
use crate::json::json_rendered;
use crate::text::{
    all_digits, chars_of, digits_value, find_char, parse_decimal, same_chars, same_text,
    slice_chars, text_of, utf8_text,
};
use crate::transfer::{
    ability_views, file_ack, hint_views, message, message_ack, offer_file, peer_message_document,
    peer_message_of_text, transit, Abilities, AnswerType, AnswerValue, HintValue,
    Hints, OfferType, OfferValue, PeerMessage, PeerMessageValue, TransitType, TransitValue,
};
use crate::transit::TransitError;

verus! {

/// The address of a transit relay.
#[derive(Debug, PartialEq, Eq)]
pub struct RelayUrl {
    pub host: String,
    pub port: u16,
}

/// Why a text does not name a relay.
#[derive(Clone, Copy, Debug, PartialEq, Eq, Structural)]
pub enum RelayUrlError {
    /// The text is not of the form `tcp:<host>:<port>`.
    Format,
    /// The port is no number that fits sixteen bits.
    Port,
}

/// What is to be sent.
#[derive(Debug, PartialEq)]
pub enum MessageType {
    Message(String),
    File { filename: String, filesize: u64 },
}

/// The port that a text denotes: decimal digits, after an optional plus
/// sign, for a number that fits sixteen bits.
pub open spec fn port_of(text: Seq<char>) -> Option<u16> {
    let digits = if text.len() > 0 && text[0] == '+' {
        text.subrange(1, text.len() as int)
    } else {
        text
    };
    if digits.len() > 0 && all_digits(digits) && digits_value(digits) <= 65535 {
        Some(digits_value(digits) as u16)
    } else {
        None
    }
}

/// The positions of the two colons of a text that holds exactly two.
pub open spec fn two_colons(url: Seq<char>) -> Option<(int, int)> {
    if exists|a: int, b: int| #[trigger] colons_at(url, a, b) {
        Some(choose|pair: (int, int)| colons_at(url, pair.0, pair.1))
    } else {
        None
    }
}

/// Whether the colons of `url` stand at `a` and `b`, and nowhere else.
pub open spec fn colons_at(url: Seq<char>, a: int, b: int) -> bool {
    &&& 0 <= a < b < url.len()
    &&& forall|i: int| 0 <= i < url.len() ==> (url[i] == ':' <==> (i == a || i == b))
}

/// The relay that a text names: `tcp`, a host and a port, with one colon
/// between each two; or why it names none.
pub open spec fn relay_url_of(url: Seq<char>) -> Result<(Seq<char>, u16), RelayUrlError> {
    match two_colons(url) {
        Some((a, b)) => if url.subrange(0, a) == "tcp"@ {
            match port_of(url.subrange(b + 1, url.len() as int)) {
                Some(port) => Ok((url.subrange(a + 1, b), port)),
                None => Err(RelayUrlError::Port),
            }
        } else {
            Err(RelayUrlError::Format)
        },
        None => Err(RelayUrlError::Format),
    }
}

/// There is at most one way for a text to hold exactly two colons.
pub proof fn lemma_colons_unique(url: Seq<char>, a: int, b: int)
    requires
        colons_at(url, a, b),
    ensures
        two_colons(url) == Some((a, b)),
{
    let pair = choose|pair: (int, int)| colons_at(url, pair.0, pair.1);
    assert(colons_at(url, (a, b).0, (a, b).1));
    assert(colons_at(url, pair.0, pair.1));
    assert(url[a] == ':' && url[b] == ':');
    assert(url[pair.0] == ':' && url[pair.1] == ':');
}

fn parse_port(text: &[char]) -> (port: Option<u16>)
    ensures
        port == port_of(text@),
{
    let digits = if text.len() > 0 && text[0] == '+' {
        slice_chars(text, 1, text.len())
    } else {
        slice_chars(text, 0, text.len())
    };
    proof {
        if !(text.len() > 0 && text@[0] == '+') {
            assert(text@.subrange(0, text@.len() as int) =~= text@);
        }
    }
    match parse_decimal(digits.as_slice(), 65535) {
        Some(n) => Some(n as u16),
        None => None,
    }
}

impl RelayUrl {
    /// Reads the address of a relay from a text of the form
    /// `tcp:<host>:<port>`.
    pub fn parse(url: &str) -> (relay: Result<RelayUrl, RelayUrlError>)
        ensures
            relay matches Ok(r) ==> relay_url_of(url@) == Ok::<(Seq<char>, u16), RelayUrlError>(
                (r.host@, r.port),
            ),
            relay matches Err(e) ==> relay_url_of(url@) == Err::<(Seq<char>, u16), RelayUrlError>(
                e,
            ),
    {
        let chars = chars_of(url);
        let a = match find_char(chars.as_slice(), ':', 0) {
            Some(a) => a,
            None => {
                assert forall|x: int, y: int| !colons_at(url@, x, y) by {
                    if colons_at(url@, x, y) {
                        assert(url@[x] == ':');
                    }
                }
                return Err(RelayUrlError::Format);
            },
        };
        let b = match find_char(chars.as_slice(), ':', a + 1) {
            Some(b) => b,
            None => {
                assert forall|x: int, y: int| !colons_at(url@, x, y) by {
                    if colons_at(url@, x, y) {
                        assert(url@[x] == ':' && url@[y] == ':');
                    }
                }
                return Err(RelayUrlError::Format);
            },
        };
        if let Some(c) = find_char(chars.as_slice(), ':', b + 1) {
            assert forall|x: int, y: int| !colons_at(url@, x, y) by {
                if colons_at(url@, x, y) {
                    assert(url@[a as int] == ':' && url@[b as int] == ':' && url@[c as int]
                        == ':');
                }
            }
            return Err(RelayUrlError::Format);
        }
        proof {
            assert(colons_at(url@, a as int, b as int));
            lemma_colons_unique(url@, a as int, b as int);
        }
        let scheme = slice_chars(chars.as_slice(), 0, a);
        let tcp = chars_of("tcp");
        if !same_chars(scheme.as_slice(), tcp.as_slice()) {
            return Err(RelayUrlError::Format);
        }
        let port_text = slice_chars(chars.as_slice(), b + 1, chars.len());
        match parse_port(port_text.as_slice()) {
            Some(port) => {
                let host = slice_chars(chars.as_slice(), a + 1, b);
                Ok(RelayUrl { host: text_of(host.as_slice()), port })
            },
            None => Err(RelayUrlError::Port),
        }
    }
}

/// What a text that names no relay is answered with.
pub open spec fn relay_url_complaint(error: RelayUrlError) -> Seq<char> {
    match error {
        RelayUrlError::Format => "Incorrect relay server url format"@,
        RelayUrlError::Port => "Cannot parse relay url port"@,
    }
}

impl std::str::FromStr for RelayUrl {
    type Err = &'static str;

    /// Reads the address of a relay from a text of the form
    /// `tcp:<host>:<port>`, and says in words what is wrong with a text
    /// that has another form.
    fn from_str(url: &str) -> (relay: Result<RelayUrl, &'static str>)
        ensures
            relay matches Ok(r) ==> relay_url_of(url@) == Ok::<(Seq<char>, u16), RelayUrlError>(
                (r.host@, r.port),
            ),
            relay matches Err(complaint) ==> (relay_url_of(url@) matches Err(e) && complaint@
                == relay_url_complaint(e)),
    {
        match RelayUrl::parse(url) {
            Ok(relay) => Ok(relay),
            Err(RelayUrlError::Port) => Err("Cannot parse relay url port"),
            Err(RelayUrlError::Format) => Err("Incorrect relay server url format"),
        }
    }
}

/// The purpose for which the transit key of an application is derived.
pub open spec fn transit_purpose(appid: Seq<char>) -> Seq<char> {
    appid + "/transit-key"@
}

/// Derives the transit key of an application from the session key.
pub fn derive_transit_key(key: &[u8], appid: &str) -> (derived: Vec<u8>)
    ensures
        derived@ == hkdf_sha256(key@, encode_utf8(transit_purpose(appid@)), KEY_BYTES as nat),
        derived@.len() == KEY_BYTES,
{
    let mut purpose = String::from_str(appid);
    purpose.append("/transit-key");
    derive_key(key, purpose.as_str().as_bytes(), KEY_BYTES)
}

/// The bytes of the text that a peer message is sent as.
pub open spec fn wire_message(message: PeerMessageValue) -> Seq<u8> {
    encode_utf8(json_rendered(peer_message_document(message)))
}

fn wire(message: &PeerMessage) -> (bytes: Vec<u8>)
    ensures
        bytes@ == wire_message(message@),
{
    slice_to_vec(message.serialize().as_str().as_bytes())
}

/// The peer message that the body of a mailbox message holds, or nothing
/// where the body is no text or the text no peer message.
pub open spec fn peer_message_in(body: Seq<u8>) -> Option<PeerMessageValue> {
    if valid_utf8(body) {
        peer_message_of_text(decode_utf8(body))
    } else {
        None
    }
}

/// Reads a peer message from the body of a mailbox message.
pub fn read_peer_message(body: &[u8]) -> (message: Option<PeerMessage>)
    ensures
        message matches Some(m) ==> peer_message_in(body@) == Some(m@),
        message is None ==> peer_message_in(body@) is None,
{
    match utf8_text(body) {
        Some(text) => PeerMessage::deserialize(text.as_str()),
        None => None,
    }
}

/// The transit message of a side that can connect directly and through a
/// relay, with its direct hints followed by its relay hints.
pub open spec fn transit_offer(direct: Seq<HintValue>, relay: Seq<HintValue>) -> PeerMessageValue {
    PeerMessageValue::Transit(
        TransitValue { abilities: seq!["direct-tcp-v1"@, "relay-v1"@], hints: direct + relay },
    )
}

/// The transit message of this side, as it is sent.
pub fn make_transit_message(direct_hints: Vec<Hints>, relay_hints: Vec<Hints>) -> (bytes: Vec<u8>)
    ensures
        bytes@ == wire_message(transit_offer(hint_views(direct_hints@), hint_views(relay_hints@))),
{
    let mut abilities: Vec<Abilities> = Vec::new();
    abilities.push(Abilities { ttype: "direct-tcp-v1".to_owned() });
    abilities.push(Abilities { ttype: "relay-v1".to_owned() });
    let mut our_hints = direct_hints;
    let mut more = relay_hints;
    let ghost direct = our_hints@;
    let ghost relay = more@;
    our_hints.append(&mut more);
    proof {
        assert(ability_views(abilities@) =~= seq!["direct-tcp-v1"@, "relay-v1"@]);
        assert(hint_views(our_hints@) =~= hint_views(direct) + hint_views(relay));
    }
    wire(&transit(abilities, our_hints))
}

/// Why a transfer came to nothing.
#[derive(Clone, Copy, Debug, PartialEq, Eq, Structural)]
pub enum TransferError {
    /// The peer's message is no peer message.
    BadMessage,
    /// The peer's message is not the one that is due.
    UnexpectedMessage,
    /// The peer did not accept the file.
    FileAckFailed,
    /// The peer answered with something else than its word on the file.
    NoFileAck,
    /// The peer offers something else than a file.
    UnexpectedOffer,
    /// The peer offers a directory, which cannot be received.
    UnsupportedOffer,
    /// An answer came where an offer was due.
    UnexpectedAnswer,
    /// No host of the peer could be reached and greeted.
    NoRoute,
    /// An event came that the transfer does not wait for.
    OutOfTurn,
    /// The connection was there and the transfer failed on it.
    Transit(TransitError),
}

/// What follows once a message has been posted.
#[derive(Debug, PartialEq)]
pub enum After {
    /// Wait for the peer's next message and hand it over.
    AwaitMessage,
    /// Connect to the host, greet it, and transfer the file; report how it
    /// went.
    Connect(Host),
    /// Nothing: the transfer is over.
    Finished(Result<(), TransferError>),
}

/// What the glue is to do next for a transfer: post a message in the
/// mailbox, where there is one, and go on as told.
#[derive(Debug, PartialEq)]
pub struct TransferStep {
    pub send: Option<Vec<u8>>,
    pub after: After,
}

#[derive(Clone, Copy, Debug, PartialEq, Eq, Structural)]
pub enum TransferState {
    /// The sender waits for the peer's transit message.
    AwaitTransit,
    /// The sender waits for the peer's word on the file.
    AwaitFileAck,
    /// The receiver waits for the offer.
    AwaitOffer,
    /// The hosts are being tried; this is the index of the one in hand.
    Connecting(usize),
    Done,
}

/// The negotiation and the connection attempts of one file transfer.
pub struct FileTransfer {
    pub role: Role,
    pub state: TransferState,
    pub filename: String,
    pub filesize: u64,
    /// The hosts of the peer: the direct ones, followed by those of its
    /// relay hints.
    pub hosts: Vec<Host>,
}

/// Whether `hosts` are the hosts that a transit message offers, in the
/// order of preference: the direct ones first, and behind them those of every
/// relay hint, hint after hint.
pub open spec fn hosts_of(hosts: Seq<Host>, transit: TransitValue) -> bool {
    let direct = direct_hosts_from(transit.hints, 0);
    let relay = relay_hosts_from(transit.hints, 0);
    &&& hosts.len() == direct.len() + relay.len()
    &&& hosts_are(hosts.subrange(0, direct.len() as int), HostType::Direct, direct)
    &&& hosts_are(hosts.subrange(direct.len() as int, hosts.len() as int), HostType::Relay, relay)
}

fn ordered_hosts(ttype: &TransitType) -> (hosts: Vec<Host>)
    ensures
        hosts_of(hosts@, ttype@),
{
    let (mut hosts, mut relay_hosts) = get_direct_relay_hosts(ttype);
    let ghost direct = hosts@;
    let ghost relay = relay_hosts@;
    hosts.append(&mut relay_hosts);
    proof {
        assert(hosts@.subrange(0, direct.len() as int) =~= direct);
        assert(hosts@.subrange(direct.len() as int, hosts@.len() as int) =~= relay);
    }
    hosts
}

fn copy_host(host: &Host) -> (copy: Host)
    ensures
        copy.host_type == host.host_type,
        copy.endpoint@ == host.endpoint@,
{
    Host {
        host_type: host.host_type,
        endpoint: crate::transfer::DirectType {
            priority: host.endpoint.priority.clone(),
            hostname: host.endpoint.hostname.clone(),
            port: host.endpoint.port,
        },
    }
}

fn finished(result: Result<(), TransferError>) -> (step: TransferStep)
    ensures
        step.send is None,
        step.after == After::Finished(result),
{
    TransferStep { send: None, after: After::Finished(result) }
}

impl FileTransfer {
    /// Whether `after` is the attempt on host number `index`, or the end of
    /// the transfer for want of a host where there is none of that number.
    pub open spec fn tries(self, index: int, after: After) -> bool {
        if 0 <= index < self.hosts@.len() {
            after matches After::Connect(host) && host.host_type == self.hosts@[index].host_type
                && host.endpoint@ == self.hosts@[index].endpoint@
        } else {
            after == After::Finished(Err(TransferError::NoRoute))
        }
    }

    /// The state in which host number `index` is tried, or the end where
    /// there is none of that number.
    pub open spec fn trying(self, index: int) -> TransferState {
        if 0 <= index < self.hosts@.len() {
            TransferState::Connecting(index as usize)
        } else {
            TransferState::Done
        }
    }

    fn attempt(&mut self, index: usize) -> (after: After)
        ensures
            old(self).tries(index as int, after),
            final(self).state == old(self).trying(index as int),
            final(self).role == old(self).role,
            final(self).filename == old(self).filename,
            final(self).filesize == old(self).filesize,
            final(self).hosts == old(self).hosts,
    {
        if index < self.hosts.len() {
            self.state = TransferState::Connecting(index);
            After::Connect(copy_host(&self.hosts[index]))
        } else {
            self.state = TransferState::Done;
            After::Finished(Err(TransferError::NoRoute))
        }
    }

    /// Begins the sending of a file: this side's transit message goes out,
    /// and the peer's is awaited.
    pub fn begin_send(
        filename: &str,
        filesize: u64,
        direct_hints: Vec<Hints>,
        relay_hints: Vec<Hints>,
    ) -> (begun: (FileTransfer, TransferStep))
        ensures
            begun.0.role == Role::Sender,
            begun.0.state == TransferState::AwaitTransit,
            begun.0.filename@ == filename@,
            begun.0.filesize == filesize,
            begun.0.hosts@.len() == 0,
            begun.1.after is AwaitMessage,
            begun.1.send matches Some(bytes) && bytes@ == wire_message(
                transit_offer(hint_views(direct_hints@), hint_views(relay_hints@)),
            ),
    {
        let transfer = FileTransfer {
            role: Role::Sender,
            state: TransferState::AwaitTransit,
            filename: filename.to_owned(),
            filesize,
            hosts: Vec::new(),
        };
        let send = make_transit_message(direct_hints, relay_hints);
        (transfer, TransferStep { send: Some(send), after: After::AwaitMessage })
    }

    /// Begins the receiving of a file from a peer whose transit message has
    /// come: this side's transit message goes out, and the offer is
    /// awaited.
    pub fn begin_receive(ttype: &TransitType, direct_hints: Vec<Hints>, relay_hints: Vec<Hints>)
        -> (begun: (FileTransfer, TransferStep))
        ensures
            begun.0.role == Role::Receiver,
            begun.0.state == TransferState::AwaitOffer,
            begun.0.filename@.len() == 0,
            begun.0.filesize == 0,
            hosts_of(begun.0.hosts@, ttype@),
            begun.1.after is AwaitMessage,
            begun.1.send matches Some(bytes) && bytes@ == wire_message(
                transit_offer(hint_views(direct_hints@), hint_views(relay_hints@)),
            ),
    {
        let transfer = FileTransfer {
            role: Role::Receiver,
            state: TransferState::AwaitOffer,
            filename: String::new(),
            filesize: 0,
            hosts: ordered_hosts(ttype),
        };
        let send = make_transit_message(direct_hints, relay_hints);
        (transfer, TransferStep { send: Some(send), after: After::AwaitMessage })
    }

    /// Whether `step`, with `next` as the transfer from there on, is what follows
    /// the arrival of the peer's message `body`.
    ///
    /// The sender answers the peer's transit message with the offer of the
    /// file, and the peer's `ok` on the file with the attempt on the first
    /// host. The receiver answers the offer of a file with its `ok` and
    /// the attempt on the first host, and stores the file under the offered
    /// name with `.rcv` after it. Any other message ends the transfer with
    /// the error that names what was wrong.
    pub open spec fn answered(self, body: Seq<u8>, next: FileTransfer, step: TransferStep) -> bool {
        let failed = |e: TransferError|
            next.state == TransferState::Done && step.send is None && step.after == After::Finished(
                Err(e),
            );
        match (self.state, peer_message_in(body)) {
            (TransferState::AwaitTransit, Some(PeerMessageValue::Transit(transit))) => {
                &&& next.state == TransferState::AwaitFileAck
                &&& hosts_of(next.hosts@, transit)
                &&& next.filename == self.filename && next.filesize == self.filesize
                &&& step.after is AwaitMessage
                &&& step.send matches Some(bytes) && bytes@ == wire_message(
                    PeerMessageValue::Offer(
                        OfferValue::File { filename: self.filename@, filesize: self.filesize },
                    ),
                )
            },
            (
                TransferState::AwaitFileAck,
                Some(PeerMessageValue::Answer(AnswerValue::FileAck(word))),
            ) => {
                if word == "ok"@ {
                    &&& next.hosts == self.hosts
                    &&& next.state == self.trying(0)
                    &&& self.tries(0, step.after)
                    &&& step.send is None
                } else {
                    failed(TransferError::FileAckFailed)
                }
            },
            (
                TransferState::AwaitOffer,
                Some(PeerMessageValue::Offer(OfferValue::File { filename, filesize })),
            ) => {
                &&& next.hosts == self.hosts
                &&& next.filename@ == filename + ".rcv"@
                &&& next.filesize == filesize
                &&& next.state == self.trying(0)
                &&& self.tries(0, step.after)
                &&& step.send matches Some(bytes) && bytes@ == wire_message(
                    PeerMessageValue::Answer(AnswerValue::FileAck("ok"@)),
                )
            },
            (TransferState::AwaitTransit, Some(_)) => failed(TransferError::UnexpectedMessage),
            (TransferState::AwaitFileAck, Some(_)) => failed(TransferError::NoFileAck),
            (TransferState::AwaitOffer, Some(PeerMessageValue::Offer(_))) => failed(
                TransferError::UnexpectedOffer,
            ),
            (TransferState::AwaitOffer, Some(_)) => failed(TransferError::UnexpectedMessage),
            (TransferState::Connecting(_), _) => failed(TransferError::OutOfTurn),
            (TransferState::Done, _) => failed(TransferError::OutOfTurn),
            (_, None) => failed(TransferError::BadMessage),
        }
    }

    fn fail(&mut self, error: TransferError) -> (step: TransferStep)
        ensures
            final(self).state == TransferState::Done,
            final(self).role == old(self).role,
            final(self).filename == old(self).filename,
            final(self).filesize == old(self).filesize,
            final(self).hosts == old(self).hosts,
            step.send is None,
            step.after == After::Finished(Err(error)),
    {
        self.state = TransferState::Done;
        finished(Err(error))
    }

    /// Takes the peer's next message and says what to do.
    pub fn on_message(&mut self, body: &[u8]) -> (step: TransferStep)
        ensures
            final(self).role == old(self).role,
            old(self).answered(body@, *final(self), step),
    {
        match self.state {
            TransferState::Connecting(_) => {
                return self.fail(TransferError::OutOfTurn);
            },
            TransferState::Done => {
                return self.fail(TransferError::OutOfTurn);
            },
            _ => {},
        }
        let message = match read_peer_message(body) {
            Some(m) => m,
            None => {
                return self.fail(TransferError::BadMessage);
            },
        };
        match self.state {
            TransferState::AwaitTransit => match message {
                PeerMessage::Transit(ttype) => {
                    self.hosts = ordered_hosts(&ttype);
                    self.state = TransferState::AwaitFileAck;
                    let offer = wire(&offer_file(self.filename.as_str(), self.filesize));
                    TransferStep { send: Some(offer), after: After::AwaitMessage }
                },
                _ => self.fail(TransferError::UnexpectedMessage),
            },
            TransferState::AwaitFileAck => match message {
                PeerMessage::Answer(AnswerType::FileAck(word)) => {
                    if same_text(word.as_str(), "ok") {
                        let after = self.attempt(0);
                        TransferStep { send: None, after }
                    } else {
                        self.fail(TransferError::FileAckFailed)
                    }
                },
                _ => self.fail(TransferError::NoFileAck),
            },
            TransferState::AwaitOffer => match message {
                PeerMessage::Offer(OfferType::File { filename, filesize }) => {
                    let mut target = filename;
                    target.append(".rcv");
                    self.filename = target;
                    self.filesize = filesize;
                    let ack = wire(&file_ack("ok"));
                    let after = self.attempt(0);
                    TransferStep { send: Some(ack), after }
                },
                PeerMessage::Offer(_) => self.fail(TransferError::UnexpectedOffer),
                _ => self.fail(TransferError::UnexpectedMessage),
            },
            _ => self.fail(TransferError::OutOfTurn),
        }
    }

    /// Takes the failure of the attempt on the host in hand, be it that the
    /// host was not reached or that the handshake with it failed, and goes
    /// on to the next host, in the order of preference; after the last one
    /// the transfer ends for want of a route.
    pub fn on_connection_failed(&mut self) -> (step: TransferStep)
        ensures
            final(self).role == old(self).role,
            final(self).filename == old(self).filename,
            final(self).filesize == old(self).filesize,
            final(self).hosts == old(self).hosts,
            step.send is None,
            match old(self).state {
                TransferState::Connecting(index) => final(self).state == old(self).trying(
                    index + 1,
                ) && old(self).tries(index + 1, step.after),
                _ => final(self).state == TransferState::Done && step.after == After::Finished(
                    Err(TransferError::OutOfTurn),
                ),
            },
    {
        match self.state {
            TransferState::Connecting(index) => {
                let after = if index < self.hosts.len() {
                    self.attempt(index + 1)
                } else {
                    self.state = TransferState::Done;
                    After::Finished(Err(TransferError::NoRoute))
                };
                TransferStep { send: None, after }
            },
            _ => self.fail(TransferError::OutOfTurn),
        }
    }

    /// Takes the outcome of the transfer over the connection in hand: the
    /// transfer is over, well or with the error of the transit layer.
    pub fn on_transferred(&mut self, outcome: Result<(), TransitError>) -> (step: TransferStep)
        ensures
            final(self).state == TransferState::Done,
            final(self).role == old(self).role,
            final(self).filename == old(self).filename,
            final(self).filesize == old(self).filesize,
            final(self).hosts == old(self).hosts,
            step.send is None,
            step.after == After::Finished(
                match old(self).state {
                    TransferState::Connecting(_) => match outcome {
                        Ok(()) => Ok(()),
                        Err(e) => Err(TransferError::Transit(e)),
                    },
                    _ => Err(TransferError::OutOfTurn),
                },
            ),
    {
        match self.state {
            TransferState::Connecting(_) => {
                self.state = TransferState::Done;
                match outcome {
                    Ok(()) => finished(Ok(())),
                    Err(e) => finished(Err(TransferError::Transit(e))),
                }
            },
            _ => self.fail(TransferError::OutOfTurn),
        }
    }
}

/// Begins the sending of a file, with the hints of this machine for the
/// port on which it listens, and of the relay.
pub fn send_file(filename: &str, filesize: u64, port: u16, relay_url: &RelayUrl) -> (begun: (
    FileTransfer,
    TransferStep,
))
    ensures
        begun.0.role == Role::Sender,
        begun.0.state == TransferState::AwaitTransit,
        begun.0.filename@ == filename@,
        begun.0.filesize == filesize,
        begun.0.hosts@.len() == 0,
        begun.1.after is AwaitMessage,
        exists|interfaces: Seq<Interface>|
            begun.1.send matches Some(bytes) && bytes@ == wire_message(
                transit_offer(
                    #[trigger] direct_hints_for(interfaces, port),
                    relay_hints_for(relay_url.host@, relay_url.port),
                ),
            ),
{
    FileTransfer::begin_send(
        filename,
        filesize,
        build_direct_hints(port),
        build_relay_hints(relay_url),
    )
}

/// Begins the receiving of a file from a peer whose transit message has
/// come, with the hints of this machine for the port on which it listens,
/// and of the relay.
pub fn receive_file(ttype: &TransitType, port: u16, relay_url: &RelayUrl) -> (begun: (
    FileTransfer,
    TransferStep,
))
    ensures
        begun.0.role == Role::Receiver,
        begun.0.state == TransferState::AwaitOffer,
        hosts_of(begun.0.hosts@, ttype@),
        begun.1.after is AwaitMessage,
        exists|interfaces: Seq<Interface>|
            begun.1.send matches Some(bytes) && bytes@ == wire_message(
                transit_offer(
                    #[trigger] direct_hints_for(interfaces, port),
                    relay_hints_for(relay_url.host@, relay_url.port),
                ),
            ),
{
    FileTransfer::begin_receive(ttype, build_direct_hints(port), build_relay_hints(relay_url))
}

/// How something is sent.
#[derive(Debug, PartialEq)]
pub enum SendPlan {
    /// Post these bytes in the mailbox, wait for the verifier, and close.
    Text(Vec<u8>),
    /// Derive the transit key and send the file.
    File { filename: String, filesize: u64 },
}

/// Decides how a message is sent: a text as the offer of a message, a file
/// by transit.
pub fn send(msg: MessageType) -> (plan: SendPlan)
    ensures
        match msg {
            MessageType::Message(text) => plan matches SendPlan::Text(bytes) && bytes@
                == wire_message(PeerMessageValue::Offer(OfferValue::Message(text@))),
            MessageType::File { filename, filesize } => plan == (SendPlan::File {
                filename,
                filesize,
            }),
        },
{
    match msg {
        MessageType::Message(text) => SendPlan::Text(wire(&message(text.as_str()))),
        MessageType::File { filename, filesize } => SendPlan::File { filename, filesize },
    }
}

/// What a receiver does with the first message of its peer.
#[derive(Debug, PartialEq)]
pub enum ReceivePlan {
    /// Post `answer` in the mailbox and close; `text` is what was received.
    Reply { answer: Vec<u8>, text: String },
    /// Derive the transit key and receive a file from the peer with this
    /// transit message.
    ReceiveFile(TransitType),
    /// Close; nothing was received.
    Nothing,
    Fail(TransferError),
}

/// Whether `plan` is what a receiver does with the message `body`.
///
/// An offered text is acknowledged and received; an offered file is
/// acknowledged; a directory cannot be received; a transit message begins
/// the transfer of a file; the report of an error ends the session without
/// anything received; an answer has no place here, nor has a body that is
/// no peer message.
pub open spec fn receive_plan(body: Seq<u8>, plan: ReceivePlan) -> bool {
    match peer_message_in(body) {
        None => plan == ReceivePlan::Fail(TransferError::BadMessage),
        Some(PeerMessageValue::Offer(OfferValue::Message(text))) => {
            plan matches ReceivePlan::Reply { answer, text: received } && received@ == text
                && answer@ == wire_message(PeerMessageValue::Answer(AnswerValue::MessageAck("ok"@)))
        },
        Some(PeerMessageValue::Offer(OfferValue::File { .. })) => {
            plan matches ReceivePlan::Reply { answer, text: received } && received@.len() == 0
                && answer@ == wire_message(PeerMessageValue::Answer(AnswerValue::FileAck("ok"@)))
        },
        Some(PeerMessageValue::Offer(OfferValue::Directory { .. })) => plan == ReceivePlan::Fail(
            TransferError::UnsupportedOffer,
        ),
        Some(PeerMessageValue::Answer(_)) => plan == ReceivePlan::Fail(
            TransferError::UnexpectedAnswer,
        ),
        Some(PeerMessageValue::Error(_)) => plan is Nothing,
        Some(PeerMessageValue::Transit(transit)) => plan matches ReceivePlan::ReceiveFile(ttype)
            && ttype@ == transit,
    }
}

/// Decides what a receiver does with the first message of its peer.
pub fn receive(body: &[u8]) -> (plan: ReceivePlan)
    ensures
        receive_plan(body@, plan),
{
    match read_peer_message(body) {
        None => ReceivePlan::Fail(TransferError::BadMessage),
        Some(PeerMessage::Offer(OfferType::Message(text))) => ReceivePlan::Reply {
            answer: wire(&message_ack("ok")),
            text,
        },
        Some(PeerMessage::Offer(OfferType::File { .. })) => ReceivePlan::Reply {
            answer: wire(&file_ack("ok")),
            text: String::new(),
        },
        Some(PeerMessage::Offer(OfferType::Directory { .. })) => ReceivePlan::Fail(
            TransferError::UnsupportedOffer,
        ),
        Some(PeerMessage::Answer(_)) => ReceivePlan::Fail(TransferError::UnexpectedAnswer),
        Some(PeerMessage::Error(_)) => ReceivePlan::Nothing,
        Some(PeerMessage::Transit(ttype)) => ReceivePlan::ReceiveFile(ttype),
    }
}

/// What the threads of the glue hand to the engine.
pub enum ToCore {
    API(APIEvent),
    IO(IOEvent),
    TimerExpired(TimerHandle),
    WebSocketConnectionMade(WSHandle),
    WebSocketMessageReceived(WSHandle, String),
    WebSocketConnectionLost(WSHandle),
}

/// Whether `end` and `actions` are the engine and what it hands to the
/// embedder once it has been handed an input of the glue.
///
/// A timer that has been cancelled, or was never started, expires unheard;
/// every other input goes to the engine as the request or the event that
/// it is.
pub open spec fn heard(
    core: WormholeCore,
    input: ToCore,
    end: WormholeCore,
    actions: Seq<APIAction>,
) -> bool {
    match input {
        ToCore::API(event) => core.requested(event, end, actions),
        ToCore::IO(event) => core.reported(event, end, actions),
        ToCore::TimerExpired(timer) => if core.io.timers@.contains(timer.id) {
            core.reported(IOEvent::TimerExpired(timer), end, actions)
        } else {
            end == core && actions == Seq::<APIAction>::empty()
        },
        ToCore::WebSocketConnectionMade(socket) => core.reported(
            IOEvent::WebSocketConnectionMade(socket),
            end,
            actions,
        ),
        ToCore::WebSocketMessageReceived(socket, text) => core.reported(
            IOEvent::WebSocketMessageReceived(socket, text),
            end,
            actions,
        ),
        ToCore::WebSocketConnectionLost(socket) => core.reported(
            IOEvent::WebSocketConnectionLost(socket),
            end,
            actions,
        ),
    }
}

/// Hands one input of the glue to the engine and gives the actions for the
/// embedder that come of it.
pub fn run(core: &mut WormholeCore, input: ToCore) -> (actions: Vec<APIAction>)
    requires
        old(core).wf(),
    ensures
        final(core).wf(),
        heard(*old(core), input, *final(core), actions@),
        old(core).io.pending@.is_prefix_of(final(core).io.pending@),
{
    match input {
        ToCore::API(event) => core.do_api(event),
        ToCore::IO(event) => core.do_io(event),
        ToCore::TimerExpired(timer) => {
            if core.io.timer_is_live(timer) {
                core.do_io(IOEvent::TimerExpired(timer))
            } else {
                Vec::new()
            }
        },
        ToCore::WebSocketConnectionMade(socket) => core.do_io(
            IOEvent::WebSocketConnectionMade(socket),
        ),
        ToCore::WebSocketMessageReceived(socket, text) => core.do_io(
            IOEvent::WebSocketMessageReceived(socket, text),
        ),
        ToCore::WebSocketConnectionLost(socket) => core.do_io(
            IOEvent::WebSocketConnectionLost(socket),
        ),
    }
}

} // verus!
