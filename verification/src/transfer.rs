//! The messages that the two peers exchange through the mailbox once the key
//! is set: transit hints, offers, answers, errors, and the transit
//! acknowledgement.

use vstd::prelude::*;
use crate::json::{
    json_parsed, json_rendered, lemma_member_found, lemma_member_missing, member_views_of,
    text_entry, views_of, Json, JsonMember, JsonValue,
};
use crate::text::{
    all_digits, chars_of, decimal_digits, decimal_text, digits_value, lemma_decimal_round_trip,
    parse_decimal, same_text,
};

verus! {

/// A host and port at which a peer or a relay can be reached over TCP.
#[derive(Debug, PartialEq)]
pub struct DirectType {
    /// The hint's priority, kept as the text of the number.
    pub priority: String,
    pub hostname: String,
    pub port: u16,
}

/// A relay, reachable at any of its endpoints.
#[derive(Debug, PartialEq)]
pub struct RelayType {
    pub hints: Vec<DirectType>,
}

/// One way of reaching a peer.
#[derive(Debug, PartialEq)]
pub enum Hints {
    DirectTcpV1(DirectType),
    RelayV1(RelayType),
}

/// One kind of connection that a peer can make.
#[derive(Debug, PartialEq)]
pub struct Abilities {
    pub ttype: String,
}

/// The transit negotiation message: what a peer can do and where it can be
/// reached.
#[derive(Debug, PartialEq)]
pub struct TransitType {
    pub abilities_v1: Vec<Abilities>,
    pub hints_v1: Vec<Hints>,
}

/// What a sender offers.
#[derive(Debug, PartialEq)]
pub enum OfferType {
    Message(String),
    File { filename: String, filesize: u64 },
    Directory { dirname: String, mode: String, zipsize: u64, numbytes: u64, numfiles: u64 },
}

/// How a receiver answers an offer.
#[derive(Debug, PartialEq)]
pub enum AnswerType {
    MessageAck(String),
    FileAck(String),
}

/// A message from one peer to the other.
#[derive(Debug, PartialEq)]
pub enum PeerMessage {
    Offer(OfferType),
    Answer(AnswerType),
    Error(String),
    Transit(TransitType),
}

/// The receiver's confirmation of a finished transfer, with the digest of
/// what it received.
#[derive(Debug, PartialEq)]
pub struct TransitAck {
    pub ack: String,
    pub sha256: String,
}

/// The value of a `DirectType`.
pub struct DirectHint {
    pub priority: Seq<char>,
    pub hostname: Seq<char>,
    pub port: u16,
}

/// The value of a `Hints`.
pub enum HintValue {
    Direct(DirectHint),
    Relay(Seq<DirectHint>),
}

/// The value of a `TransitType`.
pub struct TransitValue {
    pub abilities: Seq<Seq<char>>,
    pub hints: Seq<HintValue>,
}

/// The value of an `OfferType`.
pub enum OfferValue {
    Message(Seq<char>),
    File { filename: Seq<char>, filesize: u64 },
    Directory { dirname: Seq<char>, mode: Seq<char>, zipsize: u64, numbytes: u64, numfiles: u64 },
}

/// The value of an `AnswerType`.
pub enum AnswerValue {
    MessageAck(Seq<char>),
    FileAck(Seq<char>),
}

/// The value of a `PeerMessage`.
pub enum PeerMessageValue {
    Offer(OfferValue),
    Answer(AnswerValue),
    Error(Seq<char>),
    Transit(TransitValue),
}

/// The value of a `TransitAck`.
pub struct TransitAckValue {
    pub ack: Seq<char>,
    pub sha256: Seq<char>,
}

impl View for DirectType {
    type V = DirectHint;

    open spec fn view(&self) -> DirectHint {
        DirectHint { priority: self.priority@, hostname: self.hostname@, port: self.port }
    }
}

/// The values of a list of endpoints.
pub open spec fn direct_views(hints: Seq<DirectType>) -> Seq<DirectHint> {
    Seq::new(hints.len(), |i: int| hints[i]@)
}

impl View for Hints {
    type V = HintValue;

    open spec fn view(&self) -> HintValue {
        match self {
            Hints::DirectTcpV1(d) => HintValue::Direct(d@),
            Hints::RelayV1(r) => HintValue::Relay(direct_views(r.hints@)),
        }
    }
}

/// The values of a list of hints.
pub open spec fn hint_views(hints: Seq<Hints>) -> Seq<HintValue> {
    Seq::new(hints.len(), |i: int| hints[i]@)
}

/// The names of a list of abilities.
pub open spec fn ability_views(abilities: Seq<Abilities>) -> Seq<Seq<char>> {
    Seq::new(abilities.len(), |i: int| abilities[i].ttype@)
}

impl View for TransitType {
    type V = TransitValue;

    open spec fn view(&self) -> TransitValue {
        TransitValue {
            abilities: ability_views(self.abilities_v1@),
            hints: hint_views(self.hints_v1@),
        }
    }
}

impl View for OfferType {
    type V = OfferValue;

    open spec fn view(&self) -> OfferValue {
        match self {
            OfferType::Message(text) => OfferValue::Message(text@),
            OfferType::File { filename, filesize } => OfferValue::File {
                filename: filename@,
                filesize: *filesize,
            },
            OfferType::Directory { dirname, mode, zipsize, numbytes, numfiles } => {
                OfferValue::Directory {
                    dirname: dirname@,
                    mode: mode@,
                    zipsize: *zipsize,
                    numbytes: *numbytes,
                    numfiles: *numfiles,
                }
            },
        }
    }
}

impl View for AnswerType {
    type V = AnswerValue;

    open spec fn view(&self) -> AnswerValue {
        match self {
            AnswerType::MessageAck(text) => AnswerValue::MessageAck(text@),
            AnswerType::FileAck(text) => AnswerValue::FileAck(text@),
        }
    }
}

impl View for PeerMessage {
    type V = PeerMessageValue;

    open spec fn view(&self) -> PeerMessageValue {
        match self {
            PeerMessage::Offer(offer) => PeerMessageValue::Offer(offer@),
            PeerMessage::Answer(answer) => PeerMessageValue::Answer(answer@),
            PeerMessage::Error(text) => PeerMessageValue::Error(text@),
            PeerMessage::Transit(transit) => PeerMessageValue::Transit(transit@),
        }
    }
}

impl View for TransitAck {
    type V = TransitAckValue;

    open spec fn view(&self) -> TransitAckValue {
        TransitAckValue { ack: self.ack@, sha256: self.sha256@ }
    }
}

/// A member whose value is the decimal numeral of `n`.
pub open spec fn number_entry(name: Seq<char>, n: nat) -> JsonMember {
    JsonMember { name, value: JsonValue::Number(decimal_digits(n)) }
}

/// The object with the single member `name`.
pub open spec fn wrapped(name: Seq<char>, value: JsonValue) -> JsonValue {
    JsonValue::Object(seq![JsonMember { name, value }])
}

/// The document of an endpoint.
pub open spec fn direct_document(hint: DirectHint) -> JsonValue {
    JsonValue::Object(
        seq![
            JsonValue::text_entry("type"@, "direct-tcp-v1"@),
            JsonMember { name: "priority"@, value: JsonValue::Number(hint.priority) },
            JsonValue::text_entry("hostname"@, hint.hostname),
            number_entry("port"@, hint.port as nat),
        ],
    )
}

/// The document of a hint.
pub open spec fn hint_document(hint: HintValue) -> JsonValue {
    match hint {
        HintValue::Direct(d) => direct_document(d),
        HintValue::Relay(endpoints) => JsonValue::Object(
            seq![
                JsonValue::text_entry("type"@, "relay-v1"@),
                JsonMember {
                    name: "hints"@,
                    value: JsonValue::List(
                        Seq::new(endpoints.len(), |i: int| direct_document(endpoints[i])),
                    ),
                },
            ],
        ),
    }
}

/// The document of a transit message's body.
pub open spec fn transit_document(transit: TransitValue) -> JsonValue {
    JsonValue::Object(
        seq![
            JsonMember {
                name: "abilities_v1"@,
                value: JsonValue::List(
                    Seq::new(
                        transit.abilities.len(),
                        |i: int| wrapped("type"@, JsonValue::Text(transit.abilities[i])),
                    ),
                ),
            },
            JsonMember {
                name: "hints_v1"@,
                value: JsonValue::List(
                    Seq::new(transit.hints.len(), |i: int| hint_document(transit.hints[i])),
                ),
            },
        ],
    )
}

/// The document of an offer's body.
pub open spec fn offer_document(offer: OfferValue) -> JsonValue {
    match offer {
        OfferValue::Message(text) => wrapped("message"@, JsonValue::Text(text)),
        OfferValue::File { filename, filesize } => wrapped(
            "file"@,
            JsonValue::Object(
                seq![
                    JsonValue::text_entry("filename"@, filename),
                    number_entry("filesize"@, filesize as nat),
                ],
            ),
        ),
        OfferValue::Directory { dirname, mode, zipsize, numbytes, numfiles } => wrapped(
            "directory"@,
            JsonValue::Object(
                seq![
                    JsonValue::text_entry("dirname"@, dirname),
                    JsonValue::text_entry("mode"@, mode),
                    number_entry("zipsize"@, zipsize as nat),
                    number_entry("numbytes"@, numbytes as nat),
                    number_entry("numfiles"@, numfiles as nat),
                ],
            ),
        ),
    }
}

/// The document of an answer's body.
pub open spec fn answer_document(answer: AnswerValue) -> JsonValue {
    match answer {
        AnswerValue::MessageAck(text) => wrapped("message_ack"@, JsonValue::Text(text)),
        AnswerValue::FileAck(text) => wrapped("file_ack"@, JsonValue::Text(text)),
    }
}

/// The document that a peer message is written as.
pub open spec fn peer_message_document(message: PeerMessageValue) -> JsonValue {
    match message {
        PeerMessageValue::Offer(offer) => wrapped("offer"@, offer_document(offer)),
        PeerMessageValue::Answer(answer) => wrapped("answer"@, answer_document(answer)),
        PeerMessageValue::Error(text) => wrapped("error"@, JsonValue::Text(text)),
        PeerMessageValue::Transit(transit) => wrapped("transit"@, transit_document(transit)),
    }
}

/// The document that a transit acknowledgement is written as.
pub open spec fn transit_ack_document(ack: TransitAckValue) -> JsonValue {
    JsonValue::Object(
        seq![JsonValue::text_entry("ack"@, ack.ack), JsonValue::text_entry("sha256"@, ack.sha256)],
    )
}

/// The number below `limit + 1` that the member `key` of `doc` denotes.
pub open spec fn bounded_number_member(doc: JsonValue, key: Seq<char>, limit: nat) -> Option<nat> {
    match doc.number_member(key) {
        Some(digits) => if digits.len() > 0 && all_digits(digits) && digits_value(digits)
            <= limit {
            Some(digits_value(digits))
        } else {
            None
        },
        None => None,
    }
}

/// The endpoint that a document describes: it needs a numeric `priority`, a
/// text `hostname` and a `port` that fits sixteen bits.
pub open spec fn direct_of(doc: JsonValue) -> Option<DirectHint> {
    match (
        doc.number_member("priority"@),
        doc.text_member("hostname"@),
        bounded_number_member(doc, "port"@, 65535),
    ) {
        (Some(priority), Some(hostname), Some(port)) => Some(
            DirectHint { priority, hostname, port: port as u16 },
        ),
        _ => None,
    }
}

/// Whether every document of a list describes an endpoint.
pub open spec fn all_direct(items: Seq<JsonValue>) -> bool {
    forall|i: int| 0 <= i < items.len() ==> (#[trigger] direct_of(items[i])) is Some
}

/// The endpoints that the documents of a list describe, where all do.
pub open spec fn directs_of(items: Seq<JsonValue>) -> Option<Seq<DirectHint>> {
    if all_direct(items) {
        Some(Seq::new(items.len(), |i: int| direct_of(items[i]).unwrap()))
    } else {
        None
    }
}

/// The hint that a document describes: its `type` says which kind, and a
/// kind that is not known describes none.
pub open spec fn hint_of(doc: JsonValue) -> Option<HintValue> {
    match doc.text_member("type"@) {
        Some(kind) => if kind == "direct-tcp-v1"@ {
            match direct_of(doc) {
                Some(d) => Some(HintValue::Direct(d)),
                None => None,
            }
        } else if kind == "relay-v1"@ {
            match doc.member("hints"@) {
                Some(list) => match list.items() {
                    Some(items) => match directs_of(items) {
                        Some(endpoints) => Some(HintValue::Relay(endpoints)),
                        None => None,
                    },
                    None => None,
                },
                None => None,
            }
        } else {
            None
        },
        None => None,
    }
}

/// Whether every document of a list describes a hint.
pub open spec fn all_hints(items: Seq<JsonValue>) -> bool {
    forall|i: int| 0 <= i < items.len() ==> (#[trigger] hint_of(items[i])) is Some
}

/// Whether every document of a list names an ability.
pub open spec fn all_abilities(items: Seq<JsonValue>) -> bool {
    forall|i: int| 0 <= i < items.len() ==> (#[trigger] items[i].text_member("type"@)) is Some
}

/// The transit message that a document describes.
pub open spec fn transit_of(doc: JsonValue) -> Option<TransitValue> {
    match (doc.member("abilities_v1"@), doc.member("hints_v1"@)) {
        (Some(a), Some(h)) => match (a.items(), h.items()) {
            (Some(abilities), Some(hints)) => if all_abilities(abilities) && all_hints(hints) {
                Some(
                    TransitValue {
                        abilities: Seq::new(
                            abilities.len(),
                            |i: int| abilities[i].text_member("type"@).unwrap(),
                        ),
                        hints: Seq::new(hints.len(), |i: int| hint_of(hints[i]).unwrap()),
                    },
                )
            } else {
                None
            },
            _ => None,
        },
        _ => None,
    }
}

/// The offer that a document describes: a `message`, else a `file`, else a
/// `directory`.
pub open spec fn offer_of(doc: JsonValue) -> Option<OfferValue> {
    match doc.member("message"@) {
        Some(m) => match m.text() {
            Some(text) => Some(OfferValue::Message(text)),
            None => None,
        },
        None => match doc.member("file"@) {
            Some(f) => match (
                f.text_member("filename"@),
                bounded_number_member(f, "filesize"@, u64::MAX as nat),
            ) {
                (Some(filename), Some(filesize)) => Some(
                    OfferValue::File { filename, filesize: filesize as u64 },
                ),
                _ => None,
            },
            None => match doc.member("directory"@) {
                Some(d) => match (
                    d.text_member("dirname"@),
                    d.text_member("mode"@),
                    bounded_number_member(d, "zipsize"@, u64::MAX as nat),
                    bounded_number_member(d, "numbytes"@, u64::MAX as nat),
                    bounded_number_member(d, "numfiles"@, u64::MAX as nat),
                ) {
                    (Some(dirname), Some(mode), Some(zipsize), Some(numbytes), Some(numfiles)) => {
                        Some(
                            OfferValue::Directory {
                                dirname,
                                mode,
                                zipsize: zipsize as u64,
                                numbytes: numbytes as u64,
                                numfiles: numfiles as u64,
                            },
                        )
                    },
                    _ => None,
                },
                None => None,
            },
        },
    }
}

/// The answer that a document describes: a `message_ack`, else a `file_ack`.
pub open spec fn answer_of(doc: JsonValue) -> Option<AnswerValue> {
    match doc.member("message_ack"@) {
        Some(m) => match m.text() {
            Some(text) => Some(AnswerValue::MessageAck(text)),
            None => None,
        },
        None => match doc.text_member("file_ack"@) {
            Some(text) => Some(AnswerValue::FileAck(text)),
            None => None,
        },
    }
}

/// The peer message that a document describes: an `offer`, else an
/// `answer`, else an `error`, else a `transit`.
pub open spec fn peer_message_of(doc: JsonValue) -> Option<PeerMessageValue> {
    match doc.member("offer"@) {
        Some(o) => match offer_of(o) {
            Some(offer) => Some(PeerMessageValue::Offer(offer)),
            None => None,
        },
        None => match doc.member("answer"@) {
            Some(a) => match answer_of(a) {
                Some(answer) => Some(PeerMessageValue::Answer(answer)),
                None => None,
            },
            None => match doc.member("error"@) {
                Some(e) => match e.text() {
                    Some(text) => Some(PeerMessageValue::Error(text)),
                    None => None,
                },
                None => match doc.member("transit"@) {
                    Some(t) => match transit_of(t) {
                        Some(transit) => Some(PeerMessageValue::Transit(transit)),
                        None => None,
                    },
                    None => None,
                },
            },
        },
    }
}

/// The transit acknowledgement that a document describes.
pub open spec fn transit_ack_of(doc: JsonValue) -> Option<TransitAckValue> {
    match (doc.text_member("ack"@), doc.text_member("sha256"@)) {
        (Some(ack), Some(sha256)) => Some(TransitAckValue { ack, sha256 }),
        _ => None,
    }
}

/// The peer message that a text denotes.
pub open spec fn peer_message_of_text(text: Seq<char>) -> Option<PeerMessageValue> {
    match json_parsed(text) {
        Some(doc) => peer_message_of(doc),
        None => None,
    }
}

/// The transit acknowledgement that a text denotes.
pub open spec fn transit_ack_of_text(text: Seq<char>) -> Option<TransitAckValue> {
    match json_parsed(text) {
        Some(doc) => transit_ack_of(doc),
        None => None,
    }
}

/// An offer of a text message.
pub fn message(text: &str) -> (m: PeerMessage)
    ensures
        m@ == PeerMessageValue::Offer(OfferValue::Message(text@)),
{
    PeerMessage::Offer(OfferType::Message(text.to_owned()))
}

/// An offer of a file.
pub fn offer_file(filename: &str, filesize: u64) -> (m: PeerMessage)
    ensures
        m@ == PeerMessageValue::Offer(OfferValue::File { filename: filename@, filesize }),
{
    PeerMessage::Offer(OfferType::File { filename: filename.to_owned(), filesize })
}

/// The answer to an offered text message.
pub fn message_ack(text: &str) -> (m: PeerMessage)
    ensures
        m@ == PeerMessageValue::Answer(AnswerValue::MessageAck(text@)),
{
    PeerMessage::Answer(AnswerType::MessageAck(text.to_owned()))
}

/// The answer to an offered file.
pub fn file_ack(text: &str) -> (m: PeerMessage)
    ensures
        m@ == PeerMessageValue::Answer(AnswerValue::FileAck(text@)),
{
    PeerMessage::Answer(AnswerType::FileAck(text.to_owned()))
}

/// A report of an error to the peer.
pub fn error_message(text: &str) -> (m: PeerMessage)
    ensures
        m@ == PeerMessageValue::Error(text@),
{
    PeerMessage::Error(text.to_owned())
}

/// An endpoint with the given priority, which is the text of a number.
pub fn direct_type(priority: &str, hostname: &str, port: u16) -> (d: DirectType)
    ensures
        d@ == (DirectHint { priority: priority@, hostname: hostname@, port }),
{
    DirectType { priority: priority.to_owned(), hostname: hostname.to_owned(), port }
}

/// A relay with the given endpoints.
pub fn relay_type(hints: Vec<DirectType>) -> (r: RelayType)
    ensures
        r.hints == hints,
{
    RelayType { hints }
}

/// A transit message with the given abilities and hints.
pub fn transit(abilities: Vec<Abilities>, hints: Vec<Hints>) -> (m: PeerMessage)
    ensures
        m@ == PeerMessageValue::Transit(
            TransitValue { abilities: ability_views(abilities@), hints: hint_views(hints@) },
        ),
{
    PeerMessage::Transit(TransitType { abilities_v1: abilities, hints_v1: hints })
}

/// A transit acknowledgement.
pub fn transit_ack(ack: &str, sha256: &str) -> (a: TransitAck)
    ensures
        a@ == (TransitAckValue { ack: ack@, sha256: sha256@ }),
{
    TransitAck { ack: ack.to_owned(), sha256: sha256.to_owned() }
}

fn number_pair(name: &str, n: u64) -> (entry: (String, Json))
    ensures
        entry.0@ == name@,
        entry.1@ == JsonValue::Number(decimal_digits(n as nat)),
{
    (name.to_owned(), Json::Number(decimal_text(n)))
}

fn wrap(name: &str, value: Json) -> (doc: Json)
    ensures
        doc@ == wrapped(name@, value@),
{
    let mut members: Vec<(String, Json)> = Vec::new();
    members.push((name.to_owned(), value));
    let doc = Json::object(members);
    assert(member_views_of(members@) =~= seq![JsonMember { name: name@, value: value@ }]);
    doc
}

impl DirectType {
    /// The document of this endpoint.
    pub fn to_json(&self) -> (doc: Json)
        ensures
            doc@ == direct_document(self@),
    {
        let mut members: Vec<(String, Json)> = Vec::new();
        members.push(text_entry("type", "direct-tcp-v1"));
        members.push(("priority".to_owned(), Json::Number(self.priority.clone())));
        members.push(text_entry("hostname", self.hostname.as_str()));
        members.push(number_pair("port", self.port as u64));
        let doc = Json::object(members);
        assert(member_views_of(members@) =~= direct_document(self@)->Object_0);
        doc
    }

    /// Reads an endpoint from its document.
    pub fn from_json(doc: &Json) -> (hint: Option<DirectType>)
        ensures
            hint matches Some(h) ==> direct_of(doc@) == Some(h@),
            hint is None ==> direct_of(doc@) is None,
    {
        let priority = match doc.number_member("priority") {
            Some(p) => p.clone(),
            None => {
                return None;
            },
        };
        let hostname = match doc.text_member("hostname") {
            Some(h) => h.clone(),
            None => {
                return None;
            },
        };
        let port = match read_number(doc, "port", 65535) {
            Some(p) => p as u16,
            None => {
                return None;
            },
        };
        Some(DirectType { priority, hostname, port })
    }
}

/// Reads the member `key` of `doc` as a number no greater than `limit`.
pub fn read_number(doc: &Json, key: &str, limit: u64) -> (n: Option<u64>)
    ensures
        n matches Some(v) ==> bounded_number_member(doc@, key@, limit as nat) == Some(v as nat),
        n is None ==> bounded_number_member(doc@, key@, limit as nat) is None,
{
    match doc.number_member(key) {
        Some(digits) => {
            let chars = chars_of(digits.as_str());
            parse_decimal(chars.as_slice(), limit)
        },
        None => None,
    }
}

fn directs_to_json(hints: &Vec<DirectType>) -> (docs: Vec<Json>)
    ensures
        views_of(docs@) == Seq::new(
            hints.len() as nat,
            |i: int| direct_document(direct_views(hints@)[i]),
        ),
{
    let mut docs: Vec<Json> = Vec::new();
    let mut i: usize = 0;
    while i < hints.len()
        invariant
            i <= hints.len(),
            docs.len() == i,
            forall|j: int| 0 <= j < i ==> docs@[j]@ == direct_document(hints@[j]@),
        decreases hints.len() - i,
    {
        docs.push(hints[i].to_json());
        i += 1;
    }
    assert(views_of(docs@) =~= Seq::new(
        hints.len() as nat,
        |i: int| direct_document(direct_views(hints@)[i]),
    ));
    docs
}

fn directs_from_json(items: &Vec<Json>) -> (hints: Option<Vec<DirectType>>)
    ensures
        hints matches Some(h) ==> directs_of(views_of(items@)) == Some(direct_views(h@)),
        hints is None ==> directs_of(views_of(items@)) is None,
{
    let mut hints: Vec<DirectType> = Vec::new();
    let mut i: usize = 0;
    while i < items.len()
        invariant
            i <= items.len(),
            hints.len() == i,
            forall|j: int|
                0 <= j < i ==> direct_of(#[trigger] views_of(items@)[j]) == Some(hints@[j]@),
        decreases items.len() - i,
    {
        match DirectType::from_json(&items[i]) {
            Some(h) => {
                hints.push(h);
            },
            None => {
                assert(direct_of(views_of(items@)[i as int]) is None);
                return None;
            },
        }
        i += 1;
    }
    proof {
        let docs = views_of(items@);
        assert(all_direct(docs));
        assert(Seq::new(docs.len(), |i: int| direct_of(docs[i]).unwrap()) =~= direct_views(hints@));
    }
    Some(hints)
}

impl Hints {
    /// The document of this hint.
    pub fn to_json(&self) -> (doc: Json)
        ensures
            doc@ == hint_document(self@),
    {
        match self {
            Hints::DirectTcpV1(d) => d.to_json(),
            Hints::RelayV1(r) => {
                let list = Json::list(directs_to_json(&r.hints));
                let mut members: Vec<(String, Json)> = Vec::new();
                members.push(text_entry("type", "relay-v1"));
                members.push(("hints".to_owned(), list));
                let doc = Json::object(members);
                assert(member_views_of(members@) =~= hint_document(self@)->Object_0);
                doc
            },
        }
    }

    /// Reads a hint from its document.
    pub fn from_json(doc: &Json) -> (hint: Option<Hints>)
        ensures
            hint matches Some(h) ==> hint_of(doc@) == Some(h@),
            hint is None ==> hint_of(doc@) is None,
    {
        let kind = match doc.text_member("type") {
            Some(k) => k,
            None => {
                return None;
            },
        };
        if same_text(kind.as_str(), "direct-tcp-v1") {
            match DirectType::from_json(doc) {
                Some(d) => Some(Hints::DirectTcpV1(d)),
                None => None,
            }
        } else if same_text(kind.as_str(), "relay-v1") {
            let list = match doc.member("hints") {
                Some(l) => l,
                None => {
                    return None;
                },
            };
            let items = match list.as_list() {
                Some(i) => i,
                None => {
                    return None;
                },
            };
            match directs_from_json(items) {
                Some(hints) => Some(Hints::RelayV1(RelayType { hints })),
                None => None,
            }
        } else {
            None
        }
    }
}

impl TransitType {
    /// The document of this transit message's body.
    pub fn to_json(&self) -> (doc: Json)
        ensures
            doc@ == transit_document(self@),
    {
        let mut abilities: Vec<Json> = Vec::new();
        let mut i: usize = 0;
        while i < self.abilities_v1.len()
            invariant
                i <= self.abilities_v1.len(),
                abilities.len() == i,
                forall|j: int|
                    0 <= j < i ==> abilities@[j]@ == wrapped(
                        "type"@,
                        JsonValue::Text(self.abilities_v1@[j].ttype@),
                    ),
            decreases self.abilities_v1.len() - i,
        {
            abilities.push(wrap("type", Json::text(self.abilities_v1[i].ttype.as_str())));
            i += 1;
        }
        let mut hints: Vec<Json> = Vec::new();
        let mut k: usize = 0;
        while k < self.hints_v1.len()
            invariant
                k <= self.hints_v1.len(),
                hints.len() == k,
                forall|j: int| 0 <= j < k ==> hints@[j]@ == hint_document(self.hints_v1@[j]@),
            decreases self.hints_v1.len() - k,
        {
            hints.push(self.hints_v1[k].to_json());
            k += 1;
        }
        let ghost model = transit_document(self@)->Object_0;
        proof {
            assert(views_of(abilities@) =~= model[0].value->List_0);
            assert(views_of(hints@) =~= model[1].value->List_0);
        }
        let mut members: Vec<(String, Json)> = Vec::new();
        members.push(("abilities_v1".to_owned(), Json::list(abilities)));
        members.push(("hints_v1".to_owned(), Json::list(hints)));
        let doc = Json::object(members);
        assert(member_views_of(members@) =~= model);
        doc
    }

    /// Reads a transit message's body from its document.
    pub fn from_json(doc: &Json) -> (transit: Option<TransitType>)
        ensures
            transit matches Some(t) ==> transit_of(doc@) == Some(t@),
            transit is None ==> transit_of(doc@) is None,
    {
        let ability_items = match doc.member("abilities_v1") {
            Some(a) => match a.as_list() {
                Some(items) => items,
                None => {
                    return None;
                },
            },
            None => {
                return None;
            },
        };
        let hint_items = match doc.member("hints_v1") {
            Some(h) => match h.as_list() {
                Some(items) => items,
                None => {
                    return None;
                },
            },
            None => {
                return None;
            },
        };
        let ghost ability_docs = views_of(ability_items@);
        let ghost hint_docs = views_of(hint_items@);
        let mut abilities_v1: Vec<Abilities> = Vec::new();
        let mut i: usize = 0;
        while i < ability_items.len()
            invariant
                i <= ability_items.len(),
                abilities_v1.len() == i,
                ability_docs == views_of(ability_items@),
                transit_of(doc@) is Some ==> all_abilities(ability_docs),
                forall|j: int|
                    0 <= j < i ==> (#[trigger] ability_docs[j].text_member("type"@)) == Some(
                        abilities_v1@[j].ttype@,
                    ),
            decreases ability_items.len() - i,
        {
            match ability_items[i].text_member("type") {
                Some(t) => {
                    abilities_v1.push(Abilities { ttype: t.clone() });
                },
                None => {
                    assert(ability_docs[i as int].text_member("type"@) is None);
                    return None;
                },
            }
            i += 1;
        }
        let mut hints_v1: Vec<Hints> = Vec::new();
        let mut k: usize = 0;
        while k < hint_items.len()
            invariant
                k <= hint_items.len(),
                hints_v1.len() == k,
                hint_docs == views_of(hint_items@),
                transit_of(doc@) is Some ==> all_hints(hint_docs),
                forall|j: int|
                    0 <= j < k ==> (#[trigger] hint_of(hint_docs[j])) == Some(hints_v1@[j]@),
            decreases hint_items.len() - k,
        {
            match Hints::from_json(&hint_items[k]) {
                Some(h) => {
                    hints_v1.push(h);
                },
                None => {
                    assert(hint_of(hint_docs[k as int]) is None);
                    return None;
                },
            }
            k += 1;
        }
        let transit = TransitType { abilities_v1, hints_v1 };
        proof {
            assert(all_abilities(ability_docs));
            assert(all_hints(hint_docs));
            let expected = transit_of(doc@).unwrap();
            assert(expected.abilities =~= transit@.abilities);
            assert(expected.hints =~= transit@.hints);
        }
        Some(transit)
    }
}

impl OfferType {
    /// The document of this offer's body.
    pub fn to_json(&self) -> (doc: Json)
        ensures
            doc@ == offer_document(self@),
    {
        match self {
            OfferType::Message(text) => wrap("message", Json::text(text.as_str())),
            OfferType::File { filename, filesize } => {
                let mut members: Vec<(String, Json)> = Vec::new();
                members.push(text_entry("filename", filename.as_str()));
                members.push(number_pair("filesize", *filesize));
                let body = Json::object(members);
                assert(member_views_of(members@) =~= seq![
                    JsonValue::text_entry("filename"@, filename@),
                    number_entry("filesize"@, *filesize as nat),
                ]);
                wrap("file", body)
            },
            OfferType::Directory { dirname, mode, zipsize, numbytes, numfiles } => {
                let mut members: Vec<(String, Json)> = Vec::new();
                members.push(text_entry("dirname", dirname.as_str()));
                members.push(text_entry("mode", mode.as_str()));
                members.push(number_pair("zipsize", *zipsize));
                members.push(number_pair("numbytes", *numbytes));
                members.push(number_pair("numfiles", *numfiles));
                let body = Json::object(members);
                assert(member_views_of(members@) =~= seq![
                    JsonValue::text_entry("dirname"@, dirname@),
                    JsonValue::text_entry("mode"@, mode@),
                    number_entry("zipsize"@, *zipsize as nat),
                    number_entry("numbytes"@, *numbytes as nat),
                    number_entry("numfiles"@, *numfiles as nat),
                ]);
                wrap("directory", body)
            },
        }
    }

    /// Reads an offer's body from its document.
    pub fn from_json(doc: &Json) -> (offer: Option<OfferType>)
        ensures
            offer matches Some(o) ==> offer_of(doc@) == Some(o@),
            offer is None ==> offer_of(doc@) is None,
    {
        if let Some(m) = doc.member("message") {
            return match m.as_text() {
                Some(text) => Some(OfferType::Message(text.clone())),
                None => None,
            };
        }
        if let Some(f) = doc.member("file") {
            let filename = match f.text_member("filename") {
                Some(n) => n.clone(),
                None => {
                    return None;
                },
            };
            return match read_number(f, "filesize", u64::MAX) {
                Some(filesize) => Some(OfferType::File { filename, filesize }),
                None => None,
            };
        }
        if let Some(d) = doc.member("directory") {
            let dirname = match d.text_member("dirname") {
                Some(n) => n.clone(),
                None => {
                    return None;
                },
            };
            let mode = match d.text_member("mode") {
                Some(n) => n.clone(),
                None => {
                    return None;
                },
            };
            let zipsize = match read_number(d, "zipsize", u64::MAX) {
                Some(n) => n,
                None => {
                    return None;
                },
            };
            let numbytes = match read_number(d, "numbytes", u64::MAX) {
                Some(n) => n,
                None => {
                    return None;
                },
            };
            let numfiles = match read_number(d, "numfiles", u64::MAX) {
                Some(n) => n,
                None => {
                    return None;
                },
            };
            return Some(OfferType::Directory { dirname, mode, zipsize, numbytes, numfiles });
        }
        None
    }
}

impl AnswerType {
    /// The document of this answer's body.
    pub fn to_json(&self) -> (doc: Json)
        ensures
            doc@ == answer_document(self@),
    {
        match self {
            AnswerType::MessageAck(text) => wrap("message_ack", Json::text(text.as_str())),
            AnswerType::FileAck(text) => wrap("file_ack", Json::text(text.as_str())),
        }
    }

    /// Reads an answer's body from its document.
    pub fn from_json(doc: &Json) -> (answer: Option<AnswerType>)
        ensures
            answer matches Some(a) ==> answer_of(doc@) == Some(a@),
            answer is None ==> answer_of(doc@) is None,
    {
        if let Some(m) = doc.member("message_ack") {
            return match m.as_text() {
                Some(text) => Some(AnswerType::MessageAck(text.clone())),
                None => None,
            };
        }
        match doc.text_member("file_ack") {
            Some(text) => Some(AnswerType::FileAck(text.clone())),
            None => None,
        }
    }
}

impl PeerMessage {
    /// The document that this message is written as.
    pub fn to_json(&self) -> (doc: Json)
        ensures
            doc@ == peer_message_document(self@),
    {
        match self {
            PeerMessage::Offer(offer) => wrap("offer", offer.to_json()),
            PeerMessage::Answer(answer) => wrap("answer", answer.to_json()),
            PeerMessage::Error(text) => wrap("error", Json::text(text.as_str())),
            PeerMessage::Transit(transit) => wrap("transit", transit.to_json()),
        }
    }

    /// Reads a message from its document.
    pub fn from_json(doc: &Json) -> (message: Option<PeerMessage>)
        ensures
            message matches Some(m) ==> peer_message_of(doc@) == Some(m@),
            message is None ==> peer_message_of(doc@) is None,
    {
        if let Some(o) = doc.member("offer") {
            return match OfferType::from_json(o) {
                Some(offer) => Some(PeerMessage::Offer(offer)),
                None => None,
            };
        }
        if let Some(a) = doc.member("answer") {
            return match AnswerType::from_json(a) {
                Some(answer) => Some(PeerMessage::Answer(answer)),
                None => None,
            };
        }
        if let Some(e) = doc.member("error") {
            return match e.as_text() {
                Some(text) => Some(PeerMessage::Error(text.clone())),
                None => None,
            };
        }
        if let Some(t) = doc.member("transit") {
            return match TransitType::from_json(t) {
                Some(transit) => Some(PeerMessage::Transit(transit)),
                None => None,
            };
        }
        None
    }

    /// The text that this message is sent as.
    pub fn serialize(&self) -> (text: String)
        ensures
            text@ == json_rendered(peer_message_document(self@)),
    {
        self.to_json().render()
    }

    /// Reads a message from the text it was sent as.
    pub fn deserialize(text: &str) -> (message: Option<PeerMessage>)
        ensures
            message matches Some(m) ==> peer_message_of_text(text@) == Some(m@),
            message is None ==> peer_message_of_text(text@) is None,
    {
        match Json::parse(text) {
            Some(doc) => PeerMessage::from_json(&doc),
            None => None,
        }
    }
}

impl TransitAck {
    /// The document that this acknowledgement is written as.
    pub fn to_json(&self) -> (doc: Json)
        ensures
            doc@ == transit_ack_document(self@),
    {
        let mut members: Vec<(String, Json)> = Vec::new();
        members.push(text_entry("ack", self.ack.as_str()));
        members.push(text_entry("sha256", self.sha256.as_str()));
        let doc = Json::object(members);
        assert(member_views_of(members@) =~= transit_ack_document(self@)->Object_0);
        doc
    }

    /// Reads an acknowledgement from its document.
    pub fn from_json(doc: &Json) -> (ack: Option<TransitAck>)
        ensures
            ack matches Some(a) ==> transit_ack_of(doc@) == Some(a@),
            ack is None ==> transit_ack_of(doc@) is None,
    {
        let ack = match doc.text_member("ack") {
            Some(a) => a.clone(),
            None => {
                return None;
            },
        };
        match doc.text_member("sha256") {
            Some(sha256) => Some(TransitAck { ack, sha256: sha256.clone() }),
            None => None,
        }
    }

    /// The text that this acknowledgement is sent as.
    pub fn serialize(&self) -> (text: String)
        ensures
            text@ == json_rendered(transit_ack_document(self@)),
    {
        self.to_json().render()
    }

    /// Reads an acknowledgement from the text it was sent as.
    pub fn deserialize(text: &str) -> (ack: Option<TransitAck>)
        ensures
            ack matches Some(a) ==> transit_ack_of_text(text@) == Some(a@),
            ack is None ==> transit_ack_of_text(text@) is None,
    {
        match Json::parse(text) {
            Some(doc) => TransitAck::from_json(&doc),
            None => None,
        }
    }
}

/// The document of an endpoint is read back as the endpoint.
pub proof fn lemma_direct_round_trip(hint: DirectHint)
    ensures
        direct_of(direct_document(hint)) == Some(hint),
        direct_document(hint).text_member("type"@) == Some("direct-tcp-v1"@),
{
    reveal_strlit("type");
    reveal_strlit("priority");
    reveal_strlit("hostname");
    reveal_strlit("port");
    lemma_decimal_round_trip(hint.port as nat);
    let members = direct_document(hint)->Object_0;
    assert("type"@[0] != "port"@[0]);
    assert("priority"@[0] != "hostname"@[0]);
    assert(members[0].name == "type"@ && members[1].name == "priority"@ && members[2].name
        == "hostname"@ && members[3].name == "port"@);
    lemma_member_found(members, "type"@, 0, 0);
    lemma_member_found(members, "priority"@, 0, 1);
    lemma_member_found(members, "hostname"@, 0, 2);
    lemma_member_found(members, "port"@, 0, 3);
}

/// The documents of endpoints are read back as the endpoints.
pub proof fn lemma_directs_round_trip(endpoints: Seq<DirectHint>)
    ensures
        directs_of(Seq::new(endpoints.len(), |i: int| direct_document(endpoints[i]))) == Some(
            endpoints,
        ),
{
    let docs = Seq::new(endpoints.len(), |i: int| direct_document(endpoints[i]));
    assert forall|i: int| 0 <= i < docs.len() implies (#[trigger] direct_of(docs[i])) == Some(
        endpoints[i],
    ) by {
        lemma_direct_round_trip(endpoints[i]);
    }
    assert(Seq::new(docs.len(), |i: int| direct_of(docs[i]).unwrap()) =~= endpoints);
}

/// The document of a hint is read back as the hint.
pub proof fn lemma_hint_round_trip(hint: HintValue)
    ensures
        hint_of(hint_document(hint)) == Some(hint),
{
    reveal_strlit("relay-v1");
    reveal_strlit("direct-tcp-v1");
    assert("relay-v1"@.len() != "direct-tcp-v1"@.len());
    match hint {
        HintValue::Direct(d) => {
            lemma_direct_round_trip(d);
        },
        HintValue::Relay(endpoints) => {
            reveal_strlit("type");
            reveal_strlit("hints");
            let members = hint_document(hint)->Object_0;
            assert(members[0].name == "type"@ && members[1].name == "hints"@);
            assert("type"@.len() != "hints"@.len());
            lemma_member_found(members, "type"@, 0, 0);
            lemma_member_found(members, "hints"@, 0, 1);
            lemma_directs_round_trip(endpoints);
        },
    }
}

/// The document of a transit message's body is read back as the message.
pub proof fn lemma_transit_round_trip(transit: TransitValue)
    ensures
        transit_of(transit_document(transit)) == Some(transit),
{
    reveal_strlit("abilities_v1");
    reveal_strlit("hints_v1");
    let doc = transit_document(transit);
    let members = doc->Object_0;
    assert(members[0].name == "abilities_v1"@ && members[1].name == "hints_v1"@);
    assert("abilities_v1"@.len() != "hints_v1"@.len());
    lemma_member_found(members, "abilities_v1"@, 0, 0);
    lemma_member_found(members, "hints_v1"@, 0, 1);
    let abilities = members[0].value->List_0;
    let hints = members[1].value->List_0;
    assert forall|i: int| 0 <= i < abilities.len() implies (#[trigger] abilities[i].text_member(
        "type"@,
    )) == Some(transit.abilities[i]) by {
        lemma_member_found(abilities[i]->Object_0, "type"@, 0, 0);
    }
    assert forall|i: int| 0 <= i < hints.len() implies (#[trigger] hint_of(hints[i])) == Some(
        transit.hints[i],
    ) by {
        lemma_hint_round_trip(transit.hints[i]);
    }
    let read = transit_of(doc).unwrap();
    assert(read.abilities =~= transit.abilities);
    assert(read.hints =~= transit.hints);
}

/// The document of an offer's body is read back as the offer.
pub proof fn lemma_offer_round_trip(offer: OfferValue)
    ensures
        offer_of(offer_document(offer)) == Some(offer),
{
    reveal_strlit("message");
    reveal_strlit("file");
    reveal_strlit("directory");
    let doc = offer_document(offer);
    let outer = doc->Object_0;
    assert("message"@.len() != "file"@.len() && "message"@.len() != "directory"@.len()
        && "file"@.len() != "directory"@.len());
    match offer {
        OfferValue::Message(_) => {
            lemma_member_found(outer, "message"@, 0, 0);
        },
        OfferValue::File { filename, filesize } => {
            reveal_strlit("filename");
            reveal_strlit("filesize");
            lemma_decimal_round_trip(filesize as nat);
            assert(outer[0].name == "file"@);
            lemma_member_missing(outer, "message"@, 0);
            lemma_member_found(outer, "file"@, 0, 0);
            let members = outer[0].value->Object_0;
            assert(members[0].name == "filename"@ && members[1].name == "filesize"@);
            assert("filename"@[4] != "filesize"@[4]);
            lemma_member_found(members, "filename"@, 0, 0);
            lemma_member_found(members, "filesize"@, 0, 1);
        },
        OfferValue::Directory { dirname, mode, zipsize, numbytes, numfiles } => {
            reveal_strlit("dirname");
            reveal_strlit("mode");
            reveal_strlit("zipsize");
            reveal_strlit("numbytes");
            reveal_strlit("numfiles");
            lemma_decimal_round_trip(zipsize as nat);
            lemma_decimal_round_trip(numbytes as nat);
            lemma_decimal_round_trip(numfiles as nat);
            assert(outer[0].name == "directory"@);
            lemma_member_missing(outer, "message"@, 0);
            lemma_member_missing(outer, "file"@, 0);
            lemma_member_found(outer, "directory"@, 0, 0);
            let members = outer[0].value->Object_0;
            assert(members[0].name == "dirname"@ && members[1].name == "mode"@ && members[2].name
                == "zipsize"@ && members[3].name == "numbytes"@ && members[4].name
                == "numfiles"@);
            assert("dirname"@[0] != "zipsize"@[0]);
            assert("numbytes"@[3] != "numfiles"@[3]);
            lemma_member_found(members, "dirname"@, 0, 0);
            lemma_member_found(members, "mode"@, 0, 1);
            lemma_member_found(members, "zipsize"@, 0, 2);
            lemma_member_found(members, "numbytes"@, 0, 3);
            lemma_member_found(members, "numfiles"@, 0, 4);
        },
    }
}

/// The document of an answer's body is read back as the answer.
pub proof fn lemma_answer_round_trip(answer: AnswerValue)
    ensures
        answer_of(answer_document(answer)) == Some(answer),
{
    reveal_strlit("message_ack");
    reveal_strlit("file_ack");
    let members = answer_document(answer)->Object_0;
    assert("message_ack"@.len() != "file_ack"@.len());
    match answer {
        AnswerValue::MessageAck(_) => {
            lemma_member_found(members, "message_ack"@, 0, 0);
        },
        AnswerValue::FileAck(_) => {
            assert(members[0].name == "file_ack"@);
            lemma_member_missing(members, "message_ack"@, 0);
            lemma_member_found(members, "file_ack"@, 0, 0);
        },
    }
}

/// What is written is read back: the document that a peer message is
/// written as describes that message.
pub proof fn lemma_peer_message_round_trip(message: PeerMessageValue)
    ensures
        peer_message_of(peer_message_document(message)) == Some(message),
{
    reveal_strlit("offer");
    reveal_strlit("answer");
    reveal_strlit("error");
    reveal_strlit("transit");
    let members = peer_message_document(message)->Object_0;
    assert("offer"@[0] != "error"@[0]);
    assert("offer"@.len() != "answer"@.len() && "offer"@.len() != "transit"@.len()
        && "answer"@.len() != "error"@.len() && "answer"@.len() != "transit"@.len()
        && "error"@.len() != "transit"@.len());
    match message {
        PeerMessageValue::Offer(offer) => {
            lemma_member_found(members, "offer"@, 0, 0);
            lemma_offer_round_trip(offer);
        },
        PeerMessageValue::Answer(answer) => {
            assert(members[0].name == "answer"@);
            lemma_member_missing(members, "offer"@, 0);
            lemma_member_found(members, "answer"@, 0, 0);
            lemma_answer_round_trip(answer);
        },
        PeerMessageValue::Error(_) => {
            assert(members[0].name == "error"@);
            lemma_member_missing(members, "offer"@, 0);
            lemma_member_missing(members, "answer"@, 0);
            lemma_member_found(members, "error"@, 0, 0);
        },
        PeerMessageValue::Transit(transit) => {
            assert(members[0].name == "transit"@);
            lemma_member_missing(members, "offer"@, 0);
            lemma_member_missing(members, "answer"@, 0);
            lemma_member_missing(members, "error"@, 0);
            lemma_member_found(members, "transit"@, 0, 0);
            lemma_transit_round_trip(transit);
        },
    }
}

/// The document that a transit acknowledgement is written as describes
/// that acknowledgement.
pub proof fn lemma_transit_ack_round_trip(ack: TransitAckValue)
    ensures
        transit_ack_of(transit_ack_document(ack)) == Some(ack),
{
    reveal_strlit("ack");
    reveal_strlit("sha256");
    let members = transit_ack_document(ack)->Object_0;
    assert(members[0].name == "ack"@ && members[1].name == "sha256"@);
    assert("ack"@.len() != "sha256"@.len());
    lemma_member_found(members, "ack"@, 0, 0);
    lemma_member_found(members, "sha256"@, 0, 1);
}

} // verus!
