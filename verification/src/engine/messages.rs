//! The frames of the rendezvous protocol: how the requests to the server
//! are written, and what the server's frames mean.

use vstd::prelude::*;
use crate::engine::events::{
    AllocatorEvent, BossEvent, Event, ListerEvent, MailboxEvent, Nameplate, NameplateEvent, Phase,
    RendezvousEvent,
};
use crate::engine::key::{phase_label, phase_name};
use crate::hexcode::{hex_decode, hex_decoding, is_hex_text};
use crate::json::{
    json_rendered, member_views_of, text_entry, views_of, Json, JsonMember, JsonValue,
};
use crate::text::{
    all_digits, chars_of, decimal_digits, decimal_text, digit_value, digits_value,
    lemma_decimal_round_trip, parse_decimal, same_text,
};

verus! {

/// The members that say what a request asks for; none for an event that is
/// no request to the server.
pub open spec fn request_members(event: RendezvousEvent) -> Option<Seq<JsonMember>> {
    match event {
        RendezvousEvent::Start => None,
        RendezvousEvent::Stop => None,
        RendezvousEvent::TxOpen(mailbox) => Some(
            seq![
                JsonValue::text_entry("type"@, "open"@),
                JsonValue::text_entry("mailbox"@, mailbox@),
            ],
        ),
        RendezvousEvent::TxAdd(phase, body) => Some(
            seq![
                JsonValue::text_entry("type"@, "add"@),
                JsonValue::text_entry("phase"@, phase_label(phase)),
                JsonValue::text_entry("body"@, body@),
            ],
        ),
        RendezvousEvent::TxClose(mailbox, mood) => Some(
            seq![
                JsonValue::text_entry("type"@, "close"@),
                JsonValue::text_entry("mailbox"@, mailbox@),
                JsonValue::text_entry("mood"@, mood.name()),
            ],
        ),
        RendezvousEvent::TxClaim(nameplate) => Some(
            seq![
                JsonValue::text_entry("type"@, "claim"@),
                JsonValue::text_entry("nameplate"@, nameplate.0@),
            ],
        ),
        RendezvousEvent::TxRelease(nameplate) => Some(
            seq![
                JsonValue::text_entry("type"@, "release"@),
                JsonValue::text_entry("nameplate"@, nameplate.0@),
            ],
        ),
        RendezvousEvent::TxAllocate => Some(seq![JsonValue::text_entry("type"@, "allocate"@)]),
        RendezvousEvent::TxList => Some(seq![JsonValue::text_entry("type"@, "list"@)]),
    }
}

/// The members of the request that binds the connection to an application
/// and a side.
pub open spec fn bind_members(appid: Seq<char>, side: Seq<char>) -> Seq<JsonMember> {
    seq![
        JsonValue::text_entry("type"@, "bind"@),
        JsonValue::text_entry("appid"@, appid),
        JsonValue::text_entry("side"@, side),
    ]
}

/// The text of a frame with the given members and, after them, the `id`
/// that the server echoes when it acknowledges the frame.
pub open spec fn frame_text(members: Seq<JsonMember>, id: u64) -> Seq<char> {
    json_rendered(
        JsonValue::Object(members.push(JsonValue::text_entry("id"@, decimal_digits(id as nat)))),
    )
}

fn render_frame(members: Vec<(String, Json)>, id: u64) -> (text: String)
    ensures
        text@ == frame_text(member_views_of(members@), id),
{
    let mut members = members;
    let ghost before = members@;
    members.push(text_entry("id", decimal_text(id).as_str()));
    let doc = Json::object(members);
    assert(member_views_of(members@) =~= member_views_of(before).push(
        JsonValue::text_entry("id"@, decimal_digits(id as nat)),
    ));
    doc.render()
}

/// The frame that binds the connection to an application and a side.
pub fn bind_frame(appid: &str, side: &str, id: u64) -> (text: String)
    ensures
        text@ == frame_text(bind_members(appid@, side@), id),
{
    let mut members: Vec<(String, Json)> = Vec::new();
    members.push(text_entry("type", "bind"));
    members.push(text_entry("appid", appid));
    members.push(text_entry("side", side));
    assert(member_views_of(members@) =~= bind_members(appid@, side@));
    render_frame(members, id)
}

/// The frame of a request; none for an event that is no request to the
/// server.
pub fn request_frame(event: &RendezvousEvent, id: u64) -> (text: Option<String>)
    ensures
        match request_members(*event) {
            Some(members) => text matches Some(t) && t@ == frame_text(members, id),
            None => text is None,
        },
{
    let mut members: Vec<(String, Json)> = Vec::new();
    match event {
        RendezvousEvent::Start => {
            return None;
        },
        RendezvousEvent::Stop => {
            return None;
        },
        RendezvousEvent::TxOpen(mailbox) => {
            members.push(text_entry("type", "open"));
            members.push(text_entry("mailbox", mailbox.as_str()));
        },
        RendezvousEvent::TxAdd(phase, body) => {
            members.push(text_entry("type", "add"));
            members.push(text_entry("phase", phase_name(*phase).as_str()));
            members.push(text_entry("body", body.as_str()));
        },
        RendezvousEvent::TxClose(mailbox, mood) => {
            members.push(text_entry("type", "close"));
            members.push(text_entry("mailbox", mailbox.as_str()));
            members.push(text_entry("mood", mood.to_string().as_str()));
        },
        RendezvousEvent::TxClaim(nameplate) => {
            members.push(text_entry("type", "claim"));
            members.push(text_entry("nameplate", nameplate.0.as_str()));
        },
        RendezvousEvent::TxRelease(nameplate) => {
            members.push(text_entry("type", "release"));
            members.push(text_entry("nameplate", nameplate.0.as_str()));
        },
        RendezvousEvent::TxAllocate => {
            members.push(text_entry("type", "allocate"));
        },
        RendezvousEvent::TxList => {
            members.push(text_entry("type", "list"));
        },
    }
    assert(member_views_of(members@) =~= request_members(*event).unwrap());
    Some(render_frame(members, id))
}

/// The phase that a label names: `pake`, `version`, or the decimal numeral
/// of a number that fits 64 bits, written without leading zeros.
pub open spec fn phase_of_label(label: Seq<char>) -> Option<Phase> {
    if label == "pake"@ {
        Some(Phase::Pake)
    } else if label == "version"@ {
        Some(Phase::Version)
    } else if label.len() > 0 && all_digits(label) && digits_value(label) <= u64::MAX
        && decimal_digits(digits_value(label)) == label {
        Some(Phase::Message(digits_value(label) as u64))
    } else {
        None
    }
}

/// The label of a phase names that phase: different phases have different
/// labels, so a phase on the wire is read as the phase that was written.
pub proof fn lemma_phase_label_round_trip(phase: Phase)
    ensures
        phase_of_label(phase_label(phase)) == Some(phase),
{
    reveal_strlit("pake");
    reveal_strlit("version");
    match phase {
        Phase::Pake => {},
        Phase::Version => {
            assert("version"@.len() != "pake"@.len());
        },
        Phase::Message(n) => {
            lemma_decimal_round_trip(n as nat);
            let label = decimal_digits(n as nat);
            assert(digit_value(label[0]) is Some);
            assert(digit_value("pake"@[0]) is None);
            assert(digit_value("version"@[0]) is None);
        },
    }
}

/// Reads a phase from its label.
pub fn parse_phase(label: &str) -> (phase: Option<Phase>)
    ensures
        phase == phase_of_label(label@),
{
    if same_text(label, "pake") {
        return Some(Phase::Pake);
    }
    if same_text(label, "version") {
        return Some(Phase::Version);
    }
    let chars = chars_of(label);
    match parse_decimal(chars.as_slice(), u64::MAX) {
        Some(n) => {
            if same_text(decimal_text(n).as_str(), label) {
                Some(Phase::Message(n))
            } else {
                None
            }
        },
        None => None,
    }
}

/// The nameplates that the documents of a list name, each by its `id`,
/// where every one names one.
pub open spec fn ids_of(items: Seq<JsonValue>) -> Option<Seq<Seq<char>>> {
    if forall|i: int| 0 <= i < items.len() ==> (#[trigger] items[i].text_member("id"@)) is Some {
        Some(Seq::new(items.len(), |i: int| items[i].text_member("id"@).unwrap()))
    } else {
        None
    }
}

/// The names of a list of nameplates.
pub open spec fn nameplate_texts(nameplates: Seq<Nameplate>) -> Seq<Seq<char>> {
    Seq::new(nameplates.len(), |i: int| nameplates[i].0@)
}

/// What a frame of the server means, by its `type`.
pub enum FrameMeaning {
    Welcome(JsonValue),
    Nameplates(Seq<Seq<char>>),
    Allocated(Seq<char>),
    Claimed(Seq<char>),
    Released,
    /// A message in the mailbox: the side that added it, its phase, its
    /// body.
    Message(Seq<char>, Phase, Seq<u8>),
    Closed,
    /// The server reports an error.
    Error,
    /// A frame that asks nothing of the engine: an acknowledgement, a
    /// reply to a ping, a message in a phase that is not known, or a frame
    /// of a type that is not known.
    Nothing,
    /// A frame that is not what its type calls for.
    Malformed,
}

/// What the frame with the document `doc` means.
pub open spec fn frame_meaning(doc: JsonValue) -> FrameMeaning {
    match doc.text_member("type"@) {
        None => FrameMeaning::Malformed,
        Some(kind) => if kind == "welcome"@ {
            match doc.member("welcome"@) {
                Some(welcome) => FrameMeaning::Welcome(welcome),
                None => FrameMeaning::Malformed,
            }
        } else if kind == "nameplates"@ {
            match doc.member("nameplates"@) {
                Some(list) => match list.items() {
                    Some(items) => match ids_of(items) {
                        Some(ids) => FrameMeaning::Nameplates(ids),
                        None => FrameMeaning::Malformed,
                    },
                    None => FrameMeaning::Malformed,
                },
                None => FrameMeaning::Malformed,
            }
        } else if kind == "allocated"@ {
            match doc.text_member("nameplate"@) {
                Some(nameplate) => FrameMeaning::Allocated(nameplate),
                None => FrameMeaning::Malformed,
            }
        } else if kind == "claimed"@ {
            match doc.text_member("mailbox"@) {
                Some(mailbox) => FrameMeaning::Claimed(mailbox),
                None => FrameMeaning::Malformed,
            }
        } else if kind == "released"@ {
            FrameMeaning::Released
        } else if kind == "closed"@ {
            FrameMeaning::Closed
        } else if kind == "error"@ {
            FrameMeaning::Error
        } else if kind == "message"@ {
            match (doc.text_member("side"@), doc.text_member("phase"@), doc.text_member("body"@)) {
                (Some(side), Some(label), Some(body)) => if !is_hex_text(body) {
                    FrameMeaning::Malformed
                } else {
                    match phase_of_label(label) {
                        Some(phase) => FrameMeaning::Message(side, phase, hex_decoding(body)),
                        None => FrameMeaning::Nothing,
                    }
                },
                _ => FrameMeaning::Malformed,
            }
        } else {
            FrameMeaning::Nothing
        },
    }
}

/// Whether `out` is what a frame with the given meaning has the engine do:
/// each kind of frame goes to the machine that waits for it, a malformed
/// frame is an error, and a frame that asks nothing yields nothing.
pub open spec fn carries_out(meaning: FrameMeaning, out: Seq<Event>) -> bool {
    match meaning {
        FrameMeaning::Welcome(welcome) => out.len() == 1 && (out[0] matches Event::Boss(
            BossEvent::RxWelcome(doc),
        ) && doc@ == welcome),
        FrameMeaning::Nameplates(ids) => out.len() == 1 && (out[0] matches Event::Lister(
            ListerEvent::RxNameplates(nameplates),
        ) && nameplate_texts(nameplates@) == ids),
        FrameMeaning::Allocated(text) => out.len() == 1 && (out[0] matches Event::Allocator(
            AllocatorEvent::RxAllocated(nameplate),
        ) && nameplate.0@ == text),
        FrameMeaning::Claimed(text) => out.len() == 1 && (out[0] matches Event::Nameplate(
            NameplateEvent::RxClaimed(mailbox),
        ) && mailbox@ == text),
        FrameMeaning::Released => out == seq![Event::Nameplate(NameplateEvent::RxReleased)],
        FrameMeaning::Message(side, phase, body) => out.len() == 1 && (
        out[0] matches Event::Mailbox(MailboxEvent::RxMessage(s, p, b)) && s@ == side && p == phase
            && b@ == body),
        FrameMeaning::Closed => out == seq![Event::Mailbox(MailboxEvent::RxClosed)],
        FrameMeaning::Error => out == seq![Event::Boss(BossEvent::RxError)],
        FrameMeaning::Nothing => out == Seq::<Event>::empty(),
        FrameMeaning::Malformed => out == seq![Event::Boss(BossEvent::Error)],
    }
}

fn read_nameplates(items: &Vec<Json>) -> (nameplates: Option<Vec<Nameplate>>)
    ensures
        nameplates matches Some(n) ==> ids_of(views_of(items@)) == Some(nameplate_texts(n@)),
        nameplates is None ==> ids_of(views_of(items@)) is None,
{
    let mut nameplates: Vec<Nameplate> = Vec::new();
    let ghost docs = views_of(items@);
    let mut i: usize = 0;
    while i < items.len()
        invariant
            i <= items.len(),
            nameplates.len() == i,
            docs == views_of(items@),
            forall|j: int|
                0 <= j < i ==> (#[trigger] docs[j].text_member("id"@)) == Some(nameplates@[j].0@),
        decreases items.len() - i,
    {
        match items[i].text_member("id") {
            Some(id) => {
                nameplates.push(Nameplate(id.clone()));
            },
            None => {
                assert(docs[i as int].text_member("id"@) is None);
                return None;
            },
        }
        i += 1;
    }
    proof {
        assert(Seq::new(docs.len(), |i: int| docs[i].text_member("id"@).unwrap())
            =~= nameplate_texts(nameplates@));
    }
    Some(nameplates)
}

fn malformed() -> (out: Vec<Event>)
    ensures
        out@ == seq![Event::Boss(BossEvent::Error)],
{
    let mut out: Vec<Event> = Vec::new();
    out.push(Event::Boss(BossEvent::Error));
    assert(out@ =~= seq![Event::Boss(BossEvent::Error)]);
    out
}

fn single(event: Event) -> (out: Vec<Event>)
    ensures
        out@ == seq![event],
{
    let mut out: Vec<Event> = Vec::new();
    out.push(event);
    assert(out@ =~= seq![event]);
    out
}

/// The events that a frame of the server gives rise to.
pub fn frame_events(doc: Json) -> (out: Vec<Event>)
    ensures
        carries_out(frame_meaning(doc@), out@),
        out@.len() <= 1,
        forall|i: int| 0 <= i < out@.len() ==> !((#[trigger] out@[i]) is API),
{
    let kind = match doc.text_member("type") {
        Some(k) => k.clone(),
        None => {
            return malformed();
        },
    };
    let kind = kind.as_str();
    if same_text(kind, "welcome") {
        match doc.into_member("welcome") {
            Some(welcome) => single(Event::Boss(BossEvent::RxWelcome(welcome))),
            None => malformed(),
        }
    } else if same_text(kind, "nameplates") {
        let items = match doc.member("nameplates") {
            Some(list) => match list.as_list() {
                Some(items) => items,
                None => {
                    return malformed();
                },
            },
            None => {
                return malformed();
            },
        };
        match read_nameplates(items) {
            Some(nameplates) => single(Event::Lister(ListerEvent::RxNameplates(nameplates))),
            None => malformed(),
        }
    } else if same_text(kind, "allocated") {
        match doc.text_member("nameplate") {
            Some(nameplate) => single(
                Event::Allocator(AllocatorEvent::RxAllocated(Nameplate(nameplate.clone()))),
            ),
            None => malformed(),
        }
    } else if same_text(kind, "claimed") {
        match doc.text_member("mailbox") {
            Some(mailbox) => single(Event::Nameplate(NameplateEvent::RxClaimed(mailbox.clone()))),
            None => malformed(),
        }
    } else if same_text(kind, "released") {
        single(Event::Nameplate(NameplateEvent::RxReleased))
    } else if same_text(kind, "closed") {
        single(Event::Mailbox(MailboxEvent::RxClosed))
    } else if same_text(kind, "error") {
        single(Event::Boss(BossEvent::RxError))
    } else if same_text(kind, "message") {
        let side = match doc.text_member("side") {
            Some(s) => s.clone(),
            None => {
                return malformed();
            },
        };
        let label = match doc.text_member("phase") {
            Some(l) => l,
            None => {
                return malformed();
            },
        };
        let body = match doc.text_member("body") {
            Some(b) => b,
            None => {
                return malformed();
            },
        };
        let bytes = match hex_decode(body.as_str()) {
            Some(b) => b,
            None => {
                return malformed();
            },
        };
        match parse_phase(label.as_str()) {
            Some(phase) => single(Event::Mailbox(MailboxEvent::RxMessage(side, phase, bytes))),
            None => Vec::new(),
        }
    } else {
        Vec::new()
    }
}

} // verus!
