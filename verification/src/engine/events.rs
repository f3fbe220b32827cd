//! The events that the machines of the engine send one another, and the
//! order among them that lets every cascade of events come to rest.

use vstd::prelude::*;
use crate::engine::api::{APIAction, IOAction, Mood};
use crate::json::Json;

verus! {

/// Names the application whose clients may meet.
#[derive(Debug, PartialEq)]
pub struct AppID(pub String);

/// The code that the two users share.
#[derive(Debug, PartialEq)]
pub struct Code(pub String);

/// The short name of a pending rendezvous, issued by the server.
#[derive(Debug, PartialEq)]
pub struct Nameplate(pub String);

/// A shared secret.
#[derive(Debug, PartialEq)]
pub struct Key(pub Vec<u8>);

impl Code {
    /// A copy of this code.
    pub fn copy(&self) -> (copy: Code)
        ensures
            copy == *self,
    {
        Code(self.0.clone())
    }
}

impl Nameplate {
    /// A copy of this nameplate.
    pub fn copy(&self) -> (copy: Nameplate)
        ensures
            copy == *self,
    {
        Nameplate(self.0.clone())
    }
}

impl Key {
    /// A copy of this key.
    pub fn copy(&self) -> (copy: Key)
        ensures
            copy.0@ == self.0@,
    {
        Key(self.0.clone())
    }
}

/// The label of a message in the mailbox.
#[derive(Clone, Copy, Debug, PartialEq, Eq, Structural)]
pub enum Phase {
    Pake,
    Version,
    /// An application message, numbered from zero by its sender.
    Message(u64),
}

#[derive(Debug, PartialEq)]
pub enum AllocatorEvent {
    Allocate(usize),
    Connected,
    Lost,
    RxAllocated(Nameplate),
}

#[derive(Debug, PartialEq)]
pub enum BossEvent {
    /// The connection to the server is up.
    Connected,
    /// The connection to the server is lost, or could not be made.
    Lost,
    RxWelcome(Json),
    RxError,
    Error,
    Closed,
    GotCode(Code),
    GotKey(Key),
    Scared,
    Happy,
    GotVerifier(Vec<u8>),
    GotMessage(Phase, Vec<u8>),
}

#[derive(Debug, PartialEq)]
pub enum CodeEvent {
    AllocateCode(usize),
    InputCode,
    SetCode(Code),
    Allocated(Nameplate, Code),
    GotNameplate(Nameplate),
    FinishedInput(Code),
}

#[derive(Debug, PartialEq)]
pub enum InputEvent {
    Start,
    GotNameplates(Vec<Nameplate>),
    GotWordlist,
    RefreshNameplates,
    ChooseNameplate(String),
    ChooseWords(String),
}

#[derive(Debug, PartialEq)]
pub enum KeyEvent {
    GotCode(Code),
    GotPake(Vec<u8>),
}

#[derive(Debug, PartialEq)]
pub enum ListerEvent {
    Connected,
    Lost,
    RxNameplates(Vec<Nameplate>),
    Refresh,
}

#[derive(Debug, PartialEq)]
pub enum MailboxEvent {
    Connected,
    Lost,
    /// A message in the mailbox: the side that added it, its phase, its body.
    RxMessage(String, Phase, Vec<u8>),
    RxClosed,
    Close(Mood),
    GotMailbox(String),
    AddMessage(Phase, Vec<u8>),
}

#[derive(Debug, PartialEq)]
pub enum NameplateEvent {
    Connected,
    Lost,
    RxClaimed(String),
    RxReleased,
    SetNameplate(Nameplate),
    Release,
    Close,
}

#[derive(Debug, PartialEq)]
pub enum OrderEvent {
    GotMessage(String, Phase, Vec<u8>),
}

#[derive(Debug, PartialEq)]
pub enum ReceiveEvent {
    GotMessage(String, Phase, Vec<u8>),
    GotKey(Key),
}

#[derive(Debug, PartialEq)]
pub enum RendezvousEvent {
    Start,
    TxOpen(String),
    /// Add a message to the mailbox: its phase, and its body in hexadecimal.
    TxAdd(Phase, String),
    TxClose(String, Mood),
    Stop,
    TxClaim(Nameplate),
    TxRelease(Nameplate),
    TxAllocate,
    TxList,
}

#[derive(Debug, PartialEq)]
pub enum SendEvent {
    Send(Phase, Vec<u8>),
    GotVerifiedKey(Key),
}

#[derive(Debug, PartialEq)]
pub enum TerminatorEvent {
    Close(Mood),
    MailboxDone,
    NameplateDone,
    Stopped,
}

/// A note for the timing log.
#[derive(Debug, PartialEq)]
pub struct TimingLogEvent {
    pub name: String,
}

/// An event on its way to the machine that is to process it, or an action
/// on its way out of the engine.
#[derive(Debug, PartialEq)]
pub enum Event {
    API(APIAction),
    IO(IOAction),
    Allocator(AllocatorEvent),
    Boss(BossEvent),
    Code(CodeEvent),
    Input(InputEvent),
    Key(KeyEvent),
    Lister(ListerEvent),
    Mailbox(MailboxEvent),
    Nameplate(NameplateEvent),
    Order(OrderEvent),
    Receive(ReceiveEvent),
    Rendezvous(RendezvousEvent),
    Send(SendEvent),
    Terminator(TerminatorEvent),
    Timing(TimingLogEvent),
}

/// The rank of an event. Whatever a machine emits when it processes an
/// event ranks below that event, so no cascade goes on for ever. A note
/// for the timing log ranks above every other event: no machine emits one.
pub open spec fn rank(event: Event) -> nat {
    match event {
        Event::API(_) => 0,
        Event::IO(_) => 0,
        Event::Timing(_) => 13,
        Event::Boss(BossEvent::Closed) => 1,
        Event::Terminator(TerminatorEvent::Stopped) => 2,
        Event::Rendezvous(_) => 3,
        Event::Terminator(TerminatorEvent::MailboxDone) => 4,
        Event::Terminator(TerminatorEvent::NameplateDone) => 4,
        Event::Nameplate(NameplateEvent::Close) => 5,
        Event::Mailbox(MailboxEvent::Close(_)) => 5,
        Event::Terminator(TerminatorEvent::Close(_)) => 6,
        Event::Boss(_) => 7,
        Event::Nameplate(NameplateEvent::RxClaimed(_)) => 9,
        Event::Nameplate(_) => 8,
        Event::Mailbox(MailboxEvent::RxMessage(_, _, _)) => 12,
        Event::Mailbox(_) => 8,
        Event::Lister(ListerEvent::RxNameplates(_)) => 9,
        Event::Lister(_) => 8,
        Event::Allocator(AllocatorEvent::RxAllocated(_)) => 11,
        Event::Allocator(_) => 8,
        Event::Input(InputEvent::GotNameplates(_)) => 8,
        Event::Input(InputEvent::GotWordlist) => 8,
        Event::Input(InputEvent::Start) => 9,
        Event::Input(InputEvent::RefreshNameplates) => 9,
        Event::Input(_) => 11,
        Event::Send(_) => 9,
        Event::Key(_) => 9,
        Event::Receive(ReceiveEvent::GotKey(_)) => 8,
        Event::Receive(ReceiveEvent::GotMessage(_, _, _)) => 10,
        Event::Code(_) => 10,
        Event::Order(_) => 11,
    }
}

/// Whether every one of `events` ranks below `bound`.
pub open spec fn below(events: Seq<Event>, bound: nat) -> bool {
    forall|i: int| 0 <= i < events.len() ==> rank(#[trigger] events[i]) < bound
}

/// Whether none of `events` is an action for the embedder.
pub open spec fn quiet(events: Seq<Event>) -> bool {
    forall|i: int| 0 <= i < events.len() ==> !((#[trigger] events[i]) is API)
}

/// The actions for the embedder among `events`, in their order.
pub open spec fn api_actions(events: Seq<Event>) -> Seq<APIAction>
    decreases events.len(),
{
    if events.len() == 0 {
        Seq::empty()
    } else {
        match events.last() {
            Event::API(action) => api_actions(events.drop_last()).push(action),
            _ => api_actions(events.drop_last()),
        }
    }
}

/// Among events of which none is for the embedder there are no actions for
/// it.
pub proof fn lemma_quiet_has_no_actions(events: Seq<Event>)
    requires
        quiet(events),
    ensures
        api_actions(events) == Seq::<APIAction>::empty(),
    decreases events.len(),
{
    if events.len() > 0 {
        assert(!(events[events.len() - 1] is API));
        lemma_quiet_has_no_actions(events.drop_last());
    }
}

/// The actions among two runs of events are those of the first, then those
/// of the second.
pub proof fn lemma_api_actions_concat(a: Seq<Event>, b: Seq<Event>)
    ensures
        api_actions(a + b) == api_actions(a) + api_actions(b),
    decreases b.len(),
{
    if b.len() == 0 {
        assert(a + b =~= a);
        assert(api_actions(a) + api_actions(b) =~= api_actions(a));
    } else {
        assert((a + b).drop_last() =~= a + b.drop_last());
        assert((a + b).last() == b.last());
        lemma_api_actions_concat(a, b.drop_last());
        match b.last() {
            Event::API(action) => {
                assert((api_actions(a) + api_actions(b.drop_last())).push(action) =~= api_actions(
                    a,
                ) + api_actions(b.drop_last()).push(action));
            },
            _ => {},
        }
    }
}

} // verus!
