//! What passes between the engine and its embedder: the events that go in
//! and the actions that come out.

use vstd::prelude::*;
use crate::engine::events::{Code, Key};
use crate::json::Json;

verus! {

/// How a session ended, as it is reported to the server on close.
#[derive(Clone, Copy, Debug, PartialEq, Eq, Structural)]
pub enum Mood {
    Happy,
    Lonely,
    Errory,
    Scared,
    Unwelcome,
}

impl Mood {
    /// The name under which the mood is reported.
    pub open spec fn name(self) -> Seq<char> {
        match self {
            Mood::Happy => "happy"@,
            Mood::Lonely => "lonely"@,
            Mood::Errory => "errory"@,
            Mood::Scared => "scared"@,
            Mood::Unwelcome => "unwelcome"@,
        }
    }

    /// The name under which the mood is reported.
    pub fn to_string(&self) -> (name: String)
        ensures
            name@ == self.name(),
    {
        match self {
            Mood::Happy => "happy".to_owned(),
            Mood::Lonely => "lonely".to_owned(),
            Mood::Errory => "errory".to_owned(),
            Mood::Scared => "scared".to_owned(),
            Mood::Unwelcome => "unwelcome".to_owned(),
        }
    }
}

/// Names one WebSocket connection.
#[derive(Clone, Copy, Debug, PartialEq, Eq, Hash, Structural)]
pub struct WSHandle {
    pub id: u32,
}

/// Names one timer.
#[derive(Clone, Copy, Debug, PartialEq, Eq, Hash, Structural)]
pub struct TimerHandle {
    pub id: u32,
}

/// What the embedder asks of the engine.
#[derive(Debug, PartialEq)]
pub enum APIEvent {
    Start,
    /// Ask the server for a nameplate and make a code of so many words.
    AllocateCode(usize),
    /// Enter a code interactively, with completion.
    InputCode,
    InputHelperRefreshNameplates,
    InputHelperChooseNameplate(String),
    InputHelperChooseWords(String),
    SetCode(Code),
    Close,
    Send(Vec<u8>),
}

/// Why the input helper has no answer.
#[derive(Clone, Copy, Debug, PartialEq, Eq, Structural)]
pub enum InputHelperError {
    Inactive,
    MustChooseNameplateFirst,
    AlreadyChoseNameplate,
    AlreadyChoseWords,
}

/// What the engine tells the embedder.
#[derive(Debug, PartialEq)]
pub enum APIAction {
    GotWelcome(Json),
    GotCode(Code),
    GotUnverifiedKey(Key),
    GotVerifier(Vec<u8>),
    GotVersions(Json),
    GotMessage(Vec<u8>),
    GotClosed(Mood),
}

/// What the transport tells the engine.
#[derive(Debug, PartialEq)]
pub enum IOEvent {
    TimerExpired(TimerHandle),
    WebSocketConnectionMade(WSHandle),
    WebSocketMessageReceived(WSHandle, String),
    WebSocketConnectionLost(WSHandle),
}

/// What the engine asks of the transport.
#[derive(Debug, PartialEq)]
pub enum IOAction {
    /// Start a timer that expires after so many seconds.
    StartTimer(TimerHandle, u64),
    CancelTimer(TimerHandle),
    WebSocketOpen(WSHandle, String),
    WebSocketSendMessage(WSHandle, String),
    WebSocketClose(WSHandle),
}

/// Anything that the engine puts out.
#[derive(Debug, PartialEq)]
pub enum Action {
    API(APIAction),
    IO(IOAction),
}

} // verus!
