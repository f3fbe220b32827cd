//! The machine that opens inbound messages, and so verifies the key.

use vstd::prelude::*;
use crate::engine::events::{
    below, quiet, rank, BossEvent, Event, Key, Phase, ReceiveEvent, SendEvent,
};
use crate::engine::key::{data_opened, decrypt_data, derive_phase_key, phase_key};

verus! {

pub enum ReceiveState {
    NoKey,
    /// The key has opened nothing yet.
    Unverified(Key),
    /// The key has opened a message of the peer.
    Verified(Key),
    /// A message did not open under the key.
    Scared,
}

pub struct ReceiveMachine {
    pub state: ReceiveState,
}

impl ReceiveMachine {
    /// The key that the machine holds.
    pub open spec fn key(self) -> Option<Seq<u8>> {
        match self.state {
            ReceiveState::Unverified(key) => Some(key.0@),
            ReceiveState::Verified(key) => Some(key.0@),
            _ => None,
        }
    }

    /// What a message of a side in a phase holds under the machine's key.
    pub open spec fn opened(self, side: Seq<char>, phase: Phase, body: Seq<u8>) -> Option<Seq<u8>> {
        match self.key() {
            Some(key) => data_opened(phase_key(side, key, phase), body),
            None => None,
        }
    }

    /// Whether `next` is the state that follows `event`: a message that
    /// opens verifies the key, and one that does not frightens the machine
    /// for good.
    pub open spec fn follows(self, event: ReceiveEvent, next: ReceiveState) -> bool {
        match event {
            ReceiveEvent::GotKey(key) => match self.state {
                ReceiveState::NoKey => next == ReceiveState::Unverified(key),
                _ => next == self.state,
            },
            ReceiveEvent::GotMessage(side, phase, body) => match self.key() {
                None => next == self.state,
                Some(key) => match self.opened(side@, phase, body@) {
                    Some(_) => next matches ReceiveState::Verified(k) && k.0@ == key,
                    None => next is Scared,
                },
            },
        }
    }

    /// Whether `out` is what the machine emits on `event`.
    ///
    /// A message that opens goes to the boss; the first one also tells the
    /// send machine that the key is verified, and the boss that all is
    /// well. A message that does not open is reported as a fright, and one
    /// that comes before the key as an error. After a fright nothing is
    /// emitted.
    pub open spec fn emitted(self, event: ReceiveEvent, out: Seq<Event>) -> bool {
        match event {
            ReceiveEvent::GotKey(_) => out == Seq::<Event>::empty(),
            ReceiveEvent::GotMessage(side, phase, body) => match self.state {
                ReceiveState::NoKey => out == seq![Event::Boss(BossEvent::Error)],
                ReceiveState::Scared => out == Seq::<Event>::empty(),
                ReceiveState::Unverified(key) => match self.opened(side@, phase, body@) {
                    None => out == seq![Event::Boss(BossEvent::Scared)],
                    Some(plaintext) => {
                        &&& out.len() == 3
                        &&& out[0] matches Event::Send(SendEvent::GotVerifiedKey(k)) && k.0@
                            == key.0@
                        &&& out[1] == Event::Boss(BossEvent::Happy)
                        &&& out[2] matches Event::Boss(BossEvent::GotMessage(p, text)) && p
                            == phase && text@ == plaintext
                    },
                },
                ReceiveState::Verified(_) => match self.opened(side@, phase, body@) {
                    None => out == seq![Event::Boss(BossEvent::Scared)],
                    Some(plaintext) => {
                        &&& out.len() == 1
                        &&& out[0] matches Event::Boss(BossEvent::GotMessage(p, text)) && p
                            == phase && text@ == plaintext
                    },
                },
            },
        }
    }

    /// A machine without a key.
    pub fn new() -> (machine: ReceiveMachine)
        ensures
            machine.state is NoKey,
    {
        ReceiveMachine { state: ReceiveState::NoKey }
    }

    /// Whether `after` and `out` are the machine and what it has emitted
    /// once it has processed `event`.
    pub open spec fn processed(
        self,
        event: ReceiveEvent,
        after: ReceiveMachine,
        out: Seq<Event>,
    ) -> bool {
        &&& self.follows(event, after.state)
        &&& self.emitted(event, out)
    }

    /// Processes one event.
    pub fn process(&mut self, event: ReceiveEvent) -> (out: Vec<Event>)
        ensures
            old(self).processed(event, *final(self), out@),
            below(out@, rank(Event::Receive(event))),
            quiet(out@),
    {
        let mut out: Vec<Event> = Vec::new();
        let mut state = ReceiveState::NoKey;
        core::mem::swap(&mut state, &mut self.state);
        match event {
            ReceiveEvent::GotKey(key) => match state {
                ReceiveState::NoKey => {
                    self.state = ReceiveState::Unverified(key);
                },
                other => {
                    self.state = other;
                },
            },
            ReceiveEvent::GotMessage(side, phase, body) => match state {
                ReceiveState::NoKey => {
                    out.push(Event::Boss(BossEvent::Error));
                    assert(out@ =~= seq![Event::Boss(BossEvent::Error)]);
                },
                ReceiveState::Scared => {
                    self.state = ReceiveState::Scared;
                },
                ReceiveState::Unverified(key) => {
                    let phase_key = derive_phase_key(side.as_str(), key.0.as_slice(), phase);
                    match decrypt_data(phase_key.as_slice(), body.as_slice()) {
                        Some(plaintext) => {
                            out.push(Event::Send(SendEvent::GotVerifiedKey(key.copy())));
                            out.push(Event::Boss(BossEvent::Happy));
                            out.push(Event::Boss(BossEvent::GotMessage(phase, plaintext)));
                            self.state = ReceiveState::Verified(key);
                        },
                        None => {
                            out.push(Event::Boss(BossEvent::Scared));
                            assert(out@ =~= seq![Event::Boss(BossEvent::Scared)]);
                            self.state = ReceiveState::Scared;
                        },
                    }
                },
                ReceiveState::Verified(key) => {
                    let phase_key = derive_phase_key(side.as_str(), key.0.as_slice(), phase);
                    match decrypt_data(phase_key.as_slice(), body.as_slice()) {
                        Some(plaintext) => {
                            out.push(Event::Boss(BossEvent::GotMessage(phase, plaintext)));
                            self.state = ReceiveState::Verified(key);
                        },
                        None => {
                            out.push(Event::Boss(BossEvent::Scared));
                            assert(out@ =~= seq![Event::Boss(BossEvent::Scared)]);
                            self.state = ReceiveState::Scared;
                        },
                    }
                },
            },
        }
        out
    }
}

} // verus!
