//! The machine that seals outbound application messages.

use vstd::prelude::*;
use crate::engine::events::{below, quiet, rank, Event, Key, MailboxEvent, Phase, SendEvent};
use crate::engine::key::{derive_phase_key, encrypt_data, phase_key, seals};

verus! {

/// A message that waits for the key.
pub struct Outbound {
    pub phase: Phase,
    pub plaintext: Vec<u8>,
}

pub enum SendState {
    /// The key is not verified yet; messages wait in the order they came.
    NoKey(Vec<Outbound>),
    HasKey(Key),
}

pub struct SendMachine {
    pub state: SendState,
    pub side: String,
}

/// Whether `event` puts the message of `phase` with the given plaintext in
/// the mailbox, sealed so that it opens under this side's key for the
/// phase.
pub open spec fn posts(
    side: Seq<char>,
    key: Seq<u8>,
    phase: Phase,
    plaintext: Seq<u8>,
    event: Event,
) -> bool {
    event matches Event::Mailbox(MailboxEvent::AddMessage(p, body)) && p == phase && seals(
        phase_key(side, key, phase),
        plaintext,
        body@,
    )
}

impl SendMachine {
    /// Whether `next` is the state that follows `event`.
    pub open spec fn follows(self, event: SendEvent, next: SendState) -> bool {
        match (self.state, event) {
            (SendState::NoKey(queue), SendEvent::Send(phase, plaintext)) => {
                next matches SendState::NoKey(q) && q@ == queue@.push(
                    Outbound { phase, plaintext },
                )
            },
            (SendState::NoKey(_), SendEvent::GotVerifiedKey(key)) => next == SendState::HasKey(
                key,
            ),
            _ => next == self.state,
        }
    }

    /// Whether `out` is what the machine emits on `event`.
    ///
    /// With the key, a message is sealed and posted at once. Without it
    /// the message waits, and when the key comes the messages that wait are
    /// sealed and posted in the order in which they came.
    pub open spec fn emitted(self, event: SendEvent, out: Seq<Event>) -> bool {
        match (self.state, event) {
            (SendState::NoKey(_), SendEvent::Send(_, _)) => out == Seq::<Event>::empty(),
            (SendState::HasKey(key), SendEvent::Send(phase, plaintext)) => out.len() == 1 && posts(
                self.side@,
                key.0@,
                phase,
                plaintext@,
                out[0],
            ),
            (SendState::NoKey(queue), SendEvent::GotVerifiedKey(key)) => {
                &&& out.len() == queue@.len()
                &&& forall|i: int|
                    0 <= i < out.len() ==> posts(
                        self.side@,
                        key.0@,
                        queue@[i].phase,
                        queue@[i].plaintext@,
                        #[trigger] out[i],
                    )
            },
            (SendState::HasKey(_), SendEvent::GotVerifiedKey(_)) => out == Seq::<Event>::empty(),
        }
    }

    /// A machine for a side, before the key is verified.
    pub fn new(side: &str) -> (machine: SendMachine)
        ensures
            machine.side@ == side@,
            machine.state matches SendState::NoKey(queue) && queue@.len() == 0,
    {
        SendMachine { state: SendState::NoKey(Vec::new()), side: side.to_owned() }
    }

    fn seal(&self, key: &Key, phase: Phase, plaintext: &[u8]) -> (event: Event)
        ensures
            posts(self.side@, key.0@, phase, plaintext@, event),
    {
        let phase_key = derive_phase_key(self.side.as_str(), key.0.as_slice(), phase);
        Event::Mailbox(
            MailboxEvent::AddMessage(phase, encrypt_data(phase_key.as_slice(), plaintext)),
        )
    }

    /// Whether `after` and `out` are the machine and what it has emitted
    /// once it has processed `event`.
    pub open spec fn processed(
        self,
        event: SendEvent,
        after: SendMachine,
        out: Seq<Event>,
    ) -> bool {
        &&& after.side == self.side
        &&& self.follows(event, after.state)
        &&& self.emitted(event, out)
    }

    /// Processes one event.
    pub fn process(&mut self, event: SendEvent) -> (out: Vec<Event>)
        ensures
            old(self).processed(event, *final(self), out@),
            below(out@, rank(Event::Send(event))),
            quiet(out@),
    {
        let mut out: Vec<Event> = Vec::new();
        let mut state = SendState::NoKey(Vec::new());
        core::mem::swap(&mut state, &mut self.state);
        match (state, event) {
            (SendState::NoKey(mut queue), SendEvent::Send(phase, plaintext)) => {
                queue.push(Outbound { phase, plaintext });
                self.state = SendState::NoKey(queue);
            },
            (SendState::HasKey(key), SendEvent::Send(phase, plaintext)) => {
                out.push(self.seal(&key, phase, plaintext.as_slice()));
                self.state = SendState::HasKey(key);
            },
            (SendState::NoKey(queue), SendEvent::GotVerifiedKey(key)) => {
                let mut i: usize = 0;
                while i < queue.len()
                    invariant
                        i <= queue.len(),
                        out@.len() == i,
                        self.side == old(self).side,
                        forall|j: int|
                            0 <= j < i ==> posts(
                                self.side@,
                                key.0@,
                                queue@[j].phase,
                                queue@[j].plaintext@,
                                #[trigger] out@[j],
                            ),
                    decreases queue.len() - i,
                {
                    out.push(self.seal(&key, queue[i].phase, queue[i].plaintext.as_slice()));
                    i += 1;
                }
                self.state = SendState::HasKey(key);
            },
            (SendState::HasKey(key), SendEvent::GotVerifiedKey(_)) => {
                self.state = SendState::HasKey(key);
            },
        }
        out
    }
}

} // verus!
