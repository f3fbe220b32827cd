//! The machine that opens the mailbox, posts this side's messages in it,
//! hands on the peer's, and closes it again.

use vstd::prelude::*;
use crate::engine::api::Mood;
use crate::engine::events::{
    below, quiet, rank, BossEvent, Event, MailboxEvent, NameplateEvent, OrderEvent, Phase,
    RendezvousEvent, TerminatorEvent,
};
use crate::hexcode::{hex_encode, hex_encoding};
use crate::text::same_text;

verus! {

/// A message of this side that the server has not echoed yet.
pub struct Pending {
    pub phase: Phase,
    /// The body, in hexadecimal.
    pub body: String,
}

pub enum MailboxState {
    /// The mailbox is not known yet.
    Empty,
    /// The mailbox is known, and is not open on a connection.
    Known(String),
    Open(String),
    /// The mailbox is to be closed; the server has not confirmed it.
    Closing(String, Mood),
    Closed,
}

pub struct MailboxMachine {
    pub state: MailboxState,
    pub connected: bool,
    pub side: String,
    /// This side's messages that the server has not echoed, in their order.
    pub pending: Vec<Pending>,
    /// The phases of the peer's messages that have been handed on.
    pub processed: Vec<Phase>,
    /// The nameplate machine has been told to release the nameplate.
    pub released: bool,
}

/// The requests that post the pending messages, in their order.
pub open spec fn postings(pending: Seq<Pending>) -> Seq<Event> {
    Seq::new(
        pending.len(),
        |i: int| Event::Rendezvous(RendezvousEvent::TxAdd(pending[i].phase, pending[i].body)),
    )
}

/// The requests that open a mailbox and post the pending messages in it.
pub open spec fn opening(mailbox: String, pending: Seq<Pending>) -> Seq<Event> {
    seq![Event::Rendezvous(RendezvousEvent::TxOpen(mailbox))] + postings(pending)
}

/// The pending messages without those of a phase.
pub open spec fn without_phase(pending: Seq<Pending>, phase: Phase) -> Seq<Pending>
    decreases pending.len(),
{
    if pending.len() == 0 {
        Seq::empty()
    } else if pending.last().phase == phase {
        without_phase(pending.drop_last(), phase)
    } else {
        without_phase(pending.drop_last(), phase).push(pending.last())
    }
}

impl MailboxMachine {
    /// The state after `event`.
    ///
    /// A mailbox that was open is only known once the connection is lost,
    /// and is opened again when the connection is back. A close that the
    /// server cannot hear of, because the connection is down or the
    /// mailbox was never opened, counts as done.
    pub open spec fn next_state(self, event: MailboxEvent) -> MailboxState {
        match event {
            MailboxEvent::Connected => match self.state {
                MailboxState::Known(mailbox) => MailboxState::Open(mailbox),
                _ => self.state,
            },
            MailboxEvent::Lost => match self.state {
                MailboxState::Open(mailbox) => MailboxState::Known(mailbox),
                MailboxState::Closing(_, _) => MailboxState::Closed,
                _ => self.state,
            },
            MailboxEvent::GotMailbox(mailbox) => match self.state {
                MailboxState::Empty => if self.connected {
                    MailboxState::Open(mailbox)
                } else {
                    MailboxState::Known(mailbox)
                },
                _ => self.state,
            },
            MailboxEvent::RxClosed => match self.state {
                MailboxState::Closing(_, _) => MailboxState::Closed,
                _ => self.state,
            },
            MailboxEvent::Close(mood) => match self.state {
                MailboxState::Open(mailbox) => MailboxState::Closing(mailbox, mood),
                MailboxState::Closing(mailbox, m) => MailboxState::Closing(mailbox, m),
                _ => MailboxState::Closed,
            },
            _ => self.state,
        }
    }

    /// Whether the peer's message of a phase from a side is one to hand
    /// on: the mailbox is open, the side is not this one, and no message
    /// of the phase has been handed on before.
    pub open spec fn is_news(self, side: Seq<char>, phase: Phase) -> bool {
        self.state is Open && side != self.side@ && !self.processed@.contains(phase)
    }

    /// Whether a message from a side is the echo of one of this side's.
    pub open spec fn is_echo(self, side: Seq<char>) -> bool {
        self.state is Open && side == self.side@
    }

    /// Whether the mailbox has not been opened on the connection at hand.
    pub open spec fn unopened(self) -> bool {
        self.state is Empty || self.state is Known
    }

    /// Whether new messages are still taken for posting.
    pub open spec fn takes_messages(self) -> bool {
        !(self.state is Closing) && !(self.state is Closed)
    }

    /// Whether `out` is what the machine emits on `event`.
    ///
    /// On the way up the mailbox is opened and every pending message is
    /// posted again. A new message of this side is posted at once where the
    /// mailbox is open. The peer's first message has the nameplate
    /// released, and each of the peer's messages is handed on once. The
    /// terminator hears that the mailbox is done exactly when the state
    /// becomes `Closed`. A second mailbox, and a message or the word of the
    /// server on a close for a mailbox that is not open, are errors.
    pub open spec fn emitted(self, event: MailboxEvent, out: Seq<Event>) -> bool {
        let done = seq![Event::Terminator(TerminatorEvent::MailboxDone)];
        match event {
            MailboxEvent::Connected => match self.state {
                MailboxState::Known(mailbox) => out == opening(mailbox, self.pending@),
                MailboxState::Closing(mailbox, mood) => out == seq![
                    Event::Rendezvous(RendezvousEvent::TxClose(mailbox, mood)),
                ],
                _ => out == Seq::<Event>::empty(),
            },
            MailboxEvent::Lost => match self.state {
                MailboxState::Closing(_, _) => out == done,
                _ => out == Seq::<Event>::empty(),
            },
            MailboxEvent::GotMailbox(mailbox) => match self.state {
                MailboxState::Empty => if self.connected {
                    out == opening(mailbox, self.pending@)
                } else {
                    out == Seq::<Event>::empty()
                },
                _ => out == seq![Event::Boss(BossEvent::Error)],
            },
            MailboxEvent::AddMessage(phase, body) => if self.state is Open {
                &&& out.len() == 1
                &&& out[0] matches Event::Rendezvous(RendezvousEvent::TxAdd(p, hex)) && p == phase
                    && hex@ == hex_encoding(body@)
            } else {
                out == Seq::<Event>::empty()
            },
            MailboxEvent::RxMessage(side, phase, body) => if self.is_news(side@, phase) {
                let delivery = Event::Order(OrderEvent::GotMessage(side, phase, body));
                if self.released {
                    out == seq![delivery]
                } else {
                    out == seq![Event::Nameplate(NameplateEvent::Release), delivery]
                }
            } else if self.unopened() {
                out == seq![Event::Boss(BossEvent::Error)]
            } else {
                out == Seq::<Event>::empty()
            },
            MailboxEvent::RxClosed => match self.state {
                MailboxState::Closing(_, _) => out == done,
                MailboxState::Closed => out == Seq::<Event>::empty(),
                _ => out == seq![Event::Boss(BossEvent::Error)],
            },
            MailboxEvent::Close(mood) => match self.state {
                MailboxState::Open(mailbox) => out == seq![
                    Event::Rendezvous(RendezvousEvent::TxClose(mailbox, mood)),
                ],
                MailboxState::Closing(_, _) => out == Seq::<Event>::empty(),
                MailboxState::Closed => out == Seq::<Event>::empty(),
                _ => out == done,
            },
        }
    }

    /// Whether `pending` is what waits for its echo after `event`: a new
    /// message of this side is added, in hexadecimal, while messages are
    /// taken; an echo takes away the messages of its phase.
    pub open spec fn pending_after(self, event: MailboxEvent, pending: Seq<Pending>) -> bool {
        match event {
            MailboxEvent::AddMessage(phase, body) => if self.takes_messages() {
                &&& pending.len() == self.pending@.len() + 1
                &&& pending.drop_last() == self.pending@
                &&& pending.last().phase == phase
                &&& pending.last().body@ == hex_encoding(body@)
            } else {
                pending == self.pending@
            },
            MailboxEvent::RxMessage(side, phase, _) => if self.is_echo(side@) {
                pending == without_phase(self.pending@, phase)
            } else {
                pending == self.pending@
            },
            _ => pending == self.pending@,
        }
    }

    /// A machine for a side, before the mailbox is known.
    pub fn new(side: &str) -> (machine: MailboxMachine)
        ensures
            machine.state is Empty,
            !machine.connected,
            machine.side@ == side@,
            machine.pending@.len() == 0,
            machine.processed@.len() == 0,
            !machine.released,
    {
        MailboxMachine {
            state: MailboxState::Empty,
            connected: false,
            side: side.to_owned(),
            pending: Vec::new(),
            processed: Vec::new(),
            released: false,
        }
    }

    fn open(&self, mailbox: String, out: &mut Vec<Event>)
        requires
            old(out)@.len() == 0,
        ensures
            final(out)@ == opening(mailbox, self.pending@),
    {
        out.push(Event::Rendezvous(RendezvousEvent::TxOpen(mailbox)));
        let mut i: usize = 0;
        while i < self.pending.len()
            invariant
                i <= self.pending.len(),
                out@.len() == i + 1,
                out@[0] == Event::Rendezvous(RendezvousEvent::TxOpen(mailbox)),
                forall|j: int| 0 <= j < i ==> out@[j + 1] == postings(self.pending@)[j],
            decreases self.pending.len() - i,
        {
            out.push(
                Event::Rendezvous(
                    RendezvousEvent::TxAdd(self.pending[i].phase, self.pending[i].body.clone()),
                ),
            );
            i += 1;
        }
        assert(out@ =~= opening(mailbox, self.pending@));
    }

    fn has_processed(&self, phase: Phase) -> (seen: bool)
        ensures
            seen == self.processed@.contains(phase),
    {
        let mut i: usize = 0;
        while i < self.processed.len()
            invariant
                i <= self.processed.len(),
                forall|j: int| 0 <= j < i ==> self.processed@[j] != phase,
            decreases self.processed.len() - i,
        {
            if self.processed[i] == phase {
                return true;
            }
            i += 1;
        }
        false
    }

    fn forget(&mut self, phase: Phase)
        ensures
            final(self).pending@ == without_phase(old(self).pending@, phase),
            final(self).state == old(self).state,
            final(self).connected == old(self).connected,
            final(self).side == old(self).side,
            final(self).processed == old(self).processed,
            final(self).released == old(self).released,
    {
        let mut kept: Vec<Pending> = Vec::new();
        let ghost all = self.pending@;
        let mut k: usize = 0;
        let total = self.pending.len();
        while self.pending.len() > 0
            invariant
                k + self.pending@.len() == total,
                total == all.len(),
                self.pending@ == all.subrange(k as int, all.len() as int),
                kept@ == without_phase(all.subrange(0, k as int), phase),
                self.state == old(self).state,
                self.connected == old(self).connected,
                self.side == old(self).side,
                self.processed == old(self).processed,
                self.released == old(self).released,
            decreases self.pending@.len(),
        {
            let message = self.pending.remove(0);
            proof {
                assert(message == all[k as int]);
                assert(self.pending@ =~= all.subrange(k + 1, all.len() as int));
                assert(all.subrange(0, k + 1).drop_last() =~= all.subrange(0, k as int));
            }
            if message.phase != phase {
                kept.push(message);
            }
            k += 1;
        }
        proof {
            assert(all.subrange(0, all.len() as int) =~= all);
        }
        self.pending = kept;
    }

    /// Whether `after` and `out` are the machine and what it has emitted
    /// once it has processed `event`.
    pub open spec fn processed(
        self,
        event: MailboxEvent,
        after: MailboxMachine,
        out: Seq<Event>,
    ) -> bool {
        &&& after.state == self.next_state(event)
        &&& after.side == self.side
        &&& after.connected == (match event {
            MailboxEvent::Connected => true,
            MailboxEvent::Lost => false,
            _ => self.connected
        })
        &&& self.pending_after(event, after.pending@)
        &&& after.processed@ == (match event {
            MailboxEvent::RxMessage(side, phase, _) => if self.is_news(side@, phase) {
                self.processed@.push(phase)
            } else {
                self.processed@
            },
            _ => self.processed@
        })
        &&& after.released == (self.released || match event {
            MailboxEvent::RxMessage(side, phase, _) => self.is_news(side@, phase),
            _ => false
        })
        &&& self.emitted(event, out)
    }

    /// Processes one event.
    pub fn process(&mut self, event: MailboxEvent) -> (out: Vec<Event>)
        ensures
            old(self).processed(event, *final(self), out@),
            below(out@, rank(Event::Mailbox(event))),
            quiet(out@),
    {
        let mut out: Vec<Event> = Vec::new();
        let mut state = MailboxState::Empty;
        core::mem::swap(&mut state, &mut self.state);
        match event {
            MailboxEvent::Connected => {
                self.connected = true;
                match state {
                    MailboxState::Known(mailbox) => {
                        self.open(mailbox.clone(), &mut out);
                        self.state = MailboxState::Open(mailbox);
                    },
                    MailboxState::Closing(mailbox, mood) => {
                        out.push(
                            Event::Rendezvous(RendezvousEvent::TxClose(mailbox.clone(), mood)),
                        );
                        assert(out@ =~= seq![
                            Event::Rendezvous(RendezvousEvent::TxClose(mailbox, mood)),
                        ]);
                        self.state = MailboxState::Closing(mailbox, mood);
                    },
                    other => {
                        self.state = other;
                    },
                }
            },
            MailboxEvent::Lost => {
                self.connected = false;
                match state {
                    MailboxState::Open(mailbox) => {
                        self.state = MailboxState::Known(mailbox);
                    },
                    MailboxState::Closing(_, _) => {
                        out.push(Event::Terminator(TerminatorEvent::MailboxDone));
                        assert(out@ =~= seq![Event::Terminator(TerminatorEvent::MailboxDone)]);
                        self.state = MailboxState::Closed;
                    },
                    other => {
                        self.state = other;
                    },
                }
            },
            MailboxEvent::GotMailbox(mailbox) => match state {
                MailboxState::Empty => {
                    if self.connected {
                        self.open(mailbox.clone(), &mut out);
                        self.state = MailboxState::Open(mailbox);
                    } else {
                        self.state = MailboxState::Known(mailbox);
                    }
                },
                other => {
                    out.push(Event::Boss(BossEvent::Error));
                    assert(out@ =~= seq![Event::Boss(BossEvent::Error)]);
                    self.state = other;
                },
            },
            MailboxEvent::AddMessage(phase, body) => {
                match state {
                    MailboxState::Closing(mailbox, mood) => {
                        self.state = MailboxState::Closing(mailbox, mood);
                    },
                    MailboxState::Closed => {
                        self.state = MailboxState::Closed;
                    },
                    MailboxState::Open(mailbox) => {
                        let hex = hex_encode(body.as_slice());
                        out.push(Event::Rendezvous(RendezvousEvent::TxAdd(phase, hex.clone())));
                        self.pending.push(Pending { phase, body: hex });
                        assert(self.pending@.drop_last() =~= old(self).pending@);
                        self.state = MailboxState::Open(mailbox);
                    },
                    other => {
                        let hex = hex_encode(body.as_slice());
                        self.pending.push(Pending { phase, body: hex });
                        assert(self.pending@.drop_last() =~= old(self).pending@);
                        self.state = other;
                    },
                }
            },
            MailboxEvent::RxMessage(side, phase, body) => {
                match state {
                    MailboxState::Open(mailbox) => {
                        self.state = MailboxState::Open(mailbox);
                        if same_text(side.as_str(), self.side.as_str()) {
                            self.forget(phase);
                        } else if !self.has_processed(phase) {
                            self.processed.push(phase);
                            if !self.released {
                                self.released = true;
                                out.push(Event::Nameplate(NameplateEvent::Release));
                            }
                            out.push(Event::Order(OrderEvent::GotMessage(side, phase, body)));
                            assert(old(self).emitted(event, out@)) by {
                                let delivery = Event::Order(
                                    OrderEvent::GotMessage(side, phase, body),
                                );
                                if old(self).released {
                                    assert(out@ =~= seq![delivery]);
                                } else {
                                    assert(out@ =~= seq![
                                        Event::Nameplate(NameplateEvent::Release),
                                        delivery,
                                    ]);
                                }
                            }
                        }
                    },
                    MailboxState::Closing(mailbox, mood) => {
                        self.state = MailboxState::Closing(mailbox, mood);
                    },
                    MailboxState::Closed => {
                        self.state = MailboxState::Closed;
                    },
                    other => {
                        out.push(Event::Boss(BossEvent::Error));
                        assert(out@ =~= seq![Event::Boss(BossEvent::Error)]);
                        self.state = other;
                    },
                }
            },
            MailboxEvent::RxClosed => match state {
                MailboxState::Closing(_, _) => {
                    out.push(Event::Terminator(TerminatorEvent::MailboxDone));
                    assert(out@ =~= seq![Event::Terminator(TerminatorEvent::MailboxDone)]);
                    self.state = MailboxState::Closed;
                },
                MailboxState::Closed => {
                    self.state = MailboxState::Closed;
                },
                other => {
                    out.push(Event::Boss(BossEvent::Error));
                    assert(out@ =~= seq![Event::Boss(BossEvent::Error)]);
                    self.state = other;
                },
            },
            MailboxEvent::Close(mood) => match state {
                MailboxState::Open(mailbox) => {
                    out.push(Event::Rendezvous(RendezvousEvent::TxClose(mailbox.clone(), mood)));
                    assert(out@ =~= seq![
                        Event::Rendezvous(RendezvousEvent::TxClose(mailbox, mood)),
                    ]);
                    self.state = MailboxState::Closing(mailbox, mood);
                },
                MailboxState::Closing(mailbox, m) => {
                    self.state = MailboxState::Closing(mailbox, m);
                },
                MailboxState::Closed => {
                    self.state = MailboxState::Closed;
                },
                _ => {
                    out.push(Event::Terminator(TerminatorEvent::MailboxDone));
                    assert(out@ =~= seq![Event::Terminator(TerminatorEvent::MailboxDone)]);
                    self.state = MailboxState::Closed;
                },
            },
        }
        out
    }
}

} // verus!
