//! The machine that claims the nameplate and releases it again.

use vstd::prelude::*;
use crate::engine::events::{
    below, quiet, rank, BossEvent, Event, InputEvent, MailboxEvent, Nameplate, NameplateEvent,
    RendezvousEvent, TerminatorEvent,
};

verus! {

pub enum NameplateState {
    Unclaimed,
    /// The nameplate is to be claimed; the server has not confirmed it.
    Claiming(Nameplate),
    Claimed(Nameplate),
    /// The nameplate is to be released; the server has not confirmed it.
    Releasing(Nameplate),
    Released,
}

pub struct NameplateMachine {
    pub state: NameplateState,
    pub connected: bool,
    /// The session is closing.
    pub closing: bool,
}

impl NameplateMachine {
    /// The state after `event`.
    ///
    /// A release that the session's close asked for counts as done without
    /// the server's word when the connection is down.
    pub open spec fn next_state(self, event: NameplateEvent) -> NameplateState {
        match event {
            NameplateEvent::Connected => self.state,
            NameplateEvent::Lost => match self.state {
                NameplateState::Releasing(_) => if self.closing {
                    NameplateState::Released
                } else {
                    self.state
                },
                _ => self.state,
            },
            NameplateEvent::SetNameplate(nameplate) => match self.state {
                NameplateState::Unclaimed => NameplateState::Claiming(nameplate),
                _ => self.state,
            },
            NameplateEvent::RxClaimed(_) => match self.state {
                NameplateState::Claiming(nameplate) => NameplateState::Claimed(nameplate),
                _ => self.state,
            },
            NameplateEvent::Release => match self.state {
                NameplateState::Claimed(nameplate) => NameplateState::Releasing(nameplate),
                _ => self.state,
            },
            NameplateEvent::RxReleased => match self.state {
                NameplateState::Releasing(_) => NameplateState::Released,
                _ => self.state,
            },
            NameplateEvent::Close => match self.state {
                NameplateState::Unclaimed => NameplateState::Released,
                NameplateState::Claiming(nameplate) => if self.connected {
                    NameplateState::Releasing(nameplate)
                } else {
                    NameplateState::Released
                },
                NameplateState::Claimed(nameplate) => if self.connected {
                    NameplateState::Releasing(nameplate)
                } else {
                    NameplateState::Released
                },
                NameplateState::Releasing(nameplate) => if self.connected {
                    NameplateState::Releasing(nameplate)
                } else {
                    NameplateState::Released
                },
                NameplateState::Released => NameplateState::Released,
            },
        }
    }

    /// The machine after `event`.
    pub open spec fn next(self, event: NameplateEvent) -> NameplateMachine {
        NameplateMachine {
            state: self.next_state(event),
            connected: match event {
                NameplateEvent::Connected => true,
                NameplateEvent::Lost => false,
                _ => self.connected,
            },
            closing: match event {
                NameplateEvent::Close => true,
                _ => self.closing,
            },
        }
    }

    /// What the machine emits on `event`.
    ///
    /// A claim or release that is pending is sent when the connection is
    /// up or comes up. The terminator hears that the nameplate is done
    /// exactly when the state becomes `Released`. A nameplate that is set
    /// a second time, and a word of the server on a claim or a release that
    /// was not asked for, are errors; what comes late, after the release,
    /// is passed over.
    pub open spec fn emits(self, event: NameplateEvent) -> Seq<Event> {
        let done = seq![Event::Terminator(TerminatorEvent::NameplateDone)];
        match event {
            NameplateEvent::Connected => match self.state {
                NameplateState::Claiming(nameplate) => seq![
                    Event::Rendezvous(RendezvousEvent::TxClaim(nameplate)),
                ],
                NameplateState::Releasing(nameplate) => seq![
                    Event::Rendezvous(RendezvousEvent::TxRelease(nameplate)),
                ],
                _ => Seq::empty(),
            },
            NameplateEvent::Lost => match self.state {
                NameplateState::Releasing(_) => if self.closing {
                    done
                } else {
                    Seq::empty()
                },
                _ => Seq::empty(),
            },
            NameplateEvent::SetNameplate(nameplate) => match self.state {
                NameplateState::Unclaimed => if self.connected {
                    seq![Event::Rendezvous(RendezvousEvent::TxClaim(nameplate))]
                } else {
                    Seq::empty()
                },
                _ => seq![Event::Boss(BossEvent::Error)],
            },
            NameplateEvent::RxClaimed(mailbox) => match self.state {
                NameplateState::Claiming(_) => seq![
                    Event::Input(InputEvent::GotWordlist),
                    Event::Mailbox(MailboxEvent::GotMailbox(mailbox)),
                ],
                NameplateState::Releasing(_) => Seq::empty(),
                NameplateState::Released => Seq::empty(),
                _ => seq![Event::Boss(BossEvent::Error)],
            },
            NameplateEvent::Release => match self.state {
                NameplateState::Claimed(nameplate) => if self.connected {
                    seq![Event::Rendezvous(RendezvousEvent::TxRelease(nameplate))]
                } else {
                    Seq::empty()
                },
                _ => Seq::empty(),
            },
            NameplateEvent::RxReleased => match self.state {
                NameplateState::Releasing(_) => done,
                NameplateState::Released => Seq::empty(),
                _ => seq![Event::Boss(BossEvent::Error)],
            },
            NameplateEvent::Close => match self.state {
                NameplateState::Unclaimed => done,
                NameplateState::Claiming(nameplate) => if self.connected {
                    seq![Event::Rendezvous(RendezvousEvent::TxRelease(nameplate))]
                } else {
                    done
                },
                NameplateState::Claimed(nameplate) => if self.connected {
                    seq![Event::Rendezvous(RendezvousEvent::TxRelease(nameplate))]
                } else {
                    done
                },
                NameplateState::Releasing(_) => if self.connected {
                    Seq::empty()
                } else {
                    done
                },
                NameplateState::Released => Seq::empty(),
            },
        }
    }

    /// A machine that has claimed nothing and is not connected.
    pub fn new() -> (machine: NameplateMachine)
        ensures
            machine == (NameplateMachine {
                state: NameplateState::Unclaimed,
                connected: false,
                closing: false,
            }),
    {
        NameplateMachine { state: NameplateState::Unclaimed, connected: false, closing: false }
    }

    /// Whether `after` and `out` are the machine and what it has emitted
    /// once it has processed `event`.
    pub open spec fn processed(
        self,
        event: NameplateEvent,
        after: NameplateMachine,
        out: Seq<Event>,
    ) -> bool {
        &&& after == self.next(event)
        &&& out == self.emits(event)
    }

    /// Processes one event.
    pub fn process(&mut self, event: NameplateEvent) -> (out: Vec<Event>)
        ensures
            old(self).processed(event, *final(self), out@),
            below(out@, rank(Event::Nameplate(event))),
            quiet(out@),
    {
        let mut out: Vec<Event> = Vec::new();
        let mut state = NameplateState::Unclaimed;
        core::mem::swap(&mut state, &mut self.state);
        let connected = self.connected;
        let closing = self.closing;
        let next = match event {
            NameplateEvent::Connected => {
                self.connected = true;
                match state {
                    NameplateState::Claiming(nameplate) => {
                        out.push(Event::Rendezvous(RendezvousEvent::TxClaim(nameplate.copy())));
                        NameplateState::Claiming(nameplate)
                    },
                    NameplateState::Releasing(nameplate) => {
                        out.push(Event::Rendezvous(RendezvousEvent::TxRelease(nameplate.copy())));
                        NameplateState::Releasing(nameplate)
                    },
                    other => other,
                }
            },
            NameplateEvent::Lost => {
                self.connected = false;
                match state {
                    NameplateState::Releasing(nameplate) => {
                        if closing {
                            out.push(Event::Terminator(TerminatorEvent::NameplateDone));
                            NameplateState::Released
                        } else {
                            NameplateState::Releasing(nameplate)
                        }
                    },
                    other => other,
                }
            },
            NameplateEvent::SetNameplate(nameplate) => match state {
                NameplateState::Unclaimed => {
                    if connected {
                        out.push(Event::Rendezvous(RendezvousEvent::TxClaim(nameplate.copy())));
                    }
                    NameplateState::Claiming(nameplate)
                },
                other => {
                    out.push(Event::Boss(BossEvent::Error));
                    other
                },
            },
            NameplateEvent::RxClaimed(mailbox) => match state {
                NameplateState::Claiming(nameplate) => {
                    out.push(Event::Input(InputEvent::GotWordlist));
                    out.push(Event::Mailbox(MailboxEvent::GotMailbox(mailbox)));
                    NameplateState::Claimed(nameplate)
                },
                NameplateState::Releasing(nameplate) => NameplateState::Releasing(nameplate),
                NameplateState::Released => NameplateState::Released,
                other => {
                    out.push(Event::Boss(BossEvent::Error));
                    other
                },
            },
            NameplateEvent::Release => match state {
                NameplateState::Claimed(nameplate) => {
                    if connected {
                        out.push(Event::Rendezvous(RendezvousEvent::TxRelease(nameplate.copy())));
                    }
                    NameplateState::Releasing(nameplate)
                },
                other => other,
            },
            NameplateEvent::RxReleased => match state {
                NameplateState::Releasing(_) => {
                    out.push(Event::Terminator(TerminatorEvent::NameplateDone));
                    NameplateState::Released
                },
                NameplateState::Released => NameplateState::Released,
                other => {
                    out.push(Event::Boss(BossEvent::Error));
                    other
                },
            },
            NameplateEvent::Close => {
                self.closing = true;
                match state {
                    NameplateState::Unclaimed => {
                        out.push(Event::Terminator(TerminatorEvent::NameplateDone));
                        NameplateState::Released
                    },
                    NameplateState::Claiming(nameplate) => {
                        if connected {
                            out.push(
                                Event::Rendezvous(RendezvousEvent::TxRelease(nameplate.copy())),
                            );
                            NameplateState::Releasing(nameplate)
                        } else {
                            out.push(Event::Terminator(TerminatorEvent::NameplateDone));
                            NameplateState::Released
                        }
                    },
                    NameplateState::Claimed(nameplate) => {
                        if connected {
                            out.push(
                                Event::Rendezvous(RendezvousEvent::TxRelease(nameplate.copy())),
                            );
                            NameplateState::Releasing(nameplate)
                        } else {
                            out.push(Event::Terminator(TerminatorEvent::NameplateDone));
                            NameplateState::Released
                        }
                    },
                    NameplateState::Releasing(nameplate) => {
                        if connected {
                            NameplateState::Releasing(nameplate)
                        } else {
                            out.push(Event::Terminator(TerminatorEvent::NameplateDone));
                            NameplateState::Released
                        }
                    },
                    NameplateState::Released => NameplateState::Released,
                }
            },
        };
        self.state = next;
        assert(out@ =~= old(self).emits(event));
        out
    }
}

} // verus!
