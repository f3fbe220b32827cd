//! The machine that coordinates shutdown: it has the nameplate released and
//! the mailbox closed, then the connection stopped, and reports the end
//! when all three are done.

use vstd::prelude::*;
use crate::engine::events::{
    below, quiet, rank, BossEvent, Event, MailboxEvent, NameplateEvent, RendezvousEvent,
    TerminatorEvent,
};

verus! {

pub struct TerminatorMachine {
    /// The nameplate has not reported that it is done.
    pub nameplate_active: bool,
    /// The mailbox has not reported that it is done.
    pub mailbox_active: bool,
    /// The session has been asked to close.
    pub closing: bool,
    /// The connection has been asked to stop.
    pub stopping: bool,
    /// The end has been reported.
    pub stopped: bool,
}

impl TerminatorMachine {
    /// The machine after `event`, before it looks whether to stop the
    /// connection.
    pub open spec fn noted(self, event: TerminatorEvent) -> TerminatorMachine {
        match event {
            TerminatorEvent::MailboxDone => TerminatorMachine { mailbox_active: false, ..self },
            TerminatorEvent::NameplateDone => TerminatorMachine {
                nameplate_active: false,
                ..self
            },
            TerminatorEvent::Close(_) => TerminatorMachine { closing: true, ..self },
            TerminatorEvent::Stopped => if self.stopping {
                TerminatorMachine { stopped: true, ..self }
            } else {
                self
            },
        }
    }

    /// Whether it is time to stop the connection: the session is closing,
    /// nameplate and mailbox are done, and the connection has not been
    /// asked to stop before.
    pub open spec fn ready_to_stop(self) -> bool {
        self.closing && !self.nameplate_active && !self.mailbox_active && !self.stopping
    }

    /// The machine after `event`.
    pub open spec fn next(self, event: TerminatorEvent) -> TerminatorMachine {
        let noted = self.noted(event);
        if !(event is Stopped) && noted.ready_to_stop() {
            TerminatorMachine { stopping: true, ..noted }
        } else {
            noted
        }
    }

    /// What the machine emits on `event`.
    ///
    /// The first request to close is passed on to nameplate and mailbox.
    /// The connection is asked to stop once, when the session is closing and
    /// both are done. The end is reported once, when the connection has
    /// stopped after it was asked to.
    pub open spec fn emits(self, event: TerminatorEvent) -> Seq<Event> {
        let first = match event {
            TerminatorEvent::Close(mood) => if self.closing {
                Seq::<Event>::empty()
            } else {
                seq![
                    Event::Nameplate(NameplateEvent::Close),
                    Event::Mailbox(MailboxEvent::Close(mood)),
                ]
            },
            TerminatorEvent::Stopped => if self.stopping && !self.stopped {
                seq![Event::Boss(BossEvent::Closed)]
            } else {
                Seq::<Event>::empty()
            },
            _ => Seq::<Event>::empty(),
        };
        if !(event is Stopped) && self.noted(event).ready_to_stop() {
            first.push(Event::Rendezvous(RendezvousEvent::Stop))
        } else {
            first
        }
    }

    /// A machine for a session that has not begun to close.
    pub fn new() -> (machine: TerminatorMachine)
        ensures
            machine == (TerminatorMachine {
                nameplate_active: true,
                mailbox_active: true,
                closing: false,
                stopping: false,
                stopped: false,
            }),
    {
        TerminatorMachine {
            nameplate_active: true,
            mailbox_active: true,
            closing: false,
            stopping: false,
            stopped: false,
        }
    }

    /// Whether `after` and `out` are the machine and what it has emitted
    /// once it has processed `event`.
    pub open spec fn processed(
        self,
        event: TerminatorEvent,
        after: TerminatorMachine,
        out: Seq<Event>,
    ) -> bool {
        &&& after == self.next(event)
        &&& out == self.emits(event)
    }

    /// Processes one event.
    pub fn process(&mut self, event: TerminatorEvent) -> (out: Vec<Event>)
        ensures
            old(self).processed(event, *final(self), out@),
            below(out@, rank(Event::Terminator(event))),
            quiet(out@),
    {
        let mut out: Vec<Event> = Vec::new();
        let mut look = true;
        match event {
            TerminatorEvent::MailboxDone => {
                self.mailbox_active = false;
            },
            TerminatorEvent::NameplateDone => {
                self.nameplate_active = false;
            },
            TerminatorEvent::Close(mood) => {
                if !self.closing {
                    out.push(Event::Nameplate(NameplateEvent::Close));
                    out.push(Event::Mailbox(MailboxEvent::Close(mood)));
                }
                self.closing = true;
            },
            TerminatorEvent::Stopped => {
                look = false;
                if self.stopping {
                    if !self.stopped {
                        out.push(Event::Boss(BossEvent::Closed));
                    }
                    self.stopped = true;
                }
            },
        }
        if look && self.closing && !self.nameplate_active && !self.mailbox_active
            && !self.stopping {
            self.stopping = true;
            out.push(Event::Rendezvous(RendezvousEvent::Stop));
        }
        assert(out@ =~= old(self).emits(event));
        out
    }
}

} // verus!
