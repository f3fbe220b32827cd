//! The machine that asks the server for the list of nameplates.

use vstd::prelude::*;
use crate::engine::events::{
    below, quiet, rank, Event, InputEvent, ListerEvent, RendezvousEvent,
};

verus! {

pub struct ListerMachine {
    pub connected: bool,
    /// A list has been asked for and has not come.
    pub wanting: bool,
}

impl ListerMachine {
    /// The machine after `event`.
    pub open spec fn next(self, event: ListerEvent) -> ListerMachine {
        match event {
            ListerEvent::Connected => ListerMachine { connected: true, ..self },
            ListerEvent::Lost => ListerMachine { connected: false, ..self },
            ListerEvent::Refresh => ListerMachine { wanting: true, ..self },
            ListerEvent::RxNameplates(_) => ListerMachine { wanting: false, ..self },
        }
    }

    /// What the machine emits on `event`: the request for the list when
    /// one is wanted and the connection is up, and a list that has come is
    /// handed to the input machine.
    pub open spec fn emits(self, event: ListerEvent) -> Seq<Event> {
        match event {
            ListerEvent::Connected => if self.wanting {
                seq![Event::Rendezvous(RendezvousEvent::TxList)]
            } else {
                Seq::empty()
            },
            ListerEvent::Lost => Seq::empty(),
            ListerEvent::Refresh => if self.connected {
                seq![Event::Rendezvous(RendezvousEvent::TxList)]
            } else {
                Seq::empty()
            },
            ListerEvent::RxNameplates(nameplates) => seq![
                Event::Input(InputEvent::GotNameplates(nameplates)),
            ],
        }
    }

    /// A machine that is not connected and wants no list.
    pub fn new() -> (machine: ListerMachine)
        ensures
            machine == (ListerMachine { connected: false, wanting: false }),
    {
        ListerMachine { connected: false, wanting: false }
    }

    /// Whether `after` and `out` are the machine and what it has emitted
    /// once it has processed `event`.
    pub open spec fn processed(
        self,
        event: ListerEvent,
        after: ListerMachine,
        out: Seq<Event>,
    ) -> bool {
        &&& after == self.next(event)
        &&& out == self.emits(event)
    }

    /// Processes one event.
    pub fn process(&mut self, event: ListerEvent) -> (out: Vec<Event>)
        ensures
            old(self).processed(event, *final(self), out@),
            below(out@, rank(Event::Lister(event))),
            quiet(out@),
    {
        let mut out: Vec<Event> = Vec::new();
        match event {
            ListerEvent::Connected => {
                self.connected = true;
                if self.wanting {
                    out.push(Event::Rendezvous(RendezvousEvent::TxList));
                }
            },
            ListerEvent::Lost => {
                self.connected = false;
            },
            ListerEvent::Refresh => {
                self.wanting = true;
                if self.connected {
                    out.push(Event::Rendezvous(RendezvousEvent::TxList));
                }
            },
            ListerEvent::RxNameplates(nameplates) => {
                self.wanting = false;
                out.push(Event::Input(InputEvent::GotNameplates(nameplates)));
            },
        }
        assert(out@ =~= old(self).emits(event));
        out
    }
}

} // verus!
