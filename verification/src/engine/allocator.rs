//! The machine that has the server allocate a nameplate and makes a code of
//! it.

use vstd::prelude::*;
use crate::engine::code::{code_text, make_code};
use crate::engine::events::{
    below, quiet, rank, AllocatorEvent, BossEvent, CodeEvent, Event, RendezvousEvent,
};
use crate::wordlist::{default_draw, default_words_at, default_wordlist, texts_of};

verus! {

#[derive(Clone, Copy, Debug, PartialEq, Eq, Structural)]
pub enum AllocatorState {
    Idle,
    /// A nameplate is wanted, for a code of so many words.
    Wanting(usize),
    Done,
}

pub struct AllocatorMachine {
    pub state: AllocatorState,
    pub connected: bool,
}

impl AllocatorMachine {
    /// The machine after `event`; an event that is not expected changes
    /// nothing.
    pub open spec fn next(self, event: AllocatorEvent) -> AllocatorMachine {
        match event {
            AllocatorEvent::Connected => AllocatorMachine { connected: true, ..self },
            AllocatorEvent::Lost => AllocatorMachine { connected: false, ..self },
            AllocatorEvent::Allocate(count) => match self.state {
                AllocatorState::Idle => AllocatorMachine {
                    state: AllocatorState::Wanting(count),
                    ..self
                },
                _ => self,
            },
            AllocatorEvent::RxAllocated(_) => match self.state {
                AllocatorState::Wanting(_) => AllocatorMachine {
                    state: AllocatorState::Done,
                    ..self
                },
                _ => self,
            },
        }
    }

    /// Whether `out` is what the machine emits on `event`.
    ///
    /// The request goes out when a nameplate is wanted and the connection
    /// is up or comes up. The nameplate that comes back is handed to the
    /// code machine with a code made of it and of as many words as were
    /// asked for, each a word that the PGP word list has for its place.
    pub open spec fn emitted(self, event: AllocatorEvent, out: Seq<Event>) -> bool {
        let request = seq![Event::Rendezvous(RendezvousEvent::TxAllocate)];
        match event {
            AllocatorEvent::Connected => match self.state {
                AllocatorState::Wanting(_) => out == request,
                _ => out == Seq::<Event>::empty(),
            },
            AllocatorEvent::Lost => out == Seq::<Event>::empty(),
            AllocatorEvent::Allocate(_) => match self.state {
                AllocatorState::Idle => if self.connected {
                    out == request
                } else {
                    out == Seq::<Event>::empty()
                },
                _ => out == seq![Event::Boss(BossEvent::Error)],
            },
            AllocatorEvent::RxAllocated(nameplate) => match self.state {
                AllocatorState::Wanting(count) => {
                    &&& out.len() == 1
                    &&& out[0] matches Event::Code(CodeEvent::Allocated(n, code)) && n == nameplate
                        && exists|words: Seq<Seq<char>>|
                        default_draw(count as nat, words) && code.0@ == #[trigger] code_text(
                            nameplate.0@,
                            words,
                        )
                },
                _ => out == seq![Event::Boss(BossEvent::Error)],
            },
        }
    }

    /// A machine that wants nothing and is not connected.
    pub fn new() -> (machine: AllocatorMachine)
        ensures
            machine == (AllocatorMachine { state: AllocatorState::Idle, connected: false }),
    {
        AllocatorMachine { state: AllocatorState::Idle, connected: false }
    }

    /// Whether `after` and `out` are the machine and what it has emitted
    /// once it has processed `event`.
    pub open spec fn processed(
        self,
        event: AllocatorEvent,
        after: AllocatorMachine,
        out: Seq<Event>,
    ) -> bool {
        &&& after == self.next(event)
        &&& self.emitted(event, out)
    }

    /// Processes one event.
    pub fn process(&mut self, event: AllocatorEvent) -> (out: Vec<Event>)
        ensures
            old(self).processed(event, *final(self), out@),
            below(out@, rank(Event::Allocator(event))),
            quiet(out@),
    {
        let mut out: Vec<Event> = Vec::new();
        match event {
            AllocatorEvent::Connected => {
                self.connected = true;
                if let AllocatorState::Wanting(_) = self.state {
                    out.push(Event::Rendezvous(RendezvousEvent::TxAllocate));
                    assert(out@ =~= seq![Event::Rendezvous(RendezvousEvent::TxAllocate)]);
                }
            },
            AllocatorEvent::Lost => {
                self.connected = false;
            },
            AllocatorEvent::Allocate(count) => match self.state {
                AllocatorState::Idle => {
                    self.state = AllocatorState::Wanting(count);
                    if self.connected {
                        out.push(Event::Rendezvous(RendezvousEvent::TxAllocate));
                        assert(out@ =~= seq![Event::Rendezvous(RendezvousEvent::TxAllocate)]);
                    }
                },
                _ => {
                    out.push(Event::Boss(BossEvent::Error));
                    assert(out@ =~= seq![Event::Boss(BossEvent::Error)]);
                },
            },
            AllocatorEvent::RxAllocated(nameplate) => match self.state {
                AllocatorState::Wanting(count) => {
                    self.state = AllocatorState::Done;
                    let wordlist = default_wordlist(count);
                    let words = wordlist.choose_words();
                    let code = make_code(&nameplate, &words);
                    proof {
                        let drawn = texts_of(words@);
                        assert forall|i: int| 0 <= i < drawn.len() implies default_words_at(
                            i as nat,
                        ).contains(#[trigger] drawn[i]) by {
                            assert(texts_of(wordlist.list_at(i as nat)) == default_words_at(
                                i as nat,
                            ));
                        }
                        assert(default_draw(count as nat, drawn));
                    }
                    out.push(Event::Code(CodeEvent::Allocated(nameplate, code)));
                },
                _ => {
                    out.push(Event::Boss(BossEvent::Error));
                    assert(out@ =~= seq![Event::Boss(BossEvent::Error)]);
                },
            },
        }
        out
    }
}

} // verus!
