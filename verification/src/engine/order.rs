//! The machine that puts inbound messages in order: the key exchange
//! first, then the versions, then the application's messages.

use vstd::prelude::*;
use crate::engine::events::{
    below, quiet, rank, Event, KeyEvent, OrderEvent, Phase, ReceiveEvent,
};

verus! {

/// A message that is held back.
pub struct Held {
    pub side: String,
    pub phase: Phase,
    pub body: Vec<u8>,
}

#[derive(Clone, Copy, Debug, PartialEq, Eq, Structural)]
pub enum OrderState {
    /// The peer's message of the key exchange has not come.
    AwaitPake,
    /// The peer's versions have not come.
    AwaitVersion,
    /// Messages pass as they come.
    Flowing,
}

pub struct OrderMachine {
    pub state: OrderState,
    /// The peer's versions, where they came before the key exchange.
    pub version: Option<Held>,
    /// The application's messages that came too early, in their order.
    pub held: Vec<Held>,
}

/// The event that hands a message to the receive machine.
pub open spec fn delivery(message: Held) -> Event {
    Event::Receive(ReceiveEvent::GotMessage(message.side, message.phase, message.body))
}

/// The events that hand messages to the receive machine, in their order.
pub open spec fn deliveries(messages: Seq<Held>) -> Seq<Event> {
    Seq::new(messages.len(), |i: int| delivery(messages[i]))
}

impl OrderMachine {
    /// The machine after `event`.
    pub open spec fn next(self, event: OrderEvent) -> OrderMachine {
        match event {
            OrderEvent::GotMessage(side, phase, body) => {
                let message = Held { side, phase, body };
                match (self.state, phase) {
                    (OrderState::AwaitPake, Phase::Pake) => match self.version {
                        Some(_) => OrderMachine {
                            state: OrderState::Flowing,
                            version: None,
                            held: self.held,
                        },
                        None => OrderMachine { state: OrderState::AwaitVersion, ..self },
                    },
                    (OrderState::AwaitPake, Phase::Version) => match self.version {
                        Some(_) => self,
                        None => OrderMachine { version: Some(message), ..self },
                    },
                    (OrderState::AwaitVersion, Phase::Version) => OrderMachine {
                        state: OrderState::Flowing,
                        ..self
                    },
                    (OrderState::AwaitPake, Phase::Message(_)) => self,
                    (OrderState::AwaitVersion, Phase::Message(_)) => self,
                    _ => self,
                }
            },
        }
    }

    /// The messages that are held back after `event`.
    pub open spec fn next_held(self, event: OrderEvent) -> Seq<Held> {
        match event {
            OrderEvent::GotMessage(side, phase, body) => {
                let message = Held { side, phase, body };
                match (self.state, phase) {
                    (OrderState::AwaitPake, Phase::Pake) => match self.version {
                        Some(_) => Seq::empty(),
                        None => self.held@,
                    },
                    (OrderState::AwaitVersion, Phase::Version) => Seq::empty(),
                    (OrderState::AwaitPake, Phase::Message(_)) => self.held@.push(message),
                    (OrderState::AwaitVersion, Phase::Message(_)) => self.held@.push(message),
                    _ => self.held@,
                }
            },
        }
    }

    /// What the machine emits on `event`.
    ///
    /// The message of the key exchange goes to the key machine. The
    /// versions go to the receive machine once the key exchange has come,
    /// and the application's messages once the versions have: so the
    /// receive machine gets the versions first, then the application's
    /// messages in the order they came. A second message of the key
    /// exchange, and second versions before the first are out, are passed
    /// over.
    pub open spec fn emits(self, event: OrderEvent) -> Seq<Event> {
        match event {
            OrderEvent::GotMessage(side, phase, body) => {
                let message = Held { side, phase, body };
                match (self.state, phase) {
                    (OrderState::AwaitPake, Phase::Pake) => match self.version {
                        Some(version) => seq![
                            Event::Key(KeyEvent::GotPake(body)),
                            delivery(version),
                        ]
                            + deliveries(self.held@),
                        None => seq![Event::Key(KeyEvent::GotPake(body))],
                    },
                    (OrderState::AwaitVersion, Phase::Version) => seq![delivery(message)]
                        + deliveries(self.held@),
                    (OrderState::Flowing, Phase::Version) => seq![delivery(message)],
                    (OrderState::Flowing, Phase::Message(_)) => seq![delivery(message)],
                    _ => Seq::empty(),
                }
            },
        }
    }

    /// A machine that has seen nothing.
    pub fn new() -> (machine: OrderMachine)
        ensures
            machine.state == OrderState::AwaitPake,
            machine.version is None,
            machine.held@.len() == 0,
    {
        OrderMachine { state: OrderState::AwaitPake, version: None, held: Vec::new() }
    }

    fn release(&mut self, out: &mut Vec<Event>)
        ensures
            final(out)@ == old(out)@ + deliveries(old(self).held@),
            final(self).held@.len() == 0,
            final(self).state == old(self).state,
            final(self).version == old(self).version,
    {
        let ghost all = self.held@;
        let ghost before = out@;
        let mut k: usize = 0;
        let total = self.held.len();
        proof {
            assert(before + deliveries(all.subrange(0, 0)) =~= before);
        }
        while self.held.len() > 0
            invariant
                k + self.held@.len() == total,
                total == all.len(),
                self.held@ == all.subrange(k as int, all.len() as int),
                out@ == before + deliveries(all.subrange(0, k as int)),
                self.state == old(self).state,
                self.version == old(self).version,
            decreases self.held@.len(),
        {
            let message = self.held.remove(0);
            proof {
                assert(message == all[k as int]);
                assert(self.held@ =~= all.subrange(k + 1, all.len() as int));
                assert((before + deliveries(all.subrange(0, k as int))).push(delivery(message))
                    =~= before + deliveries(all.subrange(0, k + 1)));
            }
            out.push(
                Event::Receive(
                    ReceiveEvent::GotMessage(message.side, message.phase, message.body),
                ),
            );
            k += 1;
        }
        proof {
            assert(all.subrange(0, all.len() as int) =~= all);
        }
    }

    /// Whether `after` and `out` are the machine and what it has emitted
    /// once it has processed `event`.
    pub open spec fn processed(
        self,
        event: OrderEvent,
        after: OrderMachine,
        out: Seq<Event>,
    ) -> bool {
        &&& after.state == self.next(event).state
        &&& after.version == self.next(event).version
        &&& after.held@ == self.next_held(event)
        &&& out == self.emits(event)
    }

    /// Processes one event.
    pub fn process(&mut self, event: OrderEvent) -> (out: Vec<Event>)
        ensures
            old(self).processed(event, *final(self), out@),
            below(out@, rank(Event::Order(event))),
            quiet(out@),
    {
        let mut out: Vec<Event> = Vec::new();
        match event {
            OrderEvent::GotMessage(side, phase, body) => {
                match (self.state, phase) {
                    (OrderState::AwaitPake, Phase::Pake) => {
                        out.push(Event::Key(KeyEvent::GotPake(body)));
                        match self.version.take() {
                            Some(version) => {
                                out.push(
                                    Event::Receive(
                                        ReceiveEvent::GotMessage(
                                            version.side,
                                            version.phase,
                                            version.body,
                                        ),
                                    ),
                                );
                                self.state = OrderState::Flowing;
                                self.release(&mut out);
                            },
                            None => {
                                self.state = OrderState::AwaitVersion;
                            },
                        }
                    },
                    (OrderState::AwaitPake, Phase::Version) => {
                        if self.version.is_none() {
                            self.version = Some(Held { side, phase, body });
                        }
                    },
                    (OrderState::AwaitVersion, Phase::Version) => {
                        out.push(Event::Receive(ReceiveEvent::GotMessage(side, phase, body)));
                        self.state = OrderState::Flowing;
                        self.release(&mut out);
                    },
                    (OrderState::AwaitPake, Phase::Message(_)) => {
                        self.held.push(Held { side, phase, body });
                    },
                    (OrderState::AwaitVersion, Phase::Message(_)) => {
                        self.held.push(Held { side, phase, body });
                    },
                    (OrderState::Flowing, Phase::Version) => {
                        out.push(Event::Receive(ReceiveEvent::GotMessage(side, phase, body)));
                    },
                    (OrderState::Flowing, Phase::Message(_)) => {
                        out.push(Event::Receive(ReceiveEvent::GotMessage(side, phase, body)));
                    },
                    _ => {},
                }
            },
        }
        assert(out@ =~= old(self).emits(event));
        assert(self.state == old(self).next(event).state);
        assert(self.version == old(self).next(event).version);
        assert(self.held@ == old(self).next_held(event));
        out
    }
}

} // verus!
