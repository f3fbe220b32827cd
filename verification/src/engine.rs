//! The protocol engine: the cooperating state machines of the rendezvous
//! protocol and the driver that runs them.

use std::collections::VecDeque;
use vstd::prelude::*;
use crate::crypto::{hkdf_sha256, random_side_bytes};
use crate::engine::allocator::{AllocatorMachine, AllocatorState};
use crate::engine::api::{APIAction, APIEvent, IOEvent, InputHelperError};
use crate::engine::boss::{BossMachine, BossState};
use crate::engine::code::{CodeMachine, CodeState};
use crate::engine::events::{
    api_actions, below, lemma_api_actions_concat, lemma_quiet_has_no_actions, quiet, rank, AppID,
    Event, Nameplate,
};
use crate::engine::input::{InputMachine, InputState};
use crate::engine::key::{derive_key, KeyMachine};
use crate::engine::lister::ListerMachine;
use crate::engine::mailbox::MailboxMachine;
use crate::engine::nameplate::{NameplateMachine, NameplateState};
use crate::engine::order::{OrderMachine, OrderState};
use crate::engine::receive::ReceiveMachine;
use crate::engine::rendezvous::{RendezvousMachine, RendezvousState};
use crate::engine::send::{SendMachine, SendState};
use crate::engine::terminator::TerminatorMachine;
use crate::engine::timing::Timing;
use crate::hexcode::{hex_encode, hex_encoding};
use crate::io::{sockets_after, timers_after, WormholeIO};

pub mod allocator;
pub mod api;
pub mod boss;
pub mod code;
pub mod events;
pub mod input;
pub mod key;
pub mod laws;
pub mod lister;
pub mod mailbox;
pub mod messages;
pub mod nameplate;
pub mod order;
pub mod receive;
pub mod rendezvous;
pub mod send;
pub mod terminator;
pub mod timing;

verus! {

/// The engine of one session: its machines, its transport, and the record
/// of what it has told the embedder.
pub struct WormholeCore {
    pub allocator: AllocatorMachine,
    pub boss: BossMachine,
    pub code: CodeMachine,
    pub input: InputMachine,
    pub key: KeyMachine,
    pub lister: ListerMachine,
    pub mailbox: MailboxMachine,
    pub nameplate: NameplateMachine,
    pub order: OrderMachine,
    pub receive: ReceiveMachine,
    pub rendezvous: RendezvousMachine,
    pub send: SendMachine,
    pub terminator: TerminatorMachine,
    pub timing: Timing,
    pub io: WormholeIO,
    /// Every action that the engine has handed to the embedder, in order.
    pub told: Ghost<Seq<APIAction>>,
}

/// One step of a run of the engine: the engine and its queue before the
/// step, what the machine that processed the first event of the queue has
/// emitted, and the engine after the step.
pub struct Step {
    pub before: WormholeCore,
    pub queue: Seq<Event>,
    pub out: Seq<Event>,
    pub after: WormholeCore,
}

/// Whether `after` and `out` are the engine and what has been emitted once
/// `event` has gone to its machine.
///
/// An action for the embedder changes nothing: it is kept for the result.
/// An action for the transport goes to `io`, and a note to the timing log.
/// Any other event is processed by its machine, and no other part of the
/// engine changes. What is emitted ranks below the event, and only the boss
/// emits actions for the embedder.
#[verifier::opaque]
pub open spec fn stepped(before: WormholeCore, event: Event, after: WormholeCore, out: Seq<Event>)
    -> bool {
    &&& below(out, rank(event))
    &&& event is Boss || quiet(out)
    &&& match event {
        Event::API(_) => after == before && out == Seq::<Event>::empty(),
        Event::IO(action) => {
            &&& out == Seq::<Event>::empty()
            &&& after.io.pending@ == before.io.pending@.push(action)
            &&& after.io.timers@ == timers_after(before.io.timers@, action)
            &&& after.io.sockets@ == sockets_after(before.io.sockets@, action)
            &&& after == (WormholeCore { io: after.io, ..before })
        },
        Event::Allocator(e) => before.allocator.processed(e, after.allocator, out) && after == (
        WormholeCore { allocator: after.allocator, ..before }),
        Event::Boss(e) => before.boss.processed(e, after.boss, out) && after == (WormholeCore {
            boss: after.boss,
            ..before
        }),
        Event::Code(e) => before.code.processed(e, after.code, out) && after == (WormholeCore {
            code: after.code,
            ..before
        }),
        Event::Input(e) => before.input.processed(e, after.input, out) && after == (WormholeCore {
            input: after.input,
            ..before
        }),
        Event::Key(e) => before.key.processed(e, after.key, out) && after == (WormholeCore {
            key: after.key,
            ..before
        }),
        Event::Lister(e) => before.lister.processed(e, after.lister, out) && after == (
        WormholeCore { lister: after.lister, ..before }),
        Event::Mailbox(e) => before.mailbox.processed(e, after.mailbox, out) && after == (
        WormholeCore { mailbox: after.mailbox, ..before }),
        Event::Nameplate(e) => before.nameplate.processed(e, after.nameplate, out) && after == (
        WormholeCore { nameplate: after.nameplate, ..before }),
        Event::Order(e) => before.order.processed(e, after.order, out) && after == (WormholeCore {
            order: after.order,
            ..before
        }),
        Event::Receive(e) => before.receive.processed(e, after.receive, out) && after == (
        WormholeCore { receive: after.receive, ..before }),
        Event::Rendezvous(e) => before.rendezvous.processed(e, after.rendezvous, out) && after
            == (WormholeCore { rendezvous: after.rendezvous, ..before }),
        Event::Send(e) => before.send.processed(e, after.send, out) && after == (WormholeCore {
            send: after.send,
            ..before
        }),
        Event::Terminator(e) => before.terminator.processed(e, after.terminator, out) && after
            == (WormholeCore { terminator: after.terminator, ..before }),
        Event::Timing(note) => {
            &&& out == Seq::<Event>::empty()
            &&& after.timing.log@ == before.timing.log@.push(note)
            &&& after == (WormholeCore { timing: after.timing, ..before })
        },
    }
}

/// Whether `steps` lead from the engine `start` with the queue `queue` to
/// the engine `now` with the queue `waiting`: each step takes the first
/// event of its queue to its machine, and leaves the rest of the queue,
/// followed by what the machine has emitted, to the next step.
pub open spec fn chained(
    start: WormholeCore,
    queue: Seq<Event>,
    steps: Seq<Step>,
    now: WormholeCore,
    waiting: Seq<Event>,
) -> bool {
    &&& forall|k: int|
        #![trigger steps[k]]
        0 <= k < steps.len() ==> steps[k].queue.len() > 0 && stepped(
            steps[k].before,
            steps[k].queue[0],
            steps[k].after,
            steps[k].out,
        )
    &&& forall|i: int, k: int|
        #![trigger steps[i], steps[k]]
        0 <= i && k == i + 1 && k < steps.len() ==> steps[k].before == steps[i].after
            && steps[k].queue == steps[i].queue.drop_first() + steps[i].out
    &&& if steps.len() == 0 {
        now == start && waiting == queue
    } else {
        &&& steps[0].before == start
        &&& steps[0].queue == queue
        &&& now == steps.last().after
        &&& waiting == steps.last().queue.drop_first() + steps.last().out
    }
}

/// The events that the steps of a run have processed, in their order.
pub open spec fn events_of(steps: Seq<Step>) -> Seq<Event> {
    Seq::new(steps.len(), |k: int| steps[k].queue[0])
}

/// Whether the engine `start`, run on the events of `queue` until no
/// event is left, becomes `end` and hands `actions` to the embedder: there
/// are steps that lead from the one to the other and leave the queue
/// empty, and the actions are those for the embedder among the events
/// that the steps have processed, in order. The record of what the
/// embedder has been told grows by these actions.
pub open spec fn runs(
    start: WormholeCore,
    queue: Seq<Event>,
    end: WormholeCore,
    actions: Seq<APIAction>,
) -> bool {
    &&& end.told@ == start.told@ + actions
    &&& exists|steps: Seq<Step>|
        #![trigger events_of(steps)]
        chained(start, queue, steps, WormholeCore { told: start.told, ..end }, Seq::empty())
            && actions == api_actions(events_of(steps))
}

/// A run that has come to an engine with events waiting goes on by one
/// step: the step takes the first of the waiting events.
pub proof fn lemma_chain_extends(
    start: WormholeCore,
    queue: Seq<Event>,
    steps: Seq<Step>,
    step: Step,
)
    requires
        chained(start, queue, steps, step.before, step.queue),
        step.queue.len() > 0,
        stepped(step.before, step.queue[0], step.after, step.out),
    ensures
        chained(
            start,
            queue,
            steps.push(step),
            step.after,
            step.queue.drop_first() + step.out,
        ),
        events_of(steps.push(step)) == events_of(steps).push(step.queue[0]),
        api_actions(events_of(steps.push(step))) == api_actions(events_of(steps)) + api_actions(
            seq![step.queue[0]],
        ),
{
    let longer = steps.push(step);
    assert forall|k: int| 0 <= k < steps.len() implies #[trigger] longer[k] == steps[k] by {}
    assert(longer[steps.len() as int] == step);
    assert forall|i: int, k: int|
        #![trigger longer[i], longer[k]]
        0 <= i && k == i + 1 && k < longer.len() implies longer[k].before == longer[i].after
            && longer[k].queue == longer[i].queue.drop_first() + longer[i].out by {
        if k < steps.len() {
            assert(steps[k].before == steps[i].after);
        } else {
            assert(longer[i] == steps.last());
        }
    }
    assert(events_of(longer) =~= events_of(steps).push(step.queue[0]));
    assert(events_of(steps) + seq![step.queue[0]] =~= events_of(longer));
    lemma_api_actions_concat(events_of(steps), seq![step.queue[0]]);
}

/// A run to the end on a queue that is not empty begins with a step on
/// the first event of the queue, and goes on from there as a run to the
/// end on the rest of the queue and what the step has emitted.
pub proof fn lemma_run_begins(
    start: WormholeCore,
    queue: Seq<Event>,
    steps: Seq<Step>,
    end: WormholeCore,
)
    requires
        chained(start, queue, steps, end, Seq::empty()),
        queue.len() > 0,
    ensures
        steps.len() > 0,
        stepped(start, queue[0], steps[0].after, steps[0].out),
        chained(
            steps[0].after,
            queue.drop_first() + steps[0].out,
            steps.drop_first(),
            end,
            Seq::empty(),
        ),
        api_actions(events_of(steps)) == api_actions(seq![queue[0]]) + api_actions(
            events_of(steps.drop_first()),
        ),
{
    let rest = steps.drop_first();
    assert forall|k: int| 0 <= k < rest.len() implies #[trigger] rest[k] == steps[k + 1] by {}
    assert forall|i: int, k: int|
        #![trigger rest[i], rest[k]]
        0 <= i && k == i + 1 && k < rest.len() implies rest[k].before == rest[i].after
            && rest[k].queue == rest[i].queue.drop_first() + rest[i].out by {
        assert(steps[k + 1].before == steps[i + 1].after);
    }
    if rest.len() > 0 {
        assert(rest[0] == steps[1]);
        assert(steps[1].before == steps[0].after);
        assert(rest.last() == steps.last());
    }
    assert(events_of(steps) =~= seq![queue[0]] + events_of(rest));
    lemma_api_actions_concat(seq![queue[0]], events_of(rest));
}

/// A run to the end on an empty queue has no step.
pub proof fn lemma_run_ends(start: WormholeCore, steps: Seq<Step>, end: WormholeCore)
    requires
        chained(start, Seq::empty(), steps, end, Seq::empty()),
    ensures
        steps.len() == 0,
        end == start,
        api_actions(events_of(steps)) == Seq::<APIAction>::empty(),
{
    if steps.len() > 0 {
        assert(steps[0].queue.len() > 0);
    }
    assert(events_of(steps) =~= Seq::<Event>::empty());
}

/// No step emits a note for the timing log: the notes that are logged are
/// those that were handed to the engine, and none is put in the queue.
pub proof fn lemma_no_note_is_emitted(
    before: WormholeCore,
    event: Event,
    after: WormholeCore,
    out: Seq<Event>,
)
    requires
        stepped(before, event, after, out),
    ensures
        forall|i: int| 0 <= i < out.len() ==> !((#[trigger] out[i]) is Timing),
{
    reveal(stepped);
    assert forall|i: int| 0 <= i < out.len() implies !((#[trigger] out[i]) is Timing) by {
        assert(rank(out[i]) < rank(event));
    }
}

/// The number of events of a rank among `events`.
pub open spec fn count_at(events: Seq<Event>, level: nat) -> nat
    decreases events.len(),
{
    if events.len() == 0 {
        0
    } else {
        count_at(events.drop_last(), level) + if rank(events.last()) == level {
            1nat
        } else {
            0nat
        }
    }
}

/// The events of a rank among two runs are those among the first and those
/// among the second.
pub proof fn lemma_count_concat(a: Seq<Event>, b: Seq<Event>, level: nat)
    ensures
        count_at(a + b, level) == count_at(a, level) + count_at(b, level),
    decreases b.len(),
{
    if b.len() == 0 {
        assert(a + b =~= a);
    } else {
        assert((a + b).drop_last() =~= a + b.drop_last());
        assert((a + b).last() == b.last());
        lemma_count_concat(a, b.drop_last(), level);
    }
}

/// Among events that rank below a bound there is none of a rank at or
/// above it.
pub proof fn lemma_count_below(events: Seq<Event>, bound: nat, level: nat)
    requires
        below(events, bound),
        level >= bound,
    ensures
        count_at(events, level) == 0,
    decreases events.len(),
{
    if events.len() > 0 {
        assert(rank(events[events.len() - 1]) < bound);
        lemma_count_below(events.drop_last(), bound, level);
    }
}

/// When the first event of a queue is replaced by events of lower rank at
/// the end, the queue has one event less of that rank, and the same
/// number of every higher rank.
pub proof fn lemma_counts_after_step(event: Event, rest: Seq<Event>, out: Seq<Event>)
    requires
        below(out, rank(event)),
    ensures
        forall|level: nat|
            level > rank(event) ==> #[trigger] count_at(rest + out, level) == count_at(
                seq![event] + rest,
                level,
            ),
        count_at(rest + out, rank(event)) + 1 == count_at(seq![event] + rest, rank(event)),
{
    let first = seq![event];
    assert(first.drop_last() =~= Seq::<Event>::empty());
    assert forall|level: nat| level >= rank(event) implies count_at(rest + out, level) + (if level
        == rank(event) {
        1nat
    } else {
        0nat
    }) == count_at(first + rest, level) by {
        lemma_count_concat(rest, out, level);
        lemma_count_concat(first, rest, level);
        lemma_count_below(out, rank(event), level);
        assert(count_at(first.drop_last(), level) == 0);
    }
}

/// The actions for the embedder in a queue are that of its first event, if
/// it is one, and then those of the rest.
pub proof fn lemma_actions_of_queue(event: Event, rest: Seq<Event>)
    ensures
        api_actions(seq![event] + rest) == (match event {
            Event::API(action) => seq![action],
            _ => Seq::empty(),
        }) + api_actions(rest),
{
    let first = seq![event];
    assert(first.drop_last() =~= Seq::<Event>::empty());
    assert(api_actions(first.drop_last()) =~= Seq::<APIAction>::empty());
    lemma_api_actions_concat(first, rest);
    match event {
        Event::API(action) => {
            assert(api_actions(first) =~= seq![action]);
        },
        _ => {
            assert(api_actions(first) =~= Seq::<APIAction>::empty());
        },
    }
}

/// Whether a text is the name of a side: eight bytes in hexadecimal.
pub open spec fn is_side(side: Seq<char>) -> bool {
    exists|bytes: Seq<u8>| bytes.len() == 8 && side == #[trigger] hex_encoding(bytes)
}

/// A fresh name for this side of a session: eight random bytes in
/// hexadecimal.
pub fn generate_side() -> (side: String)
    ensures
        is_side(side@),
{
    let bytes = random_side_bytes();
    hex_encode(bytes.as_slice())
}

impl WormholeCore {
    /// Every action that the engine has handed to the embedder, in order.
    pub open spec fn told(&self) -> Seq<APIAction> {
        self.told@
    }

    /// Whether the engine's record of what it has told the embedder is in
    /// order, and the boss agrees with it.
    pub open spec fn wf(&self) -> bool {
        self.boss.accounts_for(self.told@)
    }

    /// Whether the session is closed: the engine is at its end and takes
    /// no more events.
    pub open spec fn is_closed(&self) -> bool {
        self.boss.state == BossState::Closed
    }

    /// The key of the session, once a message of the peer has verified it.
    pub open spec fn verified_key(&self) -> Option<Seq<u8>> {
        match self.send.state {
            SendState::HasKey(key) => Some(key.0@),
            _ => None,
        }
    }

    /// Whether `end` and `actions` are the engine and what it hands to the
    /// embedder once it has taken the request `event`.
    ///
    /// A closed engine does nothing. Any other hands the request to the
    /// boss and runs on what the boss emits until no event is left.
    pub open spec fn requested(self, event: APIEvent, end: WormholeCore, actions: Seq<APIAction>)
        -> bool {
        if self.is_closed() {
            end == self && actions == Seq::<APIAction>::empty()
        } else {
            runs(
                WormholeCore { boss: self.boss.next_api(event), ..self },
                self.boss.emits_api(event),
                end,
                actions,
            )
        }
    }

    /// Whether `end` and `actions` are the engine and what it hands to the
    /// embedder once it has taken the event `event` of the transport.
    ///
    /// A closed engine does nothing. Any other hands the event to the
    /// rendezvous machine and runs on what that machine emits until no
    /// event is left.
    pub open spec fn reported(self, event: IOEvent, end: WormholeCore, actions: Seq<APIAction>)
        -> bool {
        if self.is_closed() {
            end == self && actions == Seq::<APIAction>::empty()
        } else {
            exists|rendezvous: RendezvousMachine, events: Seq<Event>|
                #![trigger self.rendezvous.processed_io(event, rendezvous, events)]
                self.rendezvous.processed_io(event, rendezvous, events) && runs(
                    WormholeCore { rendezvous, ..self },
                    events,
                    end,
                    actions,
                )
        }
    }

    /// Whether this is an engine that has taken no event yet, for the
    /// given application, server and transport: every machine is in its
    /// first state, all machines that need it carry the same name of this
    /// side, and the embedder has been told nothing.
    pub open spec fn is_fresh(
        self,
        appid: Seq<char>,
        relay_url: Seq<char>,
        io: WormholeIO,
    ) -> bool {
        let side = self.rendezvous.side@;
        &&& is_side(side)
        &&& self.told@ == Seq::<APIAction>::empty()
        &&& self.io == io
        &&& self.allocator == (AllocatorMachine { state: AllocatorState::Idle, connected: false })
        &&& self.boss == BossMachine::new_machine()
        &&& self.code.state == CodeState::Idle
        &&& self.input.state is Idle
        &&& !self.input.has_wordlist
        &&& self.input.nameplates@.len() == 0
        &&& self.input.wordlist.num_words == 2
        &&& self.input.wordlist.is_default()
        &&& self.key.state is Idle
        &&& self.key.appid@ == appid
        &&& self.key.side@ == side
        &&& self.lister == (ListerMachine { connected: false, wanting: false })
        &&& self.mailbox.state is Empty
        &&& !self.mailbox.connected
        &&& self.mailbox.side@ == side
        &&& self.mailbox.pending@.len() == 0
        &&& self.mailbox.processed@.len() == 0
        &&& !self.mailbox.released
        &&& self.nameplate == (NameplateMachine {
            state: NameplateState::Unclaimed,
            connected: false,
            closing: false,
        })
        &&& self.order.state == OrderState::AwaitPake
        &&& self.order.version is None
        &&& self.order.held@.len() == 0
        &&& self.receive.state is NoKey
        &&& self.rendezvous.state == RendezvousState::Idle
        &&& self.rendezvous.appid@ == appid
        &&& self.rendezvous.relay_url@ == relay_url
        &&& self.rendezvous.socket.id == 0
        &&& self.rendezvous.timer.id == 0
        &&& self.rendezvous.next_frame == 0
        &&& self.send.side@ == side
        &&& self.send.state matches SendState::NoKey(queue) && queue@.len() == 0
        &&& self.terminator == (TerminatorMachine {
            nameplate_active: true,
            mailbox_active: true,
            closing: false,
            stopping: false,
            stopped: false,
        })
        &&& self.timing.log@.len() == 0
    }

    /// An engine for a session of an application with a rendezvous server,
    /// under a fresh name for this side, with the given transport.
    pub fn new(appid: AppID, relay_url: &str, io: WormholeIO) -> (core: WormholeCore)
        ensures
            core.wf(),
            core.is_fresh(appid.0@, relay_url@, io),
    {
        let side = generate_side();
        WormholeCore {
            allocator: AllocatorMachine::new(),
            boss: BossMachine::new(),
            code: CodeMachine::new(),
            input: InputMachine::new(),
            key: KeyMachine::new(appid.0.as_str(), side.as_str()),
            lister: ListerMachine::new(),
            mailbox: MailboxMachine::new(side.as_str()),
            nameplate: NameplateMachine::new(),
            order: OrderMachine::new(),
            receive: ReceiveMachine::new(),
            rendezvous: RendezvousMachine::new(appid.0.as_str(), relay_url, side.as_str()),
            send: SendMachine::new(side.as_str()),
            terminator: TerminatorMachine::new(),
            timing: Timing::new(),
            io,
            told: Ghost(Seq::empty()),
        }
    }

    /// Starts the session: the same as the request `Start`.
    #[must_use]
    pub fn start(&mut self) -> (actions: Vec<APIAction>)
        requires
            old(self).wf(),
        ensures
            final(self).wf(),
            old(self).requested(APIEvent::Start, *final(self), actions@),
            old(self).io.pending@.is_prefix_of(final(self).io.pending@),
    {
        self.do_api(APIEvent::Start)
    }

    /// Takes a request of the embedder and runs the engine until no event
    /// is left: what comes back are the actions for the embedder, in
    /// order, and the actions for the transport wait in `io`.
    ///
    /// What the embedder has been told stays in order, and what waits for
    /// the transport stays in line. A closed engine does nothing.
    #[must_use]
    pub fn do_api(&mut self, event: APIEvent) -> (actions: Vec<APIAction>)
        requires
            old(self).wf(),
        ensures
            final(self).wf(),
            old(self).requested(event, *final(self), actions@),
            old(self).io.pending@.is_prefix_of(final(self).io.pending@),
    {
        if self.boss.state == BossState::Closed {
            return Vec::new();
        }
        let events = self.boss.process_api(event);
        proof {
            lemma_quiet_has_no_actions(events@);
            assert(self.told@ + api_actions(events@) =~= self.told@);
        }
        self._execute(events)
    }

    /// Takes an event of the transport and runs the engine until no event
    /// is left: what comes back are the actions for the embedder, in
    /// order, and the actions for the transport wait in `io`.
    ///
    /// What the embedder has been told stays in order, and what waits for
    /// the transport stays in line. A closed engine does nothing.
    #[must_use]
    pub fn do_io(&mut self, event: IOEvent) -> (actions: Vec<APIAction>)
        requires
            old(self).wf(),
        ensures
            final(self).wf(),
            old(self).reported(event, *final(self), actions@),
            old(self).io.pending@.is_prefix_of(final(self).io.pending@),
    {
        if self.boss.state == BossState::Closed {
            return Vec::new();
        }
        let events = self.rendezvous.process_io(event);
        proof {
            lemma_quiet_has_no_actions(events@);
            assert(self.told@ + api_actions(events@) =~= self.told@);
        }
        self._execute(events)
    }

    /// Derives a key of `length` bytes for a purpose from the session key.
    ///
    /// There is none to give before a message of the peer has verified the
    /// session key.
    pub fn derive_key(&mut self, purpose: &str, length: u8) -> (derived: Option<Vec<u8>>)
        ensures
            *final(self) == *old(self),
            match old(self).verified_key() {
                Some(key) => derived matches Some(d) && d@.len() == length && d@ == hkdf_sha256(
                    key,
                    vstd::utf8::encode_utf8(purpose@),
                    length as nat,
                ),
                None => derived is None,
            },
    {
        match &self.send.state {
            SendState::HasKey(key) => Some(
                derive_key(key.0.as_slice(), purpose.as_bytes(), length as usize),
            ),
            _ => None,
        }
    }

    /// The nameplates that complete a prefix, while the nameplate is being
    /// typed: each begins with the prefix and, read as a code, has the
    /// nameplate that it was made of.
    pub fn input_helper_get_nameplate_completions(&mut self, prefix: &str) -> (found: Result<
        Vec<String>,
        InputHelperError,
    >)
        ensures
            *final(self) == *old(self),
            old(self).input.answers_nameplates(prefix@, found),
    {
        self.input.get_nameplate_completions(prefix)
    }

    /// The words that complete a prefix of the words of the code, once the
    /// nameplate is chosen: each begins with the prefix.
    pub fn input_helper_get_word_completions(&mut self, prefix: &str) -> (found: Result<
        Vec<String>,
        InputHelperError,
    >)
        ensures
            *final(self) == *old(self),
            old(self).input.answers_words(prefix@, found),
    {
        self.input.get_word_completions(prefix)
    }

    /// The nameplate that has been chosen, while the words are being typed.
    pub fn input_helper_committed_nameplate(&self) -> (nameplate: Option<Nameplate>)
        ensures
            nameplate == (match self.input.state {
                InputState::TypingCode(chosen) => Some(chosen),
                _ => None,
            }),
    {
        self.input.committed_nameplate()
    }

    /// Hands one event to its machine and gives what the machine emits.
    ///
    /// An action for the embedder is added to `actions`, an action for the
    /// transport goes to `io`, and a note goes to the timing log; these
    /// emit nothing.
    fn dispatch(&mut self, event: Event, actions: &mut Vec<APIAction>) -> (out: Vec<Event>)
        ensures
            below(out@, rank(event)),
            stepped(*old(self), event, *final(self), out@),
            final(self).told == old(self).told,
            old(self).io.pending@.is_prefix_of(final(self).io.pending@),
            final(actions)@ == old(actions)@ + api_actions(seq![event]),
            forall|log: Seq<APIAction>| #[trigger]
                old(self).boss.accounts_for(log) ==> final(self).boss.accounts_for(
                    log + api_actions(out@),
                ),
    {
        proof {
            reveal(stepped);
            lemma_actions_of_queue(event, Seq::empty());
            assert(seq![event] + Seq::<Event>::empty() =~= seq![event]);
            assert(api_actions(Seq::<Event>::empty()) =~= Seq::<APIAction>::empty());
            assert forall|log: Seq<APIAction>| log + Seq::<APIAction>::empty() =~= log by {}
        }
        let ghost kept = actions@;
        let out: Vec<Event> = match event {
            Event::API(action) => {
                actions.push(action);
                assert(actions@ =~= kept + seq![action]);
                Vec::new()
            },
            Event::IO(action) => {
                self.io.process(action);
                assert(self.io.pending@.subrange(0, old(self).io.pending@.len() as int) =~= old(
                    self,
                ).io.pending@);
                Vec::new()
            },
            Event::Allocator(e) => self.allocator.process(e),
            Event::Boss(e) => {
                return self.boss.process(e);
            },
            Event::Code(e) => self.code.process(e),
            Event::Input(e) => self.input.process(e),
            Event::Key(e) => self.key.process(e),
            Event::Lister(e) => self.lister.process(e),
            Event::Mailbox(e) => self.mailbox.process(e),
            Event::Nameplate(e) => self.nameplate.process(e),
            Event::Order(e) => self.order.process(e),
            Event::Receive(e) => self.receive.process(e),
            Event::Rendezvous(e) => self.rendezvous.process(e),
            Event::Send(e) => self.send.process(e),
            Event::Terminator(e) => self.terminator.process(e),
            Event::Timing(note) => {
                self.timing.add(note);
                Vec::new()
            },
        };
        proof {
            assert(actions@ =~= kept + api_actions(seq![event]));
            lemma_quiet_has_no_actions(out@);
        }
        out
    }

    /// Runs the engine on `events` until no event is left.
    ///
    /// Each event goes to its machine, and what the machine emits goes to
    /// the end of the queue. Whatever a machine emits ranks below the
    /// event that it processed, so the queue runs empty. Where the boss
    /// accounts for what the embedder has been told and for the actions
    /// among `events`, it accounts for what the embedder has been told
    /// after the run. No machine emits a note for the timing log, so no
    /// note is put in the queue; a note among `events` is logged in its
    /// turn.
    fn _execute(&mut self, events: Vec<Event>) -> (actions: Vec<APIAction>)
        ensures
            runs(*old(self), events@, *final(self), actions@),
            old(self).io.pending@.is_prefix_of(final(self).io.pending@),
            old(self).boss.accounts_for(old(self).told@ + api_actions(events@))
                ==> final(self).wf(),
    {
        let mut actions: Vec<APIAction> = Vec::new();
        let mut queue: VecDeque<Event> = VecDeque::new();
        let mut incoming = events;
        let ghost told = self.told@;
        let ghost mut steps: Seq<Step> = Seq::empty();
        move_all(&mut queue, &mut incoming);
        proof {
            assert(queue@ =~= events@);
            assert(api_actions(events_of(steps)) =~= Seq::<APIAction>::empty());
            assert(told + actions@ + api_actions(queue@) =~= told + api_actions(events@));
        }
        while queue.len() > 0
            invariant
                self.told@ == told,
                old(self).boss.accounts_for(told + api_actions(events@))
                    ==> self.boss.accounts_for(told + actions@ + api_actions(queue@)),
                old(self).io.pending@.is_prefix_of(self.io.pending@),
                chained(*old(self), events@, steps, *self, queue@),
                actions@ == api_actions(events_of(steps)),
            decreases
                    count_at(queue@, 13),
                    count_at(queue@, 12),
                    count_at(queue@, 11),
                    count_at(queue@, 10),
                    count_at(queue@, 9),
                    count_at(queue@, 8),
                    count_at(queue@, 7),
                    count_at(queue@, 6),
                    count_at(queue@, 5),
                    count_at(queue@, 4),
                    count_at(queue@, 3),
                    count_at(queue@, 2),
                    count_at(queue@, 1),
                    count_at(queue@, 0),
        {
            let ghost before = queue@;
            let ghost kept = actions@;
            let ghost engine = *self;
            let event = match queue.pop_front() {
                Some(e) => e,
                None => {
                    proof {
                        assert(false);
                    }
                    return actions;
                },
            };
            let ghost first = event;
            let ghost rest = queue@;
            let ghost waiting = self.io.pending@;
            let mut out = self.dispatch(event, &mut actions);
            proof {
                assert(self.io.pending@.subrange(0, old(self).io.pending@.len() as int)
                    =~= waiting.subrange(0, old(self).io.pending@.len() as int));
                assert(before =~= seq![first] + rest);
                lemma_api_actions_concat(seq![first], rest);
                lemma_api_actions_concat(rest, out@);
                let log = told + kept + api_actions(before);
                assert(told + actions@ + api_actions(rest + out@) =~= log + api_actions(out@));
                lemma_counts_after_step(first, rest, out@);
                let step = Step { before: engine, queue: before, out: out@, after: *self };
                assert(rest =~= before.drop_first());
                lemma_chain_extends(*old(self), events@, steps, step);
                steps = steps.push(step);
            }
            move_all(&mut queue, &mut out);
        }
        proof {
            assert(queue@ =~= Seq::<Event>::empty());
            assert(told + actions@ + api_actions(queue@) =~= told + actions@);
        }
        let ghost end = *self;
        self.told = Ghost(told + actions@);
        proof {
            assert(end == (WormholeCore { told: old(self).told, ..*self }));
            assert(chained(*old(self), events@, steps, end, Seq::empty()));
        }
        actions
    }
}

/// Moves every event of `from` to the end of `queue`, in order.
fn move_all(queue: &mut VecDeque<Event>, from: &mut Vec<Event>)
    ensures
        final(queue)@ == old(queue)@ + old(from)@,
        final(from)@.len() == 0,
{
    let ghost all = from@;
    let ghost start = queue@;
    let mut k: usize = 0;
    let total = from.len();
    proof {
        assert(start + all.subrange(0, 0) =~= start);
    }
    while from.len() > 0
        invariant
            k + from@.len() == total,
            total == all.len(),
            from@ == all.subrange(k as int, all.len() as int),
            queue@ == start + all.subrange(0, k as int),
        decreases from@.len(),
    {
        let event = from.remove(0);
        proof {
            assert(event == all[k as int]);
            assert(from@ =~= all.subrange(k + 1, all.len() as int));
            assert((start + all.subrange(0, k as int)).push(event) =~= start + all.subrange(
                0,
                k + 1,
            ));
        }
        queue.push_back(event);
        k += 1;
    }
    proof {
        assert(all.subrange(0, all.len() as int) =~= all);
    }
}

} // verus!
