//! What holds of every run of the engine: the order of what the embedder
//! is told, the numbering of outbound messages, the conditions under
//! which the end of the session is reported, what a lost connection and
//! an expired timer lead to, and how a message that does not open closes
//! the session.

use vstd::prelude::*;
use crate::crypto::PakeState;
use crate::engine::api::{
    APIAction, APIEvent, IOAction, IOEvent, Mood, TimerHandle, WSHandle,
};
use crate::engine::boss::{
    has_closed, has_code, has_verifier, has_versions, in_order, may_follow, BossMachine, BossState,
};
use crate::engine::events::{
    api_actions, lemma_api_actions_concat, quiet, BossEvent, Event, KeyEvent, MailboxEvent,
    NameplateEvent, OrderEvent, Phase, ReceiveEvent, RendezvousEvent, SendEvent, TerminatorEvent,
};
use crate::engine::key::{
    ends_exchange, phase_key, phase_label, seals, started_with, starts_exchange, KeyMachine,
    KeyState,
};
use crate::engine::mailbox::{MailboxMachine, MailboxState};
use crate::engine::messages::{
    carries_out, frame_meaning, frame_text, request_members, FrameMeaning,
};
use crate::engine::nameplate::NameplateMachine;
use crate::engine::order::{deliveries, delivery, Held, OrderMachine, OrderState};
use crate::engine::receive::ReceiveMachine;
use crate::engine::rendezvous::{
    following, following_frame, lost_notices, RendezvousMachine, RendezvousState, RECONNECT_DELAY,
};
use crate::engine::send::{posts, SendMachine};
use crate::engine::terminator::TerminatorMachine;
use crate::engine::{
    chained, events_of, lemma_actions_of_queue, lemma_run_begins, lemma_run_ends, runs, stepped,
    Step, WormholeCore,
};
use crate::hexcode::hex_encoding;
use crate::io::{sockets_after, timers_after, WormholeIO};
use crate::json::{json_parsed, JsonValue};

verus! {

/// Something that the boss processes: a request of the embedder, or an
/// event of another machine.
pub enum BossInput {
    Request(APIEvent),
    Internal(BossEvent),
}

/// The boss after one input.
pub open spec fn boss_step(boss: BossMachine, input: BossInput) -> BossMachine {
    match input {
        BossInput::Request(event) => boss.next_api(event),
        BossInput::Internal(event) => boss.next(event),
    }
}

/// The boss after a run of inputs.
pub open spec fn boss_after(boss: BossMachine, inputs: Seq<BossInput>) -> BossMachine
    decreases inputs.len(),
{
    if inputs.len() == 0 {
        boss
    } else {
        boss_step(boss_after(boss, inputs.drop_last()), inputs.last())
    }
}

/// The number that the boss gives to the message of an input, where the
/// input is a request to send that the boss accepts.
pub open spec fn phase_given(boss: BossMachine, input: BossInput) -> Option<u64> {
    match input {
        BossInput::Request(APIEvent::Send(plaintext)) => if !boss.winding_down() && boss.accepts(
            APIEvent::Send(plaintext),
        ) {
            Some(boss.next_phase)
        } else {
            None
        },
        _ => None,
    }
}

/// The numbers that the boss gives to outbound messages in the course of a
/// run of inputs, in their order.
pub open spec fn phases_given(boss: BossMachine, inputs: Seq<BossInput>) -> Seq<u64>
    decreases inputs.len(),
{
    if inputs.len() == 0 {
        Seq::empty()
    } else {
        let before = phases_given(boss, inputs.drop_last());
        match phase_given(boss_after(boss, inputs.drop_last()), inputs.last()) {
            Some(phase) => before.push(phase),
            None => before,
        }
    }
}

/// A request to send that the boss accepts goes to the send machine under
/// the number that the boss gives it, and no other request makes the boss
/// send anything.
pub proof fn lemma_send_carries_phase_given(boss: BossMachine, event: APIEvent)
    ensures
        match phase_given(boss, BossInput::Request(event)) {
            Some(phase) => event matches APIEvent::Send(plaintext) && boss.emits_api(event) == seq![
                Event::Send(SendEvent::Send(Phase::Message(phase), plaintext)),
            ],
            None => forall|i: int|
                0 <= i < boss.emits_api(event).len() ==> !((#[trigger] boss.emits_api(event)[i])
                    is Send),
        },
{
}

/// One input leaves the number of the next message as it is, unless it is
/// given to a message: then the next number is one more.
pub proof fn lemma_step_counts_phase(boss: BossMachine, input: BossInput)
    ensures
        match phase_given(boss, input) {
            Some(phase) => phase == boss.next_phase && boss_step(boss, input).next_phase == phase
                + 1,
            None => boss_step(boss, input).next_phase == boss.next_phase,
        },
{
}

/// The numbers given so far lie below the number of the next message.
pub proof fn lemma_phases_below_next(boss: BossMachine, inputs: Seq<BossInput>)
    ensures
        boss.next_phase <= boss_after(boss, inputs).next_phase,
        forall|i: int|
            0 <= i < phases_given(boss, inputs).len() ==> boss.next_phase <= (
            #[trigger] phases_given(boss, inputs)[i]) < boss_after(boss, inputs).next_phase,
    decreases inputs.len(),
{
    if inputs.len() > 0 {
        let earlier = inputs.drop_last();
        let before = boss_after(boss, earlier);
        lemma_phases_below_next(boss, earlier);
        lemma_step_counts_phase(before, inputs.last());
        let given = phases_given(boss, inputs);
        assert forall|i: int| 0 <= i < given.len() implies boss.next_phase <= (#[trigger] given[i])
            < boss_after(boss, inputs).next_phase by {
            if i < phases_given(boss, earlier).len() {
                assert(given[i] == phases_given(boss, earlier)[i]);
            }
        }
    }
}

/// No number is given twice: the numbers that the boss gives to outbound
/// messages in the course of any run grow strictly.
pub proof fn lemma_phases_strictly_increase(boss: BossMachine, inputs: Seq<BossInput>)
    ensures
        forall|i: int, j: int|
            0 <= i < j < phases_given(boss, inputs).len() ==> phases_given(boss, inputs)[i]
                < phases_given(boss, inputs)[j],
    decreases inputs.len(),
{
    if inputs.len() > 0 {
        let earlier = inputs.drop_last();
        let before = boss_after(boss, earlier);
        lemma_phases_strictly_increase(boss, earlier);
        lemma_phases_below_next(boss, earlier);
        lemma_step_counts_phase(before, inputs.last());
        let given = phases_given(boss, inputs);
        let given_before = phases_given(boss, earlier);
        assert forall|i: int, j: int| 0 <= i < j < given.len() implies given[i] < given[j] by {
            assert(given[i] == given_before[i]);
            if j < given_before.len() {
                assert(given[j] == given_before[j]);
            } else {
                assert(given[j] == before.next_phase);
            }
        }
    }
}

/// The code is told at most once: of two actions of a log in order, not
/// both tell the code.
pub proof fn lemma_code_told_once(log: Seq<APIAction>, i: int, j: int)
    requires
        in_order(log),
        0 <= i < j < log.len(),
    ensures
        !(log[i] is GotCode && log[j] is GotCode),
    decreases log.len(),
{
    if j == log.len() - 1 {
        if log[j] is GotCode {
            lemma_has_code_none(log.drop_last(), i);
        }
    } else {
        lemma_code_told_once(log.drop_last(), i, j);
    }
}

/// Where the code has not been told, no action tells it.
pub proof fn lemma_has_code_none(log: Seq<APIAction>, i: int)
    requires
        !has_code(log),
        0 <= i < log.len(),
    ensures
        !(log[i] is GotCode),
    decreases log.len(),
{
    if i < log.len() - 1 {
        lemma_has_code_none(log.drop_last(), i);
    }
}

/// Where the verifier has been told, some action tells it.
pub proof fn lemma_has_verifier_somewhere(log: Seq<APIAction>) -> (i: int)
    requires
        has_verifier(log),
    ensures
        0 <= i < log.len(),
        log[i] is GotVerifier,
    decreases log.len(),
{
    if log.last() is GotVerifier {
        log.len() - 1
    } else {
        lemma_has_verifier_somewhere(log.drop_last())
    }
}

/// Where the versions have been told, some action tells them.
pub proof fn lemma_has_versions_somewhere(log: Seq<APIAction>) -> (i: int)
    requires
        has_versions(log),
    ensures
        0 <= i < log.len(),
        log[i] is GotVersions,
    decreases log.len(),
{
    if log.last() is GotVersions {
        log.len() - 1
    } else {
        lemma_has_versions_somewhere(log.drop_last())
    }
}

/// Where the close has not been told, no action tells it.
pub proof fn lemma_has_closed_none(log: Seq<APIAction>, i: int)
    requires
        !has_closed(log),
        0 <= i < log.len(),
    ensures
        !(log[i] is GotClosed),
    decreases log.len(),
{
    if i < log.len() - 1 {
        lemma_has_closed_none(log.drop_last(), i);
    }
}

/// Every action of a log in order may follow those before it.
pub proof fn lemma_each_may_follow(log: Seq<APIAction>, k: int)
    requires
        in_order(log),
        0 <= k < log.len(),
    ensures
        in_order(log.subrange(0, k)),
        may_follow(log.subrange(0, k), log[k]),
    decreases log.len(),
{
    if k == log.len() - 1 {
        assert(log.subrange(0, k) =~= log.drop_last());
    } else {
        assert(log.drop_last().subrange(0, k) =~= log.subrange(0, k));
        lemma_each_may_follow(log.drop_last(), k);
    }
}

/// The verifier comes before the versions: in a log in order, before the
/// action that tells the peer's versions stands one that tells the
/// verifier.
pub proof fn lemma_verifier_precedes_versions(log: Seq<APIAction>, j: int) -> (i: int)
    requires
        in_order(log),
        0 <= j < log.len(),
        log[j] is GotVersions,
    ensures
        0 <= i < j,
        log[i] is GotVerifier,
{
    lemma_each_may_follow(log, j);
    lemma_has_verifier_somewhere(log.subrange(0, j))
}

/// The versions come before any message: in a log in order, before an
/// action that delivers a message stands one that tells the peer's
/// versions.
pub proof fn lemma_versions_precede_message(log: Seq<APIAction>, k: int) -> (j: int)
    requires
        in_order(log),
        0 <= k < log.len(),
        log[k] is GotMessage,
    ensures
        0 <= j < k,
        log[j] is GotVersions,
{
    lemma_each_may_follow(log, k);
    lemma_has_versions_somewhere(log.subrange(0, k))
}

/// The close is told at most once, and nothing is told after it: in a log
/// in order, an action that tells the close is the last.
pub proof fn lemma_closed_is_last(log: Seq<APIAction>, i: int)
    requires
        in_order(log),
        0 <= i < log.len(),
        log[i] is GotClosed,
    ensures
        i == log.len() - 1,
{
    if i < log.len() - 1 {
        lemma_each_may_follow(log, i + 1);
        assert(!has_closed(log.subrange(0, i + 1)));
        lemma_has_closed_none(log.subrange(0, i + 1), i);
    }
}

/// What an engine has told its embedder is in order: the code once, the
/// verifier before the versions, the versions before any message, and the
/// close once and last. The code has been told exactly when the boss says
/// so, and the close exactly when the boss is closed.
pub proof fn lemma_engine_tells_in_order(core: WormholeCore)
    requires
        core.wf(),
    ensures
        in_order(core.told()),
        has_code(core.told()) == core.boss.code_reported,
        has_closed(core.told()) == core.is_closed(),
        forall|i: int, j: int|
            0 <= i < j < core.told().len() ==> !(core.told()[i] is GotCode && core.told()[j]
                is GotCode),
        forall|j: int|
            0 <= j < core.told().len() && core.told()[j] is GotVersions ==> exists|i: int|
                0 <= i < j && #[trigger] core.told()[i] is GotVerifier,
        forall|k: int|
            0 <= k < core.told().len() && core.told()[k] is GotMessage ==> exists|j: int|
                0 <= j < k && #[trigger] core.told()[j] is GotVersions,
        forall|i: int|
            0 <= i < core.told().len() && core.told()[i] is GotClosed ==> i == core.told().len()
                - 1,
{
    let log = core.told();
    assert forall|i: int, j: int| 0 <= i < j < log.len() implies !(log[i] is GotCode && log[j]
        is GotCode) by {
        lemma_code_told_once(log, i, j);
    }
    assert forall|j: int| 0 <= j < log.len() && log[j] is GotVersions implies exists|i: int|
        0 <= i < j && #[trigger] log[i] is GotVerifier by {
        let i = lemma_verifier_precedes_versions(log, j);
        assert(log[i] is GotVerifier);
    }
    assert forall|k: int| 0 <= k < log.len() && log[k] is GotMessage implies exists|j: int|
        0 <= j < k && #[trigger] log[j] is GotVersions by {
        let j = lemma_versions_precede_message(log, k);
        assert(log[j] is GotVersions);
    }
    assert forall|i: int| 0 <= i < log.len() && log[i] is GotClosed implies i == log.len()
        - 1 by {
        lemma_closed_is_last(log, i);
    }
}

/// The boss tells the embedder that the session is closed only when the
/// terminator has reported the end.
pub proof fn lemma_close_told_on_report(
    boss: BossMachine,
    event: BossEvent,
    out: Seq<Event>,
    i: int,
)
    requires
        boss.emitted(event, out),
        0 <= i < out.len(),
        out[i] matches Event::API(action) && action is GotClosed,
    ensures
        event is Closed,
        out == seq![Event::API(APIAction::GotClosed(boss.mood))],
{
}

/// The terminator after a run of events.
pub open spec fn terminator_after(machine: TerminatorMachine, events: Seq<TerminatorEvent>)
    -> TerminatorMachine
    decreases events.len(),
{
    if events.len() == 0 {
        machine
    } else {
        terminator_after(machine, events.drop_last()).next(events.last())
    }
}

/// Whether the terminator has heard that the nameplate is done.
pub open spec fn heard_nameplate_done(events: Seq<TerminatorEvent>) -> bool
    decreases events.len(),
{
    events.len() > 0 && (events.last() is NameplateDone || heard_nameplate_done(
        events.drop_last(),
    ))
}

/// Whether the terminator has heard that the mailbox is done.
pub open spec fn heard_mailbox_done(events: Seq<TerminatorEvent>) -> bool
    decreases events.len(),
{
    events.len() > 0 && (events.last() is MailboxDone || heard_mailbox_done(events.drop_last()))
}

/// Whether the terminator has been asked to close.
pub open spec fn heard_close(events: Seq<TerminatorEvent>) -> bool
    decreases events.len(),
{
    events.len() > 0 && (events.last() is Close || heard_close(events.drop_last()))
}

/// The machine of a session that has not begun to close.
pub open spec fn fresh_terminator() -> TerminatorMachine {
    TerminatorMachine {
        nameplate_active: true,
        mailbox_active: true,
        closing: false,
        stopping: false,
        stopped: false,
    }
}

/// What the terminator has noted, it has heard.
pub proof fn lemma_terminator_notes_what_it_heard(events: Seq<TerminatorEvent>)
    ensures
        ({
            let machine = terminator_after(fresh_terminator(), events);
            &&& !machine.nameplate_active ==> heard_nameplate_done(events)
            &&& !machine.mailbox_active ==> heard_mailbox_done(events)
            &&& machine.closing ==> heard_close(events)
            &&& machine.stopping ==> machine.closing && !machine.nameplate_active
                && !machine.mailbox_active
            &&& machine.stopped ==> machine.stopping
        }),
    decreases events.len(),
{
    if events.len() > 0 {
        lemma_terminator_notes_what_it_heard(events.drop_last());
    }
}

/// The end is reported only after everything is done: when the terminator,
/// after any run of events, reports the end, then the event in hand is the
/// word that the connection has stopped, and before it the terminator was
/// asked to close and heard that the nameplate and the mailbox are done.
pub proof fn lemma_end_reported_after_all_done(
    events: Seq<TerminatorEvent>,
    event: TerminatorEvent,
    i: int,
)
    requires
        ({
            let out = terminator_after(fresh_terminator(), events).emits(event);
            0 <= i < out.len() && out[i] == Event::Boss(BossEvent::Closed)
        }),
    ensures
        event is Stopped,
        heard_close(events),
        heard_nameplate_done(events),
        heard_mailbox_done(events),
{
    lemma_terminator_notes_what_it_heard(events);
}

/// The end is reported once: after the terminator has reported the end, it
/// does not report it again.
pub proof fn lemma_end_reported_once(machine: TerminatorMachine, event: TerminatorEvent, i: int)
    requires
        machine.stopped,
        0 <= i < machine.emits(event).len(),
    ensures
        machine.emits(event)[i] != Event::Boss(BossEvent::Closed),
{
}

/// The nameplate is done only when its release is acknowledged, or the
/// connection is down, or it was never set: when the nameplate machine
/// tells the terminator that it is done, its state becomes `Released`, and
/// either the server has just confirmed the release, or the machine is not
/// connected after the event, or no nameplate was ever set.
pub proof fn lemma_nameplate_done_when_released(
    machine: NameplateMachine,
    event: NameplateEvent,
    i: int,
)
    requires
        0 <= i < machine.emits(event).len(),
        machine.emits(event)[i] == Event::Terminator(TerminatorEvent::NameplateDone),
    ensures
        machine.next(event).state is Released,
        !(machine.state is Released),
        event is RxReleased || !machine.next(event).connected || machine.state is Unclaimed,
{
}

/// The mailbox is done only when its close is acknowledged, or the
/// connection is down, or it is not open: when the mailbox machine tells
/// the terminator that it is done, its state becomes `Closed`, and either
/// the server has just confirmed the close, or the connection has just been
/// lost, or the mailbox was not open when it was asked to close.
pub proof fn lemma_mailbox_done_when_closed(
    machine: MailboxMachine,
    event: MailboxEvent,
    out: Seq<Event>,
    i: int,
)
    requires
        machine.emitted(event, out),
        0 <= i < out.len(),
        out[i] == Event::Terminator(TerminatorEvent::MailboxDone),
    ensures
        machine.next_state(event) is Closed,
        !(machine.state is Closed),
        event is RxClosed || event is Lost || (event is Close && !(machine.state is Open)),
{
    match event {
        MailboxEvent::Connected => {
            match machine.state {
                MailboxState::Known(mailbox) => {
                    assert(out[i] is Rendezvous);
                },
                _ => {},
            }
        },
        MailboxEvent::GotMailbox(mailbox) => {
            match machine.state {
                MailboxState::Empty => {
                    if machine.connected {
                        assert(out[i] is Rendezvous);
                    }
                },
                _ => {},
            }
        },
        _ => {},
    }
}

/// The key is verified once: the receive machine tells the send machine
/// that the key is verified only when the first message opens under a key
/// that had opened nothing yet, and from then on the key counts as
/// verified or the machine is frightened.
pub proof fn lemma_key_verified_once(
    machine: ReceiveMachine,
    event: ReceiveEvent,
    after: ReceiveMachine,
    out: Seq<Event>,
    i: int,
)
    requires
        machine.processed(event, after, out),
        0 <= i < out.len(),
        out[i] is Send,
    ensures
        machine.state is Unverified,
        after.state is Verified,
        after.key() == machine.key(),
        out[i] matches Event::Send(SendEvent::GotVerifiedKey(key)) && Some(key.0@) == machine.key(),
{
}

/// A key that the receive machine holds does not change: whatever the
/// machine processes, it holds the same key afterwards, unless a message
/// that does not open has frightened it.
pub proof fn lemma_received_key_is_kept(
    machine: ReceiveMachine,
    event: ReceiveEvent,
    after: ReceiveMachine,
    out: Seq<Event>,
)
    requires
        machine.processed(event, after, out),
        machine.key() is Some,
    ensures
        after.key() == machine.key() || after.state is Scared,
{
}

/// The verified key does not change: once the send machine has the
/// verified key, it keeps it whatever it processes.
pub proof fn lemma_verified_key_is_kept(
    machine: SendMachine,
    event: SendEvent,
    after: SendMachine,
    out: Seq<Event>,
)
    requires
        machine.processed(event, after, out),
        machine.state is HasKey,
    ensures
        after.state == machine.state,
{
}

/// The name of this side does not change: the machines that carry it
/// carry the same name after whatever they process.
pub proof fn lemma_side_is_kept(
    before: WormholeCore,
    event: Event,
    after: WormholeCore,
    out: Seq<Event>,
)
    requires
        stepped(before, event, after, out),
    ensures
        after.rendezvous.side == before.rendezvous.side,
        after.rendezvous.appid == before.rendezvous.appid,
        after.key.side == before.key.side,
        after.key.appid == before.key.appid,
        after.mailbox.side == before.mailbox.side,
        after.send.side == before.send.side,
{
    reveal(stepped);
}

/// The connection is reported as stopped only when there is none: when the
/// rendezvous machine tells the terminator that the connection has
/// stopped on an event of another machine, that event is the request to
/// stop, and the machine had no WebSocket open or opening.
pub proof fn lemma_stopped_without_socket(
    machine: RendezvousMachine,
    event: RendezvousEvent,
    after: RendezvousMachine,
    out: Seq<Event>,
    i: int,
)
    requires
        machine.processed(event, after, out),
        0 <= i < out.len(),
        out[i] == Event::Terminator(TerminatorEvent::Stopped),
    ensures
        event is Stop,
        machine.state == RendezvousState::Idle || machine.state == RendezvousState::Waiting,
        after.state == RendezvousState::Stopped,
{
}

/// The connection is reported as stopped only when its loss is observed:
/// when the rendezvous machine tells the terminator that the connection
/// has stopped on an event of the transport, that event is the loss of
/// the WebSocket that the machine had asked to close.
pub proof fn lemma_stopped_on_loss(
    machine: RendezvousMachine,
    event: IOEvent,
    after: RendezvousMachine,
    out: Seq<Event>,
    i: int,
)
    requires
        machine.processed_io(event, after, out),
        0 <= i < out.len(),
        out[i] == Event::Terminator(TerminatorEvent::Stopped),
    ensures
        event == IOEvent::WebSocketConnectionLost(machine.socket),
        machine.state == RendezvousState::Stopping,
        after.state == RendezvousState::Stopped,
{
    match event {
        IOEvent::WebSocketMessageReceived(_, text) => {
            if machine.heeds(event) {
                match json_parsed(text@) {
                    Some(doc) => {
                        assert(carries_out(frame_meaning(doc), out));
                    },
                    None => {},
                }
            }
        },
        IOEvent::WebSocketConnectionMade(_) => {
            if machine.heeds(event) {
                assert(out.subrange(1, 6)[i - 1] == out[i]);
            }
        },
        _ => {},
    }
}

/// One step of the order machine: the machine before, the event, what it
/// emitted, and the machine after.
pub struct OrderStep {
    pub before: OrderMachine,
    pub event: OrderEvent,
    pub out: Seq<Event>,
    pub after: OrderMachine,
}

/// Whether `steps` are a run of the order machine from its first state:
/// each step is what the machine does with its event, and begins where the
/// step before it ended.
pub open spec fn order_run(steps: Seq<OrderStep>) -> bool {
    &&& forall|k: int|
        #![trigger steps[k]]
        0 <= k < steps.len() ==> steps[k].before.processed(
            steps[k].event,
            steps[k].after,
            steps[k].out,
        )
    &&& forall|i: int, k: int|
        #![trigger steps[i], steps[k]]
        0 <= i && k == i + 1 && k < steps.len() ==> steps[k].before == steps[i].after
    &&& steps.len() > 0 ==> steps[0].before.state == OrderState::AwaitPake
        && steps[0].before.version is None && steps[0].before.held@.len() == 0
}

/// Everything that the steps of a run have emitted, in order.
pub open spec fn order_output(steps: Seq<OrderStep>) -> Seq<Event>
    decreases steps.len(),
{
    if steps.len() == 0 {
        Seq::empty()
    } else {
        order_output(steps.drop_last()) + steps.last().out
    }
}

/// Whether an event hands an application message to the receive machine.
pub open spec fn delivers_payload(event: Event) -> bool {
    event matches Event::Receive(ReceiveEvent::GotMessage(_, phase, _)) && phase is Message
}

/// Whether an event hands the peer's versions to the receive machine.
pub open spec fn delivers_versions(event: Event) -> bool {
    event matches Event::Receive(ReceiveEvent::GotMessage(_, phase, _)) && phase is Version
}

/// Whether what the order machine has emitted is in order: it begins with
/// the message of the key exchange for the key machine, then come the
/// peer's versions, and only then application messages.
pub open spec fn well_ordered(output: Seq<Event>) -> bool {
    &&& output.len() > 0 ==> output[0] is Key
    &&& output.len() > 1 ==> delivers_versions(output[1])
    &&& forall|i: int| 0 <= i < output.len() && delivers_payload(#[trigger] output[i]) ==> i >= 2
}

/// What the order machine holds back and what it has emitted, by its
/// state.
pub proof fn lemma_order_state(steps: Seq<OrderStep>)
    requires
        order_run(steps),
        steps.len() > 0,
    ensures
        ({
            let machine = steps.last().after;
            let output = order_output(steps);
            &&& well_ordered(output)
            &&& machine.state == OrderState::AwaitPake ==> output.len() == 0
            &&& machine.state == OrderState::AwaitVersion ==> output.len() == 1
                && machine.version is None
            &&& machine.state == OrderState::Flowing ==> output.len() >= 2
            &&& machine.version matches Some(held) ==> held.phase is Version
            &&& forall|i: int|
                0 <= i < machine.held@.len() ==> (#[trigger] machine.held@[i]).phase is Message
        }),
    decreases steps.len(),
{
    let last = steps.last();
    let earlier = steps.drop_last();
    let before = order_output(earlier);
    if earlier.len() > 0 {
        assert forall|k: int| 0 <= k < earlier.len() implies #[trigger] earlier[k] == steps[k] by {}
        assert(order_run(earlier)) by {
            assert forall|i: int, k: int|
                #![trigger earlier[i], earlier[k]]
                0 <= i && k == i + 1 && k < earlier.len() implies earlier[k].before
                    == earlier[i].after by {
                assert(steps[k].before == steps[i].after);
            }
        }
        lemma_order_state(earlier);
        assert(last.before == earlier.last().after) by {
            assert(steps[steps.len() - 1].before == steps[steps.len() - 2].after);
        }
    } else {
        assert(before =~= Seq::<Event>::empty());
        assert(last == steps[0]);
    }
    let output = before + last.out;
    let machine = last.before;
    assert(order_output(steps) == output);
    assert(machine.processed(last.event, last.after, last.out));
    match last.event {
        OrderEvent::GotMessage(side, phase, body) => {
            let held = deliveries(machine.held@);
            assert forall|i: int| 0 <= i < held.len() implies delivers_payload(
                #[trigger] held[i],
            ) by {
                assert(machine.held@[i].phase is Message);
            }
            if machine.state == OrderState::AwaitPake && phase is Pake {
                assert(before.len() == 0);
                match machine.version {
                    Some(version) => {
                        assert(output =~= seq![
                            Event::Key(KeyEvent::GotPake(body)),
                            delivery(version),
                        ] + held);
                    },
                    None => {
                        assert(output =~= seq![Event::Key(KeyEvent::GotPake(body))]);
                    },
                }
            } else if machine.state == OrderState::AwaitVersion && phase is Version {
                assert(before.len() == 1);
                assert(output[0] == before[0]);
                assert(output[1] == last.out[0]);
            } else if machine.state == OrderState::Flowing {
                assert forall|i: int| 0 <= i < before.len() implies output[i] == before[i] by {}
            } else {
                assert(last.out =~= Seq::<Event>::empty());
                assert(output =~= before);
            }
        },
    }
}

/// The order machine keeps the order: in every run from its first state,
/// the first thing it emits is the peer's message of the key exchange, for
/// the key machine; the first thing it hands to the receive machine is
/// the peer's versions; and application messages come after both.
pub proof fn lemma_order_is_kept(steps: Seq<OrderStep>)
    requires
        order_run(steps),
    ensures
        well_ordered(order_output(steps)),
{
    if steps.len() > 0 {
        lemma_order_state(steps);
    }
}

/// Whether the session is parting from the server: the nameplate is
/// being released for the end of the session, or the mailbox is being
/// closed.
pub open spec fn is_parting(core: WormholeCore) -> bool {
    ||| core.nameplate.state is Releasing && core.nameplate.closing
    ||| core.mailbox.state is Closing
}

/// The timer that the rendezvous machine starts next.
pub open spec fn next_timer(core: WormholeCore) -> TimerHandle {
    TimerHandle { id: following(core.rendezvous.timer.id) }
}

/// The WebSocket that the rendezvous machine opens next.
pub open spec fn next_socket(core: WormholeCore) -> WSHandle {
    WSHandle { id: following(core.rendezvous.socket.id) }
}

/// A step on an event that is no action for the embedder adds nothing to
/// what the embedder is told.
proof fn lemma_silent(event: Event)
    requires
        !(event is API),
    ensures
        api_actions(seq![event]) == Seq::<APIAction>::empty(),
{
    lemma_actions_of_queue(event, Seq::empty());
    assert(seq![event] + Seq::<Event>::empty() =~= seq![event]);
    assert(api_actions(Seq::<Event>::empty()) =~= Seq::<APIAction>::empty());
}

/// A step on an action for the transport puts the action in line and
/// brings the timers and WebSockets in use up to date; nothing else
/// changes, and nothing is emitted.
proof fn lemma_transport_step(
    before: WormholeCore,
    action: IOAction,
    after: WormholeCore,
    out: Seq<Event>,
)
    requires
        stepped(before, Event::IO(action), after, out),
    ensures
        out == Seq::<Event>::empty(),
        after.io.pending@ == before.io.pending@.push(action),
        after.io.timers@ == timers_after(before.io.timers@, action),
        after.io.sockets@ == sockets_after(before.io.sockets@, action),
        after == (WormholeCore { io: after.io, ..before }),
{
    reveal(stepped);
}

/// In a session that is open and is not parting from the server, a step
/// on the notice of a lost connection emits nothing, and leaves the
/// transport, the rendezvous machine and what the embedder has been told
/// as they are.
proof fn lemma_lost_notice_step(
    before: WormholeCore,
    place: int,
    after: WormholeCore,
    out: Seq<Event>,
)
    requires
        0 <= place < 5,
        stepped(before, lost_notices()[place], after, out),
        !before.is_closed(),
        !is_parting(before),
    ensures
        out == Seq::<Event>::empty(),
        after.io == before.io,
        after.rendezvous == before.rendezvous,
        after.told == before.told,
        !after.is_closed(),
        !is_parting(after),
{
    reveal(stepped);
}

/// When the connection is lost in a session that is open and is not
/// parting from the server, the engine starts one timer of five seconds
/// for the next attempt, and does nothing else: it opens no WebSocket, and
/// it tells the embedder nothing, so the session is not closed. The
/// rendezvous machine then waits for that timer.
pub proof fn lemma_lost_connection_starts_timer(
    core: WormholeCore,
    socket: WSHandle,
    end: WormholeCore,
    actions: Seq<APIAction>,
)
    requires
        !core.is_closed(),
        core.rendezvous.heeds(IOEvent::WebSocketConnectionLost(socket)),
        core.rendezvous.state != RendezvousState::Stopping,
        !is_parting(core),
        core.reported(IOEvent::WebSocketConnectionLost(socket), end, actions),
    ensures
        actions == Seq::<APIAction>::empty(),
        end.io.pending@ == core.io.pending@.push(
            IOAction::StartTimer(next_timer(core), RECONNECT_DELAY),
        ),
        end.io.timers@ == core.io.timers@.insert(next_timer(core).id),
        end.io.sockets@ == core.io.sockets@,
        end.rendezvous.state == RendezvousState::Waiting,
        end.rendezvous.timer == next_timer(core),
        end.rendezvous.socket == core.rendezvous.socket,
        end.rendezvous.relay_url == core.rendezvous.relay_url,
        !end.is_closed(),
{
    let event = IOEvent::WebSocketConnectionLost(socket);
    let (rendezvous, events) = choose|rendezvous: RendezvousMachine, events: Seq<Event>|
        #![trigger core.rendezvous.processed_io(event, rendezvous, events)]
        core.rendezvous.processed_io(event, rendezvous, events) && runs(
            WormholeCore { rendezvous, ..core },
            events,
            end,
            actions,
        );
    let engine = WormholeCore { rendezvous, ..core };
    let last = WormholeCore { told: engine.told, ..end };
    let steps = choose|steps: Seq<Step>|
        #![trigger events_of(steps)]
        chained(engine, events, steps, last, Seq::empty()) && actions == api_actions(
            events_of(steps),
        );
    let timer = IOAction::StartTimer(next_timer(core), RECONNECT_DELAY);
    assert(events =~= seq![Event::IO(timer)] + lost_notices());
    lemma_run_begins(engine, events, steps, last);
    lemma_transport_step(engine, timer, steps[0].after, steps[0].out);
    lemma_silent(events[0]);
    let started = steps[0].after;
    let notices = lost_notices().subrange(0, 5);
    assert(events.drop_first() + steps[0].out =~= notices);
    lemma_lost_notices_pass(started, notices, 0, steps.drop_first(), last);
    assert(actions =~= Seq::<APIAction>::empty());
}

/// In a session that is open and is not parting from the server, a run to
/// the end on the notices of a lost connection, from any of them on, tells
/// the embedder nothing and leaves the transport and the rendezvous
/// machine as they are.
proof fn lemma_lost_notices_pass(
    engine: WormholeCore,
    queue: Seq<Event>,
    place: int,
    steps: Seq<Step>,
    end: WormholeCore,
)
    requires
        0 <= place <= 5,
        queue == lost_notices().subrange(place, 5),
        chained(engine, queue, steps, end, Seq::empty()),
        !engine.is_closed(),
        !is_parting(engine),
    ensures
        api_actions(events_of(steps)) == Seq::<APIAction>::empty(),
        end.io == engine.io,
        end.rendezvous == engine.rendezvous,
        end.told == engine.told,
        !end.is_closed(),
    decreases 5 - place,
{
    if place == 5 {
        assert(queue =~= Seq::<Event>::empty());
        lemma_run_ends(engine, steps, end);
    } else {
        assert(queue[0] == lost_notices()[place]);
        lemma_run_begins(engine, queue, steps, end);
        lemma_lost_notice_step(engine, place, steps[0].after, steps[0].out);
        lemma_silent(queue[0]);
        assert(queue.drop_first() + steps[0].out =~= lost_notices().subrange(place + 1, 5));
        lemma_lost_notices_pass(
            steps[0].after,
            lost_notices().subrange(place + 1, 5),
            place + 1,
            steps.drop_first(),
            end,
        );
        assert(api_actions(events_of(steps)) =~= Seq::<APIAction>::empty());
    }
}

/// When the timer for the next attempt expires, the engine opens one new
/// WebSocket to the rendezvous server, and does nothing else: it tells the
/// embedder nothing. The rendezvous machine then waits for that WebSocket.
pub proof fn lemma_expired_timer_opens_socket(
    core: WormholeCore,
    timer: TimerHandle,
    end: WormholeCore,
    actions: Seq<APIAction>,
)
    requires
        !core.is_closed(),
        core.rendezvous.heeds(IOEvent::TimerExpired(timer)),
        core.reported(IOEvent::TimerExpired(timer), end, actions),
    ensures
        actions == Seq::<APIAction>::empty(),
        end.io.pending@ == core.io.pending@.push(
            IOAction::WebSocketOpen(next_socket(core), core.rendezvous.relay_url),
        ),
        next_socket(core) != core.rendezvous.socket,
        end.io.sockets@ == core.io.sockets@.insert(next_socket(core).id),
        end.io.timers@ == core.io.timers@,
        end.rendezvous.state == RendezvousState::Connecting,
        end.rendezvous.socket == next_socket(core),
        !end.is_closed(),
{
    let event = IOEvent::TimerExpired(timer);
    let (rendezvous, events) = choose|rendezvous: RendezvousMachine, events: Seq<Event>|
        #![trigger core.rendezvous.processed_io(event, rendezvous, events)]
        core.rendezvous.processed_io(event, rendezvous, events) && runs(
            WormholeCore { rendezvous, ..core },
            events,
            end,
            actions,
        );
    let engine = WormholeCore { rendezvous, ..core };
    let last = WormholeCore { told: engine.told, ..end };
    let steps = choose|steps: Seq<Step>|
        #![trigger events_of(steps)]
        chained(engine, events, steps, last, Seq::empty()) && actions == api_actions(
            events_of(steps),
        );
    let opening = IOAction::WebSocketOpen(next_socket(core), core.rendezvous.relay_url);
    assert(events =~= seq![Event::IO(opening)]);
    lemma_run_begins(engine, events, steps, last);
    lemma_transport_step(engine, opening, steps[0].after, steps[0].out);
    lemma_silent(events[0]);
    let (engine, events, steps) = (
        steps[0].after,
        events.drop_first() + steps[0].out,
        steps.drop_first(),
    );
    assert(events =~= Seq::<Event>::empty());
    lemma_run_ends(engine, steps, last);
    assert(actions =~= Seq::<APIAction>::empty());
}

/// The frame with the number `id` that adds to the mailbox the message of
/// `phase` with the sealed body `body`.
pub open spec fn add_frame(phase: Phase, body: Seq<u8>, id: u64) -> Seq<char> {
    frame_text(
        seq![
            JsonValue::text_entry("type"@, "add"@),
            JsonValue::text_entry("phase"@, phase_label(phase)),
            JsonValue::text_entry("body"@, hex_encoding(body)),
        ],
        id,
    )
}

/// Whether `text` is the frame with the number `id` that adds a message to
/// the mailbox: the message of `phase`, which is `plaintext` sealed by
/// `side` for that phase under the session key `key`.
pub open spec fn adds_message(
    text: Seq<char>,
    id: u64,
    side: Seq<char>,
    key: Seq<u8>,
    phase: Phase,
    plaintext: Seq<u8>,
) -> bool {
    exists|body: Seq<u8>|
        seals(phase_key(side, key, phase), plaintext, body) && text == #[trigger] add_frame(
            phase,
            body,
            id,
        )
}

/// With the verified key, a step of the send machine on a message emits
/// the one event that posts the message, sealed for its phase.
proof fn lemma_sealing_step(
    before: WormholeCore,
    phase: Phase,
    plaintext: Vec<u8>,
    after: WormholeCore,
    out: Seq<Event>,
)
    requires
        stepped(before, Event::Send(SendEvent::Send(phase, plaintext)), after, out),
        before.send.state is HasKey,
    ensures
        out.len() == 1,
        posts(before.send.side@, before.send.state->HasKey_0.0@, phase, plaintext@, out[0]),
        after.send.state == before.send.state,
        after.send.side == before.send.side,
        after == (WormholeCore { send: after.send, ..before }),
{
    reveal(stepped);
}

/// With the mailbox open, a step of the mailbox machine on a message to
/// post emits the one request that adds the message, in hexadecimal.
proof fn lemma_posting_step(
    before: WormholeCore,
    phase: Phase,
    body: Vec<u8>,
    after: WormholeCore,
    out: Seq<Event>,
)
    requires
        stepped(before, Event::Mailbox(MailboxEvent::AddMessage(phase, body)), after, out),
        before.mailbox.state is Open,
    ensures
        out.len() == 1,
        out[0] matches Event::Rendezvous(RendezvousEvent::TxAdd(p, hex)) && p == phase && hex@
            == hex_encoding(body@),
        after.mailbox.state == before.mailbox.state,
        after == (WormholeCore { mailbox: after.mailbox, ..before }),
{
    reveal(stepped);
}

/// With the connection up, a step of the rendezvous machine on a request
/// emits the one action that sends the request's frame on the WebSocket,
/// under the next number, and counts the number up.
proof fn lemma_request_step(
    before: WormholeCore,
    event: RendezvousEvent,
    after: WormholeCore,
    out: Seq<Event>,
)
    requires
        stepped(before, Event::Rendezvous(event), after, out),
        before.rendezvous.sends(event),
    ensures
        out.len() == 1,
        out[0] matches Event::IO(IOAction::WebSocketSendMessage(socket, text)) && socket
            == before.rendezvous.socket && text@ == frame_text(
            request_members(event).unwrap(),
            before.rendezvous.next_frame,
        ),
        after.rendezvous.next_frame == following_frame(before.rendezvous.next_frame),
        after.rendezvous.state == before.rendezvous.state,
        after.rendezvous.socket == before.rendezvous.socket,
        after == (WormholeCore { rendezvous: after.rendezvous, ..before }),
{
    reveal(stepped);
}

/// When the embedder sends a message in a session whose key is verified,
/// whose mailbox is open and whose connection is up, the engine puts one
/// frame on the WebSocket: the frame that adds the message under the
/// boss's next number, sealed for that phase. The boss's next number is
/// then one higher, and the session is as ready for the next message as
/// it was for this one: so no two messages go out under one number. The
/// embedder is told nothing.
pub proof fn lemma_message_goes_out_numbered(
    core: WormholeCore,
    plaintext: Vec<u8>,
    end: WormholeCore,
    actions: Seq<APIAction>,
)
    requires
        !core.boss.winding_down(),
        core.boss.accepts(APIEvent::Send(plaintext)),
        core.send.state is HasKey,
        core.mailbox.state is Open,
        core.rendezvous.state == RendezvousState::Connected,
        core.requested(APIEvent::Send(plaintext), end, actions),
    ensures
        actions == Seq::<APIAction>::empty(),
        end.boss.next_phase == core.boss.next_phase + 1,
        end.boss.state == core.boss.state,
        end.send.state == core.send.state,
        end.send.side == core.send.side,
        end.mailbox.state == core.mailbox.state,
        end.rendezvous.state == RendezvousState::Connected,
        end.rendezvous.socket == core.rendezvous.socket,
        end.rendezvous.next_frame == following_frame(core.rendezvous.next_frame),
        end.io.pending@.len() == core.io.pending@.len() + 1,
        end.io.pending@.drop_last() == core.io.pending@,
        end.io.pending@.last() matches IOAction::WebSocketSendMessage(socket, text) && socket
            == core.rendezvous.socket && adds_message(
            text@,
            core.rendezvous.next_frame,
            core.send.side@,
            core.send.state->HasKey_0.0@,
            Phase::Message(core.boss.next_phase),
            plaintext@,
        ),
{
    let request = APIEvent::Send(plaintext);
    let phase = Phase::Message(core.boss.next_phase);
    let engine = WormholeCore { boss: core.boss.next_api(request), ..core };
    let events = core.boss.emits_api(request);
    let last = WormholeCore { told: engine.told, ..end };
    let steps = choose|steps: Seq<Step>|
        #![trigger events_of(steps)]
        chained(engine, events, steps, last, Seq::empty()) && actions == api_actions(
            events_of(steps),
        );
    assert(events[0] == Event::Send(SendEvent::Send(phase, plaintext)));
    // the send machine seals
    lemma_run_begins(engine, events, steps, last);
    lemma_sealing_step(engine, phase, plaintext, steps[0].after, steps[0].out);
    lemma_silent(events[0]);
    let (engine, events, steps) = (
        steps[0].after,
        events.drop_first() + steps[0].out,
        steps.drop_first(),
    );
    assert(events.len() == 1);
    let posted = events[0];
    assert(posts(core.send.side@, core.send.state->HasKey_0.0@, phase, plaintext@, posted));
    let body = posted->Mailbox_0->AddMessage_1;
    // the mailbox machine posts
    lemma_run_begins(engine, events, steps, last);
    lemma_posting_step(engine, phase, body, steps[0].after, steps[0].out);
    lemma_silent(events[0]);
    let (engine, events, steps) = (
        steps[0].after,
        events.drop_first() + steps[0].out,
        steps.drop_first(),
    );
    assert(events.len() == 1);
    let asked = events[0]->Rendezvous_0;
    // the rendezvous machine sends
    lemma_run_begins(engine, events, steps, last);
    lemma_request_step(engine, asked, steps[0].after, steps[0].out);
    lemma_silent(events[0]);
    let (engine, events, steps) = (
        steps[0].after,
        events.drop_first() + steps[0].out,
        steps.drop_first(),
    );
    assert(events.len() == 1);
    let sent = events[0]->IO_0;
    // the transport takes the frame
    lemma_run_begins(engine, events, steps, last);
    lemma_transport_step(engine, sent, steps[0].after, steps[0].out);
    lemma_silent(events[0]);
    let (engine, events, steps) = (
        steps[0].after,
        events.drop_first() + steps[0].out,
        steps.drop_first(),
    );
    assert(events =~= Seq::<Event>::empty());
    lemma_run_ends(engine, steps, last);
    assert(actions =~= Seq::<APIAction>::empty());
    assert(end.io.pending@.drop_last() =~= core.io.pending@);
    assert(asked matches RendezvousEvent::TxAdd(p, hex) && p == phase && hex@ == hex_encoding(
        body@,
    ));
    assert(sent matches IOAction::WebSocketSendMessage(socket, text) && text@ == add_frame(
        phase,
        body@,
        core.rendezvous.next_frame,
    ));
    assert(seals(
        phase_key(core.send.side@, core.send.state->HasKey_0.0@, phase),
        plaintext@,
        body@,
    ));
    assert(end.io.pending@.last() == sent);
}

/// Whether every action for the embedder among `events` is the report
/// that the session is closed in `mood`.
pub open spec fn only_the_end(events: Seq<Event>, mood: Mood) -> bool {
    forall|i: int|
        0 <= i < events.len() && (#[trigger] events[i]) is API ==> events[i] == Event::API(
            APIAction::GotClosed(mood),
        )
}

/// Whether each of `actions` is the report that the session is closed in
/// `mood`.
pub open spec fn all_closed(actions: Seq<APIAction>, mood: Mood) -> bool {
    forall|i: int| 0 <= i < actions.len() ==> #[trigger] actions[i] == APIAction::GotClosed(mood)
}

/// What the rendezvous machine emits on an event of the transport holds
/// no action for the embedder.
proof fn lemma_reaction_is_quiet(machine: RendezvousMachine, event: IOEvent, out: Seq<Event>)
    requires
        machine.reacted(event, out),
    ensures
        quiet(out),
{
    if machine.heeds(event) {
        match event {
            IOEvent::WebSocketConnectionMade(_) => {
                assert forall|i: int| 0 <= i < out.len() implies !((#[trigger] out[i]) is API) by {
                    if i > 0 {
                        assert(out[i] == out.subrange(1, 6)[i - 1]);
                    }
                }
            },
            _ => {},
        }
    }
}

/// In a session that is closing or closed, a step keeps the boss closing
/// or closed and keeps the mood, and emits no action for the embedder
/// other than the report that the session is closed in that mood.
proof fn lemma_closing_step(before: WormholeCore, event: Event, after: WormholeCore, out: Seq<Event>)
    requires
        stepped(before, event, after, out),
        before.boss.winding_down(),
    ensures
        after.boss.winding_down(),
        after.boss.mood == before.boss.mood,
        only_the_end(out, before.boss.mood),
{
    reveal(stepped);
}

/// In a session that is closing or closed, a run to the end on events
/// that hold no action for the embedder other than the report of the end
/// tells the embedder nothing but that report, and leaves the session
/// closing or closed in the same mood.
pub proof fn lemma_closing_run(
    engine: WormholeCore,
    queue: Seq<Event>,
    steps: Seq<Step>,
    end: WormholeCore,
)
    requires
        chained(engine, queue, steps, end, Seq::empty()),
        engine.boss.winding_down(),
        only_the_end(queue, engine.boss.mood),
    ensures
        end.boss.winding_down(),
        end.boss.mood == engine.boss.mood,
        all_closed(api_actions(events_of(steps)), engine.boss.mood),
    decreases steps.len(),
{
    let mood = engine.boss.mood;
    if queue.len() == 0 {
        assert(queue =~= Seq::<Event>::empty());
        lemma_run_ends(engine, steps, end);
    } else {
        lemma_run_begins(engine, queue, steps, end);
        lemma_closing_step(engine, queue[0], steps[0].after, steps[0].out);
        let waiting = queue.drop_first() + steps[0].out;
        assert forall|i: int| 0 <= i < waiting.len() && (#[trigger] waiting[i]) is API implies
            waiting[i] == Event::API(APIAction::GotClosed(mood)) by {
            if i < queue.len() - 1 {
                assert(waiting[i] == queue[i + 1]);
            } else {
                assert(waiting[i] == steps[0].out[i - (queue.len() - 1)]);
            }
        }
        lemma_closing_run(steps[0].after, waiting, steps.drop_first(), end);
        lemma_actions_of_queue(queue[0], Seq::empty());
        assert(seq![queue[0]] + Seq::<Event>::empty() =~= seq![queue[0]]);
        assert(api_actions(Seq::<Event>::empty()) =~= Seq::<APIAction>::empty());
        assert(queue[0] is API ==> queue[0] == Event::API(APIAction::GotClosed(mood)));
    }
}

/// While a session is closing, whatever the transport reports, the
/// embedder is told nothing but that the session is closed, in the mood in
/// which it was closing; and the session stays closing or closed in that
/// mood.
pub proof fn lemma_closing_session_tells_only_the_end(
    core: WormholeCore,
    event: IOEvent,
    end: WormholeCore,
    actions: Seq<APIAction>,
)
    requires
        core.boss.winding_down(),
        core.reported(event, end, actions),
    ensures
        all_closed(actions, core.boss.mood),
        end.boss.winding_down(),
        end.boss.mood == core.boss.mood,
{
    if !core.is_closed() {
        let (rendezvous, events) = choose|rendezvous: RendezvousMachine, events: Seq<Event>|
            #![trigger core.rendezvous.processed_io(event, rendezvous, events)]
            core.rendezvous.processed_io(event, rendezvous, events) && runs(
                WormholeCore { rendezvous, ..core },
                events,
                end,
                actions,
            );
        let engine = WormholeCore { rendezvous, ..core };
        let last = WormholeCore { told: engine.told, ..end };
        let steps = choose|steps: Seq<Step>|
            #![trigger events_of(steps)]
            chained(engine, events, steps, last, Seq::empty()) && actions == api_actions(
                events_of(steps),
            );
        lemma_reaction_is_quiet(core.rendezvous, event, events);
        lemma_closing_run(engine, events, steps, last);
    }
}

/// A step of the mailbox machine on a message of the peer that is news,
/// once the nameplate is released, hands the message to the order machine.
proof fn lemma_news_step(
    before: WormholeCore,
    side: String,
    phase: Phase,
    body: Vec<u8>,
    after: WormholeCore,
    out: Seq<Event>,
)
    requires
        stepped(before, Event::Mailbox(MailboxEvent::RxMessage(side, phase, body)), after, out),
        before.mailbox.is_news(side@, phase),
        before.mailbox.released,
    ensures
        out == seq![Event::Order(OrderEvent::GotMessage(side, phase, body))],
        after == (WormholeCore { mailbox: after.mailbox, ..before }),
{
    reveal(stepped);
}

/// A step of the order machine on the peer's versions, when the key
/// exchange has come and no message is held back, hands the versions to
/// the receive machine.
proof fn lemma_versions_step(
    before: WormholeCore,
    side: String,
    body: Vec<u8>,
    after: WormholeCore,
    out: Seq<Event>,
)
    requires
        stepped(
            before,
            Event::Order(OrderEvent::GotMessage(side, Phase::Version, body)),
            after,
            out,
        ),
        before.order.state == OrderState::AwaitVersion,
        before.order.held@.len() == 0,
    ensures
        out == seq![Event::Receive(ReceiveEvent::GotMessage(side, Phase::Version, body))],
        after == (WormholeCore { order: after.order, ..before }),
{
    reveal(stepped);
    let message = Held { side, phase: Phase::Version, body };
    assert(seq![delivery(message)] + deliveries(before.order.held@) =~= seq![delivery(message)]);
}

/// A step of the receive machine on a message that does not open under
/// its key frightens the machine and tells the boss of the fright.
proof fn lemma_fright_step(
    before: WormholeCore,
    side: String,
    phase: Phase,
    body: Vec<u8>,
    after: WormholeCore,
    out: Seq<Event>,
)
    requires
        stepped(
            before,
            Event::Receive(ReceiveEvent::GotMessage(side, phase, body)),
            after,
            out,
        ),
        before.receive.key() is Some,
        before.receive.opened(side@, phase, body@) is None,
    ensures
        out == seq![Event::Boss(BossEvent::Scared)],
        after.receive.state is Scared,
        after == (WormholeCore { receive: after.receive, ..before }),
{
    reveal(stepped);
}

/// A step of the boss on a fright, in a session that is not closing,
/// closes the session in the mood `scared`.
proof fn lemma_scared_step(before: WormholeCore, after: WormholeCore, out: Seq<Event>)
    requires
        stepped(before, Event::Boss(BossEvent::Scared), after, out),
        !before.boss.winding_down(),
    ensures
        out == seq![Event::Terminator(TerminatorEvent::Close(Mood::Scared))],
        after.boss.state == BossState::Closing,
        after.boss.mood == Mood::Scared,
        after == (WormholeCore { boss: after.boss, ..before }),
{
    reveal(stepped);
}

/// When the peer's versions arrive sealed under another key than this
/// side's, as they are when the two sides were given different codes, the
/// session closes in the mood `scared`: the receive machine is frightened,
/// the boss closes the session in that mood, and the embedder is told
/// neither versions nor a message, nor anything but the end of the session
/// in that mood.
pub proof fn lemma_wrong_key_scares(
    core: WormholeCore,
    socket: WSHandle,
    text: String,
    side: Seq<char>,
    body: Seq<u8>,
    end: WormholeCore,
    actions: Seq<APIAction>,
)
    requires
        !core.boss.winding_down(),
        core.rendezvous.heeds(IOEvent::WebSocketMessageReceived(socket, text)),
        json_parsed(text@) matches Some(doc) && frame_meaning(doc) == FrameMeaning::Message(
            side,
            Phase::Version,
            body,
        ),
        core.mailbox.is_news(side, Phase::Version),
        core.mailbox.released,
        core.order.state == OrderState::AwaitVersion,
        core.order.held@.len() == 0,
        core.receive.key() is Some,
        core.receive.opened(side, Phase::Version, body) is None,
        core.reported(IOEvent::WebSocketMessageReceived(socket, text), end, actions),
    ensures
        all_closed(actions, Mood::Scared),
        end.boss.winding_down(),
        end.boss.mood == Mood::Scared,
        end.receive.state is Scared,
{
    let event = IOEvent::WebSocketMessageReceived(socket, text);
    let (rendezvous, events) = choose|rendezvous: RendezvousMachine, events: Seq<Event>|
        #![trigger core.rendezvous.processed_io(event, rendezvous, events)]
        core.rendezvous.processed_io(event, rendezvous, events) && runs(
            WormholeCore { rendezvous, ..core },
            events,
            end,
            actions,
        );
    let engine = WormholeCore { rendezvous, ..core };
    let last = WormholeCore { told: engine.told, ..end };
    let steps = choose|steps: Seq<Step>|
        #![trigger events_of(steps)]
        chained(engine, events, steps, last, Seq::empty()) && actions == api_actions(
            events_of(steps),
        );
    assert(events.len() == 1);
    let (s, b) = (events[0]->Mailbox_0->RxMessage_0, events[0]->Mailbox_0->RxMessage_2);
    assert(events[0] == Event::Mailbox(MailboxEvent::RxMessage(s, Phase::Version, b)));
    // the mailbox machine
    lemma_run_begins(engine, events, steps, last);
    lemma_news_step(engine, s, Phase::Version, b, steps[0].after, steps[0].out);
    lemma_silent(events[0]);
    let (engine, events, steps) = (
        steps[0].after,
        events.drop_first() + steps[0].out,
        steps.drop_first(),
    );
    assert(events =~= seq![Event::Order(OrderEvent::GotMessage(s, Phase::Version, b))]);
    // the order machine
    lemma_run_begins(engine, events, steps, last);
    lemma_versions_step(engine, s, b, steps[0].after, steps[0].out);
    lemma_silent(events[0]);
    let (engine, events, steps) = (
        steps[0].after,
        events.drop_first() + steps[0].out,
        steps.drop_first(),
    );
    assert(events =~= seq![Event::Receive(ReceiveEvent::GotMessage(s, Phase::Version, b))]);
    // the receive machine
    lemma_run_begins(engine, events, steps, last);
    lemma_fright_step(engine, s, Phase::Version, b, steps[0].after, steps[0].out);
    lemma_silent(events[0]);
    let (engine, events, steps) = (
        steps[0].after,
        events.drop_first() + steps[0].out,
        steps.drop_first(),
    );
    assert(events =~= seq![Event::Boss(BossEvent::Scared)]);
    // the boss
    lemma_run_begins(engine, events, steps, last);
    lemma_scared_step(engine, steps[0].after, steps[0].out);
    lemma_silent(events[0]);
    let (engine, events, steps) = (
        steps[0].after,
        events.drop_first() + steps[0].out,
        steps.drop_first(),
    );
    assert(events =~= seq![Event::Terminator(TerminatorEvent::Close(Mood::Scared))]);
    // the end of the session
    lemma_closing_run(engine, events, steps, last);
    lemma_receive_stays_scared(engine, events, steps, last);
    assert(actions =~= api_actions(events_of(steps)));
}

/// A step leaves a frightened receive machine frightened.
proof fn lemma_scared_is_kept(
    before: WormholeCore,
    event: Event,
    after: WormholeCore,
    out: Seq<Event>,
)
    requires
        stepped(before, event, after, out),
        before.receive.state is Scared,
    ensures
        after.receive.state is Scared,
{
    reveal(stepped);
}

/// A run leaves a frightened receive machine frightened.
proof fn lemma_receive_stays_scared(
    engine: WormholeCore,
    queue: Seq<Event>,
    steps: Seq<Step>,
    end: WormholeCore,
)
    requires
        chained(engine, queue, steps, end, Seq::empty()),
        engine.receive.state is Scared,
    ensures
        end.receive.state is Scared,
    decreases steps.len(),
{
    if queue.len() == 0 {
        assert(queue =~= Seq::<Event>::empty());
        lemma_run_ends(engine, steps, end);
    } else {
        lemma_run_begins(engine, queue, steps, end);
        lemma_scared_is_kept(engine, queue[0], steps[0].after, steps[0].out);
        lemma_receive_stays_scared(
            steps[0].after,
            queue.drop_first() + steps[0].out,
            steps.drop_first(),
            end,
        );
    }
}

/// Whether the terminator has done its work in order: it asks the
/// connection to stop only in a session that is closing, when nameplate
/// and mailbox are done, and it reports the end only after that.
pub open spec fn orderly(terminator: TerminatorMachine) -> bool {
    &&& terminator.stopping ==> terminator.closing && !terminator.nameplate_active
        && !terminator.mailbox_active
    &&& terminator.stopped ==> terminator.stopping
}

/// Whether the terminator has seen the end of the session: the session
/// was asked to close, the nameplate and the mailbox are done, and the
/// connection has stopped after it was asked to.
pub open spec fn ended(terminator: TerminatorMachine) -> bool {
    &&& terminator.closing
    &&& !terminator.nameplate_active
    &&& !terminator.mailbox_active
    &&& terminator.stopping
    &&& terminator.stopped
}

/// Whether an event brings the end of the session to the boss or to the
/// embedder.
pub open spec fn brings_end(event: Event) -> bool {
    ||| event == Event::Boss(BossEvent::Closed)
    ||| event matches Event::API(APIAction::GotClosed(_))
}

/// Whether one of `events` brings the end of the session.
pub open spec fn end_is_near(events: Seq<Event>) -> bool {
    exists|i: int| 0 <= i < events.len() && brings_end(#[trigger] events[i])
}

/// Nothing that ends an exchange of keys brings the end of the session.
proof fn lemma_exchange_brings_no_end(
    side: Seq<char>,
    exchange: PakeState,
    inbound: Seq<u8>,
    out: Seq<Event>,
)
    requires
        ends_exchange(side, exchange, inbound, out),
    ensures
        forall|i: int| 0 <= i < out.len() ==> !brings_end(#[trigger] out[i]),
{
    assert forall|i: int| 0 <= i < out.len() implies !brings_end(#[trigger] out[i]) by {
        if out.len() == 4 {
            assert(i == 0 || i == 1 || i == 2 || i == 3);
        }
    }
}

/// Nothing that the key machine emits brings the end of the session.
proof fn lemma_key_brings_no_end(machine: KeyMachine, event: KeyEvent, next: KeyState, out: Seq<Event>)
    requires
        machine.follows(event, next, out),
    ensures
        !end_is_near(out),
{
    assert forall|i: int| 0 <= i < out.len() implies !brings_end(#[trigger] out[i]) by {
        match (machine.state, event) {
            (KeyState::HasPake(inbound), KeyEvent::GotCode(code)) => {
                let rest = out.subrange(1, out.len() as int);
                let exchange = choose|exchange: PakeState|
                    {
                        &&& started_with(exchange, code.0@, machine.appid@)
                        &&& #[trigger] starts_exchange(exchange, out[0])
                        &&& ends_exchange(machine.side@, exchange, inbound@, rest)
                    };
                lemma_exchange_brings_no_end(machine.side@, exchange, inbound@, rest);
                if i > 0 {
                    assert(out[i] == rest[i - 1]);
                }
            },
            (KeyState::HasCode(exchange), KeyEvent::GotPake(inbound)) => {
                lemma_exchange_brings_no_end(machine.side@, exchange, inbound@, out);
            },
            _ => {},
        }
    }
}

/// A step keeps the terminator's work in order and, once the terminator
/// has seen the end, leaves it so. Only the terminator, when it has seen
/// the end, brings the end to the boss; and only the boss, when the end is
/// brought to it, brings the end to the embedder.
proof fn lemma_end_step(before: WormholeCore, event: Event, after: WormholeCore, out: Seq<Event>)
    requires
        stepped(before, event, after, out),
        orderly(before.terminator),
        brings_end(event) ==> ended(before.terminator),
    ensures
        orderly(after.terminator),
        ended(before.terminator) ==> ended(after.terminator),
        end_is_near(out) ==> ended(after.terminator),
{
    reveal(stepped);
    if end_is_near(out) {
        let i = choose|i: int| 0 <= i < out.len() && brings_end(#[trigger] out[i]);
        match event {
            Event::Key(e) => {
                lemma_key_brings_no_end(before.key, e, after.key.state, out);
            },
            _ => {},
        }
    }
}

/// In a run of an engine whose terminator has worked in order, the
/// embedder is told the end of the session only when the terminator has
/// seen it: the session was asked to close, the nameplate and the mailbox
/// are done, and the connection has stopped after it was asked to.
pub proof fn lemma_end_run(
    engine: WormholeCore,
    queue: Seq<Event>,
    steps: Seq<Step>,
    end: WormholeCore,
)
    requires
        chained(engine, queue, steps, end, Seq::empty()),
        orderly(engine.terminator),
        end_is_near(queue) ==> ended(engine.terminator),
    ensures
        orderly(end.terminator),
        ended(engine.terminator) ==> ended(end.terminator),
        has_closed(api_actions(events_of(steps))) ==> ended(end.terminator),
    decreases steps.len(),
{
    if queue.len() == 0 {
        assert(queue =~= Seq::<Event>::empty());
        lemma_run_ends(engine, steps, end);
    } else {
        lemma_run_begins(engine, queue, steps, end);
        let first = queue[0];
        let waiting = queue.drop_first() + steps[0].out;
        let rest = steps.drop_first();
        if brings_end(first) {
            assert(end_is_near(queue));
        }
        lemma_end_step(engine, first, steps[0].after, steps[0].out);
        if end_is_near(waiting) {
            let i = choose|i: int| 0 <= i < waiting.len() && brings_end(#[trigger] waiting[i]);
            if i < queue.len() - 1 {
                assert(waiting[i] == queue[i + 1]);
                assert(end_is_near(queue));
            } else {
                assert(waiting[i] == steps[0].out[i - (queue.len() - 1)]);
                assert(end_is_near(steps[0].out));
            }
        }
        lemma_end_run(steps[0].after, waiting, rest, end);
        lemma_actions_of_queue(first, Seq::empty());
        assert(seq![first] + Seq::<Event>::empty() =~= seq![first]);
        assert(api_actions(Seq::<Event>::empty()) =~= Seq::<APIAction>::empty());
        let told = api_actions(seq![first]);
        let later = api_actions(events_of(rest));
        lemma_closed_in_parts(told, later);
        match first {
            Event::API(action) => {
                assert(told =~= seq![action]);
                assert(told.drop_last() =~= Seq::<APIAction>::empty());
                assert(!has_closed(Seq::<APIAction>::empty()));
                assert(told.last() == action);
                assert(has_closed(told) ==> brings_end(first));
            },
            _ => {
                assert(told =~= Seq::<APIAction>::empty());
            },
        }
    }
}

/// The end is among what the embedder is told in two parts exactly when
/// it is among one of the parts.
pub proof fn lemma_closed_in_parts(a: Seq<APIAction>, b: Seq<APIAction>)
    ensures
        has_closed(a + b) == (has_closed(a) || has_closed(b)),
    decreases b.len(),
{
    if b.len() == 0 {
        assert(a + b =~= a);
    } else {
        assert((a + b).drop_last() =~= a + b.drop_last());
        assert((a + b).last() == b.last());
        lemma_closed_in_parts(a, b.drop_last());
    }
}

/// The embedder is told the end of the session, on an event of the
/// transport, only when the terminator has seen the end: the session was
/// asked to close, the nameplate and the mailbox are done, and the
/// connection has stopped after it was asked to.
pub proof fn lemma_end_told_after_all_is_done(
    core: WormholeCore,
    event: IOEvent,
    end: WormholeCore,
    actions: Seq<APIAction>,
)
    requires
        orderly(core.terminator),
        core.reported(event, end, actions),
    ensures
        orderly(end.terminator),
        has_closed(actions) ==> ended(end.terminator),
{
    if !core.is_closed() {
        let (rendezvous, events) = choose|rendezvous: RendezvousMachine, events: Seq<Event>|
            #![trigger core.rendezvous.processed_io(event, rendezvous, events)]
            core.rendezvous.processed_io(event, rendezvous, events) && runs(
                WormholeCore { rendezvous, ..core },
                events,
                end,
                actions,
            );
        let engine = WormholeCore { rendezvous, ..core };
        let last = WormholeCore { told: engine.told, ..end };
        let steps = choose|steps: Seq<Step>|
            #![trigger events_of(steps)]
            chained(engine, events, steps, last, Seq::empty()) && actions == api_actions(
                events_of(steps),
            );
        lemma_reaction_brings_no_end(core.rendezvous, event, events);
        lemma_end_run(engine, events, steps, last);
    } else {
        assert(!has_closed(actions));
    }
}

/// The embedder is told the end of the session, on a request of its own,
/// only when the terminator has seen the end.
pub proof fn lemma_end_told_on_request_after_all_is_done(
    core: WormholeCore,
    event: APIEvent,
    end: WormholeCore,
    actions: Seq<APIAction>,
)
    requires
        orderly(core.terminator),
        core.requested(event, end, actions),
    ensures
        orderly(end.terminator),
        has_closed(actions) ==> ended(end.terminator),
{
    if !core.is_closed() {
        let engine = WormholeCore { boss: core.boss.next_api(event), ..core };
        let events = core.boss.emits_api(event);
        let last = WormholeCore { told: engine.told, ..end };
        let steps = choose|steps: Seq<Step>|
            #![trigger events_of(steps)]
            chained(engine, events, steps, last, Seq::empty()) && actions == api_actions(
                events_of(steps),
            );
        assert(!end_is_near(events));
        lemma_end_run(engine, events, steps, last);
    } else {
        assert(!has_closed(actions));
    }
}

/// What the rendezvous machine emits on an event of the transport does
/// not bring the end of the session.
proof fn lemma_reaction_brings_no_end(machine: RendezvousMachine, event: IOEvent, out: Seq<Event>)
    requires
        machine.reacted(event, out),
    ensures
        !end_is_near(out),
{
    assert forall|i: int| 0 <= i < out.len() implies !brings_end(#[trigger] out[i]) by {
        if machine.heeds(event) && event is WebSocketConnectionMade && i > 0 {
            assert(out[i] == out.subrange(1, 6)[i - 1]);
        }
    }
}

/// A new engine's terminator has done nothing, so its work is in order.
pub proof fn lemma_fresh_is_orderly(
    core: WormholeCore,
    appid: Seq<char>,
    relay_url: Seq<char>,
    io: WormholeIO,
)
    requires
        core.is_fresh(appid, relay_url, io),
    ensures
        orderly(core.terminator),
{
}

/// After the connection is lost in a session that is open and is not
/// parting from the server, and the timer that the engine has started
/// expires, the engine has asked the transport for two things, in this
/// order: the timer of five seconds, and a new WebSocket to the rendezvous
/// server. The embedder has been told nothing.
pub proof fn lemma_reconnects_after_loss(
    core: WormholeCore,
    socket: WSHandle,
    waiting: WormholeCore,
    first: Seq<APIAction>,
    end: WormholeCore,
    second: Seq<APIAction>,
)
    requires
        !core.is_closed(),
        core.rendezvous.heeds(IOEvent::WebSocketConnectionLost(socket)),
        core.rendezvous.state != RendezvousState::Stopping,
        !is_parting(core),
        core.reported(IOEvent::WebSocketConnectionLost(socket), waiting, first),
        waiting.reported(IOEvent::TimerExpired(next_timer(core)), end, second),
    ensures
        first == Seq::<APIAction>::empty(),
        second == Seq::<APIAction>::empty(),
        end.io.pending@ == core.io.pending@.push(
            IOAction::StartTimer(next_timer(core), RECONNECT_DELAY),
        ).push(IOAction::WebSocketOpen(next_socket(core), core.rendezvous.relay_url)),
        next_socket(core) != socket,
        end.rendezvous.state == RendezvousState::Connecting,
        end.rendezvous.socket == next_socket(core),
{
    lemma_lost_connection_starts_timer(core, socket, waiting, first);
    lemma_expired_timer_opens_socket(waiting, next_timer(core), end, second);
}

/// While a session is closing or closed, a request of the embedder is
/// answered with nothing.
pub proof fn lemma_closing_session_takes_no_request(
    core: WormholeCore,
    event: APIEvent,
    end: WormholeCore,
    actions: Seq<APIAction>,
)
    requires
        core.boss.winding_down(),
        core.requested(event, end, actions),
    ensures
        actions == Seq::<APIAction>::empty(),
        end.boss.winding_down(),
{
    if !core.is_closed() {
        let engine = WormholeCore { boss: core.boss.next_api(event), ..core };
        let last = WormholeCore { told: engine.told, ..end };
        let steps = choose|steps: Seq<Step>|
            #![trigger events_of(steps)]
            chained(engine, Seq::empty(), steps, last, Seq::empty()) && actions == api_actions(
                events_of(steps),
            );
        lemma_run_ends(engine, steps, last);
    }
}

/// A step of a machine that is neither the boss nor the transport
/// changes that machine alone.
proof fn lemma_machine_step(before: WormholeCore, event: Event, after: WormholeCore, out: Seq<Event>)
    requires
        stepped(before, event, after, out),
    ensures
        match event {
            Event::Terminator(e) => before.terminator.processed(e, after.terminator, out)
                && after == (WormholeCore { terminator: after.terminator, ..before }),
            Event::Boss(e) => before.boss.processed(e, after.boss, out) && after == (
            WormholeCore { boss: after.boss, ..before }),
            Event::Rendezvous(e) => before.rendezvous.processed(e, after.rendezvous, out)
                && after == (WormholeCore { rendezvous: after.rendezvous, ..before }),
            Event::Mailbox(e) => before.mailbox.processed(e, after.mailbox, out) && after == (
            WormholeCore { mailbox: after.mailbox, ..before }),
            Event::Nameplate(e) => before.nameplate.processed(e, after.nameplate, out) && after
                == (WormholeCore { nameplate: after.nameplate, ..before }),
            Event::API(_) => after == before && out == Seq::<Event>::empty(),
            _ => true,
        },
{
    reveal(stepped);
}

/// When the WebSocket is lost after the terminator has asked the
/// connection to stop, in a session that is closing, the embedder is told
/// that the session is closed, once and in the mood of the close, and the
/// session is closed.
pub proof fn lemma_stopped_connection_ends_session(
    core: WormholeCore,
    socket: WSHandle,
    end: WormholeCore,
    actions: Seq<APIAction>,
)
    requires
        core.boss.state == BossState::Closing,
        core.rendezvous.state == RendezvousState::Stopping,
        core.rendezvous.socket == socket,
        core.terminator.stopping,
        !core.terminator.stopped,
        core.reported(IOEvent::WebSocketConnectionLost(socket), end, actions),
    ensures
        actions == seq![APIAction::GotClosed(core.boss.mood)],
        end.is_closed(),
        end.terminator.stopped,
        end.rendezvous.state == RendezvousState::Stopped,
        end.io == core.io,
{
    let event = IOEvent::WebSocketConnectionLost(socket);
    let (rendezvous, events) = choose|rendezvous: RendezvousMachine, events: Seq<Event>|
        #![trigger core.rendezvous.processed_io(event, rendezvous, events)]
        core.rendezvous.processed_io(event, rendezvous, events) && runs(
            WormholeCore { rendezvous, ..core },
            events,
            end,
            actions,
        );
    let engine = WormholeCore { rendezvous, ..core };
    let last = WormholeCore { told: engine.told, ..end };
    let steps = choose|steps: Seq<Step>|
        #![trigger events_of(steps)]
        chained(engine, events, steps, last, Seq::empty()) && actions == api_actions(
            events_of(steps),
        );
    assert(events =~= seq![Event::Terminator(TerminatorEvent::Stopped)]);
    // the terminator
    lemma_run_begins(engine, events, steps, last);
    lemma_machine_step(engine, events[0], steps[0].after, steps[0].out);
    lemma_silent(events[0]);
    let (engine, events, steps) = (
        steps[0].after,
        events.drop_first() + steps[0].out,
        steps.drop_first(),
    );
    assert(events =~= seq![Event::Boss(BossEvent::Closed)]);
    // the boss
    lemma_run_begins(engine, events, steps, last);
    lemma_machine_step(engine, events[0], steps[0].after, steps[0].out);
    lemma_silent(events[0]);
    let (engine, events, steps) = (
        steps[0].after,
        events.drop_first() + steps[0].out,
        steps.drop_first(),
    );
    let told = APIAction::GotClosed(core.boss.mood);
    assert(events =~= seq![Event::API(told)]);
    // the embedder
    lemma_run_begins(engine, events, steps, last);
    lemma_machine_step(engine, events[0], steps[0].after, steps[0].out);
    lemma_actions_of_queue(events[0], Seq::empty());
    assert(seq![events[0]] + Seq::<Event>::empty() =~= seq![events[0]]);
    assert(api_actions(Seq::<Event>::empty()) =~= Seq::<APIAction>::empty());
    let (engine, events, steps) = (
        steps[0].after,
        events.drop_first() + steps[0].out,
        steps.drop_first(),
    );
    assert(events =~= Seq::<Event>::empty());
    lemma_run_ends(engine, steps, last);
    assert(actions =~= seq![told]);
}

/// When the server acknowledges that the mailbox is closed, in a session
/// that is closing and whose nameplate is done, the engine asks the
/// transport to close the WebSocket, and does nothing else: the embedder
/// is not yet told that the session is closed.
pub proof fn lemma_closed_mailbox_closes_socket(
    core: WormholeCore,
    socket: WSHandle,
    text: String,
    end: WormholeCore,
    actions: Seq<APIAction>,
)
    requires
        !core.is_closed(),
        core.rendezvous.heeds(IOEvent::WebSocketMessageReceived(socket, text)),
        json_parsed(text@) matches Some(doc) && frame_meaning(doc) == FrameMeaning::Closed,
        core.mailbox.state is Closing,
        core.terminator.closing,
        !core.terminator.nameplate_active,
        !core.terminator.stopping,
        !core.terminator.stopped,
        core.reported(IOEvent::WebSocketMessageReceived(socket, text), end, actions),
    ensures
        actions == Seq::<APIAction>::empty(),
        end.io.pending@ == core.io.pending@.push(IOAction::WebSocketClose(socket)),
        end.boss == core.boss,
        end.rendezvous.socket == socket,
        !end.terminator.stopped,
        end.mailbox.state is Closed,
        end.terminator.stopping,
        !end.terminator.mailbox_active,
        end.rendezvous.state == RendezvousState::Stopping,
        !end.is_closed(),
{
    let event = IOEvent::WebSocketMessageReceived(socket, text);
    let (rendezvous, events) = choose|rendezvous: RendezvousMachine, events: Seq<Event>|
        #![trigger core.rendezvous.processed_io(event, rendezvous, events)]
        core.rendezvous.processed_io(event, rendezvous, events) && runs(
            WormholeCore { rendezvous, ..core },
            events,
            end,
            actions,
        );
    let engine = WormholeCore { rendezvous, ..core };
    let last = WormholeCore { told: engine.told, ..end };
    let steps = choose|steps: Seq<Step>|
        #![trigger events_of(steps)]
        chained(engine, events, steps, last, Seq::empty()) && actions == api_actions(
            events_of(steps),
        );
    assert(events =~= seq![Event::Mailbox(MailboxEvent::RxClosed)]);
    // the mailbox machine
    lemma_run_begins(engine, events, steps, last);
    lemma_machine_step(engine, events[0], steps[0].after, steps[0].out);
    lemma_silent(events[0]);
    let (engine, events, steps) = (
        steps[0].after,
        events.drop_first() + steps[0].out,
        steps.drop_first(),
    );
    assert(events =~= seq![Event::Terminator(TerminatorEvent::MailboxDone)]);
    // the terminator
    lemma_run_begins(engine, events, steps, last);
    lemma_machine_step(engine, events[0], steps[0].after, steps[0].out);
    lemma_silent(events[0]);
    let (engine, events, steps) = (
        steps[0].after,
        events.drop_first() + steps[0].out,
        steps.drop_first(),
    );
    assert(events =~= seq![Event::Rendezvous(RendezvousEvent::Stop)]);
    // the rendezvous machine
    lemma_run_begins(engine, events, steps, last);
    lemma_machine_step(engine, events[0], steps[0].after, steps[0].out);
    lemma_silent(events[0]);
    let (engine, events, steps) = (
        steps[0].after,
        events.drop_first() + steps[0].out,
        steps.drop_first(),
    );
    let closing = IOAction::WebSocketClose(socket);
    assert(events =~= seq![Event::IO(closing)]);
    // the transport
    lemma_run_begins(engine, events, steps, last);
    lemma_transport_step(engine, closing, steps[0].after, steps[0].out);
    lemma_silent(events[0]);
    let (engine, events, steps) = (
        steps[0].after,
        events.drop_first() + steps[0].out,
        steps.drop_first(),
    );
    assert(events =~= Seq::<Event>::empty());
    lemma_run_ends(engine, steps, last);
    assert(actions =~= Seq::<APIAction>::empty());
}

/// When the server acknowledges that the nameplate is released, in a
/// session that is closing and whose mailbox is done, the engine asks the
/// transport to close the WebSocket, and does nothing else: the embedder
/// is not yet told that the session is closed.
pub proof fn lemma_released_nameplate_closes_socket(
    core: WormholeCore,
    socket: WSHandle,
    text: String,
    end: WormholeCore,
    actions: Seq<APIAction>,
)
    requires
        !core.is_closed(),
        core.rendezvous.heeds(IOEvent::WebSocketMessageReceived(socket, text)),
        json_parsed(text@) matches Some(doc) && frame_meaning(doc) == FrameMeaning::Released,
        core.nameplate.state is Releasing,
        core.terminator.closing,
        !core.terminator.mailbox_active,
        !core.terminator.stopping,
        !core.terminator.stopped,
        core.reported(IOEvent::WebSocketMessageReceived(socket, text), end, actions),
    ensures
        actions == Seq::<APIAction>::empty(),
        end.io.pending@ == core.io.pending@.push(IOAction::WebSocketClose(socket)),
        end.boss == core.boss,
        end.rendezvous.socket == socket,
        !end.terminator.stopped,
        end.nameplate.state is Released,
        end.terminator.stopping,
        !end.terminator.nameplate_active,
        end.rendezvous.state == RendezvousState::Stopping,
        !end.is_closed(),
{
    let event = IOEvent::WebSocketMessageReceived(socket, text);
    let (rendezvous, events) = choose|rendezvous: RendezvousMachine, events: Seq<Event>|
        #![trigger core.rendezvous.processed_io(event, rendezvous, events)]
        core.rendezvous.processed_io(event, rendezvous, events) && runs(
            WormholeCore { rendezvous, ..core },
            events,
            end,
            actions,
        );
    let engine = WormholeCore { rendezvous, ..core };
    let last = WormholeCore { told: engine.told, ..end };
    let steps = choose|steps: Seq<Step>|
        #![trigger events_of(steps)]
        chained(engine, events, steps, last, Seq::empty()) && actions == api_actions(
            events_of(steps),
        );
    assert(events =~= seq![Event::Nameplate(NameplateEvent::RxReleased)]);
    // the nameplate machine
    lemma_run_begins(engine, events, steps, last);
    lemma_machine_step(engine, events[0], steps[0].after, steps[0].out);
    lemma_silent(events[0]);
    let (engine, events, steps) = (
        steps[0].after,
        events.drop_first() + steps[0].out,
        steps.drop_first(),
    );
    assert(events =~= seq![Event::Terminator(TerminatorEvent::NameplateDone)]);
    // the terminator
    lemma_run_begins(engine, events, steps, last);
    lemma_machine_step(engine, events[0], steps[0].after, steps[0].out);
    lemma_silent(events[0]);
    let (engine, events, steps) = (
        steps[0].after,
        events.drop_first() + steps[0].out,
        steps.drop_first(),
    );
    assert(events =~= seq![Event::Rendezvous(RendezvousEvent::Stop)]);
    // the rendezvous machine
    lemma_run_begins(engine, events, steps, last);
    lemma_machine_step(engine, events[0], steps[0].after, steps[0].out);
    lemma_silent(events[0]);
    let (engine, events, steps) = (
        steps[0].after,
        events.drop_first() + steps[0].out,
        steps.drop_first(),
    );
    let closing = IOAction::WebSocketClose(socket);
    assert(events =~= seq![Event::IO(closing)]);
    // the transport
    lemma_run_begins(engine, events, steps, last);
    lemma_transport_step(engine, closing, steps[0].after, steps[0].out);
    lemma_silent(events[0]);
    let (engine, events, steps) = (
        steps[0].after,
        events.drop_first() + steps[0].out,
        steps.drop_first(),
    );
    assert(events =~= Seq::<Event>::empty());
    lemma_run_ends(engine, steps, last);
    assert(actions =~= Seq::<APIAction>::empty());
}

/// Whether each of `events` is an action for the embedder.
pub open spec fn all_actions(events: Seq<Event>) -> bool {
    forall|i: int| 0 <= i < events.len() ==> (#[trigger] events[i]) is API
}

/// A run on actions for the embedder alone has one step for each, which
/// changes nothing and emits nothing: the engine stays as it is.
pub proof fn lemma_actions_change_nothing(
    engine: WormholeCore,
    queue: Seq<Event>,
    steps: Seq<Step>,
    end: WormholeCore,
)
    requires
        chained(engine, queue, steps, end, Seq::empty()),
        all_actions(queue),
    ensures
        end == engine,
        api_actions(events_of(steps)) == api_actions(queue),
    decreases queue.len(),
{
    if queue.len() == 0 {
        assert(queue =~= Seq::<Event>::empty());
        lemma_run_ends(engine, steps, end);
    } else {
        lemma_run_begins(engine, queue, steps, end);
        lemma_machine_step(engine, queue[0], steps[0].after, steps[0].out);
        let rest = queue.drop_first();
        assert(rest + steps[0].out =~= rest);
        assert forall|i: int| 0 <= i < rest.len() implies (#[trigger] rest[i]) is API by {
            assert(rest[i] == queue[i + 1]);
        }
        lemma_actions_change_nothing(engine, rest, steps.drop_first(), end);
        assert(queue =~= seq![queue[0]] + rest);
        lemma_api_actions_concat(seq![queue[0]], rest);
    }
}

/// An engine that runs on actions for the embedder alone hands them on,
/// in their order, and does nothing else: no machine changes, and nothing
/// goes to the transport.
pub proof fn lemma_actions_pass_through(
    core: WormholeCore,
    events: Seq<Event>,
    end: WormholeCore,
    actions: Seq<APIAction>,
)
    requires
        runs(core, events, end, actions),
        all_actions(events),
    ensures
        actions == api_actions(events),
        actions.len() == events.len(),
        forall|i: int| 0 <= i < events.len() ==> #[trigger] events[i] == Event::API(actions[i]),
        end == (WormholeCore { told: end.told, ..core }),
        end.told@ == core.told@ + actions,
{
    let last = WormholeCore { told: core.told, ..end };
    let steps = choose|steps: Seq<Step>|
        #![trigger events_of(steps)]
        chained(core, events, steps, last, Seq::empty()) && actions == api_actions(
            events_of(steps),
        );
    lemma_actions_change_nothing(core, events, steps, last);
    lemma_actions_are_all(events);
}

/// The actions among events that are all actions are these, one for one.
pub proof fn lemma_actions_are_all(events: Seq<Event>)
    requires
        all_actions(events),
    ensures
        api_actions(events).len() == events.len(),
        forall|i: int|
            0 <= i < events.len() ==> #[trigger] events[i] == Event::API(api_actions(events)[i]),
    decreases events.len(),
{
    if events.len() > 0 {
        let front = events.drop_last();
        assert forall|i: int| 0 <= i < front.len() implies (#[trigger] front[i]) is API by {
            assert(front[i] == events[i]);
        }
        lemma_actions_are_all(front);
        assert(events.last() is API) by {
            assert(events[events.len() - 1] is API);
        }
        assert forall|i: int| 0 <= i < events.len() implies #[trigger] events[i] == Event::API(
            api_actions(events)[i],
        ) by {
            if i < front.len() {
                assert(events[i] == front[i]);
            }
        }
    }
}

/// In a session that is closing, once the server has acknowledged the
/// release of the nameplate and then the close of the mailbox, and the
/// WebSocket that the engine then closes is reported lost, the embedder
/// has been told that the session is closed: once, in the mood of the
/// close, and not before the WebSocket was lost.
pub proof fn lemma_acknowledged_close_ends_session(
    core: WormholeCore,
    socket: WSHandle,
    text: String,
    closing: WormholeCore,
    first: Seq<APIAction>,
    end: WormholeCore,
    second: Seq<APIAction>,
)
    requires
        core.boss.state == BossState::Closing,
        core.rendezvous.heeds(IOEvent::WebSocketMessageReceived(socket, text)),
        json_parsed(text@) matches Some(doc) && frame_meaning(doc) == FrameMeaning::Closed,
        core.mailbox.state is Closing,
        core.terminator.closing,
        !core.terminator.nameplate_active,
        !core.terminator.stopping,
        !core.terminator.stopped,
        core.reported(IOEvent::WebSocketMessageReceived(socket, text), closing, first),
        closing.reported(IOEvent::WebSocketConnectionLost(socket), end, second),
    ensures
        first == Seq::<APIAction>::empty(),
        second == seq![APIAction::GotClosed(core.boss.mood)],
        end.is_closed(),
{
    lemma_closed_mailbox_closes_socket(core, socket, text, closing, first);
    lemma_stopped_connection_ends_session(closing, socket, end, second);
}

} // verus!
