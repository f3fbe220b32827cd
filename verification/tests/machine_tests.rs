use magic_wormhole::engine::allocator::{AllocatorMachine, AllocatorState};
use magic_wormhole::engine::api::{APIAction, APIEvent, IOAction, IOEvent, Mood, TimerHandle, WSHandle};
use magic_wormhole::engine::boss::{read_versions, BossMachine, BossState};
use magic_wormhole::engine::code::{CodeMachine, CodeState};
use magic_wormhole::engine::events::{
    AllocatorEvent, BossEvent, Code, CodeEvent, Event, InputEvent, Key, KeyEvent, ListerEvent,
    MailboxEvent, Nameplate, NameplateEvent, OrderEvent, Phase, ReceiveEvent, RendezvousEvent,
    SendEvent, TerminatorEvent, TimingLogEvent,
};
use magic_wormhole::engine::input::{InputMachine, InputState};
use magic_wormhole::engine::key::{
    conclude_exchange, decrypt_data, derive_phase_key, derive_verifier, encrypt_data,
    encrypt_data_with, pake_body, pake_payload, phase_name, versions_message, KeyMachine,
    KeyState,
};
use magic_wormhole::engine::lister::ListerMachine;
use magic_wormhole::engine::mailbox::{MailboxMachine, MailboxState};
use magic_wormhole::engine::messages::{bind_frame, frame_events, parse_phase, request_frame};
use magic_wormhole::engine::nameplate::{NameplateMachine, NameplateState};
use magic_wormhole::engine::order::{OrderMachine, OrderState};
use magic_wormhole::engine::receive::{ReceiveMachine, ReceiveState};
use magic_wormhole::engine::rendezvous::{RendezvousMachine, RendezvousState, RECONNECT_DELAY};
use magic_wormhole::engine::send::{SendMachine, SendState};
use magic_wormhole::engine::terminator::TerminatorMachine;
use magic_wormhole::engine::timing::Timing;
use magic_wormhole::io::WormholeIO;
use magic_wormhole::json::Json;
use sha2::{Digest, Sha256};

fn np(text: &str) -> Nameplate {
    Nameplate(text.to_string())
}

fn shown(events: &[Event]) -> Vec<String> {
    events.iter().map(describe).collect()
}

fn describe(event: &Event) -> String {
    match event {
        Event::API(a) => format!("API {:?}", a),
        Event::IO(a) => format!("IO {:?}", a),
        Event::Allocator(AllocatorEvent::Allocate(n)) => format!("A Allocate {}", n),
        Event::Allocator(AllocatorEvent::Connected) => "A Connected".to_string(),
        Event::Allocator(AllocatorEvent::Lost) => "A Lost".to_string(),
        Event::Allocator(AllocatorEvent::RxAllocated(n)) => format!("A RxAllocated {}", n.0),
        Event::Boss(BossEvent::Connected) => "B Connected".to_string(),
        Event::Boss(BossEvent::Lost) => "B Lost".to_string(),
        Event::Boss(BossEvent::RxWelcome(d)) => format!("B RxWelcome {}", d.render()),
        Event::Boss(BossEvent::RxError) => "B RxError".to_string(),
        Event::Boss(BossEvent::Error) => "B Error".to_string(),
        Event::Boss(BossEvent::Closed) => "B Closed".to_string(),
        Event::Boss(BossEvent::GotCode(c)) => format!("B GotCode {}", c.0),
        Event::Boss(BossEvent::GotKey(k)) => format!("B GotKey {}", hex::encode(&k.0)),
        Event::Boss(BossEvent::Scared) => "B Scared".to_string(),
        Event::Boss(BossEvent::Happy) => "B Happy".to_string(),
        Event::Boss(BossEvent::GotVerifier(v)) => format!("B GotVerifier {}", hex::encode(v)),
        Event::Boss(BossEvent::GotMessage(p, m)) => format!("B GotMessage {:?} {}", p, hex::encode(m)),
        Event::Code(CodeEvent::AllocateCode(n)) => format!("C AllocateCode {}", n),
        Event::Code(CodeEvent::InputCode) => "C InputCode".to_string(),
        Event::Code(CodeEvent::SetCode(c)) => format!("C SetCode {}", c.0),
        Event::Code(CodeEvent::Allocated(n, c)) => format!("C Allocated {} {}", n.0, c.0),
        Event::Code(CodeEvent::GotNameplate(n)) => format!("C GotNameplate {}", n.0),
        Event::Code(CodeEvent::FinishedInput(c)) => format!("C FinishedInput {}", c.0),
        Event::Input(InputEvent::Start) => "I Start".to_string(),
        Event::Input(InputEvent::GotNameplates(n)) => format!("I GotNameplates {}", n.len()),
        Event::Input(InputEvent::GotWordlist) => "I GotWordlist".to_string(),
        Event::Input(InputEvent::RefreshNameplates) => "I RefreshNameplates".to_string(),
        Event::Input(InputEvent::ChooseNameplate(n)) => format!("I ChooseNameplate {}", n),
        Event::Input(InputEvent::ChooseWords(w)) => format!("I ChooseWords {}", w),
        Event::Key(KeyEvent::GotCode(c)) => format!("K GotCode {}", c.0),
        Event::Key(KeyEvent::GotPake(p)) => format!("K GotPake {}", hex::encode(p)),
        Event::Lister(ListerEvent::Connected) => "L Connected".to_string(),
        Event::Lister(ListerEvent::Lost) => "L Lost".to_string(),
        Event::Lister(ListerEvent::RxNameplates(n)) => format!("L RxNameplates {}", n.len()),
        Event::Lister(ListerEvent::Refresh) => "L Refresh".to_string(),
        Event::Mailbox(MailboxEvent::Connected) => "M Connected".to_string(),
        Event::Mailbox(MailboxEvent::Lost) => "M Lost".to_string(),
        Event::Mailbox(MailboxEvent::RxMessage(s, p, b)) => {
            format!("M RxMessage {} {:?} {}", s, p, hex::encode(b))
        }
        Event::Mailbox(MailboxEvent::RxClosed) => "M RxClosed".to_string(),
        Event::Mailbox(MailboxEvent::Close(m)) => format!("M Close {:?}", m),
        Event::Mailbox(MailboxEvent::GotMailbox(m)) => format!("M GotMailbox {}", m),
        Event::Mailbox(MailboxEvent::AddMessage(p, b)) => format!("M AddMessage {:?} {}", p, hex::encode(b)),
        Event::Nameplate(NameplateEvent::Connected) => "N Connected".to_string(),
        Event::Nameplate(NameplateEvent::Lost) => "N Lost".to_string(),
        Event::Nameplate(NameplateEvent::RxClaimed(m)) => format!("N RxClaimed {}", m),
        Event::Nameplate(NameplateEvent::RxReleased) => "N RxReleased".to_string(),
        Event::Nameplate(NameplateEvent::SetNameplate(n)) => format!("N SetNameplate {}", n.0),
        Event::Nameplate(NameplateEvent::Release) => "N Release".to_string(),
        Event::Nameplate(NameplateEvent::Close) => "N Close".to_string(),
        Event::Order(OrderEvent::GotMessage(s, p, b)) => format!("O GotMessage {} {:?} {}", s, p, hex::encode(b)),
        Event::Receive(ReceiveEvent::GotMessage(s, p, b)) => {
            format!("R GotMessage {} {:?} {}", s, p, hex::encode(b))
        }
        Event::Receive(ReceiveEvent::GotKey(k)) => format!("R GotKey {}", hex::encode(&k.0)),
        Event::Rendezvous(RendezvousEvent::Start) => "RC Start".to_string(),
        Event::Rendezvous(RendezvousEvent::TxOpen(m)) => format!("RC TxOpen {}", m),
        Event::Rendezvous(RendezvousEvent::TxAdd(p, b)) => format!("RC TxAdd {:?} {}", p, b),
        Event::Rendezvous(RendezvousEvent::TxClose(m, mood)) => format!("RC TxClose {} {:?}", m, mood),
        Event::Rendezvous(RendezvousEvent::Stop) => "RC Stop".to_string(),
        Event::Rendezvous(RendezvousEvent::TxClaim(n)) => format!("RC TxClaim {}", n.0),
        Event::Rendezvous(RendezvousEvent::TxRelease(n)) => format!("RC TxRelease {}", n.0),
        Event::Rendezvous(RendezvousEvent::TxAllocate) => "RC TxAllocate".to_string(),
        Event::Rendezvous(RendezvousEvent::TxList) => "RC TxList".to_string(),
        Event::Send(SendEvent::Send(p, b)) => format!("S Send {:?} {}", p, hex::encode(b)),
        Event::Send(SendEvent::GotVerifiedKey(k)) => format!("S GotVerifiedKey {}", hex::encode(&k.0)),
        Event::Terminator(TerminatorEvent::Close(m)) => format!("T Close {:?}", m),
        Event::Terminator(TerminatorEvent::MailboxDone) => "T MailboxDone".to_string(),
        Event::Terminator(TerminatorEvent::NameplateDone) => "T NameplateDone".to_string(),
        Event::Terminator(TerminatorEvent::Stopped) => "T Stopped".to_string(),
        Event::Timing(t) => format!("Timing {}", t.name),
    }
}

fn none() -> Vec<String> {
    Vec::new()
}

#[test]
fn moods_have_their_names() {
    assert_eq!(Mood::Happy.to_string(), "happy");
    assert_eq!(Mood::Lonely.to_string(), "lonely");
    assert_eq!(Mood::Errory.to_string(), "errory");
    assert_eq!(Mood::Scared.to_string(), "scared");
    assert_eq!(Mood::Unwelcome.to_string(), "unwelcome");
}

#[test]
fn terminator_stops_when_all_is_done() {
    let mut t = TerminatorMachine::new();
    assert_eq!(shown(&t.process(TerminatorEvent::MailboxDone)), none());
    assert_eq!(
        shown(&t.process(TerminatorEvent::Close(Mood::Happy))),
        vec!["N Close", "M Close Happy"]
    );
    assert_eq!(shown(&t.process(TerminatorEvent::Close(Mood::Lonely))), none());
    assert_eq!(shown(&t.process(TerminatorEvent::Stopped)), none());
    assert!(!t.stopped);
    assert_eq!(shown(&t.process(TerminatorEvent::NameplateDone)), vec!["RC Stop"]);
    assert_eq!(shown(&t.process(TerminatorEvent::NameplateDone)), none());
    assert_eq!(shown(&t.process(TerminatorEvent::Stopped)), vec!["B Closed"]);
    assert!(t.stopped);
    assert_eq!(shown(&t.process(TerminatorEvent::Stopped)), none());
}

#[test]
fn terminator_closes_at_once_when_nothing_is_active() {
    let mut t = TerminatorMachine::new();
    t.process(TerminatorEvent::NameplateDone);
    t.process(TerminatorEvent::MailboxDone);
    assert_eq!(
        shown(&t.process(TerminatorEvent::Close(Mood::Scared))),
        vec!["N Close", "M Close Scared", "RC Stop"]
    );
}

#[test]
fn lister_asks_when_connected_and_wanted() {
    let mut l = ListerMachine::new();
    assert_eq!(shown(&l.process(ListerEvent::Refresh)), none());
    assert_eq!(shown(&l.process(ListerEvent::Connected)), vec!["RC TxList"]);
    assert_eq!(shown(&l.process(ListerEvent::Refresh)), vec!["RC TxList"]);
    assert_eq!(
        shown(&l.process(ListerEvent::RxNameplates(vec![np("1"), np("2")]))),
        vec!["I GotNameplates 2"]
    );
    assert!(!l.wanting);
    assert_eq!(shown(&l.process(ListerEvent::Lost)), none());
    assert_eq!(shown(&l.process(ListerEvent::Connected)), none());
}

#[test]
fn nameplate_is_claimed_and_released() {
    let mut n = NameplateMachine::new();
    assert_eq!(shown(&n.process(NameplateEvent::SetNameplate(np("4")))), none());
    assert_eq!(shown(&n.process(NameplateEvent::Connected)), vec!["RC TxClaim 4"]);
    assert_eq!(shown(&n.process(NameplateEvent::Lost)), none());
    assert_eq!(shown(&n.process(NameplateEvent::Connected)), vec!["RC TxClaim 4"]);
    assert_eq!(
        shown(&n.process(NameplateEvent::RxClaimed("mb".to_string()))),
        vec!["I GotWordlist", "M GotMailbox mb"]
    );
    assert!(matches!(n.state, NameplateState::Claimed(_)));
    assert_eq!(shown(&n.process(NameplateEvent::Release)), vec!["RC TxRelease 4"]);
    assert_eq!(shown(&n.process(NameplateEvent::Release)), none());
    assert_eq!(shown(&n.process(NameplateEvent::Lost)), none());
    assert_eq!(shown(&n.process(NameplateEvent::Connected)), vec!["RC TxRelease 4"]);
    assert_eq!(shown(&n.process(NameplateEvent::RxReleased)), vec!["T NameplateDone"]);
    assert!(matches!(n.state, NameplateState::Released));
    assert_eq!(shown(&n.process(NameplateEvent::Close)), none());
    assert_eq!(shown(&n.process(NameplateEvent::RxReleased)), none());
    let mut fresh = NameplateMachine::new();
    assert_eq!(shown(&fresh.process(NameplateEvent::RxReleased)), vec!["B Error"]);
    assert!(matches!(fresh.state, NameplateState::Unclaimed));
}

#[test]
fn nameplate_close_is_done_locally_without_a_connection() {
    let mut n = NameplateMachine::new();
    assert_eq!(shown(&n.process(NameplateEvent::Close)), vec!["T NameplateDone"]);

    let mut n = NameplateMachine::new();
    n.process(NameplateEvent::SetNameplate(np("4")));
    assert_eq!(shown(&n.process(NameplateEvent::Close)), vec!["T NameplateDone"]);

    let mut n = NameplateMachine::new();
    n.process(NameplateEvent::Connected);
    assert_eq!(shown(&n.process(NameplateEvent::SetNameplate(np("4")))), vec!["RC TxClaim 4"]);
    assert_eq!(shown(&n.process(NameplateEvent::Close)), vec!["RC TxRelease 4"]);
    assert_eq!(shown(&n.process(NameplateEvent::RxClaimed("mb".to_string()))), none());
    assert_eq!(shown(&n.process(NameplateEvent::Lost)), vec!["T NameplateDone"]);
    assert!(matches!(n.state, NameplateState::Released));
}

#[test]
fn nameplate_reports_what_has_no_place() {
    let mut n = NameplateMachine::new();
    assert_eq!(shown(&n.process(NameplateEvent::RxClaimed("mb".to_string()))), vec!["B Error"]);
    n.process(NameplateEvent::SetNameplate(np("4")));
    assert_eq!(shown(&n.process(NameplateEvent::SetNameplate(np("5")))), vec!["B Error"]);
    assert!(matches!(&n.state, NameplateState::Claiming(n) if n.0 == "4"));
}

#[test]
fn code_machine_follows_each_path() {
    let mut c = CodeMachine::new();
    assert_eq!(
        shown(&c.process(CodeEvent::SetCode(Code("4-purple-sausages".to_string())))),
        vec!["N SetNameplate 4", "B GotCode 4-purple-sausages", "K GotCode 4-purple-sausages"]
    );
    assert_eq!(c.state, CodeState::Known);
    assert_eq!(shown(&c.process(CodeEvent::InputCode)), vec!["B Error"]);

    let mut c = CodeMachine::new();
    assert_eq!(shown(&c.process(CodeEvent::AllocateCode(3))), vec!["A Allocate 3"]);
    assert_eq!(
        shown(&c.process(CodeEvent::Allocated(np("9"), Code("9-a-b-c".to_string())))),
        vec!["N SetNameplate 9", "B GotCode 9-a-b-c", "K GotCode 9-a-b-c"]
    );

    let mut c = CodeMachine::new();
    assert_eq!(shown(&c.process(CodeEvent::InputCode)), vec!["I Start"]);
    assert_eq!(shown(&c.process(CodeEvent::FinishedInput(Code("x".to_string())))), vec!["B Error"]);
    assert_eq!(c.state, CodeState::InputtingNameplate);
    assert_eq!(shown(&c.process(CodeEvent::GotNameplate(np("5")))), vec!["N SetNameplate 5"]);
    assert_eq!(
        shown(&c.process(CodeEvent::FinishedInput(Code("5-x-y".to_string())))),
        vec!["B GotCode 5-x-y", "K GotCode 5-x-y"]
    );
    assert_eq!(c.state, CodeState::Known);
}

#[test]
fn allocator_makes_a_code_of_the_nameplate() {
    let mut a = AllocatorMachine::new();
    assert_eq!(shown(&a.process(AllocatorEvent::RxAllocated(np("4")))), vec!["B Error"]);
    assert_eq!(shown(&a.process(AllocatorEvent::Allocate(2))), none());
    assert_eq!(shown(&a.process(AllocatorEvent::Allocate(2))), vec!["B Error"]);
    assert_eq!(shown(&a.process(AllocatorEvent::Connected)), vec!["RC TxAllocate"]);
    assert_eq!(shown(&a.process(AllocatorEvent::Lost)), none());
    assert_eq!(shown(&a.process(AllocatorEvent::Connected)), vec!["RC TxAllocate"]);
    let out = a.process(AllocatorEvent::RxAllocated(np("17")));
    assert_eq!(out.len(), 1);
    match &out[0] {
        Event::Code(CodeEvent::Allocated(nameplate, code)) => {
            assert_eq!(nameplate, &np("17"));
            let parts: Vec<&str> = code.0.split('-').collect();
            assert_eq!(parts.len(), 3);
            assert_eq!(parts[0], "17");
        }
        other => panic!("unexpected {}", describe(other)),
    }
    assert_eq!(a.state, AllocatorState::Done);
    assert_eq!(shown(&a.process(AllocatorEvent::Connected)), none());

    let mut a = AllocatorMachine::new();
    a.process(AllocatorEvent::Connected);
    assert_eq!(shown(&a.process(AllocatorEvent::Allocate(0))), vec!["RC TxAllocate"]);
    assert_eq!(shown(&a.process(AllocatorEvent::RxAllocated(np("3")))), vec!["C Allocated 3 3"]);
}

#[test]
fn input_machine_builds_the_code() {
    let mut i = InputMachine::new();
    assert_eq!(shown(&i.process(InputEvent::ChooseNameplate("4".to_string()))), vec!["B Error"]);
    assert_eq!(shown(&i.process(InputEvent::RefreshNameplates)), vec!["B Error"]);
    assert_eq!(shown(&i.process(InputEvent::Start)), vec!["L Refresh"]);
    assert_eq!(shown(&i.process(InputEvent::Start)), vec!["B Error"]);
    assert_eq!(shown(&i.process(InputEvent::RefreshNameplates)), vec!["L Refresh"]);
    assert_eq!(shown(&i.process(InputEvent::GotNameplates(vec![np("4"), np("4-2"), np("40")]))), none());
    assert_eq!(
        i.get_nameplate_completions("4"),
        Ok(vec!["4-".to_string(), "40-".to_string()])
    );
    assert_eq!(shown(&i.process(InputEvent::ChooseWords("a-b".to_string()))), vec!["B Error"]);
    assert_eq!(
        shown(&i.process(InputEvent::ChooseNameplate("4".to_string()))),
        vec!["C GotNameplate 4"]
    );
    assert!(matches!(&i.state, InputState::TypingCode(n) if n.0 == "4"));
    assert!(!i.has_wordlist);
    assert_eq!(shown(&i.process(InputEvent::GotWordlist)), none());
    assert!(i.has_wordlist);
    assert_eq!(
        shown(&i.process(InputEvent::ChooseWords("a-b".to_string()))),
        vec!["C FinishedInput 4-a-b"]
    );
    assert!(matches!(i.state, InputState::Done));
}

#[test]
fn order_holds_messages_until_their_turn() {
    let mut o = OrderMachine::new();
    let msg = |phase: Phase, body: u8| OrderEvent::GotMessage("peer".to_string(), phase, vec![body]);
    assert_eq!(shown(&o.process(msg(Phase::Message(0), 1))), none());
    assert_eq!(shown(&o.process(msg(Phase::Version, 2))), none());
    assert_eq!(shown(&o.process(msg(Phase::Version, 9))), none());
    assert_eq!(shown(&o.process(msg(Phase::Message(1), 3))), none());
    assert_eq!(
        shown(&o.process(msg(Phase::Pake, 4))),
        vec![
            "K GotPake 04",
            "R GotMessage peer Version 02",
            "R GotMessage peer Message(0) 01",
            "R GotMessage peer Message(1) 03",
        ]
    );
    assert_eq!(o.state, OrderState::Flowing);
    assert_eq!(o.held.len(), 0);
    assert_eq!(shown(&o.process(msg(Phase::Message(2), 5))), vec!["R GotMessage peer Message(2) 05"]);
    assert_eq!(shown(&o.process(msg(Phase::Pake, 6))), none());
}

#[test]
fn order_waits_for_the_versions_after_the_pake() {
    let mut o = OrderMachine::new();
    let msg = |phase: Phase, body: u8| OrderEvent::GotMessage("peer".to_string(), phase, vec![body]);
    assert_eq!(shown(&o.process(msg(Phase::Pake, 1))), vec!["K GotPake 01"]);
    assert_eq!(o.state, OrderState::AwaitVersion);
    assert_eq!(shown(&o.process(msg(Phase::Message(0), 2))), none());
    assert_eq!(shown(&o.process(msg(Phase::Pake, 7))), none());
    assert_eq!(
        shown(&o.process(msg(Phase::Version, 3))),
        vec!["R GotMessage peer Version 03", "R GotMessage peer Message(0) 02"]
    );
    assert_eq!(shown(&o.process(msg(Phase::Version, 4))), vec!["R GotMessage peer Version 04"]);
}

#[test]
fn mailbox_opens_posts_and_closes() {
    let mut m = MailboxMachine::new("me");
    assert_eq!(shown(&m.process(MailboxEvent::AddMessage(Phase::Pake, vec![0xab]))), none());
    assert_eq!(shown(&m.process(MailboxEvent::GotMailbox("mb".to_string()))), none());
    assert!(matches!(&m.state, MailboxState::Known(mb) if mb == "mb"));
    assert_eq!(
        shown(&m.process(MailboxEvent::Connected)),
        vec!["RC TxOpen mb", "RC TxAdd Pake ab"]
    );
    assert_eq!(
        shown(&m.process(MailboxEvent::AddMessage(Phase::Version, vec![1, 2]))),
        vec!["RC TxAdd Version 0102"]
    );
    assert_eq!(shown(&m.process(MailboxEvent::GotMailbox("other".to_string()))), vec!["B Error"]);
    // The echo of this side's message takes it out of what is pending.
    assert_eq!(shown(&m.process(MailboxEvent::RxMessage("me".to_string(), Phase::Pake, vec![0xab]))), none());
    assert_eq!(m.pending.len(), 1);
    assert_eq!(m.pending[0].phase, Phase::Version);
    assert_eq!(
        shown(&m.process(MailboxEvent::RxMessage("peer".to_string(), Phase::Pake, vec![7]))),
        vec!["N Release", "O GotMessage peer Pake 07"]
    );
    assert_eq!(shown(&m.process(MailboxEvent::RxMessage("peer".to_string(), Phase::Pake, vec![7]))), none());
    assert_eq!(
        shown(&m.process(MailboxEvent::RxMessage("peer".to_string(), Phase::Version, vec![8]))),
        vec!["O GotMessage peer Version 08"]
    );
    assert_eq!(shown(&m.process(MailboxEvent::Lost)), none());
    assert_eq!(
        shown(&m.process(MailboxEvent::Connected)),
        vec!["RC TxOpen mb", "RC TxAdd Version 0102"]
    );
    assert_eq!(shown(&m.process(MailboxEvent::RxClosed)), vec!["B Error"]);
    assert_eq!(shown(&m.process(MailboxEvent::Close(Mood::Happy))), vec!["RC TxClose mb Happy"]);
    assert_eq!(
        shown(&m.process(MailboxEvent::RxMessage("peer".to_string(), Phase::Message(5), vec![1]))),
        none()
    );
    assert_eq!(shown(&m.process(MailboxEvent::Close(Mood::Lonely))), none());
    assert_eq!(shown(&m.process(MailboxEvent::AddMessage(Phase::Message(0), vec![1]))), none());
    assert_eq!(m.pending.len(), 1);
    assert_eq!(shown(&m.process(MailboxEvent::RxClosed)), vec!["T MailboxDone"]);
    assert!(matches!(m.state, MailboxState::Closed));
    assert_eq!(shown(&m.process(MailboxEvent::Close(Mood::Happy))), none());
    assert_eq!(shown(&m.process(MailboxEvent::RxClosed)), none());
    assert_eq!(
        shown(&m.process(MailboxEvent::RxMessage("peer".to_string(), Phase::Message(6), vec![1]))),
        none()
    );
}

#[test]
fn mailbox_objects_to_messages_for_a_mailbox_that_is_not_open() {
    let mut m = MailboxMachine::new("me");
    assert_eq!(
        shown(&m.process(MailboxEvent::RxMessage("peer".to_string(), Phase::Pake, vec![1]))),
        vec!["B Error"]
    );
    assert_eq!(shown(&m.process(MailboxEvent::RxClosed)), vec!["B Error"]);
    m.process(MailboxEvent::GotMailbox("mb".to_string()));
    assert_eq!(
        shown(&m.process(MailboxEvent::RxMessage("me".to_string(), Phase::Pake, vec![1]))),
        vec!["B Error"]
    );
    assert!(matches!(m.state, MailboxState::Known(_)));
}

#[test]
fn mailbox_close_is_done_locally_without_an_open_mailbox() {
    let mut m = MailboxMachine::new("me");
    assert_eq!(shown(&m.process(MailboxEvent::Close(Mood::Lonely))), vec!["T MailboxDone"]);

    let mut m = MailboxMachine::new("me");
    m.process(MailboxEvent::GotMailbox("mb".to_string()));
    assert_eq!(shown(&m.process(MailboxEvent::Close(Mood::Lonely))), vec!["T MailboxDone"]);

    let mut m = MailboxMachine::new("me");
    m.process(MailboxEvent::Connected);
    assert_eq!(shown(&m.process(MailboxEvent::GotMailbox("mb".to_string()))), vec!["RC TxOpen mb"]);
    assert_eq!(shown(&m.process(MailboxEvent::Close(Mood::Errory))), vec!["RC TxClose mb Errory"]);
    assert_eq!(shown(&m.process(MailboxEvent::Lost)), vec!["T MailboxDone"]);
    assert!(matches!(m.state, MailboxState::Closed));
}

#[test]
fn send_machine_seals_when_it_has_the_key() {
    let key = vec![3u8; 32];
    let mut s = SendMachine::new("aa");
    assert_eq!(shown(&s.process(SendEvent::Send(Phase::Message(0), b"one".to_vec()))), none());
    assert_eq!(shown(&s.process(SendEvent::Send(Phase::Message(1), b"two".to_vec()))), none());
    let out = s.process(SendEvent::GotVerifiedKey(Key(key.clone())));
    assert!(matches!(&s.state, SendState::HasKey(k) if k.0 == key));
    let more = s.process(SendEvent::Send(Phase::Message(2), b"three".to_vec()));
    assert_eq!(shown(&s.process(SendEvent::GotVerifiedKey(Key(vec![9u8; 32])))), none());
    assert!(matches!(&s.state, SendState::HasKey(k) if k.0 == key));
    let all: Vec<&Event> = out.iter().chain(more.iter()).collect();
    assert_eq!(all.len(), 3);
    for (index, (event, plaintext)) in all.iter().zip(["one", "two", "three"]).enumerate() {
        match event {
            Event::Mailbox(MailboxEvent::AddMessage(phase, body)) => {
                assert_eq!(*phase, Phase::Message(index as u64));
                let phase_key = derive_phase_key("aa", &key, *phase);
                assert_eq!(decrypt_data(&phase_key, body), Some(plaintext.as_bytes().to_vec()));
                assert_eq!(decrypt_data(&derive_phase_key("bb", &key, *phase), body), None);
            }
            other => panic!("unexpected {}", describe(other)),
        }
    }
}

#[test]
fn receive_machine_verifies_the_key_with_the_first_message() {
    let key = vec![4u8; 32];
    let sealed = |phase: Phase, text: &[u8]| {
        encrypt_data(&derive_phase_key("peer", &key, phase), text)
    };
    let mut r = ReceiveMachine::new();
    assert_eq!(
        shown(&r.process(ReceiveEvent::GotMessage("peer".to_string(), Phase::Version, vec![1]))),
        vec!["B Error"]
    );
    assert_eq!(shown(&r.process(ReceiveEvent::GotKey(Key(key.clone())))), none());
    assert!(matches!(r.state, ReceiveState::Unverified(_)));
    assert_eq!(shown(&r.process(ReceiveEvent::GotKey(Key(vec![0u8; 32])))), none());
    assert_eq!(
        shown(&r.process(ReceiveEvent::GotMessage(
            "peer".to_string(),
            Phase::Version,
            sealed(Phase::Version, b"v")
        ))),
        vec![
            format!("S GotVerifiedKey {}", hex::encode(&key)),
            "B Happy".to_string(),
            "B GotMessage Version 76".to_string(),
        ]
    );
    assert!(matches!(&r.state, ReceiveState::Verified(k) if k.0 == key));
    assert_eq!(
        shown(&r.process(ReceiveEvent::GotMessage(
            "peer".to_string(),
            Phase::Message(0),
            sealed(Phase::Message(0), b"m")
        ))),
        vec!["B GotMessage Message(0) 6d"]
    );
    // A message sealed for another phase does not open.
    assert_eq!(
        shown(&r.process(ReceiveEvent::GotMessage(
            "peer".to_string(),
            Phase::Message(1),
            sealed(Phase::Message(0), b"m")
        ))),
        vec!["B Scared"]
    );
    assert!(matches!(r.state, ReceiveState::Scared));
    assert_eq!(
        shown(&r.process(ReceiveEvent::GotMessage(
            "peer".to_string(),
            Phase::Message(0),
            sealed(Phase::Message(0), b"m")
        ))),
        none()
    );
}

#[test]
fn receive_machine_is_scared_by_a_first_message_that_does_not_open() {
    let mut r = ReceiveMachine::new();
    r.process(ReceiveEvent::GotKey(Key(vec![4u8; 32])));
    assert_eq!(
        shown(&r.process(ReceiveEvent::GotMessage("peer".to_string(), Phase::Version, vec![0; 50]))),
        vec!["B Scared"]
    );
    let mut r = ReceiveMachine::new();
    r.process(ReceiveEvent::GotKey(Key(vec![4u8; 32])));
    assert_eq!(
        shown(&r.process(ReceiveEvent::GotMessage("peer".to_string(), Phase::Version, vec![0; 5]))),
        vec!["B Scared"]
    );
}

#[test]
fn key_machines_of_two_sides_agree() {
    let mut a = KeyMachine::new("app", "aaaa");
    let mut b = KeyMachine::new("app", "bbbb");
    let from_a = a.process(KeyEvent::GotCode(Code("4-x-y".to_string())));
    assert!(matches!(a.state, KeyState::HasCode(_)));
    let body_a = match &from_a[..] {
        [Event::Mailbox(MailboxEvent::AddMessage(Phase::Pake, body))] => body.clone(),
        _ => panic!("unexpected {:?}", shown(&from_a)),
    };
    assert_eq!(pake_payload(&body_a).unwrap().len(), 33);
    // The peer's message comes before the code on side b.
    assert_eq!(shown(&b.process(KeyEvent::GotPake(body_a.clone()))), none());
    assert!(matches!(b.state, KeyState::HasPake(_)));
    let from_b = b.process(KeyEvent::GotCode(Code("4-x-y".to_string())));
    assert!(matches!(b.state, KeyState::Done));
    assert_eq!(from_b.len(), 5);
    let body_b = match &from_b[0] {
        Event::Mailbox(MailboxEvent::AddMessage(Phase::Pake, body)) => body.clone(),
        other => panic!("unexpected {}", describe(other)),
    };
    let key_b = match &from_b[1] {
        Event::Boss(BossEvent::GotKey(key)) => key.0.clone(),
        other => panic!("unexpected {}", describe(other)),
    };
    assert_eq!(key_b.len(), 32);
    assert_eq!(describe(&from_b[2]), format!("B GotVerifier {}", hex::encode(Sha256::digest(&key_b))));
    match &from_b[3] {
        Event::Mailbox(MailboxEvent::AddMessage(Phase::Version, body)) => {
            let phase_key = derive_phase_key("bbbb", &key_b, Phase::Version);
            assert_eq!(decrypt_data(&phase_key, body), Some(br#"{"app_versions":{}}"#.to_vec()));
        }
        other => panic!("unexpected {}", describe(other)),
    }
    assert_eq!(describe(&from_b[4]), format!("R GotKey {}", hex::encode(&key_b)));

    let finish_a = a.process(KeyEvent::GotPake(body_b));
    assert!(matches!(a.state, KeyState::Done));
    assert_eq!(finish_a.len(), 4);
    assert_eq!(describe(&finish_a[0]), format!("B GotKey {}", hex::encode(&key_b)));
    assert_eq!(shown(&a.process(KeyEvent::GotPake(body_a))), none());
    assert_eq!(shown(&a.process(KeyEvent::GotCode(Code("4-x-y".to_string())))), vec!["B Error"]);
}

#[test]
fn the_outcome_of_the_exchange_is_a_fright_or_the_key() {
    let mut out = vec![Event::Boss(BossEvent::Happy)];
    conclude_exchange("aaaa", None, &mut out);
    assert_eq!(shown(&out), vec!["B Happy", "B Scared"]);

    let key = vec![7u8; 32];
    let mut out = Vec::new();
    conclude_exchange("aaaa", Some(key.clone()), &mut out);
    assert_eq!(out.len(), 4);
    assert_eq!(describe(&out[0]), format!("B GotKey {}", hex::encode(&key)));
    assert_eq!(describe(&out[1]), format!("B GotVerifier {}", hex::encode(Sha256::digest(&key))));
    match &out[2] {
        Event::Mailbox(MailboxEvent::AddMessage(Phase::Version, body)) => {
            let phase_key = derive_phase_key("aaaa", &key, Phase::Version);
            assert_eq!(decrypt_data(&phase_key, body), Some(br#"{"app_versions":{}}"#.to_vec()));
        }
        other => panic!("unexpected {}", describe(other)),
    }
    assert_eq!(describe(&out[3]), format!("R GotKey {}", hex::encode(&key)));
}

#[test]
fn key_machine_objects_to_a_bad_pake_message() {
    for (body, outcome) in [
        (b"junk".to_vec(), "B Error"),
        (br#"{"pake_v1":"zz"}"#.to_vec(), "B Error"),
        (br#"{"pake_v2":"00"}"#.to_vec(), "B Error"),
        (vec![0xff], "B Error"),
        (br#"{"pake_v1":"00"}"#.to_vec(), "B Scared"),
        (pake_body(&[0x53; 32]), "B Scared"),
        (pake_body(&[0x41; 33]), "B Scared"),
    ] {
        let mut k = KeyMachine::new("app", "aaaa");
        k.process(KeyEvent::GotCode(Code("4-x-y".to_string())));
        assert_eq!(shown(&k.process(KeyEvent::GotPake(body))), vec![outcome]);
        assert!(matches!(k.state, KeyState::Done));
    }
}

#[test]
fn pake_messages_travel_as_hex_in_json() {
    assert_eq!(pake_body(&[0xab, 0x01, 0xff]), br#"{"pake_v1":"ab01ff"}"#.to_vec());
    assert_eq!(pake_body(&[]), br#"{"pake_v1":""}"#.to_vec());
    assert_eq!(pake_payload(br#"{"pake_v1":"ab01ff"}"#), Some(vec![0xab, 0x01, 0xff]));
    assert_eq!(pake_payload(br#"{"pake_v1":"AB01Ff"}"#), Some(vec![0xab, 0x01, 0xff]));
    assert_eq!(pake_payload(br#"{"pake_v1":""}"#), Some(vec![]));
    assert_eq!(pake_payload(br#"{"pake_v1":"abc"}"#), None);
    assert_eq!(pake_payload(br#"{"pake_v1":"ag"}"#), None);
    assert_eq!(pake_payload("{\"pake_v1\":\"\u{e9}\u{e9}\"}".as_bytes()), None);
    assert_eq!(pake_payload(br#"{"pake_v1":7}"#), None);
    let all: Vec<u8> = (0..=255).collect();
    assert_eq!(pake_payload(&pake_body(&all)), Some(all.clone()));
    assert_eq!(
        String::from_utf8(pake_body(&all)).unwrap(),
        format!(r#"{{"pake_v1":"{}"}}"#, hex::encode(&all))
    );
}

#[test]
fn phase_keys_and_verifier_are_derived_from_their_purposes() {
    let key = vec![8u8; 32];
    let mut expected = [0u8; 32];
    hkdf::Hkdf::<Sha256>::new(None, &key).expand(b"abcd:phase:version", &mut expected).unwrap();
    assert_eq!(derive_phase_key("abcd", &key, Phase::Version), expected.to_vec());
    hkdf::Hkdf::<Sha256>::new(None, &key).expand(b"abcd:phase:17", &mut expected).unwrap();
    assert_eq!(derive_phase_key("abcd", &key, Phase::Message(17)), expected.to_vec());
    hkdf::Hkdf::<Sha256>::new(None, &key).expand(b"abcd:phase:pake", &mut expected).unwrap();
    assert_eq!(derive_phase_key("abcd", &key, Phase::Pake), expected.to_vec());
    assert_eq!(derive_verifier(&key), Sha256::digest(&key).to_vec());
    assert_eq!(
        hex::encode(derive_verifier(b"")),
        "e3b0c44298fc1c149afbf4c8996fb92427ae41e4649b934ca495991b7852b855"
    );
}

#[test]
fn mailbox_messages_are_the_nonce_and_the_box() {
    let key = vec![5u8; 32];
    let nonce = [6u8; 24];
    let body = encrypt_data_with(&key, &nonce, b"plain");
    assert_eq!(&body[..24], &nonce[..]);
    let sodium_nonce = sodiumoxide::crypto::secretbox::Nonce::from_slice(&nonce).unwrap();
    let sodium_key = sodiumoxide::crypto::secretbox::Key::from_slice(&key).unwrap();
    assert_eq!(
        &body[24..],
        &sodiumoxide::crypto::secretbox::seal(b"plain", &sodium_nonce, &sodium_key)[..]
    );
    assert_eq!(decrypt_data(&key, &body), Some(b"plain".to_vec()));
    assert_eq!(decrypt_data(&vec![0u8; 32], &body), None);
    assert_eq!(decrypt_data(&key, &body[..23]), None);
    assert_eq!(decrypt_data(&key, &body[..30]), None);
    let random = encrypt_data(&key, b"plain");
    assert_eq!(random.len(), 24 + 5 + 16);
    assert_eq!(decrypt_data(&key, &random), Some(b"plain".to_vec()));
    assert_ne!(encrypt_data(&key, b"plain"), random);
}

#[test]
fn phases_have_their_labels() {
    assert_eq!(phase_name(Phase::Pake), "pake");
    assert_eq!(phase_name(Phase::Version), "version");
    assert_eq!(phase_name(Phase::Message(0)), "0");
    assert_eq!(phase_name(Phase::Message(10)), "10");
    assert_eq!(phase_name(Phase::Message(u64::MAX)), "18446744073709551615");
    for (label, phase) in [
        ("pake", Some(Phase::Pake)),
        ("version", Some(Phase::Version)),
        ("0", Some(Phase::Message(0))),
        ("907", Some(Phase::Message(907))),
        ("18446744073709551615", Some(Phase::Message(u64::MAX))),
        ("18446744073709551616", None),
        ("00", None),
        ("01", None),
        ("+1", None),
        ("-1", None),
        ("", None),
        ("Pake", None),
        ("1a", None),
        ("\u{663}", None),
    ] {
        assert_eq!(parse_phase(label), phase, "{}", label);
    }
}

#[test]
fn versions_are_read_from_the_version_message() {
    assert_eq!(versions_message(), br#"{"app_versions":{}}"#.to_vec());
    assert_eq!(read_versions(br#"{"app_versions":{"a":1}}"#).unwrap().render(), r#"{"a":1}"#);
    assert_eq!(read_versions(br#"{"app_versions":null}"#), Some(Json::Null));
    assert_eq!(read_versions(br#"{"abilities":[]}"#), None);
    assert_eq!(read_versions(b"[]"), None);
    assert_eq!(read_versions(b"\xff"), None);
}

#[test]
fn requests_are_written_as_frames() {
    let frame = |event: RendezvousEvent, id: u64| request_frame(&event, id);
    assert_eq!(
        bind_frame("app", "ab12", 0),
        r#"{"appid":"app","id":"0","side":"ab12","type":"bind"}"#
    );
    assert_eq!(frame(RendezvousEvent::TxList, 1), Some(r#"{"id":"1","type":"list"}"#.to_string()));
    assert_eq!(
        frame(RendezvousEvent::TxAllocate, 2),
        Some(r#"{"id":"2","type":"allocate"}"#.to_string())
    );
    assert_eq!(
        frame(RendezvousEvent::TxClaim(np("4")), 3),
        Some(r#"{"id":"3","nameplate":"4","type":"claim"}"#.to_string())
    );
    assert_eq!(
        frame(RendezvousEvent::TxRelease(np("4")), 4),
        Some(r#"{"id":"4","nameplate":"4","type":"release"}"#.to_string())
    );
    assert_eq!(
        frame(RendezvousEvent::TxOpen("mb".to_string()), 5),
        Some(r#"{"id":"5","mailbox":"mb","type":"open"}"#.to_string())
    );
    assert_eq!(
        frame(RendezvousEvent::TxAdd(Phase::Message(12), "0aff".to_string()), 6),
        Some(r#"{"body":"0aff","id":"6","phase":"12","type":"add"}"#.to_string())
    );
    assert_eq!(
        frame(RendezvousEvent::TxAdd(Phase::Pake, "".to_string()), u64::MAX),
        Some(r#"{"body":"","id":"18446744073709551615","phase":"pake","type":"add"}"#.to_string())
    );
    assert_eq!(
        frame(RendezvousEvent::TxClose("mb".to_string(), Mood::Scared), 7),
        Some(r#"{"id":"7","mailbox":"mb","mood":"scared","type":"close"}"#.to_string())
    );
    assert_eq!(frame(RendezvousEvent::Start, 8), None);
    assert_eq!(frame(RendezvousEvent::Stop, 8), None);
}

#[test]
fn frames_of_the_server_go_to_their_machines() {
    let events = |text: &str| shown(&frame_events(Json::parse(text).unwrap()));
    assert_eq!(
        events(r#"{"type":"welcome","welcome":{"motd":"hi"},"server_tx":1.5}"#),
        vec![r#"B RxWelcome {"motd":"hi"}"#]
    );
    assert_eq!(
        events(r#"{"type":"nameplates","nameplates":[{"id":"1"},{"id":"22"}]}"#),
        vec!["L RxNameplates 2"]
    );
    assert_eq!(events(r#"{"type":"nameplates","nameplates":[]}"#), vec!["L RxNameplates 0"]);
    assert_eq!(events(r#"{"type":"allocated","nameplate":"8"}"#), vec!["A RxAllocated 8"]);
    assert_eq!(events(r#"{"type":"claimed","mailbox":"abc"}"#), vec!["N RxClaimed abc"]);
    assert_eq!(events(r#"{"type":"released"}"#), vec!["N RxReleased"]);
    assert_eq!(events(r#"{"type":"closed"}"#), vec!["M RxClosed"]);
    assert_eq!(events(r#"{"type":"error","error":"x"}"#), vec!["B RxError"]);
    assert_eq!(
        events(r#"{"type":"message","side":"s1","phase":"pake","body":"0AfF","id":"i"}"#),
        vec!["M RxMessage s1 Pake 0aff"]
    );
    assert_eq!(
        events(r#"{"type":"message","side":"s1","phase":"3","body":""}"#),
        vec!["M RxMessage s1 Message(3) "]
    );
    for text in [
        r#"{"type":"ack","id":"1"}"#,
        r#"{"type":"pong","pong":3}"#,
        r#"{"type":"mystery"}"#,
        r#"{"type":"message","side":"s1","phase":"03","body":"00"}"#,
        r#"{"type":"message","side":"s1","phase":"later","body":"00"}"#,
    ] {
        assert_eq!(events(text), none(), "{}", text);
    }
    for text in [
        r#"{}"#,
        r#"[]"#,
        r#""welcome""#,
        r#"{"type":7}"#,
        r#"{"type":"welcome"}"#,
        r#"{"type":"nameplates"}"#,
        r#"{"type":"nameplates","nameplates":{}}"#,
        r#"{"type":"nameplates","nameplates":[{"id":1}]}"#,
        r#"{"type":"nameplates","nameplates":["1"]}"#,
        r#"{"type":"allocated"}"#,
        r#"{"type":"allocated","nameplate":4}"#,
        r#"{"type":"claimed"}"#,
        r#"{"type":"message","phase":"0","body":"00"}"#,
        r#"{"type":"message","side":"s","body":"00"}"#,
        r#"{"type":"message","side":"s","phase":"0"}"#,
        r#"{"type":"message","side":"s","phase":"0","body":"0"}"#,
        r#"{"type":"message","side":"s","phase":"0","body":"xy"}"#,
        r#"{"type":"message","side":"s","phase":"nope","body":"xy"}"#,
    ] {
        assert_eq!(events(text), vec!["B Error"], "{}", text);
    }
}

#[test]
fn rendezvous_connects_binds_and_reconnects() {
    let mut r = RendezvousMachine::new("app", "ws://server", "abcd");
    assert_eq!(shown(&r.process(RendezvousEvent::TxList)), none());
    assert_eq!(
        shown(&r.process_io(IOEvent::WebSocketConnectionMade(WSHandle { id: 0 }))),
        none()
    );
    assert_eq!(
        r.process(RendezvousEvent::Start),
        vec![Event::IO(IOAction::WebSocketOpen(WSHandle { id: 1 }, "ws://server".to_string()))]
    );
    assert_eq!(r.state, RendezvousState::Connecting);
    assert_eq!(shown(&r.process(RendezvousEvent::Start)), none());
    assert_eq!(shown(&r.process(RendezvousEvent::TxList)), none());
    let made = r.process_io(IOEvent::WebSocketConnectionMade(WSHandle { id: 1 }));
    assert_eq!(
        made[0],
        Event::IO(IOAction::WebSocketSendMessage(
            WSHandle { id: 1 },
            r#"{"appid":"app","id":"0","side":"abcd","type":"bind"}"#.to_string()
        ))
    );
    assert_eq!(
        shown(&made[1..]),
        vec!["N Connected", "M Connected", "L Connected", "A Connected", "B Connected"]
    );
    assert_eq!(
        r.process(RendezvousEvent::TxAllocate),
        vec![Event::IO(IOAction::WebSocketSendMessage(
            WSHandle { id: 1 },
            r#"{"id":"1","type":"allocate"}"#.to_string()
        ))]
    );
    assert_eq!(r.next_frame, 2);
    assert_eq!(
        shown(&r.process_io(IOEvent::WebSocketMessageReceived(WSHandle { id: 1 }, "{".to_string()))),
        vec!["B Error"]
    );
    assert_eq!(
        shown(&r.process_io(IOEvent::WebSocketMessageReceived(
            WSHandle { id: 1 },
            r#"{"type":"released"}"#.to_string()
        ))),
        vec!["N RxReleased"]
    );
    assert_eq!(shown(&r.process_io(IOEvent::WebSocketConnectionLost(WSHandle { id: 5 }))), none());
    let lost = r.process_io(IOEvent::WebSocketConnectionLost(WSHandle { id: 1 }));
    assert_eq!(lost[0], Event::IO(IOAction::StartTimer(TimerHandle { id: 1 }, 5)));
    assert_eq!(RECONNECT_DELAY, 5);
    assert_eq!(shown(&lost[1..]), vec!["N Lost", "M Lost", "L Lost", "A Lost", "B Lost"]);
    assert_eq!(r.state, RendezvousState::Waiting);
    assert_eq!(shown(&r.process(RendezvousEvent::TxList)), none());
    assert_eq!(shown(&r.process_io(IOEvent::TimerExpired(TimerHandle { id: 0 }))), none());
    assert_eq!(
        r.process_io(IOEvent::TimerExpired(TimerHandle { id: 1 })),
        vec![Event::IO(IOAction::WebSocketOpen(WSHandle { id: 2 }, "ws://server".to_string()))]
    );
    assert_eq!(r.state, RendezvousState::Connecting);
    assert_eq!(
        shown(&r.process_io(IOEvent::WebSocketConnectionMade(WSHandle { id: 1 }))),
        none()
    );
}

#[test]
fn rendezvous_stops_from_every_state() {
    let mut r = RendezvousMachine::new("app", "ws://server", "abcd");
    assert_eq!(shown(&r.process(RendezvousEvent::Stop)), vec!["T Stopped"]);
    assert_eq!(r.state, RendezvousState::Stopped);
    assert_eq!(shown(&r.process(RendezvousEvent::Stop)), none());
    assert_eq!(shown(&r.process(RendezvousEvent::Start)), none());

    let mut r = RendezvousMachine::new("app", "ws://server", "abcd");
    r.process(RendezvousEvent::Start);
    assert_eq!(
        r.process(RendezvousEvent::Stop),
        vec![Event::IO(IOAction::WebSocketClose(WSHandle { id: 1 }))]
    );
    assert_eq!(r.state, RendezvousState::Stopping);
    assert_eq!(
        shown(&r.process_io(IOEvent::WebSocketConnectionLost(WSHandle { id: 1 }))),
        vec!["T Stopped"]
    );
    assert_eq!(r.state, RendezvousState::Stopped);

    let mut r = RendezvousMachine::new("app", "ws://server", "abcd");
    r.process(RendezvousEvent::Start);
    r.process_io(IOEvent::WebSocketConnectionMade(WSHandle { id: 1 }));
    r.process_io(IOEvent::WebSocketConnectionLost(WSHandle { id: 1 }));
    let stop = r.process(RendezvousEvent::Stop);
    assert_eq!(stop[0], Event::IO(IOAction::CancelTimer(TimerHandle { id: 1 })));
    assert_eq!(shown(&stop[1..]), vec!["T Stopped"]);
    assert_eq!(shown(&r.process_io(IOEvent::TimerExpired(TimerHandle { id: 1 }))), none());
}

#[test]
fn boss_numbers_the_messages() {
    let mut b = BossMachine::new();
    assert_eq!(b.state, BossState::Unstarted);
    assert_eq!(shown(&b.process_api(APIEvent::Start)), vec!["RC Start"]);
    assert_eq!(
        shown(&b.process_api(APIEvent::SetCode(Code("4-a".to_string())))),
        vec!["C SetCode 4-a"]
    );
    assert_eq!(
        shown(&b.process_api(APIEvent::Send(vec![1]))),
        vec!["S Send Message(0) 01"]
    );
    assert_eq!(
        shown(&b.process_api(APIEvent::Send(vec![2]))),
        vec!["S Send Message(1) 02"]
    );
    assert_eq!(b.next_phase, 2);
    b.next_phase = u64::MAX;
    assert_eq!(shown(&b.process_api(APIEvent::Send(vec![3]))), vec!["T Close Errory"]);
    assert_eq!(b.state, BossState::Closing);
    assert_eq!(shown(&b.process_api(APIEvent::Send(vec![4]))), none());
}

#[test]
fn boss_tells_the_embedder_in_order() {
    let mut b = BossMachine::new();
    b.process_api(APIEvent::Start);
    b.process_api(APIEvent::AllocateCode(2));
    assert_eq!(b.state, BossState::Coding);
    assert_eq!(
        b.process(BossEvent::GotCode(Code("4-a-b".to_string()))),
        vec![Event::API(APIAction::GotCode(Code("4-a-b".to_string())))]
    );
    assert_eq!(b.state, BossState::Lonely);
    assert_eq!(
        b.process(BossEvent::GotKey(Key(vec![1]))),
        vec![Event::API(APIAction::GotUnverifiedKey(Key(vec![1])))]
    );
    assert_eq!(
        b.process(BossEvent::GotVerifier(vec![2])),
        vec![Event::API(APIAction::GotVerifier(vec![2]))]
    );
    assert_eq!(shown(&b.process(BossEvent::Happy)), none());
    assert_eq!(b.state, BossState::Happy);
    assert_eq!(
        b.process(BossEvent::GotMessage(Phase::Version, br#"{"app_versions":{"x":"y"}}"#.to_vec())),
        vec![Event::API(APIAction::GotVersions(Json::Object(vec![(
            "x".to_string(),
            Json::text("y")
        )])))]
    );
    assert_eq!(
        b.process(BossEvent::GotMessage(Phase::Message(0), vec![9])),
        vec![Event::API(APIAction::GotMessage(vec![9]))]
    );
    assert_eq!(shown(&b.process(BossEvent::Closed)), none());
    assert_eq!(shown(&b.process_api(APIEvent::Close)), vec!["T Close Happy"]);
    assert_eq!(shown(&b.process(BossEvent::GotMessage(Phase::Message(1), vec![9]))), none());
    assert_eq!(
        b.process(BossEvent::Closed),
        vec![Event::API(APIAction::GotClosed(Mood::Happy))]
    );
    assert_eq!(b.state, BossState::Closed);
    assert_eq!(shown(&b.process(BossEvent::Closed)), none());
    assert_eq!(shown(&b.process(BossEvent::RxWelcome(Json::Null))), none());
}

#[test]
fn boss_refuses_what_comes_out_of_order() {
    let engaged = || {
        let mut b = BossMachine::new();
        b.process_api(APIEvent::Start);
        b.process_api(APIEvent::InputCode);
        b.process(BossEvent::GotCode(Code("4-a-b".to_string())));
        b
    };
    let mut b = engaged();
    assert_eq!(
        shown(&b.process(BossEvent::GotMessage(Phase::Message(0), vec![1]))),
        vec!["T Close Errory"]
    );
    let mut b = engaged();
    assert_eq!(
        shown(&b.process(BossEvent::GotMessage(Phase::Version, br#"{"app_versions":{}}"#.to_vec()))),
        vec!["T Close Errory"]
    );
    let mut b = engaged();
    b.process(BossEvent::GotVerifier(vec![1]));
    assert_eq!(shown(&b.process(BossEvent::GotVerifier(vec![1]))), vec!["T Close Errory"]);
    let mut b = engaged();
    b.process(BossEvent::GotVerifier(vec![1]));
    assert_eq!(
        shown(&b.process(BossEvent::GotMessage(Phase::Version, b"no json".to_vec()))),
        vec!["T Close Errory"]
    );
    let mut b = engaged();
    assert_eq!(shown(&b.process(BossEvent::GotCode(Code("x".to_string())))), vec!["T Close Errory"]);
    let mut b = engaged();
    assert_eq!(
        shown(&b.process(BossEvent::GotMessage(Phase::Pake, vec![]))),
        vec!["T Close Errory"]
    );
    let mut b = engaged();
    assert_eq!(shown(&b.process(BossEvent::Scared)), vec!["T Close Scared"]);
    assert_eq!(b.mood, Mood::Scared);
    assert_eq!(shown(&b.process(BossEvent::Error)), none());
    assert_eq!(shown(&b.process_api(APIEvent::Close)), none());
    assert_eq!(b.mood, Mood::Errory);
    let mut b = BossMachine::new();
    assert_eq!(shown(&b.process(BossEvent::GotKey(Key(vec![])))), vec!["T Close Errory"]);
    let mut b = BossMachine::new();
    assert_eq!(
        shown(&b.process(BossEvent::RxWelcome(Json::parse(r#"{"error":"go away"}"#).unwrap()))),
        vec!["T Close Unwelcome"]
    );
    let mut b = BossMachine::new();
    assert_eq!(shown(&b.process(BossEvent::RxError)), vec!["T Close Errory"]);
}

#[test]
fn boss_closes_errory_after_repeated_transport_failure() {
    let started = || {
        let mut b = BossMachine::new();
        b.process_api(APIEvent::Start);
        b
    };
    let mut b = started();
    assert_eq!(shown(&b.process(BossEvent::Lost)), none());
    assert_eq!(shown(&b.process_api(APIEvent::Close)), vec!["T Close Lonely"]);
    let mut b = started();
    b.process(BossEvent::Lost);
    b.process(BossEvent::Lost);
    assert_eq!(b.failures, 2);
    assert_eq!(shown(&b.process_api(APIEvent::Close)), vec!["T Close Errory"]);
    let mut b = started();
    b.process(BossEvent::Lost);
    b.process(BossEvent::Lost);
    b.process(BossEvent::Lost);
    assert_eq!(shown(&b.process(BossEvent::Connected)), none());
    assert_eq!(b.failures, 0);
    b.process(BossEvent::Lost);
    assert_eq!(shown(&b.process_api(APIEvent::Close)), vec!["T Close Lonely"]);
    let mut b = started();
    for _ in 0..300 {
        b.process(BossEvent::Lost);
    }
    assert_eq!(b.failures, 255);
    assert_eq!(b.state, BossState::Empty);
}

#[test]
fn transport_keeps_track_of_timers_and_sockets() {
    let mut io = WormholeIO::new();
    let t1 = TimerHandle { id: 1 };
    let t2 = TimerHandle { id: 2 };
    let s1 = WSHandle { id: 1 };
    io.process(IOAction::StartTimer(t1, 5));
    io.process(IOAction::StartTimer(t1, 5));
    io.process(IOAction::StartTimer(t2, 5));
    io.process(IOAction::WebSocketOpen(s1, "u".to_string()));
    io.process(IOAction::WebSocketSendMessage(s1, "m".to_string()));
    assert_eq!(io.timers, std::collections::HashSet::from([1, 2]));
    assert!(io.timer_is_live(t1));
    assert!(io.socket_is_open(s1));
    assert!(!io.socket_is_open(WSHandle { id: 2 }));
    io.process(IOAction::CancelTimer(t1));
    io.process(IOAction::CancelTimer(TimerHandle { id: 3 }));
    io.process(IOAction::WebSocketClose(s1));
    assert_eq!(io.timers, std::collections::HashSet::from([2]));
    assert!(!io.timer_is_live(t1));
    assert!(io.timer_is_live(t2));
    assert!(!io.socket_is_open(s1));
    let actions = io.take_actions();
    assert_eq!(actions.len(), 8);
    assert_eq!(actions[0], IOAction::StartTimer(t1, 5));
    assert_eq!(actions[7], IOAction::WebSocketClose(s1));
    assert_eq!(io.take_actions(), vec![]);
    assert_eq!(io.timers, std::collections::HashSet::from([2]));
}

#[test]
fn timing_log_keeps_the_notes_in_order() {
    let mut timing = Timing::new();
    timing.add(TimingLogEvent { name: "first".to_string() });
    timing.add(TimingLogEvent { name: "second".to_string() });
    let names: Vec<&str> = timing.log.iter().map(|n| n.name.as_str()).collect();
    assert_eq!(names, vec!["first", "second"]);
}
