//! The machine at the root: it takes the embedder's requests, tells the
//! embedder what has happened, numbers the outbound messages, and turns
//! errors into an orderly close.

use vstd::prelude::*;
use vstd::utf8::{decode_utf8, valid_utf8};
use crate::engine::api::{APIAction, APIEvent, Mood};
use crate::engine::events::{
    api_actions, below, quiet, rank, BossEvent, CodeEvent, Event, InputEvent, Phase,
    RendezvousEvent, SendEvent, TerminatorEvent,
};
use crate::json::{json_parsed, Json, JsonValue};
use crate::text::utf8_text;

verus! {

#[derive(Clone, Copy, Debug, PartialEq, Eq, Structural)]
pub enum BossState {
    Unstarted,
    /// Started; no code has been asked for.
    Empty,
    /// A code is being allocated or has been set.
    Coding,
    /// A code is being typed in.
    Inputting,
    /// The code is known; the peer has not been heard.
    Lonely,
    /// The peer has been heard under the right key.
    Happy,
    Closing,
    Closed,
}

#[derive(Clone, Copy, Debug, PartialEq, Eq, Structural)]
pub struct BossMachine {
    pub state: BossState,
    /// The mood that is reported when the session has closed.
    pub mood: Mood,
    /// The number of the next outbound message.
    pub next_phase: u64,
    /// The embedder has been told the code.
    pub code_reported: bool,
    /// The embedder has been told the verifier.
    pub verifier_reported: bool,
    /// The embedder has been told the peer's versions.
    pub versions_reported: bool,
    /// The number of times in a row that the connection was lost or could
    /// not be made, as far as a byte counts.
    pub failures: u8,
}

/// The number of failures in a row from which on the transport counts as
/// failing.
pub const REPEATED_FAILURES: u8 = 2;

/// Whether the embedder has been told the code.
pub open spec fn has_code(log: Seq<APIAction>) -> bool
    decreases log.len(),
{
    log.len() > 0 && (log.last() is GotCode || has_code(log.drop_last()))
}

/// Whether the embedder has been told the verifier.
pub open spec fn has_verifier(log: Seq<APIAction>) -> bool
    decreases log.len(),
{
    log.len() > 0 && (log.last() is GotVerifier || has_verifier(log.drop_last()))
}

/// Whether the embedder has been told the peer's versions.
pub open spec fn has_versions(log: Seq<APIAction>) -> bool
    decreases log.len(),
{
    log.len() > 0 && (log.last() is GotVersions || has_versions(log.drop_last()))
}

/// Whether the embedder has been told that the session is closed.
pub open spec fn has_closed(log: Seq<APIAction>) -> bool
    decreases log.len(),
{
    log.len() > 0 && (log.last() is GotClosed || has_closed(log.drop_last()))
}

/// Whether `action` may follow what the embedder has been told so far:
/// nothing follows the close; the code, the verifier and the versions are
/// told once each; the versions follow the verifier, and a message follows
/// the versions.
pub open spec fn may_follow(log: Seq<APIAction>, action: APIAction) -> bool {
    &&& !has_closed(log)
    &&& match action {
        APIAction::GotCode(_) => !has_code(log),
        APIAction::GotVerifier(_) => !has_verifier(log),
        APIAction::GotVersions(_) => has_verifier(log) && !has_versions(log),
        APIAction::GotMessage(_) => has_versions(log),
        _ => true,
    }
}

/// Whether what the embedder has been told is in order: each action may
/// follow those before it.
pub open spec fn in_order(log: Seq<APIAction>) -> bool
    decreases log.len(),
{
    log.len() == 0 || (in_order(log.drop_last()) && may_follow(log.drop_last(), log.last()))
}

/// The document of the peer's versions that the plaintext of a `version`
/// message holds: the member `app_versions` of the document that the
/// plaintext is the text of.
pub open spec fn versions_of(plaintext: Seq<u8>) -> Option<JsonValue> {
    if !valid_utf8(plaintext) {
        None
    } else {
        match json_parsed(decode_utf8(plaintext)) {
            Some(doc) => doc.member("app_versions"@),
            None => None,
        }
    }
}

/// Reads the peer's versions from the plaintext of a `version` message.
pub fn read_versions(plaintext: &[u8]) -> (versions: Option<Json>)
    ensures
        versions matches Some(doc) ==> versions_of(plaintext@) == Some(doc@),
        versions is None ==> versions_of(plaintext@) is None,
{
    let text = match utf8_text(plaintext) {
        Some(t) => t,
        None => {
            return None;
        },
    };
    match Json::parse(text.as_str()) {
        Some(doc) => doc.into_member("app_versions"),
        None => None,
    }
}

impl BossMachine {
    /// Whether the session is closing or closed.
    pub open spec fn winding_down(self) -> bool {
        self.state == BossState::Closing || self.state == BossState::Closed
    }

    /// Whether the code is known or on its way.
    pub open spec fn has_begun(self) -> bool {
        self.state == BossState::Coding || self.state == BossState::Inputting || self.state
            == BossState::Lonely || self.state == BossState::Happy
    }

    /// Whether the code is known.
    pub open spec fn engaged(self) -> bool {
        self.state == BossState::Lonely || self.state == BossState::Happy
    }

    /// The mood in which the session closes at the embedder's request:
    /// `errory` where the transport has failed repeatedly, else `happy`
    /// where the peer has been heard, else `lonely`.
    pub open spec fn parting_mood(self) -> Mood {
        if self.failures >= REPEATED_FAILURES {
            Mood::Errory
        } else if self.state == BossState::Happy {
            Mood::Happy
        } else {
            Mood::Lonely
        }
    }

    /// The machine that closes with the given mood.
    pub open spec fn closing_with(self, mood: Mood) -> BossMachine {
        BossMachine { state: BossState::Closing, mood, ..self }
    }

    /// Whether the embedder's request is one that the machine accepts in
    /// its state. A message can be sent once a code has been asked for,
    /// while numbers are left; everything else has its one state.
    pub open spec fn accepts(self, event: APIEvent) -> bool {
        match event {
            APIEvent::Start => self.state == BossState::Unstarted,
            APIEvent::AllocateCode(_) => self.state == BossState::Empty,
            APIEvent::InputCode => self.state == BossState::Empty,
            APIEvent::SetCode(_) => self.state == BossState::Empty,
            APIEvent::InputHelperRefreshNameplates => self.state == BossState::Inputting,
            APIEvent::InputHelperChooseNameplate(_) => self.state == BossState::Inputting,
            APIEvent::InputHelperChooseWords(_) => self.state == BossState::Inputting,
            APIEvent::Send(_) => self.has_begun() && self.next_phase < u64::MAX,
            APIEvent::Close => true,
        }
    }

    /// The machine after a request of the embedder.
    ///
    /// A request that is not accepted is a fatal error: the session closes
    /// with the mood `errory`. A request to close closes the session with
    /// the parting mood. A second request to close, while the session
    /// is closing, changes the mood to `errory`. A closed session changes
    /// no more.
    pub open spec fn next_api(self, event: APIEvent) -> BossMachine {
        if self.state == BossState::Closed {
            self
        } else if self.state == BossState::Closing {
            if event is Close {
                BossMachine { mood: Mood::Errory, ..self }
            } else {
                self
            }
        } else if !self.accepts(event) {
            self.closing_with(Mood::Errory)
        } else {
            match event {
                APIEvent::Start => BossMachine { state: BossState::Empty, ..self },
                APIEvent::AllocateCode(_) => BossMachine { state: BossState::Coding, ..self },
                APIEvent::SetCode(_) => BossMachine { state: BossState::Coding, ..self },
                APIEvent::InputCode => BossMachine { state: BossState::Inputting, ..self },
                APIEvent::Send(_) => BossMachine {
                    next_phase: (self.next_phase + 1) as u64,
                    ..self
                },
                APIEvent::Close => self.closing_with(self.parting_mood()),
                _ => self,
            }
        }
    }

    /// What the machine emits on a request of the embedder.
    pub open spec fn emits_api(self, event: APIEvent) -> Seq<Event> {
        if self.winding_down() {
            Seq::empty()
        } else if !self.accepts(event) {
            seq![Event::Terminator(TerminatorEvent::Close(Mood::Errory))]
        } else {
            match event {
                APIEvent::Start => seq![Event::Rendezvous(RendezvousEvent::Start)],
                APIEvent::AllocateCode(count) => seq![
                    Event::Code(CodeEvent::AllocateCode(count)),
                ],
                APIEvent::SetCode(code) => seq![Event::Code(CodeEvent::SetCode(code))],
                APIEvent::InputCode => seq![Event::Code(CodeEvent::InputCode)],
                APIEvent::InputHelperRefreshNameplates => seq![
                    Event::Input(InputEvent::RefreshNameplates),
                ],
                APIEvent::InputHelperChooseNameplate(nameplate) => seq![
                    Event::Input(InputEvent::ChooseNameplate(nameplate)),
                ],
                APIEvent::InputHelperChooseWords(words) => seq![
                    Event::Input(InputEvent::ChooseWords(words)),
                ],
                APIEvent::Send(plaintext) => seq![
                    Event::Send(SendEvent::Send(Phase::Message(self.next_phase), plaintext)),
                ],
                APIEvent::Close => seq![
                    Event::Terminator(
                        TerminatorEvent::Close(self.next_api(event).mood),
                    ),
                ],
            }
        }
    }

    /// Whether the machine passes `event` of another machine on to the
    /// embedder.
    pub open spec fn reports(self, event: BossEvent) -> bool {
        !self.winding_down() && match event {
            BossEvent::RxWelcome(doc) => doc@.member("error"@) is None,
            BossEvent::GotCode(_) => (self.state == BossState::Coding || self.state
                == BossState::Inputting) && !self.code_reported,
            BossEvent::GotKey(_) => self.engaged(),
            BossEvent::GotVerifier(_) => self.engaged() && !self.verifier_reported,
            BossEvent::GotMessage(phase, plaintext) => self.engaged() && match phase {
                Phase::Pake => false,
                Phase::Version => self.verifier_reported && !self.versions_reported
                    && versions_of(plaintext@) is Some,
                Phase::Message(_) => self.versions_reported,
            },
            _ => false,
        }
    }

    /// The mood with which `event` of another machine closes the session,
    /// where it does: a welcome with an error is `unwelcome`, a fright is
    /// `scared`, and an error, or an event that has no place in the
    /// machine's state, is `errory`.
    pub open spec fn closes_with(self, event: BossEvent) -> Option<Mood> {
        if self.winding_down() || self.reports(event) {
            None
        } else {
            match event {
                BossEvent::RxWelcome(_) => Some(Mood::Unwelcome),
                BossEvent::Scared => Some(Mood::Scared),
                BossEvent::Happy => None,
                BossEvent::Closed => None,
                BossEvent::Connected => None,
                BossEvent::Lost => None,
                _ => Some(Mood::Errory),
            }
        }
    }

    /// The machine after an event of another machine.
    pub open spec fn next(self, event: BossEvent) -> BossMachine {
        if self.state == BossState::Closed {
            self
        } else if self.state == BossState::Closing {
            if event is Closed {
                BossMachine { state: BossState::Closed, ..self }
            } else {
                self
            }
        } else if self.reports(event) {
            match event {
                BossEvent::GotCode(_) => BossMachine {
                    state: BossState::Lonely,
                    code_reported: true,
                    ..self
                },
                BossEvent::GotVerifier(_) => BossMachine { verifier_reported: true, ..self },
                BossEvent::GotMessage(Phase::Version, _) => BossMachine {
                    versions_reported: true,
                    ..self
                },
                _ => self,
            }
        } else {
            match self.closes_with(event) {
                Some(mood) => self.closing_with(mood),
                None => match event {
                    BossEvent::Happy => if self.state == BossState::Lonely {
                        BossMachine { state: BossState::Happy, ..self }
                    } else {
                        self
                    },
                    BossEvent::Connected => BossMachine { failures: 0, ..self },
                    BossEvent::Lost => BossMachine {
                        failures: if self.failures == u8::MAX {
                            u8::MAX
                        } else {
                            (self.failures + 1) as u8
                        },
                        ..self
                    },
                    _ => self,
                },
            }
        }
    }

    /// Whether `out` is what the machine emits on an event of another
    /// machine: what it reports goes to the embedder, what closes the
    /// session goes to the terminator with the mood, and when the
    /// terminator is done the embedder is told that the session is closed,
    /// and in which mood.
    pub open spec fn emitted(self, event: BossEvent, out: Seq<Event>) -> bool {
        if self.state == BossState::Closed {
            out == Seq::<Event>::empty()
        } else if self.state == BossState::Closing {
            if event is Closed {
                out == seq![Event::API(APIAction::GotClosed(self.mood))]
            } else {
                out == Seq::<Event>::empty()
            }
        } else if self.reports(event) {
            match event {
                BossEvent::RxWelcome(doc) => out == seq![Event::API(APIAction::GotWelcome(doc))],
                BossEvent::GotCode(code) => out == seq![Event::API(APIAction::GotCode(code))],
                BossEvent::GotKey(key) => out == seq![Event::API(APIAction::GotUnverifiedKey(key))],
                BossEvent::GotVerifier(verifier) => out == seq![
                    Event::API(APIAction::GotVerifier(verifier)),
                ],
                BossEvent::GotMessage(Phase::Version, plaintext) => out.len() == 1 && (
                out[0] matches Event::API(APIAction::GotVersions(doc)) && Some(doc@) == versions_of(
                    plaintext@,
                )),
                BossEvent::GotMessage(_, plaintext) => out == seq![
                    Event::API(APIAction::GotMessage(plaintext)),
                ],
                _ => out == Seq::<Event>::empty(),
            }
        } else {
            match self.closes_with(event) {
                Some(mood) => out == seq![Event::Terminator(TerminatorEvent::Close(mood))],
                None => out == Seq::<Event>::empty(),
            }
        }
    }

    /// The machine of a session that has not started.
    pub open spec fn new_machine() -> BossMachine {
        BossMachine {
            state: BossState::Unstarted,
            mood: Mood::Lonely,
            next_phase: 0,
            code_reported: false,
            verifier_reported: false,
            versions_reported: false,
            failures: 0,
        }
    }

    /// Whether the machine's record of what the embedder has been told
    /// agrees with `log`, and `log` is in order.
    pub open spec fn accounts_for(self, log: Seq<APIAction>) -> bool {
        &&& in_order(log)
        &&& has_code(log) == self.code_reported
        &&& has_verifier(log) == self.verifier_reported
        &&& has_versions(log) == self.versions_reported
        &&& has_closed(log) == (self.state == BossState::Closed)
    }

    /// A machine for a session that has not started.
    pub fn new() -> (machine: BossMachine)
        ensures
            machine == BossMachine::new_machine(),
            machine.accounts_for(Seq::empty()),
    {
        BossMachine {
            state: BossState::Unstarted,
            mood: Mood::Lonely,
            next_phase: 0,
            code_reported: false,
            verifier_reported: false,
            versions_reported: false,
            failures: 0,
        }
    }

    fn close_with(&mut self, mood: Mood, out: &mut Vec<Event>)
        requires
            old(out)@.len() == 0,
        ensures
            *final(self) == old(self).closing_with(mood),
            final(out)@ == seq![Event::Terminator(TerminatorEvent::Close(mood))],
    {
        self.state = BossState::Closing;
        self.mood = mood;
        out.push(Event::Terminator(TerminatorEvent::Close(mood)));
        assert(out@ =~= seq![Event::Terminator(TerminatorEvent::Close(mood))]);
    }

    /// Processes a request of the embedder.
    pub fn process_api(&mut self, event: APIEvent) -> (out: Vec<Event>)
        ensures
            *final(self) == old(self).next_api(event),
            out@ == old(self).emits_api(event),
            quiet(out@),
            forall|log: Seq<APIAction>| #[trigger]
                old(self).accounts_for(log) ==> final(self).accounts_for(log),
    {
        let mut out: Vec<Event> = Vec::new();
        match self.state {
            BossState::Closed => {
                return out;
            },
            BossState::Closing => {
                if let APIEvent::Close = event {
                    self.mood = Mood::Errory;
                }
                return out;
            },
            _ => {},
        }
        let state = self.state;
        let begun = state == BossState::Coding || state == BossState::Inputting || state
            == BossState::Lonely || state == BossState::Happy;
        match event {
            APIEvent::Start => {
                if state == BossState::Unstarted {
                    self.state = BossState::Empty;
                    out.push(Event::Rendezvous(RendezvousEvent::Start));
                } else {
                    self.close_with(Mood::Errory, &mut out);
                }
            },
            APIEvent::AllocateCode(count) => {
                if state == BossState::Empty {
                    self.state = BossState::Coding;
                    out.push(Event::Code(CodeEvent::AllocateCode(count)));
                } else {
                    self.close_with(Mood::Errory, &mut out);
                }
            },
            APIEvent::SetCode(code) => {
                if state == BossState::Empty {
                    self.state = BossState::Coding;
                    out.push(Event::Code(CodeEvent::SetCode(code)));
                } else {
                    self.close_with(Mood::Errory, &mut out);
                }
            },
            APIEvent::InputCode => {
                if state == BossState::Empty {
                    self.state = BossState::Inputting;
                    out.push(Event::Code(CodeEvent::InputCode));
                } else {
                    self.close_with(Mood::Errory, &mut out);
                }
            },
            APIEvent::InputHelperRefreshNameplates => {
                if state == BossState::Inputting {
                    out.push(Event::Input(InputEvent::RefreshNameplates));
                } else {
                    self.close_with(Mood::Errory, &mut out);
                }
            },
            APIEvent::InputHelperChooseNameplate(nameplate) => {
                if state == BossState::Inputting {
                    out.push(Event::Input(InputEvent::ChooseNameplate(nameplate)));
                } else {
                    self.close_with(Mood::Errory, &mut out);
                }
            },
            APIEvent::InputHelperChooseWords(words) => {
                if state == BossState::Inputting {
                    out.push(Event::Input(InputEvent::ChooseWords(words)));
                } else {
                    self.close_with(Mood::Errory, &mut out);
                }
            },
            APIEvent::Send(plaintext) => {
                if begun && self.next_phase < u64::MAX {
                    out.push(
                        Event::Send(SendEvent::Send(Phase::Message(self.next_phase), plaintext)),
                    );
                    self.next_phase = self.next_phase + 1;
                } else {
                    self.close_with(Mood::Errory, &mut out);
                }
            },
            APIEvent::Close => {
                let mood = if self.failures >= REPEATED_FAILURES {
                    Mood::Errory
                } else if state == BossState::Happy {
                    Mood::Happy
                } else {
                    Mood::Lonely
                };
                self.close_with(mood, &mut out);
            },
        }
        assert(out@ =~= old(self).emits_api(event));
        out
    }

    /// Whether `after` and `out` are the machine and what it has emitted
    /// once it has processed `event`.
    pub open spec fn processed(
        self,
        event: BossEvent,
        after: BossMachine,
        out: Seq<Event>,
    ) -> bool {
        &&& after == self.next(event)
        &&& self.emitted(event, out)
    }

    /// Processes an event of another machine.
    ///
    /// Whatever the embedder had been told in order before, it has been
    /// told in order with what this event adds.
    pub fn process(&mut self, event: BossEvent) -> (out: Vec<Event>)
        ensures
            old(self).processed(event, *final(self), out@),
            below(out@, rank(Event::Boss(event))),
            forall|log: Seq<APIAction>| #[trigger]
                old(self).accounts_for(log) ==> final(self).accounts_for(log + api_actions(out@)),
    {
        let mut out: Vec<Event> = Vec::new();
        let ghost none = Seq::<Event>::empty();
        proof {
            assert(api_actions(none) =~= Seq::<APIAction>::empty());
            assert forall|log: Seq<APIAction>| log + Seq::<APIAction>::empty() =~= log by {}
        }
        match self.state {
            BossState::Closed => {
                return out;
            },
            BossState::Closing => {
                if let BossEvent::Closed = event {
                    self.state = BossState::Closed;
                    out.push(Event::API(APIAction::GotClosed(self.mood)));
                    proof {
                        lemma_one_action(out@, APIAction::GotClosed(self.mood));
                        lemma_told(APIAction::GotClosed(self.mood));
                    }
                }
                return out;
            },
            _ => {},
        }
        let state = self.state;
        let engaged = state == BossState::Lonely || state == BossState::Happy;
        match event {
            BossEvent::RxWelcome(doc) => {
                if doc.member("error").is_none() {
                    out.push(Event::API(APIAction::GotWelcome(doc)));
                    proof {
                        lemma_one_action(out@, APIAction::GotWelcome(doc));
                        lemma_told(APIAction::GotWelcome(doc));
                    }
                } else {
                    self.close_with(Mood::Unwelcome, &mut out);
                    proof {
                        lemma_no_action(out@);
                    }
                }
            },
            BossEvent::RxError => {
                self.close_with(Mood::Errory, &mut out);
                proof {
                    lemma_no_action(out@);
                }
            },
            BossEvent::Error => {
                self.close_with(Mood::Errory, &mut out);
                proof {
                    lemma_no_action(out@);
                }
            },
            BossEvent::Scared => {
                self.close_with(Mood::Scared, &mut out);
                proof {
                    lemma_no_action(out@);
                }
            },
            BossEvent::Closed => {},
            BossEvent::Connected => {
                self.failures = 0;
            },
            BossEvent::Lost => {
                if self.failures < u8::MAX {
                    self.failures = self.failures + 1;
                }
            },
            BossEvent::Happy => {
                if state == BossState::Lonely {
                    self.state = BossState::Happy;
                }
            },
            BossEvent::GotCode(code) => {
                if (state == BossState::Coding || state == BossState::Inputting)
                    && !self.code_reported {
                    self.state = BossState::Lonely;
                    self.code_reported = true;
                    out.push(Event::API(APIAction::GotCode(code)));
                    proof {
                        lemma_one_action(out@, APIAction::GotCode(code));
                        lemma_told(APIAction::GotCode(code));
                    }
                } else {
                    self.close_with(Mood::Errory, &mut out);
                    proof {
                        lemma_no_action(out@);
                    }
                }
            },
            BossEvent::GotKey(key) => {
                if engaged {
                    out.push(Event::API(APIAction::GotUnverifiedKey(key)));
                    proof {
                        lemma_one_action(out@, APIAction::GotUnverifiedKey(key));
                        lemma_told(APIAction::GotUnverifiedKey(key));
                    }
                } else {
                    self.close_with(Mood::Errory, &mut out);
                    proof {
                        lemma_no_action(out@);
                    }
                }
            },
            BossEvent::GotVerifier(verifier) => {
                if engaged && !self.verifier_reported {
                    self.verifier_reported = true;
                    out.push(Event::API(APIAction::GotVerifier(verifier)));
                    proof {
                        lemma_one_action(out@, APIAction::GotVerifier(verifier));
                        lemma_told(APIAction::GotVerifier(verifier));
                    }
                } else {
                    self.close_with(Mood::Errory, &mut out);
                    proof {
                        lemma_no_action(out@);
                    }
                }
            },
            BossEvent::GotMessage(phase, plaintext) => {
                match phase {
                    Phase::Version => {
                        let versions = if engaged && self.verifier_reported
                            && !self.versions_reported {
                            read_versions(plaintext.as_slice())
                        } else {
                            None
                        };
                        match versions {
                            Some(doc) => {
                                self.versions_reported = true;
                                out.push(Event::API(APIAction::GotVersions(doc)));
                                proof {
                                    lemma_one_action(out@, APIAction::GotVersions(doc));
                                    lemma_told(APIAction::GotVersions(doc));
                                }
                            },
                            None => {
                                self.close_with(Mood::Errory, &mut out);
                                proof {
                                    lemma_no_action(out@);
                                }
                            },
                        }
                    },
                    Phase::Message(_) => {
                        if engaged && self.versions_reported {
                            out.push(Event::API(APIAction::GotMessage(plaintext)));
                            proof {
                                lemma_one_action(out@, APIAction::GotMessage(plaintext));
                                lemma_told(APIAction::GotMessage(plaintext));
                            }
                        } else {
                            self.close_with(Mood::Errory, &mut out);
                            proof {
                                lemma_no_action(out@);
                            }
                        }
                    },
                    Phase::Pake => {
                        self.close_with(Mood::Errory, &mut out);
                        proof {
                            lemma_no_action(out@);
                        }
                    },
                }
            },
        }
        out
    }
}

/// A single event that is an action for the embedder holds that action.
pub proof fn lemma_one_action(out: Seq<Event>, action: APIAction)
    requires
        out.len() == 1,
        out[0] == Event::API(action),
    ensures
        out == seq![Event::API(action)],
        api_actions(out) == seq![action],
{
    assert(out =~= seq![Event::API(action)]);
    assert(out.drop_last() =~= Seq::<Event>::empty());
    assert(api_actions(out.drop_last()) =~= Seq::<APIAction>::empty());
    assert(api_actions(out) =~= seq![action]);
}

/// A single event for the terminator holds no action for the embedder.
pub proof fn lemma_no_action(out: Seq<Event>)
    requires
        out.len() == 1,
        out[0] is Terminator,
    ensures
        api_actions(out) == Seq::<APIAction>::empty(),
{
    assert(out.drop_last() =~= Seq::<Event>::empty());
    assert(api_actions(out.drop_last()) =~= Seq::<APIAction>::empty());
}

/// What the embedder has been told after one more action.
pub proof fn lemma_told(action: APIAction)
    ensures
        forall|log: Seq<APIAction>| #[trigger]
            (log + seq![action]) == log.push(action),
        forall|log: Seq<APIAction>| #[trigger]
            log.push(action).drop_last() == log,
        forall|log: Seq<APIAction>| #[trigger]
            log.push(action).last() == action,
{
    assert forall|log: Seq<APIAction>| #[trigger] (log + seq![action]) == log.push(action) by {
        assert(log + seq![action] =~= log.push(action));
    }
    assert forall|log: Seq<APIAction>| #[trigger] log.push(action).drop_last() == log by {
        assert(log.push(action).drop_last() =~= log);
    }
}

} // verus!
