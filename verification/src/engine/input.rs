//! The machine behind interactive entry of a code: it caches the
//! nameplates that the server lists, remembers the nameplate that was
//! chosen, and completes what is typed.

use vstd::prelude::*;
use crate::engine::api::InputHelperError;
use crate::engine::code::{lemma_first_dash, nameplate_text};
use crate::engine::events::{
    below, quiet, rank, BossEvent, Code, CodeEvent, Event, InputEvent, ListerEvent, Nameplate,
};
use crate::text::{chars_of, find_char, first_index_from, join3, push_chars, starts_with, text_of};
use crate::wordlist::{default_wordlist, texts_of, Wordlist};

verus! {

pub enum InputState {
    Idle,
    TypingNameplate,
    /// The nameplate is chosen; the words are being typed.
    TypingCode(Nameplate),
    Done,
}

pub struct InputMachine {
    pub state: InputState,
    /// The nameplate has been claimed, so words can be completed.
    pub has_wordlist: bool,
    /// The nameplates that the server listed last.
    pub nameplates: Vec<Nameplate>,
    pub wordlist: Wordlist,
}

/// Whether a text holds a dash.
pub open spec fn has_dash(text: Seq<char>) -> bool {
    first_index_from(text, '-', 0) is Some
}

/// Whether `completion` completes `prefix` to `nameplate`: it is the
/// nameplate and a dash, it begins with the prefix, and read as a code it
/// has this nameplate.
pub open spec fn completes(prefix: Seq<char>, nameplate: Seq<char>, completion: Seq<char>)
    -> bool {
    &&& completion == nameplate + seq!['-']
    &&& prefix.is_prefix_of(completion)
    &&& nameplate_text(completion) == nameplate
}

/// The completions of a prefix by the nameplates from index `from` on: for
/// each nameplate in turn that begins with the prefix and holds no dash,
/// the nameplate and a dash.
pub open spec fn nameplate_completions_from(
    nameplates: Seq<Nameplate>,
    prefix: Seq<char>,
    from: int,
) -> Seq<Seq<char>>
    decreases nameplates.len() - from,
{
    if from < 0 || from >= nameplates.len() {
        Seq::empty()
    } else if !has_dash(nameplates[from].0@) && prefix.is_prefix_of(nameplates[from].0@) {
        seq![nameplates[from].0@ + seq!['-']] + nameplate_completions_from(
            nameplates,
            prefix,
            from + 1,
        )
    } else {
        nameplate_completions_from(nameplates, prefix, from + 1)
    }
}

impl InputMachine {
    /// Whether `event` is one that the machine expects in its state.
    pub open spec fn expects(self, event: InputEvent) -> bool {
        match event {
            InputEvent::Start => self.state is Idle,
            InputEvent::GotNameplates(_) => true,
            InputEvent::GotWordlist => true,
            InputEvent::RefreshNameplates => self.state is TypingNameplate,
            InputEvent::ChooseNameplate(_) => self.state is TypingNameplate,
            InputEvent::ChooseWords(_) => self.state is TypingCode,
        }
    }

    /// The state after `event`; an event that is not expected changes
    /// nothing.
    pub open spec fn next_state(self, event: InputEvent) -> InputState {
        if !self.expects(event) {
            self.state
        } else {
            match event {
                InputEvent::Start => InputState::TypingNameplate,
                InputEvent::ChooseNameplate(nameplate) => InputState::TypingCode(
                    Nameplate(nameplate),
                ),
                InputEvent::ChooseWords(_) => InputState::Done,
                _ => self.state,
            }
        }
    }

    /// Whether `out` is what the machine emits on `event`.
    pub open spec fn emitted(self, event: InputEvent, out: Seq<Event>) -> bool {
        if !self.expects(event) {
            out == seq![Event::Boss(BossEvent::Error)]
        } else {
            match event {
                InputEvent::Start => out == seq![Event::Lister(ListerEvent::Refresh)],
                InputEvent::RefreshNameplates => out == seq![Event::Lister(ListerEvent::Refresh)],
                InputEvent::ChooseNameplate(nameplate) => out == seq![
                    Event::Code(CodeEvent::GotNameplate(Nameplate(nameplate))),
                ],
                InputEvent::ChooseWords(words) => {
                    &&& out.len() == 1
                    &&& out[0] matches Event::Code(CodeEvent::FinishedInput(code))
                        && self.state matches InputState::TypingCode(nameplate) && code.0@
                        == nameplate.0@ + "-"@ + words@
                },
                _ => out == Seq::<Event>::empty(),
            }
        }
    }

    /// A machine that is not in use.
    pub fn new() -> (machine: InputMachine)
        ensures
            machine.state is Idle,
            !machine.has_wordlist,
            machine.nameplates@.len() == 0,
            machine.wordlist.num_words == 2,
            machine.wordlist.is_default(),
    {
        InputMachine {
            state: InputState::Idle,
            has_wordlist: false,
            nameplates: Vec::new(),
            wordlist: default_wordlist(2),
        }
    }

    /// Whether `after` and `out` are the machine and what it has emitted
    /// once it has processed `event`.
    pub open spec fn processed(
        self,
        event: InputEvent,
        after: InputMachine,
        out: Seq<Event>,
    ) -> bool {
        &&& after.state == self.next_state(event)
        &&& after.wordlist == self.wordlist
        &&& after.has_wordlist == (self.has_wordlist || event is GotWordlist)
        &&& after.nameplates == (match event {
            InputEvent::GotNameplates(nameplates) => nameplates,
            _ => self.nameplates
        })
        &&& self.emitted(event, out)
    }

    /// Processes one event.
    pub fn process(&mut self, event: InputEvent) -> (out: Vec<Event>)
        ensures
            old(self).processed(event, *final(self), out@),
            below(out@, rank(Event::Input(event))),
            quiet(out@),
    {
        let mut out: Vec<Event> = Vec::new();
        match event {
            InputEvent::Start => {
                if let InputState::Idle = self.state {
                    self.state = InputState::TypingNameplate;
                    out.push(Event::Lister(ListerEvent::Refresh));
                    assert(out@ =~= seq![Event::Lister(ListerEvent::Refresh)]);
                } else {
                    out.push(Event::Boss(BossEvent::Error));
                    assert(out@ =~= seq![Event::Boss(BossEvent::Error)]);
                }
            },
            InputEvent::GotNameplates(nameplates) => {
                self.nameplates = nameplates;
            },
            InputEvent::GotWordlist => {
                self.has_wordlist = true;
            },
            InputEvent::RefreshNameplates => {
                if let InputState::TypingNameplate = self.state {
                    out.push(Event::Lister(ListerEvent::Refresh));
                    assert(out@ =~= seq![Event::Lister(ListerEvent::Refresh)]);
                } else {
                    out.push(Event::Boss(BossEvent::Error));
                    assert(out@ =~= seq![Event::Boss(BossEvent::Error)]);
                }
            },
            InputEvent::ChooseNameplate(nameplate) => {
                if let InputState::TypingNameplate = self.state {
                    self.state = InputState::TypingCode(Nameplate(nameplate.clone()));
                    out.push(Event::Code(CodeEvent::GotNameplate(Nameplate(nameplate))));
                    assert(out@ =~= seq![
                        Event::Code(CodeEvent::GotNameplate(Nameplate(nameplate))),
                    ]);
                } else {
                    out.push(Event::Boss(BossEvent::Error));
                    assert(out@ =~= seq![Event::Boss(BossEvent::Error)]);
                }
            },
            InputEvent::ChooseWords(words) => {
                let code = match &self.state {
                    InputState::TypingCode(nameplate) => Some(
                        Code(join3(nameplate.0.as_str(), "-", words.as_str())),
                    ),
                    _ => None,
                };
                match code {
                    Some(code) => {
                        self.state = InputState::Done;
                        out.push(Event::Code(CodeEvent::FinishedInput(code)));
                    },
                    None => {
                        out.push(Event::Boss(BossEvent::Error));
                        assert(out@ =~= seq![Event::Boss(BossEvent::Error)]);
                    },
                }
            },
        }
        out
    }

    /// Whether `found` is the answer to a request for the nameplates that
    /// complete a prefix.
    ///
    /// While the nameplate is being typed: for each listed nameplate in
    /// turn that begins with the prefix, the nameplate and a dash. Every
    /// completion begins with the prefix and, read as a code, has the
    /// nameplate that it was made of. In any other state there are none to
    /// give, and the error says why.
    pub open spec fn answers_nameplates(
        self,
        prefix: Seq<char>,
        found: Result<Vec<String>, InputHelperError>,
    ) -> bool {
        match self.state {
            InputState::Idle => found matches Err(e) && e == InputHelperError::Inactive,
            InputState::TypingNameplate => found matches Ok(completions) && texts_of(completions@)
                == nameplate_completions_from(self.nameplates@, prefix, 0) && forall|i: int|
                0 <= i < completions@.len() ==> exists|k: int|
                    0 <= k < self.nameplates@.len() && completes(
                        prefix,
                        (#[trigger] self.nameplates@[k]).0@,
                        #[trigger] completions@[i]@,
                    ),
            InputState::TypingCode(_) => found matches Err(e) && e
                == InputHelperError::AlreadyChoseNameplate,
            InputState::Done => found matches Err(e) && e == InputHelperError::AlreadyChoseWords,
        }
    }

    /// Whether `found` is the answer to a request for the words that
    /// complete a prefix of the words of the code.
    ///
    /// Once the nameplate is chosen: the completions from the word list,
    /// each of which begins with the prefix; none while the nameplate has
    /// not been claimed. In any other state the error says why there are
    /// none to give.
    pub open spec fn answers_words(
        self,
        prefix: Seq<char>,
        found: Result<Vec<String>, InputHelperError>,
    ) -> bool {
        match self.state {
            InputState::Idle => found matches Err(e) && e == InputHelperError::Inactive,
            InputState::TypingNameplate => found matches Err(e) && e
                == InputHelperError::MustChooseNameplateFirst,
            InputState::TypingCode(_) => found matches Ok(completions) && texts_of(completions@)
                == (if self.has_wordlist {
                self.wordlist.completions(prefix)
            } else {
                Seq::<Seq<char>>::empty()
            }) && forall|i: int|
                0 <= i < completions@.len() ==> prefix.is_prefix_of(#[trigger] completions@[i]@),
            InputState::Done => found matches Err(e) && e == InputHelperError::AlreadyChoseWords,
        }
    }

    /// The nameplates that complete a prefix.
    pub fn get_nameplate_completions(&self, prefix: &str) -> (found: Result<
        Vec<String>,
        InputHelperError,
    >)
        ensures
            self.answers_nameplates(prefix@, found),
    {
        match &self.state {
            InputState::Idle => Err(InputHelperError::Inactive),
            InputState::TypingCode(_) => Err(InputHelperError::AlreadyChoseNameplate),
            InputState::Done => Err(InputHelperError::AlreadyChoseWords),
            InputState::TypingNameplate => {
                let typed = chars_of(prefix);
                let mut found: Vec<String> = Vec::new();
                let mut k: usize = 0;
                proof {
                    assert(Seq::<Seq<char>>::empty() + nameplate_completions_from(
                        self.nameplates@,
                        prefix@,
                        0,
                    ) =~= nameplate_completions_from(self.nameplates@, prefix@, 0));
                }
                while k < self.nameplates.len()
                    invariant
                        k <= self.nameplates.len(),
                        typed@ == prefix@,
                        texts_of(found@) + nameplate_completions_from(
                            self.nameplates@,
                            prefix@,
                            k as int,
                        ) == nameplate_completions_from(self.nameplates@, prefix@, 0),
                        forall|i: int|
                            0 <= i < found@.len() ==> exists|k: int|
                                0 <= k < self.nameplates@.len() && completes(
                                    prefix@,
                                    (#[trigger] self.nameplates@[k]).0@,
                                    #[trigger] found@[i]@,
                                ),
                    decreases self.nameplates.len() - k,
                {
                    let name = chars_of(self.nameplates[k].0.as_str());
                    if find_char(name.as_slice(), '-', 0).is_none() && starts_with(
                        name.as_slice(),
                        typed.as_slice(),
                    ) {
                        let mut whole: Vec<char> = Vec::new();
                        push_chars(&mut whole, name.as_slice());
                        whole.push('-');
                        let text = text_of(whole.as_slice());
                        proof {
                            let nameplate = self.nameplates@[k as int].0@;
                            assert(text@ =~= nameplate + seq!['-']);
                            lemma_first_dash(text@, nameplate.len() as int, 0);
                            assert(text@.subrange(0, nameplate.len() as int) =~= nameplate);
                            assert(text@.subrange(0, prefix@.len() as int) =~= prefix@);
                            assert(completes(prefix@, self.nameplates@[k as int].0@, text@));
                            assert(texts_of(found@.push(text)) =~= texts_of(found@) + seq![text@]);
                            assert((texts_of(found@) + seq![text@]) + nameplate_completions_from(
                                self.nameplates@,
                                prefix@,
                                k + 1,
                            ) =~= texts_of(found@) + nameplate_completions_from(
                                self.nameplates@,
                                prefix@,
                                k as int,
                            ));
                        }
                        found.push(text);
                    }
                    k += 1;
                }
                proof {
                    assert(texts_of(found@) + Seq::<Seq<char>>::empty() =~= texts_of(found@));
                }
                Ok(found)
            },
        }
    }

    /// The words that complete a prefix of the words of the code.
    pub fn get_word_completions(&self, prefix: &str) -> (found: Result<
        Vec<String>,
        InputHelperError,
    >)
        ensures
            self.answers_words(prefix@, found),
    {
        match &self.state {
            InputState::Idle => Err(InputHelperError::Inactive),
            InputState::TypingNameplate => Err(InputHelperError::MustChooseNameplateFirst),
            InputState::Done => Err(InputHelperError::AlreadyChoseWords),
            InputState::TypingCode(_) => {
                if self.has_wordlist {
                    Ok(self.wordlist.get_completions(prefix))
                } else {
                    let none: Vec<String> = Vec::new();
                    assert(texts_of(none@) =~= Seq::<Seq<char>>::empty());
                    Ok(none)
                }
            },
        }
    }

    /// The nameplate that has been chosen, while the words are being typed.
    pub fn committed_nameplate(&self) -> (nameplate: Option<Nameplate>)
        ensures
            nameplate == (match self.state {
                InputState::TypingCode(chosen) => Some(chosen),
                _ => None,
            }),
    {
        match &self.state {
            InputState::TypingCode(chosen) => Some(chosen.copy()),
            _ => None,
        }
    }
}

} // verus!
