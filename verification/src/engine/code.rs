//! The machine that settles on the code: allocated, typed in, or set.

use vstd::prelude::*;
use vstd::string::StringExecFns;
use crate::engine::events::{
    below, quiet, rank, AllocatorEvent, BossEvent, Code, CodeEvent, Event, InputEvent, KeyEvent,
    Nameplate, NameplateEvent,
};
use crate::text::{chars_of, find_char, first_index_from, slice_chars, text_of};
use crate::wordlist::texts_of;

verus! {

/// The nameplate of a code: what stands before its first dash, or all of
/// it where it has none.
pub open spec fn nameplate_text(code: Seq<char>) -> Seq<char> {
    match first_index_from(code, '-', 0) {
        Some(i) => code.subrange(0, i),
        None => code,
    }
}

/// The code made of a nameplate and words: each word follows a dash.
pub open spec fn code_text(nameplate: Seq<char>, words: Seq<Seq<char>>) -> Seq<char>
    decreases words.len(),
{
    if words.len() == 0 {
        nameplate
    } else {
        code_text(nameplate, words.drop_last()) + seq!['-'] + words.last()
    }
}

/// The nameplate of a code.
pub fn nameplate_of(code: &Code) -> (nameplate: Nameplate)
    ensures
        nameplate.0@ == nameplate_text(code.0@),
{
    let chars = chars_of(code.0.as_str());
    match find_char(chars.as_slice(), '-', 0) {
        Some(i) => Nameplate(text_of(slice_chars(chars.as_slice(), 0, i).as_slice())),
        None => Nameplate(code.0.clone()),
    }
}

/// The code made of a nameplate and words.
pub fn make_code(nameplate: &Nameplate, words: &Vec<String>) -> (code: Code)
    ensures
        code.0@ == code_text(nameplate.0@, texts_of(words@)),
{
    let mut text = nameplate.0.clone();
    let mut i: usize = 0;
    while i < words.len()
        invariant
            i <= words.len(),
            text@ == code_text(nameplate.0@, texts_of(words@).subrange(0, i as int)),
        decreases words.len() - i,
    {
        proof {
            let upto = texts_of(words@).subrange(0, i + 1);
            assert(upto.drop_last() =~= texts_of(words@).subrange(0, i as int));
            assert(upto.last() == words@[i as int]@);
        }
        text.append("-");
        text.append(words[i].as_str());
        proof {
            reveal_strlit("-");
            assert("-"@ =~= seq!['-']);
        }
        i += 1;
    }
    proof {
        assert(texts_of(words@).subrange(0, words@.len() as int) =~= texts_of(words@));
    }
    Code(text)
}

/// A nameplate without a dash is the nameplate of every code made of it.
pub proof fn lemma_code_keeps_nameplate(nameplate: Seq<char>, words: Seq<Seq<char>>)
    requires
        forall|i: int| 0 <= i < nameplate.len() ==> nameplate[i] != '-',
        words.len() > 0,
    ensures
        nameplate_text(code_text(nameplate, words)) == nameplate,
{
    let code = code_text(nameplate, words);
    lemma_code_begins(nameplate, words);
    assert forall|i: int| 0 <= i < nameplate.len() implies code[i] != '-' by {
        assert(code[i] == nameplate[i]);
    }
    lemma_first_dash(code, nameplate.len() as int, 0);
    assert(code.subrange(0, nameplate.len() as int) =~= nameplate);
}

/// A code made with at least one word begins with the nameplate and a dash.
pub proof fn lemma_code_begins(nameplate: Seq<char>, words: Seq<Seq<char>>)
    requires
        words.len() > 0,
    ensures
        code_text(nameplate, words).len() > nameplate.len(),
        code_text(nameplate, words)[nameplate.len() as int] == '-',
        forall|i: int|
            0 <= i < nameplate.len() ==> code_text(nameplate, words)[i] == nameplate[i],
    decreases words.len(),
{
    let inner = code_text(nameplate, words.drop_last());
    let whole = code_text(nameplate, words);
    assert(whole == inner + seq!['-'] + words.last());
    if words.len() > 1 {
        lemma_code_begins(nameplate, words.drop_last());
        assert forall|i: int| 0 <= i <= nameplate.len() implies whole[i] == inner[i] by {}
    } else {
        assert(words.drop_last().len() == 0);
        assert(inner == nameplate);
        assert(whole[nameplate.len() as int] == '-');
        assert forall|i: int| 0 <= i < nameplate.len() implies whole[i] == nameplate[i] by {}
    }
}

/// Where a text has its first dash at `at`, the search from `from` finds it.
pub proof fn lemma_first_dash(text: Seq<char>, at: int, from: int)
    requires
        0 <= from <= at < text.len(),
        text[at] == '-',
        forall|i: int| from <= i < at ==> text[i] != '-',
    ensures
        first_index_from(text, '-', from) == Some(at),
    decreases at - from,
{
    if from < at {
        lemma_first_dash(text, at, from + 1);
    }
}

#[derive(Clone, Copy, Debug, PartialEq, Eq, Structural)]
pub enum CodeState {
    Idle,
    InputtingNameplate,
    InputtingWords,
    Allocating,
    Known,
}

pub struct CodeMachine {
    pub state: CodeState,
}

impl CodeMachine {
    /// Whether `event` is one that the machine expects in its state.
    pub open spec fn expects(self, event: CodeEvent) -> bool {
        match (self.state, event) {
            (CodeState::Idle, CodeEvent::AllocateCode(_)) => true,
            (CodeState::Idle, CodeEvent::InputCode) => true,
            (CodeState::Idle, CodeEvent::SetCode(_)) => true,
            (CodeState::InputtingNameplate, CodeEvent::GotNameplate(_)) => true,
            (CodeState::InputtingWords, CodeEvent::FinishedInput(_)) => true,
            (CodeState::Allocating, CodeEvent::Allocated(_, _)) => true,
            _ => false,
        }
    }

    /// The state after `event`; an event that is not expected changes
    /// nothing.
    pub open spec fn next_state(self, event: CodeEvent) -> CodeState {
        if !self.expects(event) {
            self.state
        } else {
            match event {
                CodeEvent::AllocateCode(_) => CodeState::Allocating,
                CodeEvent::InputCode => CodeState::InputtingNameplate,
                CodeEvent::GotNameplate(_) => CodeState::InputtingWords,
                _ => CodeState::Known,
            }
        }
    }

    /// Whether `out` is what the machine emits on `event`.
    ///
    /// A code that has become known goes to the boss and to the key
    /// machine, and its nameplate to the nameplate machine, unless that one
    /// has it already. An event that is not expected is reported as an
    /// error.
    pub open spec fn emitted(self, event: CodeEvent, out: Seq<Event>) -> bool {
        if !self.expects(event) {
            out == seq![Event::Boss(BossEvent::Error)]
        } else {
            match event {
                CodeEvent::AllocateCode(count) => out == seq![
                    Event::Allocator(AllocatorEvent::Allocate(count)),
                ],
                CodeEvent::InputCode => out == seq![Event::Input(InputEvent::Start)],
                CodeEvent::SetCode(code) => {
                    &&& out.len() == 3
                    &&& out[0] matches Event::Nameplate(NameplateEvent::SetNameplate(nameplate))
                        && nameplate.0@ == nameplate_text(code.0@)
                    &&& out[1] == Event::Boss(BossEvent::GotCode(code))
                    &&& out[2] == Event::Key(KeyEvent::GotCode(code))
                },
                CodeEvent::Allocated(nameplate, code) => out == seq![
                    Event::Nameplate(NameplateEvent::SetNameplate(nameplate)),
                    Event::Boss(BossEvent::GotCode(code)),
                    Event::Key(KeyEvent::GotCode(code)),
                ],
                CodeEvent::GotNameplate(nameplate) => out == seq![
                    Event::Nameplate(NameplateEvent::SetNameplate(nameplate)),
                ],
                CodeEvent::FinishedInput(code) => out == seq![
                    Event::Boss(BossEvent::GotCode(code)),
                    Event::Key(KeyEvent::GotCode(code)),
                ],
            }
        }
    }

    /// A machine that knows no code.
    pub fn new() -> (machine: CodeMachine)
        ensures
            machine.state == CodeState::Idle,
    {
        CodeMachine { state: CodeState::Idle }
    }

    /// Whether `after` and `out` are the machine and what it has emitted
    /// once it has processed `event`.
    pub open spec fn processed(
        self,
        event: CodeEvent,
        after: CodeMachine,
        out: Seq<Event>,
    ) -> bool {
        &&& after.state == self.next_state(event)
        &&& self.emitted(event, out)
    }

    /// Processes one event.
    pub fn process(&mut self, event: CodeEvent) -> (out: Vec<Event>)
        ensures
            old(self).processed(event, *final(self), out@),
            below(out@, rank(Event::Code(event))),
            quiet(out@),
    {
        let mut out: Vec<Event> = Vec::new();
        match (self.state, event) {
            (CodeState::Idle, CodeEvent::AllocateCode(count)) => {
                self.state = CodeState::Allocating;
                out.push(Event::Allocator(AllocatorEvent::Allocate(count)));
                assert(out@ =~= seq![Event::Allocator(AllocatorEvent::Allocate(count))]);
            },
            (CodeState::Idle, CodeEvent::InputCode) => {
                self.state = CodeState::InputtingNameplate;
                out.push(Event::Input(InputEvent::Start));
                assert(out@ =~= seq![Event::Input(InputEvent::Start)]);
            },
            (CodeState::Idle, CodeEvent::SetCode(code)) => {
                self.state = CodeState::Known;
                out.push(Event::Nameplate(NameplateEvent::SetNameplate(nameplate_of(&code))));
                out.push(Event::Boss(BossEvent::GotCode(code.copy())));
                out.push(Event::Key(KeyEvent::GotCode(code)));
            },
            (CodeState::InputtingNameplate, CodeEvent::GotNameplate(nameplate)) => {
                self.state = CodeState::InputtingWords;
                out.push(Event::Nameplate(NameplateEvent::SetNameplate(nameplate)));
                assert(out@ =~= seq![Event::Nameplate(NameplateEvent::SetNameplate(nameplate))]);
            },
            (CodeState::InputtingWords, CodeEvent::FinishedInput(code)) => {
                self.state = CodeState::Known;
                out.push(Event::Boss(BossEvent::GotCode(code.copy())));
                out.push(Event::Key(KeyEvent::GotCode(code)));
                assert(out@ =~= seq![
                    Event::Boss(BossEvent::GotCode(code)),
                    Event::Key(KeyEvent::GotCode(code)),
                ]);
            },
            (CodeState::Allocating, CodeEvent::Allocated(nameplate, code)) => {
                self.state = CodeState::Known;
                out.push(Event::Nameplate(NameplateEvent::SetNameplate(nameplate)));
                out.push(Event::Boss(BossEvent::GotCode(code.copy())));
                out.push(Event::Key(KeyEvent::GotCode(code)));
                assert(out@ =~= seq![
                    Event::Nameplate(NameplateEvent::SetNameplate(nameplate)),
                    Event::Boss(BossEvent::GotCode(code)),
                    Event::Key(KeyEvent::GotCode(code)),
                ]);
            },
            _ => {
                out.push(Event::Boss(BossEvent::Error));
                assert(out@ =~= seq![Event::Boss(BossEvent::Error)]);
            },
        }
        out
    }
}

} // verus!
