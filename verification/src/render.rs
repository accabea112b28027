//! What a stream of chunks puts on the screen, and when it is over.

use crate::chunk::{ChatCompletionChunk, ChoiceView, ChunkView};
use crate::decode::{decode_fragment, fragment_chunk, outcome_of, ChunkDefect, DecodeError};
use crate::view::views;
use vstd::prelude::*;
use vstd::string::StringExecFns;

verus! {

/// The position of the first choice that carries a finish reason, or the
/// number of choices where none does.
pub open spec fn first_final(choices: Seq<ChoiceView>) -> nat
    decreases choices.len(),
{
    if choices.len() == 0 || choices[0].finish_reason is Some {
        0
    } else {
        1 + first_final(choices.drop_first())
    }
}

/// The text that each of `choices` adds, in order.
pub open spec fn contents(choices: Seq<ChoiceView>) -> Seq<Seq<char>> {
    choices.map_values(|c: ChoiceView| c.delta.content)
}

impl ChunkView {
    /// Whether one of the choices carries a finish reason.
    pub open spec fn finishes(self) -> bool {
        first_final(self.choices) < self.choices.len()
    }

    /// The text that the chunk puts out: what the choices ahead of the first
    /// finish reason add, in their order.
    pub open spec fn text(self) -> Seq<char> {
        contents(self.choices.take(first_final(self.choices) as int)).flatten()
    }
}

/// `first_final` is the least position of a finish reason, and is pinned down
/// by that.
pub proof fn lemma_first_final(choices: Seq<ChoiceView>, at: nat)
    requires
        at <= choices.len(),
        forall|i: int| 0 <= i < at ==> (#[trigger] choices[i]).finish_reason is None,
        at < choices.len() ==> choices[at as int].finish_reason is Some,
    ensures
        first_final(choices) == at,
    decreases choices.len(),
{
    if at > 0 {
        let rest = choices.drop_first();
        assert(choices[0].finish_reason is None);
        assert forall|i: int| 0 <= i < at - 1 implies (#[trigger] rest[i]).finish_reason is None by {
            assert(rest[i] == choices[i + 1]);
        }
        lemma_first_final(rest, (at - 1) as nat);
    }
}

/// What one chunk adds to the output.
#[derive(Debug, PartialEq, Eq)]
pub struct ChunkRendering {
    /// The text to write.
    pub text: String,
    /// Whether the response is over with this chunk.
    pub finished: bool,
}

impl ChatCompletionChunk {
    /// Goes through the choices in order, gathers their text, and stops at
    /// the first that carries a finish reason.
    pub fn render(&self) -> (r: ChunkRendering)
        ensures
            r.text@ == self@.text(),
            r.finished == self@.finishes(),
    {
        let ghost choices = self@.choices;
        let mut text = String::new();
        let mut i: usize = 0;
        while i < self.choices.len()
            invariant
                i <= self.choices.len(),
                choices == self@.choices,
                choices.len() == self.choices.len(),
                forall|k: int| 0 <= k < choices.len() ==> choices[k] == #[trigger] self.choices[k]@,
                forall|k: int| 0 <= k < i ==> (#[trigger] choices[k]).finish_reason is None,
                text@ == contents(choices.take(i as int)).flatten(),
            decreases self.choices.len() - i,
        {
            let choice = &self.choices[i];
            if choice.is_final() {
                proof {
                    lemma_first_final(choices, i as nat);
                }
                return ChunkRendering { text, finished: true };
            }
            text.append(choice.delta.content.as_str());
            proof {
                let before = choices.take(i as int);
                assert(choices.take(i + 1) =~= before.push(choices[i as int]));
                assert(contents(before.push(choices[i as int])) =~= contents(before).push(
                    choices[i as int].delta.content,
                ));
                contents(before).lemma_flatten_push(choices[i as int].delta.content);
            }
            i += 1;
        }
        proof {
            lemma_first_final(choices, i as nat);
            assert(choices.take(i as int) =~= choices);
        }
        ChunkRendering { text, finished: false }
    }
}

/// Whether the render is over with a fragment that came to `outcome`: it
/// stated no chunk, or a chunk with a finish reason.
pub open spec fn halts(outcome: Result<ChunkView, DecodeError>) -> bool {
    match outcome {
        Ok(chunk) => chunk.finishes(),
        Err(_) => true,
    }
}

/// The text that a fragment which came to `outcome` puts out.
pub open spec fn outcome_text(outcome: Result<ChunkView, DecodeError>) -> Seq<char> {
    match outcome {
        Ok(chunk) => chunk.text(),
        Err(_) => Seq::empty(),
    }
}

/// Where the render of one response stands.
#[derive(Debug, Clone, Copy, PartialEq, Eq, Structural)]
pub enum RenderState {
    /// The next fragment is awaited.
    AwaitingChunk,
    /// A finish reason was met.
    Finished,
    /// The stream ended with no finish reason.
    StreamEnded,
    /// A fragment stated no chunk.
    MalformedChunk(ChunkDefect),
}

impl RenderState {
    /// Whether the render is over.
    pub open spec fn is_terminal(self) -> bool {
        !(self is AwaitingChunk)
    }

    /// The state after a fragment that came to `outcome`.
    pub open spec fn after(self, outcome: Result<ChunkView, DecodeError>) -> RenderState {
        match self {
            RenderState::AwaitingChunk => match outcome {
                Ok(chunk) => if chunk.finishes() {
                    RenderState::Finished
                } else {
                    RenderState::AwaitingChunk
                },
                Err(DecodeError::MalformedChunk(defect)) => RenderState::MalformedChunk(defect),
            },
            _ => self,
        }
    }

    /// The text that is put out on a fragment that came to `outcome`.
    pub open spec fn emits(self, outcome: Result<ChunkView, DecodeError>) -> Seq<char> {
        match self {
            RenderState::AwaitingChunk => outcome_text(outcome),
            _ => Seq::empty(),
        }
    }

    /// The state after the stream has ended.
    pub open spec fn after_end(self) -> RenderState {
        match self {
            RenderState::AwaitingChunk => RenderState::StreamEnded,
            _ => self,
        }
    }

    /// How the render went, once it is over.
    pub open spec fn outcome(self) -> Option<Result<(), DecodeError>> {
        match self {
            RenderState::AwaitingChunk => None,
            RenderState::Finished => Some(Ok(())),
            RenderState::StreamEnded => Some(Ok(())),
            RenderState::MalformedChunk(defect) => Some(Err(DecodeError::MalformedChunk(defect))),
        }
    }
}

/// What the transport hands over next.
#[derive(Debug, PartialEq, Eq)]
pub enum StreamEvent {
    /// The bytes of one fragment.
    Fragment(Vec<u8>),
    /// The stream is at its end.
    End,
}

/// The answer to one event: the text to write now, and the state from which
/// to go on.
#[derive(Debug, PartialEq, Eq)]
pub struct Transition {
    pub state: RenderState,
    pub text: String,
}

impl RenderState {
    /// The state in which a render begins.
    pub fn start() -> (r: Self)
        ensures
            r == RenderState::AwaitingChunk,
    {
        RenderState::AwaitingChunk
    }

    /// Whether the render is over, so that the stream is read no further.
    pub fn terminal(&self) -> (r: bool)
        ensures
            r == self.is_terminal(),
    {
        match self {
            RenderState::AwaitingChunk => false,
            _ => true,
        }
    }

    /// How the render went: nothing while a fragment is awaited, success
    /// after a finish reason or the end of the stream, and the error after a
    /// fragment that stated no chunk.
    pub fn result(&self) -> (r: Option<Result<(), DecodeError>>)
        ensures
            r == self.outcome(),
    {
        match self {
            RenderState::AwaitingChunk => None,
            RenderState::Finished => Some(Ok(())),
            RenderState::StreamEnded => Some(Ok(())),
            RenderState::MalformedChunk(defect) => Some(
                Err(DecodeError::MalformedChunk(*defect)),
            ),
        }
    }

    /// Takes one decoded fragment. While a chunk is awaited, a chunk puts out
    /// its text and ends the render where it carries a finish reason, and an
    /// error ends it with no text. Once the render is over nothing happens.
    pub fn receive(self, decoded: &Result<ChatCompletionChunk, DecodeError>) -> (r: Transition)
        ensures
            r.state == self.after(outcome_of(*decoded)),
            r.text@ == self.emits(outcome_of(*decoded)),
    {
        match self {
            RenderState::AwaitingChunk => match decoded {
                Ok(chunk) => {
                    let rendering = chunk.render();
                    let state = if rendering.finished {
                        RenderState::Finished
                    } else {
                        RenderState::AwaitingChunk
                    };
                    Transition { state, text: rendering.text }
                },
                Err(DecodeError::MalformedChunk(defect)) => Transition {
                    state: RenderState::MalformedChunk(*defect),
                    text: String::new(),
                },
            },
            _ => Transition { state: self, text: String::new() },
        }
    }

    /// Takes one event of the stream. A fragment is decoded only while a
    /// chunk is awaited.
    pub fn step(self, event: &StreamEvent) -> (r: Transition)
        ensures
            match event {
                StreamEvent::Fragment(bytes) => {
                    &&& r.state == self.after(fragment_chunk(bytes@))
                    &&& r.text@ == self.emits(fragment_chunk(bytes@))
                },
                StreamEvent::End => {
                    &&& r.state == self.after_end()
                    &&& r.text@ == Seq::<char>::empty()
                },
            },
    {
        match event {
            StreamEvent::Fragment(bytes) => {
                if self.terminal() {
                    Transition { state: self, text: String::new() }
                } else {
                    let decoded = decode_fragment(bytes.as_slice());
                    self.receive(&decoded)
                }
            },
            StreamEvent::End => {
                let state = match self {
                    RenderState::AwaitingChunk => RenderState::StreamEnded,
                    _ => self,
                };
                Transition { state, text: String::new() }
            },
        }
    }
}

/// What each fragment of a stream comes to, in order.
pub open spec fn outcomes_of(fragments: Seq<Seq<u8>>) -> Seq<Result<ChunkView, DecodeError>> {
    fragments.map_values(|bytes: Seq<u8>| fragment_chunk(bytes))
}

/// The position of the first fragment with which the render is over, or the
/// number of fragments where there is none.
pub open spec fn halt(outcomes: Seq<Result<ChunkView, DecodeError>>) -> nat
    decreases outcomes.len(),
{
    if outcomes.len() == 0 || halts(outcomes[0]) {
        0
    } else {
        1 + halt(outcomes.drop_first())
    }
}

/// How many fragments the render reads: those up to and with the one that
/// ends it, or all of them.
pub open spec fn read_count(outcomes: Seq<Result<ChunkView, DecodeError>>) -> nat {
    if halt(outcomes) < outcomes.len() {
        halt(outcomes) + 1
    } else {
        outcomes.len()
    }
}

/// The text that each fragment puts out, in order.
pub open spec fn texts(outcomes: Seq<Result<ChunkView, DecodeError>>) -> Seq<Seq<char>> {
    outcomes.map_values(|o: Result<ChunkView, DecodeError>| outcome_text(o))
}

/// The text that the render of a stream puts out: the texts of the fragments
/// that it reads, in the order of their arrival.
pub open spec fn rendered_text(outcomes: Seq<Result<ChunkView, DecodeError>>) -> Seq<char> {
    texts(outcomes.take(read_count(outcomes) as int)).flatten()
}

/// How the render of a stream ends: with the error of the fragment that ends
/// it, where that fragment stated no chunk, and well otherwise.
pub open spec fn rendered_result(outcomes: Seq<Result<ChunkView, DecodeError>>) -> Result<
    (),
    DecodeError,
> {
    if halt(outcomes) < outcomes.len() {
        match outcomes[halt(outcomes) as int] {
            Ok(_) => Ok(()),
            Err(e) => Err(e),
        }
    } else {
        Ok(())
    }
}

/// `halt` is the least position at which the render is over, and is pinned
/// down by that.
pub proof fn lemma_halt(outcomes: Seq<Result<ChunkView, DecodeError>>, at: nat)
    requires
        at <= outcomes.len(),
        forall|i: int| 0 <= i < at ==> !halts(#[trigger] outcomes[i]),
        at < outcomes.len() ==> halts(outcomes[at as int]),
    ensures
        halt(outcomes) == at,
    decreases outcomes.len(),
{
    if at > 0 {
        let rest = outcomes.drop_first();
        assert(!halts(outcomes[0]));
        assert forall|i: int| 0 <= i < at - 1 implies !halts(#[trigger] rest[i]) by {
            assert(rest[i] == outcomes[i + 1]);
        }
        lemma_halt(rest, (at - 1) as nat);
    }
}

/// The render of a whole stream.
#[derive(Debug, PartialEq, Eq)]
pub struct Rendering {
    /// All the text that was put out.
    pub text: String,
    /// How many fragments were read.
    pub read: usize,
    /// How the render ended.
    pub result: Result<(), DecodeError>,
}

/// Renders a stream that is at hand as a whole. The fragments are decoded
/// one by one in the order of their arrival, each as one chunk, and the text
/// of each is added to the output. The first fragment with a finish reason
/// ends the render well, the first that states no chunk ends it with an
/// error, and the end of the stream ends it well; what follows the fragment
/// that ends the render is not read.
pub fn render(fragments: &Vec<Vec<u8>>) -> (r: Rendering)
    ensures
        r.text@ == rendered_text(outcomes_of(views(fragments@))),
        r.read == read_count(outcomes_of(views(fragments@))),
        r.result == rendered_result(outcomes_of(views(fragments@))),
{
    let ghost outcomes = outcomes_of(views(fragments@));
    let mut state = RenderState::start();
    let mut text = String::new();
    let mut i: usize = 0;
    while i < fragments.len()
        invariant
            i <= fragments.len(),
            outcomes == outcomes_of(views(fragments@)),
            outcomes.len() == fragments.len(),
            state == RenderState::AwaitingChunk,
            forall|k: int| 0 <= k < i ==> !halts(#[trigger] outcomes[k]),
            text@ == texts(outcomes.take(i as int)).flatten(),
        decreases fragments.len() - i,
    {
        let decoded = decode_fragment(fragments[i].as_slice());
        let transition = state.receive(&decoded);
        proof {
            assert(outcomes[i as int] == fragment_chunk(fragments[i as int]@));
            let before = outcomes.take(i as int);
            assert(outcomes.take(i + 1) =~= before.push(outcomes[i as int]));
            assert(texts(before.push(outcomes[i as int])) =~= texts(before).push(
                outcome_text(outcomes[i as int]),
            ));
            texts(before).lemma_flatten_push(outcome_text(outcomes[i as int]));
        }
        text.append(transition.text.as_str());
        state = transition.state;
        i += 1;
        match state.result() {
            Some(result) => {
                proof {
                    lemma_halt(outcomes, (i - 1) as nat);
                }
                return Rendering { text, read: i, result };
            },
            None => {},
        }
    }
    proof {
        lemma_halt(outcomes, i as nat);
        assert(outcomes.take(i as int) =~= outcomes);
    }
    Rendering { text, read: i, result: Ok(()) }
}

} // verus!
