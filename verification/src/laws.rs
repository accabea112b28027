//! What holds of every stream and every reply.

use crate::chunk::{choice_of, chunk_of, ChoiceView, ChunkView};
use crate::client::{checked, is_success, DispatchError, Reply};
use crate::decode::{fragment_chunk, ChunkDefect, DecodeError};
use crate::json::{json_document, list, JsonValue};
use crate::render::{
    contents, first_final, halt, halts, lemma_first_final, lemma_halt, outcome_text, read_count,
    rendered_result, rendered_text, texts, RenderState,
};
use crate::turn::{turn_read, turn_result, turn_text, TurnError};
use vstd::prelude::*;

verus! {

/// The facts that make up `halt`: the render is over with no fragment ahead
/// of it, and is over with the fragment at it.
pub proof fn lemma_halt_is_first(outcomes: Seq<Result<ChunkView, DecodeError>>)
    ensures
        halt(outcomes) <= outcomes.len(),
        forall|i: int| 0 <= i < halt(outcomes) ==> !halts(#[trigger] outcomes[i]),
        halt(outcomes) < outcomes.len() ==> halts(outcomes[halt(outcomes) as int]),
    decreases outcomes.len(),
{
    if outcomes.len() != 0 && !halts(outcomes[0]) {
        let rest = outcomes.drop_first();
        lemma_halt_is_first(rest);
        assert forall|i: int| 0 <= i < halt(outcomes) implies !halts(#[trigger] outcomes[i]) by {
            if i > 0 {
                assert(outcomes[i] == rest[i - 1]);
            }
        }
    }
}

/// A finish reason on any choice is the sign that the response is over: a
/// chunk finishes exactly where some choice of it carries one, and
/// `first_final` is the first such choice.
pub proof fn lemma_first_final_is_first(choices: Seq<ChoiceView>)
    ensures
        first_final(choices) <= choices.len(),
        forall|i: int|
            0 <= i < first_final(choices) ==> (#[trigger] choices[i]).finish_reason is None,
        first_final(choices) < choices.len() ==> choices[first_final(
            choices,
        ) as int].finish_reason is Some,
        first_final(choices) < choices.len() <==> exists|i: int|
            0 <= i < choices.len() && (#[trigger] choices[i]).finish_reason is Some,
    decreases choices.len(),
{
    if choices.len() != 0 && choices[0].finish_reason is None {
        let rest = choices.drop_first();
        lemma_first_final_is_first(rest);
        assert forall|i: int| 0 <= i < first_final(choices) implies (#[trigger] choices[i]).finish_reason
            is None by {
            if i > 0 {
                assert(choices[i] == rest[i - 1]);
            }
        }
        if first_final(rest) < rest.len() {
            assert(choices[first_final(choices) as int] == rest[first_final(rest) as int]);
        }
    }
    if first_final(choices) < choices.len() {
        assert(choices[first_final(choices) as int].finish_reason is Some);
    }
}

/// A chunk with no choices puts out no text and does not end the render, and
/// an array with no items reads as no choices: such a record is no error.
pub proof fn lemma_no_choices(chunk: ChunkView)
    requires
        chunk.choices.len() == 0,
    ensures
        chunk.text() == Seq::<char>::empty(),
        !chunk.finishes(),
        !halts(Ok(chunk)),
        list(JsonValue::Array(Seq::empty()), |d: JsonValue| choice_of(d)) == Some(
            Seq::<ChoiceView>::empty(),
        ),
{
    assert(contents(chunk.choices.take(0)) =~= Seq::<Seq<char>>::empty());
    assert(list(JsonValue::Array(Seq::empty()), |d: JsonValue| choice_of(d)).unwrap()
        =~= Seq::<ChoiceView>::empty());
}

/// A fragment is an error exactly when its bytes are no JSON document or the
/// document is not of the shape of a chunk, and the error says which.
pub proof fn lemma_malformed(bytes: Seq<u8>)
    ensures
        fragment_chunk(bytes) == Err::<ChunkView, DecodeError>(
            DecodeError::MalformedChunk(ChunkDefect::InvalidJson),
        ) <==> json_document(bytes) is None,
        fragment_chunk(bytes) == Err::<ChunkView, DecodeError>(
            DecodeError::MalformedChunk(ChunkDefect::UnexpectedShape),
        ) <==> json_document(bytes) is Some && chunk_of(json_document(bytes).unwrap()) is None,
        fragment_chunk(bytes) is Ok <==> json_document(bytes) is Some && chunk_of(
            json_document(bytes).unwrap(),
        ) is Some,
{
}

/// The state that the machine is in, and the text that it has put out, after
/// it has taken `outcomes` one by one from its start.
pub open spec fn run(outcomes: Seq<Result<ChunkView, DecodeError>>) -> (RenderState, Seq<char>)
    decreases outcomes.len(),
{
    if outcomes.len() == 0 {
        (RenderState::AwaitingChunk, Seq::empty())
    } else {
        let before = run(outcomes.drop_last());
        (before.0.after(outcomes.last()), before.1 + before.0.emits(outcomes.last()))
    }
}

/// Where no fragment ends the render, every fragment is read and the output
/// is the texts of all of them in order.
pub proof fn lemma_all_read(outcomes: Seq<Result<ChunkView, DecodeError>>)
    requires
        forall|i: int| 0 <= i < outcomes.len() ==> !halts(#[trigger] outcomes[i]),
    ensures
        halt(outcomes) == outcomes.len(),
        read_count(outcomes) == outcomes.len(),
        rendered_text(outcomes) == texts(outcomes).flatten(),
        rendered_result(outcomes) == Ok::<(), DecodeError>(()),
{
    lemma_halt(outcomes, outcomes.len());
    assert(outcomes.take(outcomes.len() as int) =~= outcomes);
}

/// Where the fragment at `at` is the first to end the render, the fragments
/// up to and with it are read, and the output is their texts in order.
pub proof fn lemma_read_up_to(outcomes: Seq<Result<ChunkView, DecodeError>>, at: int)
    requires
        0 <= at < outcomes.len(),
        forall|i: int| 0 <= i < at ==> !halts(#[trigger] outcomes[i]),
        halts(outcomes[at]),
    ensures
        halt(outcomes) == at,
        read_count(outcomes) == at + 1,
        rendered_text(outcomes) == texts(outcomes.take(at)).flatten() + outcome_text(outcomes[at]),
{
    lemma_halt(outcomes, at as nat);
    let before = outcomes.take(at);
    assert(outcomes.take(at + 1) =~= before.push(outcomes[at]));
    assert(texts(before.push(outcomes[at])) =~= texts(before).push(outcome_text(outcomes[at])));
    texts(before).lemma_flatten_push(outcome_text(outcomes[at]));
}

/// Taking the fragments one by one, and then the end of the stream, comes to
/// what the render of the whole stream is: the same text, the same result,
/// and a machine that is over exactly where a fragment ended the render.
pub proof fn lemma_steps_render(outcomes: Seq<Result<ChunkView, DecodeError>>)
    ensures
        run(outcomes).1 == rendered_text(outcomes),
        run(outcomes).0.is_terminal() <==> halt(outcomes) < outcomes.len(),
        run(outcomes).0.after_end().outcome() == Some(rendered_result(outcomes)),
    decreases outcomes.len(),
{
    if outcomes.len() == 0 {
        assert(texts(outcomes.take(0)) =~= Seq::<Seq<char>>::empty());
    } else {
        let before = outcomes.drop_last();
        let last = outcomes.last();
        lemma_steps_render(before);
        lemma_halt_is_first(before);
        let h = halt(before) as int;
        if h < before.len() {
            assert forall|i: int| 0 <= i < h implies !halts(#[trigger] outcomes[i]) by {
                assert(outcomes[i] == before[i]);
            }
            assert(outcomes[h] == before[h]);
            lemma_halt(outcomes, h as nat);
            assert(outcomes.take(h + 1) =~= before.take(h + 1));
            assert(run(outcomes).1 =~= run(before).1);
        } else {
            assert forall|i: int| 0 <= i < before.len() implies !halts(#[trigger] outcomes[i]) by {
                assert(outcomes[i] == before[i]);
            }
            lemma_all_read(before);
            assert(outcomes.take(before.len() as int) =~= before);
            if halts(last) {
                lemma_read_up_to(outcomes, before.len() as int);
            } else {
                lemma_halt(outcomes, outcomes.len());
                assert(outcomes.take(outcomes.len() as int) =~= outcomes);
                assert(outcomes =~= before.push(last));
                assert(texts(before.push(last)) =~= texts(before).push(outcome_text(last)));
                texts(before).lemma_flatten_push(outcome_text(last));
            }
        }
    }
}

/// Once the render is over, no event changes the state or puts out text.
pub proof fn lemma_over_is_over(state: RenderState, outcome: Result<ChunkView, DecodeError>)
    requires
        state.is_terminal(),
    ensures
        state.after(outcome) == state,
        state.emits(outcome) == Seq::<char>::empty(),
        state.after_end() == state,
{
}

/// What follows the fragment that ends the render changes nothing: as many
/// fragments are read, the same text is put out, and the result is the same,
/// whatever the rest of the stream holds.
pub proof fn lemma_rest_is_unread(
    outcomes: Seq<Result<ChunkView, DecodeError>>,
    rest: Seq<Result<ChunkView, DecodeError>>,
)
    requires
        halt(outcomes) < outcomes.len(),
    ensures
        read_count(outcomes + rest) == read_count(outcomes),
        rendered_text(outcomes + rest) == rendered_text(outcomes),
        rendered_result(outcomes + rest) == rendered_result(outcomes),
{
    lemma_halt_is_first(outcomes);
    let h = halt(outcomes) as int;
    let all = outcomes + rest;
    assert forall|i: int| 0 <= i < h implies !halts(#[trigger] all[i]) by {
        assert(all[i] == outcomes[i]);
    }
    assert(all[h] == outcomes[h]);
    lemma_halt(all, h as nat);
    assert(all.take(h + 1) =~= outcomes.take(h + 1));
}

/// A stream that ends with no finish reason, and with no fragment that states
/// no chunk, is rendered well: all of it is read and the text of every
/// fragment is put out.
pub proof fn lemma_unterminated_stream(outcomes: Seq<Result<ChunkView, DecodeError>>)
    requires
        forall|i: int|
            0 <= i < outcomes.len() ==> (#[trigger] outcomes[i]) is Ok
                && !outcomes[i]->Ok_0.finishes(),
    ensures
        rendered_result(outcomes) == Ok::<(), DecodeError>(()),
        rendered_text(outcomes) == texts(outcomes).flatten(),
        read_count(outcomes) == outcomes.len(),
        run(outcomes).0.after_end() == RenderState::StreamEnded,
{
    assert forall|i: int| 0 <= i < outcomes.len() implies !halts(#[trigger] outcomes[i]) by {
        assert(outcomes[i] is Ok);
    }
    lemma_all_read(outcomes);
    lemma_steps_render(outcomes);
}

/// A fragment that states no chunk, met while the render is going, ends it
/// with that fragment's error. The output is the text of the fragments ahead
/// of it and nothing more, and nothing after it is read.
pub proof fn lemma_malformed_fragment(
    outcomes: Seq<Result<ChunkView, DecodeError>>,
    at: int,
)
    requires
        0 <= at < outcomes.len(),
        forall|i: int| 0 <= i < at ==> !halts(#[trigger] outcomes[i]),
        outcomes[at] is Err,
    ensures
        rendered_result(outcomes) == Err::<(), DecodeError>(outcomes[at]->Err_0),
        rendered_text(outcomes) == texts(outcomes.take(at)).flatten(),
        read_count(outcomes) == at + 1,
        run(outcomes).0.outcome() == Some(Err::<(), DecodeError>(outcomes[at]->Err_0)),
{
    lemma_read_up_to(outcomes, at);
    lemma_steps_render(outcomes);
    assert(texts(outcomes.take(at)).flatten() + outcome_text(outcomes[at]) =~= texts(
        outcomes.take(at),
    ).flatten());
    let state = run(outcomes).0;
    assert(state.is_terminal());
    assert(state.after_end() == state);
}

/// A reply with a status that is no success allows no stream: the turn ends
/// with the error that carries that status, reads nothing of the body and
/// puts out nothing, whatever the body holds.
pub proof fn lemma_status_is_kept(
    code: u16,
    reason: String,
    outcomes: Seq<Result<ChunkView, DecodeError>>,
)
    requires
        !is_success(code),
    ensures
        checked(Reply::Status { code, reason }) == Err::<(), DispatchError>(
            DispatchError::HttpStatus { status: code, reason },
        ),
        turn_result(Reply::Status { code, reason }, outcomes) == Err::<(), TurnError>(
            TurnError::Dispatch(DispatchError::HttpStatus { status: code, reason }),
        ),
        turn_text(Reply::Status { code, reason }, outcomes) == Seq::<char>::empty(),
        turn_read(Reply::Status { code, reason }, outcomes) == 0,
{
}

/// The text of the first choice that carries no finish reason, or no text
/// where every choice carries one.
pub open spec fn first_open_text(choices: Seq<ChoiceView>) -> Seq<char>
    decreases choices.len(),
{
    if choices.len() == 0 {
        Seq::empty()
    } else if choices[0].finish_reason is None {
        choices[0].delta.content
    } else {
        first_open_text(choices.drop_first())
    }
}

/// Whether the leading choice of a chunk carries a finish reason.
pub open spec fn leading_final(chunk: ChunkView) -> bool {
    chunk.choices.len() > 0 && chunk.choices[0].finish_reason is Some
}

/// The text of the first open choice of each chunk, in order, up to and
/// without the first chunk whose leading choice carries a finish reason.
pub open spec fn leading_text(chunks: Seq<ChunkView>) -> Seq<char>
    decreases chunks.len(),
{
    if chunks.len() == 0 || leading_final(chunks[0]) {
        Seq::empty()
    } else {
        first_open_text(chunks[0].choices) + leading_text(chunks.drop_first())
    }
}

/// Whether the leading choice of a chunk says all that the chunk says: it
/// carries a finish reason, or no choice after it carries text or a finish
/// reason.
pub open spec fn leading_choice_decides(chunk: ChunkView) -> bool {
    leading_final(chunk) || forall|i: int|
        1 <= i < chunk.choices.len() ==> (#[trigger] chunk.choices[i]).finish_reason is None
            && chunk.choices[i].delta.content.len() == 0
}

/// The fragments that state `chunks`, each well.
pub open spec fn stated(chunks: Seq<ChunkView>) -> Seq<Result<ChunkView, DecodeError>> {
    chunks.map_values(|c: ChunkView| Ok::<ChunkView, DecodeError>(c))
}

/// Texts that are all empty come to no text.
pub proof fn lemma_empty_texts(parts: Seq<Seq<char>>)
    requires
        forall|i: int| 0 <= i < parts.len() ==> (#[trigger] parts[i]).len() == 0,
    ensures
        parts.flatten() == Seq::<char>::empty(),
    decreases parts.len(),
{
    if parts.len() != 0 {
        let rest = parts.drop_first();
        assert forall|i: int| 0 <= i < rest.len() implies (#[trigger] rest[i]).len() == 0 by {
            assert(rest[i] == parts[i + 1]);
        }
        lemma_empty_texts(rest);
        assert(parts.flatten() =~= parts[0] + rest.flatten());
    }
}

/// A chunk whose leading choice decides ends the render exactly where that
/// choice carries a finish reason, and else puts out the text of its first
/// open choice.
pub proof fn lemma_leading_choice(chunk: ChunkView)
    requires
        leading_choice_decides(chunk),
    ensures
        chunk.finishes() == leading_final(chunk),
        leading_final(chunk) ==> chunk.text() == Seq::<char>::empty(),
        !leading_final(chunk) ==> chunk.text() == first_open_text(chunk.choices),
{
    let choices = chunk.choices;
    if choices.len() == 0 {
        assert(contents(choices.take(0)) =~= Seq::<Seq<char>>::empty());
    } else if leading_final(chunk) {
        lemma_first_final(choices, 0);
        assert(contents(choices.take(0)) =~= Seq::<Seq<char>>::empty());
    } else {
        assert forall|i: int| 0 <= i < choices.len() implies (#[trigger] choices[i]).finish_reason
            is None by {
            if i > 0 {
                assert(choices[i].finish_reason is None);
            }
        }
        lemma_first_final(choices, choices.len());
        assert(choices.take(choices.len() as int) =~= choices);
        let parts = contents(choices);
        let rest = parts.drop_first();
        assert forall|i: int| 0 <= i < rest.len() implies (#[trigger] rest[i]).len() == 0 by {
            assert(rest[i] == choices[i + 1].delta.content);
        }
        lemma_empty_texts(rest);
        assert(parts.flatten() =~= parts[0] + rest.flatten());
    }
}

/// What the render puts out goes fragment by fragment: the text of the first
/// fragment and, unless the render is over with it, the output of the rest.
pub proof fn lemma_output_unfolds(outcomes: Seq<Result<ChunkView, DecodeError>>)
    requires
        outcomes.len() > 0,
    ensures
        rendered_text(outcomes) == if halts(outcomes[0]) {
            outcome_text(outcomes[0])
        } else {
            outcome_text(outcomes[0]) + rendered_text(outcomes.drop_first())
        },
{
    let rest = outcomes.drop_first();
    if halts(outcomes[0]) {
        lemma_read_up_to(outcomes, 0);
        assert(texts(outcomes.take(0)) =~= Seq::<Seq<char>>::empty());
        assert(rendered_text(outcomes) =~= outcome_text(outcomes[0]));
    } else {
        let read = outcomes.take(read_count(outcomes) as int);
        let read_rest = rest.take(read_count(rest) as int);
        lemma_halt_is_first(rest);
        assert(read.len() > 0);
        assert(texts(read).drop_first() =~= texts(read_rest));
        assert(texts(read)[0] == outcome_text(outcomes[0]));
    }
}

/// For a stream of fragments that each state a chunk whose leading choice
/// decides, the output is the text of the first open choice of each chunk, in
/// the order of arrival, up to and without the first chunk whose leading
/// choice carries a finish reason.
pub proof fn lemma_ordered_output(chunks: Seq<ChunkView>)
    requires
        forall|i: int| 0 <= i < chunks.len() ==> leading_choice_decides(#[trigger] chunks[i]),
    ensures
        rendered_text(stated(chunks)) == leading_text(chunks),
    decreases chunks.len(),
{
    let outcomes = stated(chunks);
    if chunks.len() == 0 {
        lemma_all_read(outcomes);
        assert(texts(outcomes) =~= Seq::<Seq<char>>::empty());
    } else {
        let rest = chunks.drop_first();
        lemma_leading_choice(chunks[0]);
        lemma_output_unfolds(outcomes);
        assert(outcomes.drop_first() =~= stated(rest));
        assert forall|i: int| 0 <= i < rest.len() implies leading_choice_decides(
            #[trigger] rest[i],
        ) by {
            assert(rest[i] == chunks[i + 1]);
        }
        lemma_ordered_output(rest);
    }
}

} // verus!
