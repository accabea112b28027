//! One turn: the reply to a request, and the render of its stream.

use crate::chunk::ChunkView;
use crate::client::{check_reply, checked, DispatchError, Reply};
use crate::decode::DecodeError;
use crate::view::views;
use crate::render::{outcomes_of, read_count, render, rendered_result, rendered_text};
use vstd::prelude::*;

verus! {

/// Why a turn went wrong.
#[derive(Debug, Clone, PartialEq, Eq)]
pub enum TurnError {
    /// The request got no stream.
    Dispatch(DispatchError),
    /// The stream could not be decoded.
    Decode(DecodeError),
}

/// The text of a turn: nothing where the reply allows no stream, and else
/// what the render of the stream puts out.
pub open spec fn turn_text(reply: Reply, outcomes: Seq<Result<ChunkView, DecodeError>>) -> Seq<
    char,
> {
    match checked(reply) {
        Ok(_) => rendered_text(outcomes),
        Err(_) => Seq::empty(),
    }
}

/// How many fragments a turn reads: none where the reply allows no stream.
pub open spec fn turn_read(reply: Reply, outcomes: Seq<Result<ChunkView, DecodeError>>) -> nat {
    match checked(reply) {
        Ok(_) => read_count(outcomes),
        Err(_) => 0,
    }
}

/// How a turn ends: with the error of the reply where it allows no stream,
/// and else as the render of the stream ends.
pub open spec fn turn_result(reply: Reply, outcomes: Seq<Result<ChunkView, DecodeError>>)
    -> Result<(), TurnError> {
    match checked(reply) {
        Ok(_) => match rendered_result(outcomes) {
            Ok(_) => Ok(()),
            Err(e) => Err(TurnError::Decode(e)),
        },
        Err(e) => Err(TurnError::Dispatch(e)),
    }
}

/// One turn as a whole.
#[derive(Debug, PartialEq, Eq)]
pub struct Turn {
    /// All the text that was put out.
    pub text: String,
    /// How many fragments of the body were read.
    pub read: usize,
    /// How the turn ended.
    pub result: Result<(), TurnError>,
}

/// Goes through one turn whose reply and body are at hand: the body is
/// rendered as a stream where the reply allows it, and is left alone where
/// it does not.
pub fn read_stream(reply: Reply, fragments: &Vec<Vec<u8>>) -> (r: Turn)
    ensures
        r.text@ == turn_text(reply, outcomes_of(views(fragments@))),
        r.read == turn_read(reply, outcomes_of(views(fragments@))),
        r.result == turn_result(reply, outcomes_of(views(fragments@))),
{
    match check_reply(reply) {
        Err(e) => Turn { text: String::new(), read: 0, result: Err(TurnError::Dispatch(e)) },
        Ok(_) => {
            let rendering = render(fragments);
            let result = match rendering.result {
                Ok(_) => Ok(()),
                Err(e) => Err(TurnError::Decode(e)),
            };
            Turn { text: rendering.text, read: rendering.read, result }
        },
    }
}

} // verus!
