//! From the bytes of one stream fragment to the chunk that they state.

use crate::chunk::{chunk_of, ChatCompletionChunk, ChunkView};
use crate::json::{json_document, parse, Json, JsonValue};
use vstd::prelude::*;

verus! {

/// What is wrong with a fragment that states no chunk.
#[derive(Debug, Clone, Copy, PartialEq, Eq, Structural)]
pub enum ChunkDefect {
    /// The bytes are not the text of one JSON document.
    InvalidJson,
    /// The document is not of the shape of a chunk.
    UnexpectedShape,
}

/// Why a stream could not be decoded.
#[derive(Debug, Clone, Copy, PartialEq, Eq, Structural)]
pub enum DecodeError {
    /// A fragment did not state a chunk.
    MalformedChunk(ChunkDefect),
}

/// The value of a document that may be missing.
pub open spec fn document_value(doc: Option<Json>) -> Option<JsonValue> {
    match doc {
        Some(d) => Some(d@),
        None => None,
    }
}

/// The chunk that a parsed fragment states, or what is wrong with it: no
/// document at all, or a document that `chunk_of` reads no chunk out of.
pub open spec fn document_chunk(doc: Option<JsonValue>) -> Result<ChunkView, DecodeError> {
    match doc {
        None => Err(DecodeError::MalformedChunk(ChunkDefect::InvalidJson)),
        Some(d) => match chunk_of(d) {
            Some(chunk) => Ok(chunk),
            None => Err(DecodeError::MalformedChunk(ChunkDefect::UnexpectedShape)),
        },
    }
}

/// The chunk that the bytes of a fragment state, or what is wrong with them.
pub open spec fn fragment_chunk(bytes: Seq<u8>) -> Result<ChunkView, DecodeError> {
    document_chunk(json_document(bytes))
}

/// What a decoded fragment came to, with the chunk by its value.
pub open spec fn outcome_of(decoded: Result<ChatCompletionChunk, DecodeError>) -> Result<
    ChunkView,
    DecodeError,
> {
    match decoded {
        Ok(chunk) => Ok(chunk@),
        Err(e) => Err(e),
    }
}

/// Decodes a fragment that has been parsed already: `None` stands for bytes
/// that were no JSON document.
pub fn decode_document(doc: Option<Json>) -> (r: Result<ChatCompletionChunk, DecodeError>)
    ensures
        outcome_of(r) == document_chunk(document_value(doc)),
{
    match doc {
        None => Err(DecodeError::MalformedChunk(ChunkDefect::InvalidJson)),
        Some(d) => match ChatCompletionChunk::decode(&d) {
            Some(chunk) => Ok(chunk),
            None => Err(DecodeError::MalformedChunk(ChunkDefect::UnexpectedShape)),
        },
    }
}

/// Decodes one fragment of a stream: the whole of it must be one JSON document
/// that states a chunk.
pub fn decode_fragment(bytes: &[u8]) -> (r: Result<ChatCompletionChunk, DecodeError>)
    ensures
        outcome_of(r) == fragment_chunk(bytes@),
{
    decode_document(parse(bytes))
}

} // verus!
