//! The records of a streamed chat completion, and their decoding from JSON.

use crate::json::{lemma_each_none, lemma_each_some, list, optional, Json, JsonValue};
use crate::view::views;
use vstd::prelude::*;

verus! {

/// Token counts of a completion.
#[derive(Debug, PartialEq, Eq)]
pub struct ChatCompletionChunkUsage {
    pub completion_tokens: i64,
    pub prompt_tokens: i64,
    pub total_tokens: i64,
}

/// The function that a tool call names, with its arguments as text.
#[derive(Debug, PartialEq, Eq)]
pub struct ChatCompletionChunkFunction {
    pub name: String,
    pub arguments: String,
}

/// The value of a [`ChatCompletionChunkFunction`].
pub struct FunctionView {
    pub name: Seq<char>,
    pub arguments: Seq<char>,
}

impl View for ChatCompletionChunkFunction {
    type V = FunctionView;

    open spec fn view(&self) -> FunctionView {
        FunctionView { name: self.name@, arguments: self.arguments@ }
    }
}

/// One tool invocation that a delta carries.
#[derive(Debug, PartialEq, Eq)]
pub struct ChatCompletionChunkToolCall {
    pub index: i64,
    pub id: String,
    /// Member `type` of the record.
    pub my_type: String,
    pub function: ChatCompletionChunkFunction,
}

/// The value of a [`ChatCompletionChunkToolCall`].
pub struct ToolCallView {
    pub index: i64,
    pub id: Seq<char>,
    pub my_type: Seq<char>,
    pub function: FunctionView,
}

impl View for ChatCompletionChunkToolCall {
    type V = ToolCallView;

    open spec fn view(&self) -> ToolCallView {
        ToolCallView {
            index: self.index,
            id: self.id@,
            my_type: self.my_type@,
            function: self.function@,
        }
    }
}

/// The usage that a JSON value states: an object with the three counts as
/// integers.
pub open spec fn usage_of(doc: JsonValue) -> Option<ChatCompletionChunkUsage> {
    match (
        doc.integer_member("completion_tokens"@),
        doc.integer_member("prompt_tokens"@),
        doc.integer_member("total_tokens"@),
    ) {
        (Some(completion_tokens), Some(prompt_tokens), Some(total_tokens)) => Some(
            ChatCompletionChunkUsage { completion_tokens, prompt_tokens, total_tokens },
        ),
        _ => None,
    }
}

/// The function that a JSON value states: an object with `name` and
/// `arguments` as strings.
pub open spec fn function_of(doc: JsonValue) -> Option<FunctionView> {
    match (doc.text_member("name"@), doc.text_member("arguments"@)) {
        (Some(name), Some(arguments)) => Some(FunctionView { name, arguments }),
        _ => None,
    }
}

/// The tool call that a JSON value states: an object with `index` as an
/// integer, `id` and `type` as strings, and `function` as a function.
pub open spec fn tool_call_of(doc: JsonValue) -> Option<ToolCallView> {
    match (
        doc.integer_member("index"@),
        doc.text_member("id"@),
        doc.text_member("type"@),
        doc.member("function"@),
    ) {
        (Some(index), Some(id), Some(my_type), Some(f)) => match function_of(f) {
            Some(function) => Some(ToolCallView { index, id, my_type, function }),
            None => None,
        },
        _ => None,
    }
}

/// The tool calls that a JSON value states: an array of tool calls.
pub open spec fn tool_calls_of(doc: JsonValue) -> Option<Seq<ToolCallView>> {
    list(doc, |d: JsonValue| tool_call_of(d))
}

/// The text of a JSON string.
pub open spec fn text_of(doc: JsonValue) -> Option<Seq<char>> {
    doc.text()
}

/// The increment of a message that one choice carries.
#[derive(Debug, PartialEq, Eq)]
pub struct ChatCompletionChunkDelta {
    /// The text that this increment adds; it may be empty.
    pub content: String,
    pub tool_calls: Option<Vec<ChatCompletionChunkToolCall>>,
    /// The speaker, on the first increment of a response.
    pub role: Option<String>,
}

/// The value of a [`ChatCompletionChunkDelta`].
pub struct DeltaView {
    pub content: Seq<char>,
    pub tool_calls: Option<Seq<ToolCallView>>,
    pub role: Option<Seq<char>>,
}

impl View for ChatCompletionChunkDelta {
    type V = DeltaView;

    open spec fn view(&self) -> DeltaView {
        DeltaView {
            content: self.content@,
            tool_calls: match self.tool_calls {
                Some(calls) => Some(views(calls@)),
                None => None,
            },
            role: match self.role {
                Some(role) => Some(role@),
                None => None,
            },
        }
    }
}

/// The delta that a JSON value states: an object with `content` as a string
/// and, where they are there and not `null`, `tool_calls` as an array of tool
/// calls and `role` as a string.
pub open spec fn delta_of(doc: JsonValue) -> Option<DeltaView> {
    match (
        doc.text_member("content"@),
        optional(doc.present_member("tool_calls"@), |d: JsonValue| tool_calls_of(d)),
        optional(doc.present_member("role"@), |d: JsonValue| text_of(d)),
    ) {
        (Some(content), Some(tool_calls), Some(role)) => Some(
            DeltaView { content, tool_calls, role },
        ),
        _ => None,
    }
}

/// One token of a completion with how probable it was.
#[derive(Debug, PartialEq, Eq)]
pub struct ChatCompletionChunkLogprobsContent {
    pub token: String,
    /// The log-probability of the token, as the bit pattern of a double.
    pub logprob_bits: u64,
    pub bytes: Vec<u8>,
    /// The tokens that were most probable at this place.
    pub top_logprobs: Vec<ChatCompletionChunkLogprobsContent>,
}

/// The value of a [`ChatCompletionChunkLogprobsContent`].
pub struct LogprobsContentView {
    pub token: Seq<char>,
    pub logprob_bits: u64,
    pub bytes: Seq<u8>,
    pub top_logprobs: Seq<LogprobsContentView>,
}

/// The value of a token record, with the tokens under it by their values.
pub open spec fn content_value(content: ChatCompletionChunkLogprobsContent) -> LogprobsContentView
    decreases content,
{
    LogprobsContentView {
        token: content.token@,
        logprob_bits: content.logprob_bits,
        bytes: content.bytes@,
        top_logprobs: Seq::new(
            content.top_logprobs.len() as nat,
            |i: int|
                if 0 <= i < content.top_logprobs.len() {
                    content_value(content.top_logprobs[i])
                } else {
                    arbitrary()
                },
        ),
    }
}

impl View for ChatCompletionChunkLogprobsContent {
    type V = LogprobsContentView;

    open spec fn view(&self) -> LogprobsContentView {
        content_value(*self)
    }
}

/// The byte that a JSON value states: an integer from 0 to 255.
pub open spec fn byte_of(doc: JsonValue) -> Option<u8> {
    match doc.integer() {
        Some(n) => if 0 <= n <= 255 {
            Some(n as u8)
        } else {
            None
        },
        None => None,
    }
}

/// The bytes that a JSON value states: an array of bytes.
pub open spec fn bytes_of(doc: JsonValue) -> Option<Seq<u8>> {
    list(doc, |d: JsonValue| byte_of(d))
}

/// The token record that a JSON value states: an object with `token` as a
/// string, `logprob` as a number, `bytes` as an array of bytes and
/// `top_logprobs` as an array of token records.
pub open spec fn logprobs_content_of(doc: JsonValue) -> Option<LogprobsContentView>
    decreases doc,
{
    match (
        doc.text_member("token"@),
        doc.real_member("logprob"@),
        doc.member("bytes"@),
        doc.array_member("top_logprobs"@),
    ) {
        (Some(token), Some(logprob_bits), Some(b), Some(tops)) => match bytes_of(b) {
            Some(bytes) => if forall|i: int|
                0 <= i < tops.len() ==> logprobs_content_of(#[trigger] tops[i]) is Some {
                Some(
                    LogprobsContentView {
                        token,
                        logprob_bits,
                        bytes,
                        top_logprobs: Seq::new(
                            tops.len(),
                            |i: int|
                                if 0 <= i < tops.len() {
                                    logprobs_content_of(tops[i]).unwrap()
                                } else {
                                    arbitrary()
                                },
                        ),
                    },
                )
            } else {
                None
            },
            None => None,
        },
        _ => None,
    }
}

/// The log-probability detail of one choice.
#[derive(Debug, PartialEq, Eq)]
pub struct ChatCompletionChunkLogprobs {
    pub content: Vec<ChatCompletionChunkLogprobsContent>,
}

/// The value of a [`ChatCompletionChunkLogprobs`].
pub struct LogprobsView {
    pub content: Seq<LogprobsContentView>,
}

impl View for ChatCompletionChunkLogprobs {
    type V = LogprobsView;

    open spec fn view(&self) -> LogprobsView {
        LogprobsView { content: views(self.content@) }
    }
}

/// The detail that a JSON value states: an object with `content` as an array
/// of token records.
pub open spec fn logprobs_of(doc: JsonValue) -> Option<LogprobsView> {
    match doc.member("content"@) {
        Some(c) => match list(c, |d: JsonValue| logprobs_content_of(d)) {
            Some(content) => Some(LogprobsView { content }),
            None => None,
        },
        None => None,
    }
}

/// One of the alternatives that a chunk continues.
#[derive(Debug, PartialEq, Eq)]
pub struct ChatCompletionChunkChoice {
    pub delta: ChatCompletionChunkDelta,
    pub logprobs: Option<ChatCompletionChunkLogprobs>,
    /// Why the response stopped; there only on the choice that ends it.
    pub finish_reason: Option<String>,
    pub index: i64,
}

/// The value of a [`ChatCompletionChunkChoice`].
pub struct ChoiceView {
    pub delta: DeltaView,
    pub logprobs: Option<LogprobsView>,
    pub finish_reason: Option<Seq<char>>,
    pub index: i64,
}

impl View for ChatCompletionChunkChoice {
    type V = ChoiceView;

    open spec fn view(&self) -> ChoiceView {
        ChoiceView {
            delta: self.delta@,
            logprobs: match self.logprobs {
                Some(logprobs) => Some(logprobs@),
                None => None,
            },
            finish_reason: match self.finish_reason {
                Some(reason) => Some(reason@),
                None => None,
            },
            index: self.index,
        }
    }
}

/// The choice that a JSON value states: an object with `delta` as a delta,
/// `index` as an integer and, where they are there and not `null`, `logprobs`
/// as log-probability detail and `finish_reason` as a string.
pub open spec fn choice_of(doc: JsonValue) -> Option<ChoiceView> {
    match (
        doc.member("delta"@),
        optional(doc.present_member("logprobs"@), |d: JsonValue| logprobs_of(d)),
        optional(doc.present_member("finish_reason"@), |d: JsonValue| text_of(d)),
        doc.integer_member("index"@),
    ) {
        (Some(d), Some(logprobs), Some(finish_reason), Some(index)) => match delta_of(d) {
            Some(delta) => Some(ChoiceView { delta, logprobs, finish_reason, index }),
            None => None,
        },
        _ => None,
    }
}

/// One record of a streamed completion.
#[derive(Debug, PartialEq, Eq)]
pub struct ChatCompletionChunk {
    pub id: String,
    /// The choices, in the order in which the record gives them.
    pub choices: Vec<ChatCompletionChunkChoice>,
    pub created: i64,
    pub model: String,
    pub server_tier: String,
    pub system_fingerprint: String,
    pub object: String,
    pub usage: ChatCompletionChunkUsage,
}

/// The value of a [`ChatCompletionChunk`].
pub struct ChunkView {
    pub id: Seq<char>,
    pub choices: Seq<ChoiceView>,
    pub created: i64,
    pub model: Seq<char>,
    pub server_tier: Seq<char>,
    pub system_fingerprint: Seq<char>,
    pub object: Seq<char>,
    pub usage: ChatCompletionChunkUsage,
}

impl View for ChatCompletionChunk {
    type V = ChunkView;

    open spec fn view(&self) -> ChunkView {
        ChunkView {
            id: self.id@,
            choices: views(self.choices@),
            created: self.created,
            model: self.model@,
            server_tier: self.server_tier@,
            system_fingerprint: self.system_fingerprint@,
            object: self.object@,
            usage: self.usage,
        }
    }
}

/// The strings and the integer at the top of a chunk.
pub struct ChunkHeader {
    pub id: Seq<char>,
    pub created: i64,
    pub model: Seq<char>,
    pub server_tier: Seq<char>,
    pub system_fingerprint: Seq<char>,
    pub object: Seq<char>,
}

/// The header that a JSON value states: an object with `id`, `model`,
/// `server_tier`, `system_fingerprint` and `object` as strings and `created`
/// as an integer.
pub open spec fn header_of(doc: JsonValue) -> Option<ChunkHeader> {
    match (
        doc.text_member("id"@),
        doc.integer_member("created"@),
        doc.text_member("model"@),
        doc.text_member("server_tier"@),
        doc.text_member("system_fingerprint"@),
        doc.text_member("object"@),
    ) {
        (
            Some(id),
            Some(created),
            Some(model),
            Some(server_tier),
            Some(system_fingerprint),
            Some(object),
        ) => Some(ChunkHeader { id, created, model, server_tier, system_fingerprint, object }),
        _ => None,
    }
}

/// The chunk that a JSON value states: an object with a header, `choices` as
/// an array of choices, which may be empty, and `usage` as a usage. Members
/// that the record does not name are passed over.
pub open spec fn chunk_of(doc: JsonValue) -> Option<ChunkView> {
    match (header_of(doc), doc.member("choices"@), doc.member("usage"@)) {
        (Some(header), Some(c), Some(u)) => match (
            list(c, |d: JsonValue| choice_of(d)),
            usage_of(u),
        ) {
            (Some(choices), Some(usage)) => Some(
                ChunkView {
                    id: header.id,
                    choices,
                    created: header.created,
                    model: header.model,
                    server_tier: header.server_tier,
                    system_fingerprint: header.system_fingerprint,
                    object: header.object,
                    usage,
                },
            ),
            _ => None,
        },
        _ => None,
    }
}

impl ChatCompletionChunkUsage {
    /// Reads the usage out of a JSON value.
    pub fn decode(doc: &Json) -> (r: Option<Self>)
        ensures
            r == usage_of(doc@),
    {
        let completion_tokens = match doc.integer_member("completion_tokens") {
            Some(n) => n,
            None => return None,
        };
        let prompt_tokens = match doc.integer_member("prompt_tokens") {
            Some(n) => n,
            None => return None,
        };
        let total_tokens = match doc.integer_member("total_tokens") {
            Some(n) => n,
            None => return None,
        };
        Some(ChatCompletionChunkUsage { completion_tokens, prompt_tokens, total_tokens })
    }
}

impl ChatCompletionChunkFunction {
    /// Reads a function out of a JSON value.
    pub fn decode(doc: &Json) -> (r: Option<Self>)
        ensures
            match r {
                Some(f) => function_of(doc@) == Some(f@),
                None => function_of(doc@) is None,
            },
    {
        let name = match doc.text_member("name") {
            Some(s) => s,
            None => return None,
        };
        let arguments = match doc.text_member("arguments") {
            Some(s) => s,
            None => return None,
        };
        Some(ChatCompletionChunkFunction { name, arguments })
    }
}

impl ChatCompletionChunkToolCall {
    /// Reads a tool call out of a JSON value.
    pub fn decode(doc: &Json) -> (r: Option<Self>)
        ensures
            match r {
                Some(call) => tool_call_of(doc@) == Some(call@),
                None => tool_call_of(doc@) is None,
            },
    {
        let index = match doc.integer_member("index") {
            Some(n) => n,
            None => return None,
        };
        let id = match doc.text_member("id") {
            Some(s) => s,
            None => return None,
        };
        let my_type = match doc.text_member("type") {
            Some(s) => s,
            None => return None,
        };
        let function = match doc.member("function") {
            Some(f) => match ChatCompletionChunkFunction::decode(f) {
                Some(function) => function,
                None => return None,
            },
            None => return None,
        };
        Some(ChatCompletionChunkToolCall { index, id, my_type, function })
    }
}

impl ChatCompletionChunkDelta {
    /// Reads the tool calls out of a JSON array.
    fn decode_tool_calls(doc: &Json) -> (r: Option<Vec<ChatCompletionChunkToolCall>>)
        ensures
            match r {
                Some(calls) => tool_calls_of(doc@) == Some(views(calls@)),
                None => tool_calls_of(doc@) is None,
            },
    {
        let items = match doc.as_array() {
            Some(items) => items,
            None => return None,
        };
        let ghost docs = doc@.items().unwrap();
        let mut calls: Vec<ChatCompletionChunkToolCall> = Vec::new();
        let mut i: usize = 0;
        while i < items.len()
            invariant
                i <= items.len(),
                doc@.items() == Some(docs),
                docs.len() == items.len(),
                forall|k: int| 0 <= k < items.len() ==> docs[k] == #[trigger] items[k]@,
                calls.len() == i,
                forall|k: int| 0 <= k < i ==> tool_call_of(docs[k]) == Some(#[trigger] calls[k]@),
            decreases items.len() - i,
        {
            match ChatCompletionChunkToolCall::decode(&items[i]) {
                Some(call) => calls.push(call),
                None => {
                    proof {
                        lemma_each_none(docs, |d: JsonValue| tool_call_of(d), i as int);
                    }
                    return None;
                },
            }
            i += 1;
        }
        proof {
            lemma_each_some(docs, |d: JsonValue| tool_call_of(d), views(calls@));
        }
        Some(calls)
    }

    /// Reads a delta out of a JSON value.
    pub fn decode(doc: &Json) -> (r: Option<Self>)
        ensures
            match r {
                Some(delta) => delta_of(doc@) == Some(delta@),
                None => delta_of(doc@) is None,
            },
    {
        let content = match doc.text_member("content") {
            Some(s) => s,
            None => return None,
        };
        let tool_calls = match doc.present_member("tool_calls") {
            Some(v) => match Self::decode_tool_calls(v) {
                Some(calls) => Some(calls),
                None => return None,
            },
            None => None,
        };
        let role = match doc.present_member("role") {
            Some(v) => match v.as_text() {
                Some(s) => Some(s.clone()),
                None => return None,
            },
            None => None,
        };
        Some(ChatCompletionChunkDelta { content, tool_calls, role })
    }
}

impl ChatCompletionChunkLogprobsContent {
    /// Reads bytes out of a JSON array.
    fn decode_bytes(doc: &Json) -> (r: Option<Vec<u8>>)
        ensures
            match r {
                Some(bytes) => bytes_of(doc@) == Some(bytes@),
                None => bytes_of(doc@) is None,
            },
    {
        let items = match doc.as_array() {
            Some(items) => items,
            None => return None,
        };
        let ghost docs = doc@.items().unwrap();
        let mut bytes: Vec<u8> = Vec::new();
        let mut i: usize = 0;
        while i < items.len()
            invariant
                i <= items.len(),
                doc@.items() == Some(docs),
                docs.len() == items.len(),
                forall|k: int| 0 <= k < items.len() ==> docs[k] == #[trigger] items[k]@,
                bytes.len() == i,
                forall|k: int| 0 <= k < i ==> byte_of(docs[k]) == Some(#[trigger] bytes[k]),
            decreases items.len() - i,
        {
            let byte = match items[i].as_integer() {
                Some(n) => if 0 <= n && n <= 255 {
                    n as u8
                } else {
                    proof {
                        lemma_each_none(docs, |d: JsonValue| byte_of(d), i as int);
                    }
                    return None;
                },
                None => {
                    proof {
                        lemma_each_none(docs, |d: JsonValue| byte_of(d), i as int);
                    }
                    return None;
                },
            };
            bytes.push(byte);
            i += 1;
        }
        proof {
            lemma_each_some(docs, |d: JsonValue| byte_of(d), bytes@);
        }
        Some(bytes)
    }

    /// Reads a token record out of a JSON value.
    pub fn decode(doc: &Json) -> (r: Option<Self>)
        ensures
            match r {
                Some(content) => logprobs_content_of(doc@) == Some(content@),
                None => logprobs_content_of(doc@) is None,
            },
        decreases doc@,
    {
        let token = match doc.text_member("token") {
            Some(s) => s,
            None => return None,
        };
        let logprob_bits = match doc.real_member("logprob") {
            Some(bits) => bits,
            None => return None,
        };
        let bytes = match doc.member("bytes") {
            Some(b) => match Self::decode_bytes(b) {
                Some(bytes) => bytes,
                None => return None,
            },
            None => return None,
        };
        let items = match doc.array_member("top_logprobs") {
            Some(items) => items,
            None => return None,
        };
        let ghost tops = doc@.array_member("top_logprobs"@).unwrap();
        let mut top_logprobs: Vec<ChatCompletionChunkLogprobsContent> = Vec::new();
        let mut i: usize = 0;
        while i < items.len()
            invariant
                i <= items.len(),
                doc@.text_member("token"@) == Some(token@),
                doc@.real_member("logprob"@) == Some(logprob_bits),
                doc@.member("bytes"@) is Some,
                bytes_of(doc@.member("bytes"@).unwrap()) == Some(bytes@),
                doc@.array_member("top_logprobs"@) == Some(tops),
                tops.len() == items.len(),
                forall|k: int| 0 <= k < items.len() ==> tops[k] == #[trigger] items[k]@,
                top_logprobs.len() == i,
                forall|k: int|
                    0 <= k < i ==> logprobs_content_of(#[trigger] tops[k]) == Some(top_logprobs[k]@),
            decreases items.len() - i,
        {
            match Self::decode(&items[i]) {
                Some(content) => top_logprobs.push(content),
                None => {
                    assert(logprobs_content_of(tops[i as int]) is None);
                    return None;
                },
            }
            i += 1;
        }
        let content = ChatCompletionChunkLogprobsContent { token, logprob_bits, bytes, top_logprobs };
        assert(logprobs_content_of(doc@) is Some);
        assert(logprobs_content_of(doc@).unwrap().top_logprobs =~= content@.top_logprobs);
        Some(content)
    }
}

impl ChatCompletionChunkLogprobs {
    /// Reads log-probability detail out of a JSON value.
    pub fn decode(doc: &Json) -> (r: Option<Self>)
        ensures
            match r {
                Some(logprobs) => logprobs_of(doc@) == Some(logprobs@),
                None => logprobs_of(doc@) is None,
            },
    {
        let items = match doc.array_member("content") {
            Some(items) => items,
            None => return None,
        };
        let ghost docs = doc@.array_member("content"@).unwrap();
        let mut content: Vec<ChatCompletionChunkLogprobsContent> = Vec::new();
        let mut i: usize = 0;
        while i < items.len()
            invariant
                i <= items.len(),
                doc@.array_member("content"@) == Some(docs),
                docs.len() == items.len(),
                forall|k: int| 0 <= k < items.len() ==> docs[k] == #[trigger] items[k]@,
                content.len() == i,
                forall|k: int|
                    0 <= k < i ==> logprobs_content_of(docs[k]) == Some(#[trigger] content[k]@),
            decreases items.len() - i,
        {
            match ChatCompletionChunkLogprobsContent::decode(&items[i]) {
                Some(one) => content.push(one),
                None => {
                    proof {
                        lemma_each_none(docs, |d: JsonValue| logprobs_content_of(d), i as int);
                    }
                    return None;
                },
            }
            i += 1;
        }
        proof {
            lemma_each_some(docs, |d: JsonValue| logprobs_content_of(d), views(content@));
        }
        Some(ChatCompletionChunkLogprobs { content })
    }
}

impl ChatCompletionChunkChoice {
    /// Reads a choice out of a JSON value.
    pub fn decode(doc: &Json) -> (r: Option<Self>)
        ensures
            match r {
                Some(choice) => choice_of(doc@) == Some(choice@),
                None => choice_of(doc@) is None,
            },
    {
        let delta = match doc.member("delta") {
            Some(d) => match ChatCompletionChunkDelta::decode(d) {
                Some(delta) => delta,
                None => return None,
            },
            None => return None,
        };
        let logprobs = match doc.present_member("logprobs") {
            Some(v) => match ChatCompletionChunkLogprobs::decode(v) {
                Some(logprobs) => Some(logprobs),
                None => return None,
            },
            None => None,
        };
        let finish_reason = match doc.present_member("finish_reason") {
            Some(v) => match v.as_text() {
                Some(s) => Some(s.clone()),
                None => return None,
            },
            None => None,
        };
        let index = match doc.integer_member("index") {
            Some(n) => n,
            None => return None,
        };
        Some(ChatCompletionChunkChoice { delta, logprobs, finish_reason, index })
    }

    /// Whether this choice carries a finish reason.
    pub fn is_final(&self) -> (r: bool)
        ensures
            r == (self@.finish_reason is Some),
    {
        self.finish_reason.is_some()
    }
}

impl ChatCompletionChunk {
    /// Reads the choices out of a JSON array.
    fn decode_choices(doc: &Json) -> (r: Option<Vec<ChatCompletionChunkChoice>>)
        ensures
            match r {
                Some(choices) => list(doc@, |d: JsonValue| choice_of(d)) == Some(views(choices@)),
                None => list(doc@, |d: JsonValue| choice_of(d)) is None,
            },
    {
        let items = match doc.as_array() {
            Some(items) => items,
            None => return None,
        };
        let ghost docs = doc@.items().unwrap();
        let mut choices: Vec<ChatCompletionChunkChoice> = Vec::new();
        let mut i: usize = 0;
        while i < items.len()
            invariant
                i <= items.len(),
                doc@.items() == Some(docs),
                docs.len() == items.len(),
                forall|k: int| 0 <= k < items.len() ==> docs[k] == #[trigger] items[k]@,
                choices.len() == i,
                forall|k: int| 0 <= k < i ==> choice_of(docs[k]) == Some(#[trigger] choices[k]@),
            decreases items.len() - i,
        {
            match ChatCompletionChunkChoice::decode(&items[i]) {
                Some(choice) => choices.push(choice),
                None => {
                    proof {
                        lemma_each_none(docs, |d: JsonValue| choice_of(d), i as int);
                    }
                    return None;
                },
            }
            i += 1;
        }
        proof {
            lemma_each_some(docs, |d: JsonValue| choice_of(d), views(choices@));
        }
        Some(choices)
    }

    /// Reads a chunk out of a JSON document.
    pub fn decode(doc: &Json) -> (r: Option<Self>)
        ensures
            match r {
                Some(chunk) => chunk_of(doc@) == Some(chunk@),
                None => chunk_of(doc@) is None,
            },
    {
        let id = match doc.text_member("id") {
            Some(s) => s,
            None => return None,
        };
        let created = match doc.integer_member("created") {
            Some(n) => n,
            None => return None,
        };
        let model = match doc.text_member("model") {
            Some(s) => s,
            None => return None,
        };
        let server_tier = match doc.text_member("server_tier") {
            Some(s) => s,
            None => return None,
        };
        let system_fingerprint = match doc.text_member("system_fingerprint") {
            Some(s) => s,
            None => return None,
        };
        let object = match doc.text_member("object") {
            Some(s) => s,
            None => return None,
        };
        let choices = match doc.member("choices") {
            Some(c) => match Self::decode_choices(c) {
                Some(choices) => choices,
                None => return None,
            },
            None => return None,
        };
        let usage = match doc.member("usage") {
            Some(u) => match ChatCompletionChunkUsage::decode(u) {
                Some(usage) => usage,
                None => return None,
            },
            None => return None,
        };
        Some(
            ChatCompletionChunk {
                id,
                choices,
                created,
                model,
                server_tier,
                system_fingerprint,
                object,
                usage,
            },
        )
    }
}

} // verus!
