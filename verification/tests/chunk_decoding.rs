use chat_stream::chunk::{
    ChatCompletionChunk, ChatCompletionChunkChoice, ChatCompletionChunkDelta,
    ChatCompletionChunkFunction, ChatCompletionChunkLogprobs, ChatCompletionChunkLogprobsContent,
    ChatCompletionChunkToolCall, ChatCompletionChunkUsage,
};
use chat_stream::decode::{decode_document, decode_fragment, ChunkDefect, DecodeError};
use chat_stream::json::{parse, Json, JsonNumber};

fn doc(text: &str) -> Json {
    match parse(text.replace('\'', "\"").as_bytes()) {
        Some(parsed) => parsed,
        None => panic!("the test wrote bad JSON: {}", text),
    }
}

fn bytes(text: &str) -> Vec<u8> {
    text.replace('\'', "\"").into_bytes()
}

const USAGE: &str = "{'completion_tokens': 1, 'prompt_tokens': 2, 'total_tokens': 3}";

fn chunk_text(choices: &str) -> String {
    format!(
        "{{'id': 'c-1', 'choices': [{}], 'created': 1700000000, 'model': 'gpt-3.5-turbo-1106', \
         'server_tier': 'default', 'system_fingerprint': 'fp_1', 'object': \
         'chat.completion.chunk', 'usage': {}}}",
        choices, USAGE
    )
}

fn without(text: &str, member: &str) -> Json {
    match doc(text) {
        Json::Object(members) => {
            let kept: Vec<(String, Json)> =
                members.into_iter().filter(|(key, _)| key != member).collect();
            Json::Object(kept)
        }
        _ => panic!("an object was expected"),
    }
}

fn with(text: &str, member: &str, value: Json) -> Json {
    match without(text, member) {
        Json::Object(mut members) => {
            members.push((member.to_string(), value));
            Json::Object(members)
        }
        _ => panic!("an object was expected"),
    }
}

fn number(n: i64) -> Json {
    Json::Number(JsonNumber { integer: Some(n), real_bits: Some((n as f64).to_bits()) })
}

fn malformed(defect: ChunkDefect) -> DecodeError {
    DecodeError::MalformedChunk(defect)
}

#[test]
fn usage_is_read_from_its_three_counts() {
    assert_eq!(
        ChatCompletionChunkUsage::decode(&doc(USAGE)),
        Some(ChatCompletionChunkUsage { completion_tokens: 1, prompt_tokens: 2, total_tokens: 3 })
    );
}

#[test]
fn usage_needs_each_count() {
    for member in ["completion_tokens", "prompt_tokens", "total_tokens"] {
        assert_eq!(ChatCompletionChunkUsage::decode(&without(USAGE, member)), None);
        assert_eq!(
            ChatCompletionChunkUsage::decode(&with(USAGE, member, Json::Text("1".to_string()))),
            None
        );
        assert_eq!(ChatCompletionChunkUsage::decode(&with(USAGE, member, Json::Null)), None);
    }
}

#[test]
fn usage_takes_no_fraction_and_nothing_beyond_the_range() {
    assert_eq!(
        ChatCompletionChunkUsage::decode(&doc(
            "{'completion_tokens': 1.5, 'prompt_tokens': 2, 'total_tokens': 3}"
        )),
        None
    );
    assert_eq!(
        ChatCompletionChunkUsage::decode(&doc(
            "{'completion_tokens': 9223372036854775808, 'prompt_tokens': 2, 'total_tokens': 3}"
        )),
        None
    );
    assert_eq!(
        ChatCompletionChunkUsage::decode(&doc(
            "{'completion_tokens': -1, 'prompt_tokens': 0, 'total_tokens': 9223372036854775807}"
        )),
        Some(ChatCompletionChunkUsage {
            completion_tokens: -1,
            prompt_tokens: 0,
            total_tokens: i64::MAX
        })
    );
}

#[test]
fn usage_is_an_object() {
    assert_eq!(ChatCompletionChunkUsage::decode(&doc("[1, 2, 3]")), None);
    assert_eq!(ChatCompletionChunkUsage::decode(&Json::Null), None);
}

#[test]
fn members_that_are_not_named_are_passed_over() {
    assert_eq!(
        ChatCompletionChunkUsage::decode(&with(USAGE, "cached_tokens", number(9))),
        Some(ChatCompletionChunkUsage { completion_tokens: 1, prompt_tokens: 2, total_tokens: 3 })
    );
}

#[test]
fn function_is_read_from_name_and_arguments() {
    let text = "{'name': 'lookup', 'arguments': '{}'}";
    assert_eq!(
        ChatCompletionChunkFunction::decode(&doc(text)),
        Some(ChatCompletionChunkFunction {
            name: "lookup".to_string(),
            arguments: "{}".to_string()
        })
    );
    assert_eq!(ChatCompletionChunkFunction::decode(&without(text, "name")), None);
    assert_eq!(ChatCompletionChunkFunction::decode(&without(text, "arguments")), None);
    assert_eq!(ChatCompletionChunkFunction::decode(&with(text, "name", number(1))), None);
}

const TOOL_CALL: &str =
    "{'index': 0, 'id': 'call_1', 'type': 'function', 'function': {'name': 'f', 'arguments': ''}}";

fn tool_call() -> ChatCompletionChunkToolCall {
    ChatCompletionChunkToolCall {
        index: 0,
        id: "call_1".to_string(),
        my_type: "function".to_string(),
        function: ChatCompletionChunkFunction {
            name: "f".to_string(),
            arguments: String::new(),
        },
    }
}

#[test]
fn tool_call_is_read_with_type_as_my_type() {
    assert_eq!(ChatCompletionChunkToolCall::decode(&doc(TOOL_CALL)), Some(tool_call()));
}

#[test]
fn tool_call_needs_each_member() {
    for member in ["index", "id", "type", "function"] {
        assert_eq!(ChatCompletionChunkToolCall::decode(&without(TOOL_CALL, member)), None);
    }
    assert_eq!(
        ChatCompletionChunkToolCall::decode(&with(TOOL_CALL, "function", doc("{'name': 'f'}"))),
        None
    );
    assert_eq!(
        ChatCompletionChunkToolCall::decode(&with(
            TOOL_CALL,
            "my_type",
            Json::Text("function".to_string())
        )),
        Some(tool_call())
    );
    assert_eq!(
        ChatCompletionChunkToolCall::decode(&with(
            &TOOL_CALL.replace("'type'", "'my_type'"),
            "id",
            Json::Text("call_1".to_string())
        )),
        None
    );
}

#[test]
fn delta_needs_only_its_content() {
    assert_eq!(
        ChatCompletionChunkDelta::decode(&doc("{'content': 'Hi'}")),
        Some(ChatCompletionChunkDelta {
            content: "Hi".to_string(),
            tool_calls: None,
            role: None
        })
    );
    assert_eq!(
        ChatCompletionChunkDelta::decode(&doc("{'content': ''}")),
        Some(ChatCompletionChunkDelta { content: String::new(), tool_calls: None, role: None })
    );
    assert_eq!(ChatCompletionChunkDelta::decode(&doc("{}")), None);
    assert_eq!(ChatCompletionChunkDelta::decode(&doc("{'content': null}")), None);
    assert_eq!(ChatCompletionChunkDelta::decode(&doc("{'content': 1}")), None);
    assert_eq!(ChatCompletionChunkDelta::decode(&doc("{'role': 'assistant'}")), None);
    assert_eq!(ChatCompletionChunkDelta::decode(&doc("'Hi'")), None);
}

#[test]
fn delta_reads_role_and_tool_calls_where_they_are() {
    let text = format!("{{'content': '', 'role': 'assistant', 'tool_calls': [{}]}}", TOOL_CALL);
    assert_eq!(
        ChatCompletionChunkDelta::decode(&doc(&text)),
        Some(ChatCompletionChunkDelta {
            content: String::new(),
            tool_calls: Some(vec![tool_call()]),
            role: Some("assistant".to_string()),
        })
    );
    assert_eq!(
        ChatCompletionChunkDelta::decode(&doc("{'content': 'a', 'tool_calls': []}")),
        Some(ChatCompletionChunkDelta {
            content: "a".to_string(),
            tool_calls: Some(vec![]),
            role: None
        })
    );
}

#[test]
fn delta_takes_null_for_left_out() {
    assert_eq!(
        ChatCompletionChunkDelta::decode(&doc("{'content': 'a', 'role': null, 'tool_calls': null}")),
        Some(ChatCompletionChunkDelta { content: "a".to_string(), tool_calls: None, role: None })
    );
}

#[test]
fn delta_refuses_a_role_or_tool_calls_of_the_wrong_kind() {
    assert_eq!(ChatCompletionChunkDelta::decode(&doc("{'content': 'a', 'role': 1}")), None);
    assert_eq!(ChatCompletionChunkDelta::decode(&doc("{'content': 'a', 'tool_calls': {}}")), None);
    assert_eq!(
        ChatCompletionChunkDelta::decode(&doc("{'content': 'a', 'tool_calls': [{'index': 0}]}")),
        None
    );
    let second_bad = format!("{{'content': 'a', 'tool_calls': [{}, 1]}}", TOOL_CALL);
    assert_eq!(ChatCompletionChunkDelta::decode(&doc(&second_bad)), None);
}

const TOKEN: &str = "{'token': 'Hi', 'logprob': -0.5, 'bytes': [72, 105], 'top_logprobs': []}";

fn token() -> ChatCompletionChunkLogprobsContent {
    ChatCompletionChunkLogprobsContent {
        token: "Hi".to_string(),
        logprob_bits: (-0.5f64).to_bits(),
        bytes: vec![72, 105],
        top_logprobs: vec![],
    }
}

#[test]
fn token_record_is_read_with_its_logprob_as_bits() {
    let decoded = ChatCompletionChunkLogprobsContent::decode(&doc(TOKEN)).unwrap();
    assert_eq!(decoded, token());
    assert_eq!(f64::from_bits(decoded.logprob_bits), -0.5);
}

#[test]
fn token_record_takes_an_integer_for_its_logprob() {
    let decoded =
        ChatCompletionChunkLogprobsContent::decode(&with(TOKEN, "logprob", number(-2))).unwrap();
    assert_eq!(f64::from_bits(decoded.logprob_bits), -2.0);
}

#[test]
fn token_record_needs_each_member() {
    for member in ["token", "logprob", "bytes", "top_logprobs"] {
        assert_eq!(ChatCompletionChunkLogprobsContent::decode(&without(TOKEN, member)), None);
        assert_eq!(
            ChatCompletionChunkLogprobsContent::decode(&with(TOKEN, member, Json::Null)),
            None
        );
    }
    assert_eq!(
        ChatCompletionChunkLogprobsContent::decode(&with(
            TOKEN,
            "logprob",
            Json::Text("-0.5".to_string())
        )),
        None
    );
}

#[test]
fn bytes_are_integers_from_0_to_255() {
    let edge = ChatCompletionChunkLogprobsContent::decode(&with(TOKEN, "bytes", doc("[0, 255]")));
    assert_eq!(edge.unwrap().bytes, vec![0u8, 255u8]);
    let none = ChatCompletionChunkLogprobsContent::decode(&with(TOKEN, "bytes", doc("[]")));
    assert_eq!(none.unwrap().bytes, Vec::<u8>::new());
    for bad in ["[256]", "[-1]", "[1.0]", "['a']", "[72, null]", "{}", "'Hi'"] {
        assert_eq!(
            ChatCompletionChunkLogprobsContent::decode(&with(TOKEN, "bytes", doc(bad))),
            None
        );
    }
}

#[test]
fn token_records_nest() {
    let inner = format!("[{}, {}]", TOKEN, TOKEN.replace("'Hi'", "'Ho'"));
    let outer = with(TOKEN, "top_logprobs", doc(&inner));
    let decoded = ChatCompletionChunkLogprobsContent::decode(&outer).unwrap();
    assert_eq!(decoded.top_logprobs.len(), 2);
    assert_eq!(decoded.top_logprobs[0], token());
    assert_eq!(decoded.top_logprobs[1].token, "Ho");
    let deeper = with(TOKEN, "top_logprobs", Json::Array(vec![outer]));
    let decoded = ChatCompletionChunkLogprobsContent::decode(&deeper).unwrap();
    assert_eq!(decoded.top_logprobs[0].top_logprobs[0], token());
}

#[test]
fn a_bad_token_record_below_spoils_the_one_above() {
    let bad_inner = with(TOKEN, "top_logprobs", doc("[{'token': 'x'}]"));
    assert_eq!(ChatCompletionChunkLogprobsContent::decode(&bad_inner), None);
    let deeper = with(TOKEN, "top_logprobs", Json::Array(vec![doc(TOKEN), bad_inner]));
    assert_eq!(ChatCompletionChunkLogprobsContent::decode(&deeper), None);
    assert_eq!(
        ChatCompletionChunkLogprobsContent::decode(&with(TOKEN, "top_logprobs", doc("{}"))),
        None
    );
}

#[test]
fn logprobs_are_read_from_their_content() {
    let text = format!("{{'content': [{}]}}", TOKEN);
    assert_eq!(
        ChatCompletionChunkLogprobs::decode(&doc(&text)),
        Some(ChatCompletionChunkLogprobs { content: vec![token()] })
    );
    assert_eq!(
        ChatCompletionChunkLogprobs::decode(&doc("{'content': []}")),
        Some(ChatCompletionChunkLogprobs { content: vec![] })
    );
    assert_eq!(ChatCompletionChunkLogprobs::decode(&doc("{}")), None);
    assert_eq!(ChatCompletionChunkLogprobs::decode(&doc("{'content': null}")), None);
    assert_eq!(ChatCompletionChunkLogprobs::decode(&doc("{'content': [1]}")), None);
}

const CHOICE: &str = "{'delta': {'content': 'Hi'}, 'finish_reason': null, 'index': 0}";

fn choice(content: &str, finish_reason: Option<&str>, index: i64) -> ChatCompletionChunkChoice {
    ChatCompletionChunkChoice {
        delta: ChatCompletionChunkDelta {
            content: content.to_string(),
            tool_calls: None,
            role: None,
        },
        logprobs: None,
        finish_reason: finish_reason.map(|reason| reason.to_string()),
        index,
    }
}

#[test]
fn choice_is_read_with_what_may_be_left_out() {
    assert_eq!(ChatCompletionChunkChoice::decode(&doc(CHOICE)), Some(choice("Hi", None, 0)));
    assert_eq!(
        ChatCompletionChunkChoice::decode(&without(CHOICE, "finish_reason")),
        Some(choice("Hi", None, 0))
    );
    assert_eq!(
        ChatCompletionChunkChoice::decode(&with(CHOICE, "logprobs", Json::Null)),
        Some(choice("Hi", None, 0))
    );
}

#[test]
fn choice_reads_its_finish_reason() {
    let decoded = ChatCompletionChunkChoice::decode(&with(
        CHOICE,
        "finish_reason",
        Json::Text("stop".to_string()),
    ))
    .unwrap();
    assert_eq!(decoded, choice("Hi", Some("stop"), 0));
    assert!(decoded.is_final());
    assert!(!choice("Hi", None, 0).is_final());
    assert!(choice("", Some(""), 0).is_final());
}

#[test]
fn choice_reads_its_logprobs() {
    let logprobs = format!("{{'content': [{}]}}", TOKEN);
    let decoded =
        ChatCompletionChunkChoice::decode(&with(CHOICE, "logprobs", doc(&logprobs))).unwrap();
    assert_eq!(decoded.logprobs, Some(ChatCompletionChunkLogprobs { content: vec![token()] }));
}

#[test]
fn choice_needs_delta_and_index() {
    assert_eq!(ChatCompletionChunkChoice::decode(&without(CHOICE, "delta")), None);
    assert_eq!(ChatCompletionChunkChoice::decode(&without(CHOICE, "index")), None);
    assert_eq!(ChatCompletionChunkChoice::decode(&with(CHOICE, "delta", doc("{}"))), None);
    assert_eq!(ChatCompletionChunkChoice::decode(&with(CHOICE, "delta", Json::Null)), None);
    assert_eq!(
        ChatCompletionChunkChoice::decode(&with(CHOICE, "index", Json::Text("0".to_string()))),
        None
    );
}

#[test]
fn choice_refuses_what_is_there_in_the_wrong_kind() {
    assert_eq!(ChatCompletionChunkChoice::decode(&with(CHOICE, "finish_reason", number(1))), None);
    assert_eq!(ChatCompletionChunkChoice::decode(&with(CHOICE, "logprobs", doc("{}"))), None);
    assert_eq!(ChatCompletionChunkChoice::decode(&with(CHOICE, "logprobs", doc("[]"))), None);
}

#[test]
fn chunk_is_read_whole() {
    let second = "{'delta': {'content': ''}, 'finish_reason': 'stop', 'index': 1}";
    let text = chunk_text(&format!("{}, {}", CHOICE, second));
    assert_eq!(
        ChatCompletionChunk::decode(&doc(&text)),
        Some(ChatCompletionChunk {
            id: "c-1".to_string(),
            choices: vec![choice("Hi", None, 0), choice("", Some("stop"), 1)],
            created: 1700000000,
            model: "gpt-3.5-turbo-1106".to_string(),
            server_tier: "default".to_string(),
            system_fingerprint: "fp_1".to_string(),
            object: "chat.completion.chunk".to_string(),
            usage: ChatCompletionChunkUsage {
                completion_tokens: 1,
                prompt_tokens: 2,
                total_tokens: 3
            },
        })
    );
}

#[test]
fn chunk_keeps_the_order_of_its_choices() {
    let first = "{'delta': {'content': 'b'}, 'index': 1}";
    let second = "{'delta': {'content': 'a'}, 'index': 0}";
    let decoded =
        ChatCompletionChunk::decode(&doc(&chunk_text(&format!("{}, {}", first, second)))).unwrap();
    assert_eq!(decoded.choices[0].index, 1);
    assert_eq!(decoded.choices[0].delta.content, "b");
    assert_eq!(decoded.choices[1].index, 0);
    assert_eq!(decoded.choices[1].delta.content, "a");
}

#[test]
fn chunk_with_no_choices_is_no_error() {
    let decoded = ChatCompletionChunk::decode(&doc(&chunk_text(""))).unwrap();
    assert!(decoded.choices.is_empty());
    let rendering = decoded.render();
    assert_eq!(rendering.text, "");
    assert!(!rendering.finished);
}

#[test]
fn chunk_needs_each_member() {
    let text = chunk_text(CHOICE);
    for member in [
        "id",
        "choices",
        "created",
        "model",
        "server_tier",
        "system_fingerprint",
        "object",
        "usage",
    ] {
        assert_eq!(ChatCompletionChunk::decode(&without(&text, member)), None);
        assert_eq!(ChatCompletionChunk::decode(&with(&text, member, Json::Null)), None);
        assert_eq!(ChatCompletionChunk::decode(&with(&text, member, Json::Bool(true))), None);
    }
}

#[test]
fn chunk_refuses_a_bad_choice_or_usage() {
    let text = chunk_text(CHOICE);
    assert_eq!(ChatCompletionChunk::decode(&with(&text, "choices", doc("[{}]"))), None);
    assert_eq!(ChatCompletionChunk::decode(&with(&text, "choices", doc("{}"))), None);
    assert_eq!(ChatCompletionChunk::decode(&with(&text, "usage", doc("{}"))), None);
    let second_bad = chunk_text(&format!("{}, {{'index': 1}}", CHOICE));
    assert_eq!(ChatCompletionChunk::decode(&doc(&second_bad)), None);
}

#[test]
fn chunk_is_an_object() {
    assert_eq!(ChatCompletionChunk::decode(&doc("[]")), None);
    assert_eq!(ChatCompletionChunk::decode(&doc("'chunk'")), None);
    assert_eq!(ChatCompletionChunk::decode(&Json::Null), None);
    assert_eq!(
        ChatCompletionChunk::decode(&doc(
            "['c-1', [], 1700000000, 'm', 'default', 'fp_1', 'o', [1, 2, 3]]"
        )),
        None
    );
}

#[test]
fn fragment_that_states_a_chunk_is_decoded() {
    let decoded = decode_fragment(&bytes(&chunk_text(CHOICE))).unwrap();
    assert_eq!(decoded.id, "c-1");
    assert_eq!(decoded.choices, vec![choice("Hi", None, 0)]);
}

#[test]
fn fragment_that_is_no_json_is_malformed() {
    for bad in ["", "{'id': 'c-1'", "data: {}", "[DONE]"] {
        assert_eq!(decode_fragment(&bytes(bad)), Err(malformed(ChunkDefect::InvalidJson)));
    }
    let whole = chunk_text(CHOICE);
    let cut = &bytes(&whole)[..whole.len() / 2];
    assert_eq!(decode_fragment(cut), Err(malformed(ChunkDefect::InvalidJson)));
    let two = format!("{}{}", whole, whole);
    assert_eq!(decode_fragment(&bytes(&two)), Err(malformed(ChunkDefect::InvalidJson)));
}

#[test]
fn fragment_of_another_shape_is_malformed() {
    for bad in ["{}", "[]", "null", "{'error': {'message': 'no'}}"] {
        assert_eq!(decode_fragment(&bytes(bad)), Err(malformed(ChunkDefect::UnexpectedShape)));
    }
}

#[test]
fn document_that_is_missing_is_invalid_json() {
    assert_eq!(decode_document(None), Err(malformed(ChunkDefect::InvalidJson)));
    assert_eq!(
        decode_document(Some(Json::Object(vec![]))),
        Err(malformed(ChunkDefect::UnexpectedShape))
    );
    let decoded = decode_document(Some(doc(&chunk_text(CHOICE)))).unwrap();
    assert_eq!(decoded.choices, vec![choice("Hi", None, 0)]);
}
