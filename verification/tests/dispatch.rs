use chat_stream::client::{
    check_reply, ChatMessage, ChatRequest, Dispatch, DispatchError, OpenAiClient, Reply, BEARER,
    MODEL, SYSTEM_INSTRUCTION, SYSTEM_ROLE, USER_ROLE,
};
use chat_stream::decode::{ChunkDefect, DecodeError};
use chat_stream::turn::{read_stream, Turn, TurnError};

fn client() -> OpenAiClient {
    OpenAiClient::new(
        "sk-test".to_string(),
        "https://api.openai.com/v1/chat/completions".to_string(),
    )
}

fn fragment(content: &str, finish_reason: &str) -> Vec<u8> {
    format!(
        "{{\"id\":\"c-1\",\"choices\":[{{\"delta\":{{\"content\":\"{}\"}},\"finish_reason\":{},\
         \"index\":0}}],\"created\":1700000000,\"model\":\"gpt-3.5-turbo-1106\",\
         \"server_tier\":\"default\",\"system_fingerprint\":\"fp_1\",\
         \"object\":\"chat.completion.chunk\",\"usage\":{{\"completion_tokens\":1,\
         \"prompt_tokens\":2,\"total_tokens\":3}}}}",
        content, finish_reason
    )
    .into_bytes()
}

fn status(code: u16, reason: &str) -> Reply {
    Reply::Status { code, reason: reason.to_string() }
}

#[test]
fn the_fixed_words_of_a_request() {
    assert_eq!(MODEL, "gpt-3.5-turbo-1106");
    assert_eq!(SYSTEM_INSTRUCTION, "You are a helpful assistant.");
    assert_eq!(SYSTEM_ROLE, "system");
    assert_eq!(USER_ROLE, "user");
    assert_eq!(BEARER, "Bearer ");
}

#[test]
fn hello_becomes_one_post() {
    let dispatch = client().create_chat("Hello\n".to_string());
    assert_eq!(
        dispatch,
        Dispatch {
            endpoint: "https://api.openai.com/v1/chat/completions".to_string(),
            authorization: "Bearer sk-test".to_string(),
            body: ChatRequest {
                model: "gpt-3.5-turbo-1106".to_string(),
                messages: vec![
                    ChatMessage {
                        role: "system".to_string(),
                        content: "You are a helpful assistant.".to_string()
                    },
                    ChatMessage { role: "user".to_string(), content: "Hello\n".to_string() },
                ],
                stream: true,
            },
        }
    );
}

#[test]
fn the_prompt_is_forwarded_as_it_is() {
    for prompt in ["", " ", "two\nlines\n", "\"quoted\" \\ \u{1F600}", "Bearer system"] {
        let dispatch = client().create_chat(prompt.to_string());
        assert_eq!(dispatch.body.messages.len(), 2);
        assert_eq!(dispatch.body.messages[0].role, "system");
        assert_eq!(dispatch.body.messages[0].content, "You are a helpful assistant.");
        assert_eq!(dispatch.body.messages[1].role, "user");
        assert_eq!(dispatch.body.messages[1].content, prompt);
        assert!(dispatch.body.stream);
    }
}

#[test]
fn each_request_stands_alone() {
    let client = client();
    let first = client.create_chat("first".to_string());
    let second = client.create_chat("second".to_string());
    assert_eq!(first.body.messages.len(), 2);
    assert_eq!(second.body.messages.len(), 2);
    assert_eq!(second.body.messages[1].content, "second");
    assert_eq!(first.endpoint, second.endpoint);
    assert_eq!(first.authorization, second.authorization);
}

#[test]
fn the_key_is_sent_as_a_bearer_token_unchanged() {
    for key in ["", "sk-test", "with space", "Bearer x"] {
        let client = OpenAiClient::new(key.to_string(), "http://localhost:8080/v1".to_string());
        let dispatch = client.create_chat("p".to_string());
        assert_eq!(dispatch.authorization, format!("Bearer {}", key));
        assert_eq!(dispatch.endpoint, "http://localhost:8080/v1");
    }
}

#[test]
fn a_client_can_be_copied() {
    let first = client();
    let copy = first.clone();
    assert_eq!(first, copy);
    assert_eq!(first.create_chat("p".to_string()), copy.create_chat("p".to_string()));
}

#[test]
fn a_status_of_success_lets_the_stream_be_read() {
    for code in [200u16, 201, 204, 206, 299] {
        assert_eq!(check_reply(status(code, "OK")), Ok(()));
    }
}

#[test]
fn a_status_that_is_no_success_is_kept_in_the_error() {
    for (code, reason) in [
        (100u16, "Continue"),
        (199, ""),
        (300, "Multiple Choices"),
        (304, "Not Modified"),
        (400, "Bad Request"),
        (401, "Unauthorized"),
        (429, "Too Many Requests"),
        (500, "Internal Server Error"),
        (503, "Service Unavailable"),
        (0, ""),
        (999, ""),
        (u16::MAX, ""),
    ] {
        assert_eq!(
            check_reply(status(code, reason)),
            Err(DispatchError::HttpStatus { status: code, reason: reason.to_string() })
        );
    }
}

#[test]
fn unauthorized_gives_no_stream_and_no_output() {
    let unauthorized =
        DispatchError::HttpStatus { status: 401, reason: "Unauthorized".to_string() };
    assert_eq!(check_reply(status(401, "Unauthorized")), Err(unauthorized.clone()));
    let body = vec![b"{\"error\":{\"message\":\"bad key\"}}".to_vec()];
    assert_eq!(
        read_stream(status(401, "Unauthorized"), &body),
        Turn { text: String::new(), read: 0, result: Err(TurnError::Dispatch(unauthorized)) }
    );
}

#[test]
fn a_reply_that_is_refused_is_not_rendered() {
    let stream = vec![fragment("Hi", "null"), fragment("", "\"stop\"")];
    for (code, reason) in [(199u16, ""), (300, "Multiple Choices"), (500, "Internal Server Error")] {
        assert_eq!(
            read_stream(status(code, reason), &stream),
            Turn {
                text: String::new(),
                read: 0,
                result: Err(TurnError::Dispatch(DispatchError::HttpStatus {
                    status: code,
                    reason: reason.to_string()
                })),
            }
        );
    }
    assert_eq!(
        read_stream(Reply::Unreachable { detail: "timed out".to_string() }, &stream),
        Turn {
            text: String::new(),
            read: 0,
            result: Err(TurnError::Dispatch(DispatchError::Transport {
                detail: "timed out".to_string()
            })),
        }
    );
}

#[test]
fn a_reply_of_success_is_rendered() {
    let stream = vec![fragment("Hi", "null"), fragment("", "\"stop\""), fragment("late", "null")];
    assert_eq!(
        read_stream(status(200, "OK"), &stream),
        Turn { text: "Hi".to_string(), read: 2, result: Ok(()) }
    );
    assert_eq!(
        read_stream(status(200, "OK"), &vec![]),
        Turn { text: String::new(), read: 0, result: Ok(()) }
    );
}

#[test]
fn a_malformed_fragment_ends_the_turn_with_a_decode_error() {
    let stream = vec![fragment("kept", "null"), b"{\"id\":".to_vec(), fragment("late", "null")];
    assert_eq!(
        read_stream(status(200, "OK"), &stream),
        Turn {
            text: "kept".to_string(),
            read: 2,
            result: Err(TurnError::Decode(DecodeError::MalformedChunk(ChunkDefect::InvalidJson))),
        }
    );
    let other = vec![b"[]".to_vec()];
    assert_eq!(
        read_stream(status(204, "No Content"), &other),
        Turn {
            text: String::new(),
            read: 1,
            result: Err(TurnError::Decode(DecodeError::MalformedChunk(
                ChunkDefect::UnexpectedShape
            ))),
        }
    );
}

#[test]
fn an_endpoint_that_is_not_reached_is_a_transport_error() {
    assert_eq!(
        check_reply(Reply::Unreachable { detail: "connection refused".to_string() }),
        Err(DispatchError::Transport { detail: "connection refused".to_string() })
    );
    assert_eq!(
        check_reply(Reply::Unreachable { detail: String::new() }),
        Err(DispatchError::Transport { detail: String::new() })
    );
}
