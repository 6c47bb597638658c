use qwen_gateway::execution::translator::{tool_call_chunk, usage_json, OpenAiStreamTranslator};
use qwen_gateway::execution::{OutEvent, Usage};
use qwen_gateway::json::Json;
use qwen_gateway::toolcall::ParsedToolCall;
use qwen_gateway::upstream::sse::{extract_upstream_error, parse_sse_chunk};
use serde_json::Value;

fn translator() -> OpenAiStreamTranslator {
    OpenAiStreamTranslator::new("gpt-4o", "abcdef012345", 1_700_000_000)
}

fn parse_chunk_payload(s: &str) -> Value {
    let body = s.trim_start_matches("data: ").trim();
    serde_json::from_str(body).unwrap_or_else(|e| panic!("no JSON: {e}\ntext: {s}"))
}

/// The role comes with the first delta and with no other.
#[test]
fn first_content_delta_includes_role_subsequent_do_not() {
    let mut t = translator();
    let first = t.on_event(&OutEvent::ContentDelta("hi".into()));
    assert_eq!(first.len(), 1);
    let v1 = parse_chunk_payload(&first[0]);
    assert_eq!(v1["choices"][0]["delta"]["role"], "assistant");
    assert_eq!(v1["choices"][0]["delta"]["content"], "hi");
    assert_eq!(v1["object"], "chat.completion.chunk");
    assert_eq!(v1["model"], "gpt-4o");

    let second = t.on_event(&OutEvent::ContentDelta(" there".into()));
    let v2 = parse_chunk_payload(&second[0]);
    assert!(v2["choices"][0]["delta"].get("role").is_none(), "the role is sent once");
    assert_eq!(v2["choices"][0]["delta"]["content"], " there");
}

/// Reasoning carries the role too, where it comes first.
#[test]
fn reasoning_first_sends_role_then_content_does_not_repeat() {
    let mut t = translator();
    let chunks = t.on_event(&OutEvent::ReasoningDelta("rethink".into()));
    let v = parse_chunk_payload(&chunks[0]);
    assert_eq!(v["choices"][0]["delta"]["role"], "assistant");
    assert_eq!(v["choices"][0]["delta"]["reasoning_content"], "rethink");

    let next = t.on_event(&OutEvent::ContentDelta("body".into()));
    let vn = parse_chunk_payload(&next[0]);
    assert!(vn["choices"][0]["delta"].get("role").is_none(), "the role is sent once");
}

/// The end: a last chunk with usage and finish reason, then the end marker.
#[test]
fn done_emits_final_chunk_with_usage_then_done_sentinel() {
    let mut t = translator();
    let usage =
        Usage { prompt_tokens: 3, completion_tokens: 5, total_tokens: 8, reasoning_tokens: 1 };
    let out = t.on_event(&OutEvent::Done { usage, finish_reason: "stop".into(), email: None });
    assert_eq!(out.len(), 2, "a last chunk and the end marker");
    assert_eq!(out[1], "data: [DONE]\n\n");

    let final_chunk = parse_chunk_payload(&out[0]);
    assert_eq!(final_chunk["choices"][0]["finish_reason"], "stop");
    assert_eq!(final_chunk["usage"]["prompt_tokens"], 3);
    assert_eq!(final_chunk["usage"]["completion_tokens"], 5);
    assert_eq!(final_chunk["usage"]["total_tokens"], 8);
    assert_eq!(final_chunk["usage"]["completion_tokens_details"]["reasoning_tokens"], 1);
}

/// An error chunk is followed by the end marker.
#[test]
fn error_event_emits_error_chunk_and_done() {
    let mut t = translator();
    let out = t.on_event(&OutEvent::Error { message: "upstream 502".into(), email: None });
    assert_eq!(out.len(), 2);
    let err = parse_chunk_payload(&out[0]);
    assert_eq!(err["error"]["message"], "upstream 502");
    assert_eq!(err["error"]["type"], "upstream_error");
    assert_eq!(out[1], "data: [DONE]\n\n");
}

/// Tool calls are laid out with their arguments as a text.
#[test]
fn tool_calls_event_lays_out_openai_shape() {
    let mut t = translator();
    let tc = ParsedToolCall {
        id: "call_xyz".into(),
        name: "Bash".into(),
        arguments: Json::parse(r#"{ "cmd": "ls", "n": 2 }"#).unwrap(),
    };
    let chunks = t.on_event(&OutEvent::ToolCalls(vec![tc]));
    let v = parse_chunk_payload(&chunks[0]);
    let item = &v["choices"][0]["delta"]["tool_calls"][0];
    assert_eq!(item["index"], 0);
    assert_eq!(item["id"], "call_xyz");
    assert_eq!(item["type"], "function");
    assert_eq!(item["function"]["name"], "Bash");
    let args_str = item["function"]["arguments"].as_str().expect("a text");
    let args: Value = serde_json::from_str(args_str).unwrap();
    assert_eq!(args["cmd"], "ls");
    assert_eq!(args["n"], 2);
}

#[test]
fn usage_json_layout_is_stable() {
    let u = Usage { prompt_tokens: 1, completion_tokens: 2, total_tokens: 3, reasoning_tokens: 4 };
    let v = usage_json(&u).to_value();
    assert_eq!(v["prompt_tokens"], 1);
    assert_eq!(v["completion_tokens"], 2);
    assert_eq!(v["total_tokens"], 3);
    assert_eq!(v["completion_tokens_details"]["reasoning_tokens"], 4);
}

#[test]
fn a_chunk_letter_for_letter() {
    let mut t = translator();
    let out = t.on_event(&OutEvent::ContentDelta("a\"b".into()));
    assert_eq!(
        out,
        vec![concat_chunk(
            r#"{"choices":[{"delta":{"content":"a\"b","role":"assistant"},"finish_reason":null,"index":0}],"created":1700000000,"id":"chatcmpl-abcdef012345","model":"gpt-4o","object":"chat.completion.chunk"}"#
        )]
    );
}

fn concat_chunk(payload: &str) -> String {
    format!("data: {payload}\n\n")
}

#[test]
fn the_end_letter_for_letter() {
    let mut t = translator();
    let usage =
        Usage { prompt_tokens: 1, completion_tokens: -2, total_tokens: -1, reasoning_tokens: 0 };
    let out = t.on_event(&OutEvent::Done {
        usage,
        finish_reason: "tool_calls".into(),
        email: Some("a@b".into()),
    });
    assert_eq!(
        out[0],
        concat_chunk(
            r#"{"choices":[{"delta":{},"finish_reason":"tool_calls","index":0}],"created":1700000000,"id":"chatcmpl-abcdef012345","model":"gpt-4o","object":"chat.completion.chunk","usage":{"completion_tokens":-2,"completion_tokens_details":{"reasoning_tokens":0},"prompt_tokens":1,"total_tokens":-1}}"#
        )
    );
}

/// Whatever comes, one message names the role: that of the first delta.
#[test]
fn the_role_is_named_once_in_a_run() {
    let mut t = translator();
    let events = [
        OutEvent::Error { message: "early".into(), email: None },
        OutEvent::ToolCalls(vec![]),
        OutEvent::ReasoningDelta("r".into()),
        OutEvent::ContentDelta("c".into()),
    ];
    let named: Vec<bool> = events
        .iter()
        .map(|event| {
            let v = parse_chunk_payload(&t.on_event(event)[0]);
            v["choices"][0]["delta"].get("role").is_some()
        })
        .collect();
    assert_eq!(named, vec![false, true, false, false]);
}

#[test]
fn tool_calls_are_numbered() {
    let call = |name: &str| ParsedToolCall {
        id: format!("call_{name}"),
        name: name.to_string(),
        arguments: Json::Null,
    };
    assert_eq!(
        tool_call_chunk(7, &call("x")).to_text(),
        r#"{"function":{"arguments":"null","name":"x"},"id":"call_x","index":7,"type":"function"}"#
    );
    let mut t = translator();
    let out = t.on_event(&OutEvent::ToolCalls(vec![call("x"), call("y")]));
    let v = parse_chunk_payload(&out[0]);
    assert_eq!(v["choices"][0]["delta"]["tool_calls"][1]["index"], 1);
    assert_eq!(v["choices"][0]["delta"]["tool_calls"][1]["id"], "call_y");
}

/// What a client reads of a message is the message.
#[test]
fn messages_read_back() {
    let events = vec![
        OutEvent::ReasoningDelta("line\nbreak \u{1} \"q\" \\ é 日".into()),
        OutEvent::ToolCalls(vec![ParsedToolCall {
            id: "i".into(),
            name: "n".into(),
            arguments: Json::parse(r#"{"a":[1,{"b":null}],"c":"d"}"#).unwrap(),
        }]),
        OutEvent::Error { message: "e".into(), email: None },
    ];
    for event in &events {
        let message = translator().message(event).to_text();
        let sent = translator().on_event(event);
        let read = parse_chunk_payload(&sent[0]);
        assert_eq!(Json::from_value(read).to_text(), message);
    }
    let call = tool_call_chunk(
        0,
        &ParsedToolCall {
            id: "i".into(),
            name: "n".into(),
            arguments: Json::parse(r#"{"a":[1,{"b":null}],"c":"d"}"#).unwrap(),
        },
    )
    .to_value();
    let text = call["function"]["arguments"].as_str().unwrap();
    assert_eq!(Json::parse(text).unwrap().to_text(), r#"{"a":[1,{"b":null}],"c":"d"}"#);
}

/// A value that is too deep cannot be read again.
#[test]
fn depth_is_limited() {
    let nested = |levels: usize| format!("{}{}", "[".repeat(levels), "]".repeat(levels));
    assert!(Json::parse(&nested(127)).is_some());
    assert!(Json::parse(&nested(128)).is_none());
}

/// The gateway's own readers read what was sent.
#[test]
fn sent_messages_are_read_by_the_readers() {
    let text = "quote \" and\nline \r\n data: [DONE] {\"error\":1}  ";
    for role_sent in [false, true] {
        let mut t = translator();
        t.role_sent = role_sent;
        let deltas = parse_sse_chunk(&t.on_event(&OutEvent::ContentDelta(text.into()))[0]);
        assert_eq!(deltas.len(), 1);
        assert_eq!(deltas[0].content, text);
        assert_eq!(deltas[0].reasoning_incremental, "");
        assert_eq!((deltas[0].phase.as_str(), deltas[0].status.as_str()), ("answer", ""));
        assert!(deltas[0].reasoning_cumulative.is_none() && deltas[0].usage.is_none());
    }
    for text in [text, ""] {
        let sent = translator().on_event(&OutEvent::ReasoningDelta(text.into()));
        let deltas = parse_sse_chunk(&sent[0]);
        assert_eq!(deltas.len(), 1);
        assert_eq!(deltas[0].reasoning_incremental, text);
        assert_eq!((deltas[0].content.as_str(), deltas[0].phase.as_str()), ("", "answer"));
    }
    let usage =
        Usage { prompt_tokens: 1, completion_tokens: 2, total_tokens: 3, reasoning_tokens: 4 };
    let sent = translator().on_event(&OutEvent::Done {
        usage,
        finish_reason: "stop".into(),
        email: None,
    });
    let deltas = parse_sse_chunk(&sent[0]);
    assert_eq!(deltas[0].usage.as_ref().unwrap().to_text(), usage_json(&usage).to_text());
    assert!(parse_sse_chunk(&sent[1]).is_empty());
}

/// An error is found in what is sent exactly where one was sent.
#[test]
fn sent_errors_are_found() {
    let error = OutEvent::Error { message: "bad\n\"news\"".into(), email: Some("a@b".into()) };
    let sent = translator().on_event(&error);
    assert_eq!(
        extract_upstream_error(&sent[0]).as_deref(),
        Some("Qwen upstream error code=upstream_error request_id=- details=bad\n\"news\"")
    );
    assert_eq!(extract_upstream_error(&sent[1]), None);
    assert!(parse_sse_chunk(&sent[0]).is_empty());
    let others = vec![
        OutEvent::ContentDelta("{\"error\":\"x\"}".into()),
        OutEvent::ReasoningDelta("\n{\"success\":false}\n".into()),
        OutEvent::ToolCalls(vec![ParsedToolCall {
            id: "i".into(),
            name: "n".into(),
            arguments: Json::parse(r#"{"error":{"code":"c"},"success":false}"#).unwrap(),
        }]),
        OutEvent::Done {
            usage: Usage::default(),
            finish_reason: "error".into(),
            email: None,
        },
    ];
    for event in &others {
        for line in translator().on_event(event) {
            assert_eq!(extract_upstream_error(&line), None);
        }
    }
}
