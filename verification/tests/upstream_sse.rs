use qwen_gateway::upstream::sse::{
    delta_of_event, extract_upstream_error, parse_sse_chunk, read_line,
};
use serde_json::Value;

fn json(text: &str) -> Value {
    serde_json::from_str(text).unwrap()
}

fn chunk_of(payload: Value) -> String {
    format!("data: {}\n\n", payload)
}

/// Empty input, a bare end marker and lines without `data:` give no delta.
#[test]
fn empty_done_and_non_data_lines_yield_nothing() {
    assert!(parse_sse_chunk("").is_empty());
    assert!(parse_sse_chunk("data: [DONE]\n\n").is_empty());
    assert!(parse_sse_chunk("data: \n\n").is_empty());
    assert!(parse_sse_chunk("event: ping\n\n").is_empty());
}

/// The first event has no choices; choices may be empty or lack a delta.
#[test]
fn payloads_without_choices_or_delta_are_skipped() {
    let head = chunk_of(json(r#"{ "response_id": "x", "object": "response.created" }"#));
    let empty = chunk_of(json(r#"{ "choices": [] }"#));
    let no_delta = chunk_of(json(r#"{ "choices": [{}] }"#));
    assert!(parse_sse_chunk(&head).is_empty());
    assert!(parse_sse_chunk(&empty).is_empty());
    assert!(parse_sse_chunk(&no_delta).is_empty());
}

/// The answer phase: phase, content and status as they are, no reasoning.
#[test]
fn answer_delta_extracts_phase_content_status() {
    let c = chunk_of(json(
        r#"{
            "choices": [{ "delta": { "phase": "answer", "content": "hi", "status": "in_progress" } }]
        }"#,
    ));
    let v = parse_sse_chunk(&c);
    assert_eq!(v.len(), 1);
    assert_eq!(v[0].phase, "answer");
    assert_eq!(v[0].content, "hi");
    assert_eq!(v[0].status, "in_progress");
    assert_eq!(v[0].reasoning_incremental, "");
    assert!(v[0].reasoning_cumulative.is_none());
}

/// Incremental reasoning under any of its keys.
#[test]
fn legacy_reasoning_keys_are_picked_up() {
    let c = chunk_of(json(
        r#"{
            "choices": [{ "delta": { "phase": "think", "reasoning_content": "thought-a" } }]
        }"#,
    ));
    assert_eq!(parse_sse_chunk(&c)[0].reasoning_incremental, "thought-a");

    let c2 = chunk_of(json(
        r#"{
            "choices": [{ "delta": { "extra": { "thinking": "deep" } } }]
        }"#,
    ));
    assert_eq!(parse_sse_chunk(&c2)[0].reasoning_incremental, "deep");
}

/// Cumulative reasoning is joined by empty lines.
#[test]
fn qwen37_summary_thought_joins_with_double_newline() {
    let c = chunk_of(json(
        r#"{
            "choices": [{ "delta": {
                "extra": { "summary_thought": { "content": ["a", "b", "c"] } }
            } }]
        }"#,
    ));
    assert_eq!(parse_sse_chunk(&c)[0].reasoning_cumulative.as_deref(), Some("a\n\nb\n\nc"));
}

/// Empty cumulative reasoning is none.
#[test]
fn empty_summary_thought_yields_none_cumulative() {
    let c = chunk_of(json(
        r#"{
            "choices": [{ "delta": {
                "extra": { "summary_thought": { "content": [] } }
            } }]
        }"#,
    ));
    assert!(parse_sse_chunk(&c)[0].reasoning_cumulative.is_none());
}

/// The usage is handed on as it is.
#[test]
fn usage_field_passed_through() {
    let c = chunk_of(json(
        r#"{
            "choices": [{ "delta": { "content": "" } }],
            "usage": { "prompt_tokens": 7, "completion_tokens": 11 }
        }"#,
    ));
    let v = parse_sse_chunk(&c);
    let usage = v[0].usage.as_ref().expect("a usage");
    assert_eq!(usage.get("prompt_tokens").and_then(|v| v.as_i64()), Some(7));
    assert_eq!(usage.get("completion_tokens").and_then(|v| v.as_i64()), Some(11));
}

/// Every `data:` line of a chunk gives a delta of its own.
#[test]
fn multi_data_lines_yield_multiple_deltas() {
    let a = chunk_of(json(r#"{ "choices": [{ "delta": { "content": "x" } }] }"#));
    let b = chunk_of(json(r#"{ "choices": [{ "delta": { "content": "y" } }] }"#));
    let v = parse_sse_chunk(&format!("{a}{b}"));
    assert_eq!(v.len(), 2);
    assert_eq!(v[0].content, "x");
    assert_eq!(v[1].content, "y");
}

/// A line that is no JSON is skipped.
#[test]
fn malformed_json_is_skipped_not_panicking() {
    let mixed = "data: {not json}\ndata: {\"choices\":[{\"delta\":{\"content\":\"ok\"}}]}\n\n";
    let v = parse_sse_chunk(mixed);
    assert_eq!(v.len(), 1);
    assert_eq!(v[0].content, "ok");
}

/// An error told by `success: false`.
#[test]
fn extract_error_handles_success_false() {
    let s = r#"data: {"success":false,"request_id":"req-1","data":{"code":"rate_limit","details":"too fast"}}"#;
    let err = extract_upstream_error(s).expect("an error");
    assert!(err.contains("rate_limit"), "no code: {err}");
    assert!(err.contains("req-1"), "no request_id: {err}");
    assert!(err.contains("too fast"), "no details: {err}");
}

/// An error told by an `error` object.
#[test]
fn extract_error_handles_error_object() {
    let s = r#"data: {"error":{"code":"auth_error","message":"invalid token"}}"#;
    let err = extract_upstream_error(s).expect("an error");
    assert!(err.contains("auth_error"));
    assert!(err.contains("invalid token"));
}

/// A normal payload and the end marker are no errors.
#[test]
fn extract_error_ignores_normal_payload() {
    let s = r#"data: {"choices":[{"delta":{"content":"hi"}}]}"#;
    assert!(extract_upstream_error(s).is_none());
    assert!(extract_upstream_error("data: [DONE]\n\n").is_none());
}

#[test]
fn a_data_line_loses_its_prefix_and_white_space() {
    let event = r#"{"choices":[{"delta":{"content":"x"}}]}"#;
    for line in [format!("data: {event} "), format!(" data:{event}\r")] {
        assert_eq!(read_line(&line).unwrap().content, "x");
    }
    for line in ["data: [DONE]", "data:", "data: {}", "data: [1]", "id: 1", "", event] {
        assert!(read_line(line).is_none(), "{line}");
    }
}

/// Whatever stands before and behind a line feed is read by itself.
#[test]
fn texts_are_read_line_by_line() {
    let x = r#"data: {"choices":[{"delta":{"content":"x"}}]}"#;
    let error = r#"{"error":"one"}"#;
    let texts = ["", "\n", "\r", "junk", x, error, "data: [DONE]", "data: x\n\n", "y\r\n"];
    let contents = |text: &str| -> Vec<String> {
        parse_sse_chunk(text).into_iter().map(|delta| delta.content).collect()
    };
    for a in texts {
        for b in texts {
            for end in ["", "\r"] {
                let both = format!("{a}{end}\n{b}");
                assert_eq!(contents(&both), [contents(a), contents(b)].concat(), "{both:?}");
                assert_eq!(
                    extract_upstream_error(&both),
                    extract_upstream_error(a).or(extract_upstream_error(b)),
                    "{both:?}"
                );
            }
        }
    }
}

#[test]
fn carriage_returns_end_lines_too() {
    let v = parse_sse_chunk("data: {\"choices\":[{\"delta\":{\"content\":\"a\"}}]}\r\n\r\ndata: {\"choices\":[{\"delta\":{\"content\":\"b\"}}]}");
    assert_eq!(v.len(), 2);
    assert_eq!(v[0].content, "a");
    assert_eq!(v[1].content, "b");
}

/// Chunks that are whole lines may be read one by one or together.
#[test]
fn chunks_of_whole_lines_concatenate() {
    let a = "data: {\"choices\":[{\"delta\":{\"content\":\"1\"}}]}\n";
    let b = "data: nothing\n: comment\n";
    let c = "data: {\"choices\":[{\"delta\":{\"content\":\"2\"}}]}";
    let apart: Vec<String> = [a, b, c]
        .iter()
        .flat_map(|s| parse_sse_chunk(s))
        .map(|d| d.content)
        .collect();
    let together: Vec<String> =
        parse_sse_chunk(&format!("{a}{b}{c}")).into_iter().map(|d| d.content).collect();
    assert_eq!(apart, together);
    assert_eq!(together, vec!["1".to_string(), "2".to_string()]);
}

#[test]
fn an_error_is_told_in_full() {
    let s = r#"{"success":false,"request_id":"r","data":{"code":"c","details":"d"}}"#;
    let whole = extract_upstream_error(s);
    let framed = extract_upstream_error(&format!("event: x\ndata: {s}\n"));
    assert_eq!(
        whole.as_deref(),
        Some("Qwen upstream error code=c request_id=r details=d")
    );
    assert_eq!(whole, framed);
    assert_eq!(
        extract_upstream_error(r#"{"error":"boom","response_id":"q"}"#).as_deref(),
        Some("Qwen upstream error request_id=q details=boom")
    );
    assert_eq!(
        extract_upstream_error(r#"{"error":{"type":"t"}}"#).as_deref(),
        Some("Qwen upstream error code=upstream_error request_id=- details=t")
    );
    assert_eq!(extract_upstream_error(r#"{"error":""}"#), None);
    assert_eq!(extract_upstream_error(r#"{"error":null}"#), None);
    assert_eq!(extract_upstream_error("data: {broken\n"), None);
}

#[test]
fn the_first_error_is_told() {
    let s = "data: {\"choices\":[]}\n{\"error\":\"one\"}\n{\"error\":\"two\"}";
    assert_eq!(
        extract_upstream_error(s).as_deref(),
        Some("Qwen upstream error request_id=- details=one")
    );
}

#[test]
fn numbers_that_are_no_integers_pass_through_a_usage() {
    let event = qwen_gateway::json::Json::parse(
        r#"{"choices":[{"delta":{"content":"x"}}],"usage":{"cost":0.25,"n":-3,"deep":[1,null,true]}}"#,
    )
    .unwrap();
    let delta = delta_of_event(&event).unwrap();
    assert_eq!(
        delta.usage.unwrap().to_text(),
        r#"{"cost":0.25,"deep":[1,null,true],"n":-3}"#
    );
}
