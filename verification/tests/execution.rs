use qwen_gateway::execution::collect::{collect_completion, CollectedResult};
use qwen_gateway::execution::completion::{parse_upstream_usage, Completion, Diagnosis, Next};
use qwen_gateway::execution::probe::{truncate_caller, ProbeMeta, StatsProbe};
use qwen_gateway::execution::reasoning::ReasoningTracker;
use qwen_gateway::execution::request::{begin_completion, build_stream_params, StandardRequest};
use qwen_gateway::execution::translator::OpenAiStreamTranslator;
use qwen_gateway::execution::{OutEvent, Usage};
use qwen_gateway::json::Json;
use qwen_gateway::toolcall::ParsedToolCall;
use qwen_gateway::upstream::sse::QwenDelta;
use qwen_gateway::upstream::UpstreamEvent;

fn meta() -> ProbeMeta {
    ProbeMeta {
        surface: "openai".into(),
        model: "gpt-4o".into(),
        resolved_model: "qwen".into(),
        chat_type: "t2t".into(),
        stream: true,
        caller: Some("sk-1".into()),
    }
}

fn completion(has_tools: bool) -> Completion {
    Completion::new(has_tools, "hello world", meta(), 1_000)
}

fn delta(phase: &str, content: &str) -> UpstreamEvent {
    UpstreamEvent::Delta(QwenDelta {
        phase: phase.into(),
        content: content.into(),
        ..QwenDelta::default()
    })
}

fn thought(cumulative: Option<&str>, incremental: &str) -> UpstreamEvent {
    UpstreamEvent::Delta(QwenDelta {
        phase: "think".into(),
        reasoning_cumulative: cumulative.map(|s| s.to_string()),
        reasoning_incremental: incremental.into(),
        ..QwenDelta::default()
    })
}

fn call(name: &str) -> ParsedToolCall {
    ParsedToolCall { id: "call_1".into(), name: name.into(), arguments: Json::object() }
}

/// Events in a form that can be compared.
fn told(events: &[OutEvent]) -> Vec<String> {
    events
        .iter()
        .map(|event| match event {
            OutEvent::ReasoningDelta(s) => format!("reasoning {s}"),
            OutEvent::ContentDelta(s) => format!("content {s}"),
            OutEvent::ToolCalls(calls) => format!("calls {}", calls.len()),
            OutEvent::Done { usage, finish_reason, email } => format!(
                "done {}+{}={} ({}) {finish_reason} {email:?}",
                usage.prompt_tokens,
                usage.completion_tokens,
                usage.total_tokens,
                usage.reasoning_tokens
            ),
            OutEvent::Error { message, email } => format!("error {message} {email:?}"),
        })
        .collect()
}

#[test]
fn content_is_streamed_without_tools() {
    let mut c = completion(false);
    let mut events = Vec::new();
    let run = vec![
        UpstreamEvent::Meta { email: "a@b".into() },
        thought(Some("one"), ""),
        thought(Some("one two"), ""),
        delta("think", "hidden"),
        delta("answer", "hel"),
        delta("answer", "lo"),
    ];
    for (i, event) in run.into_iter().enumerate() {
        let step = c.on_upstream(event, i as i64);
        assert_eq!(step.next, Next::Listen);
        events.extend(step.events);
    }
    assert_eq!(c.on_upstream(UpstreamEvent::Done, 9).next, Next::Finish);
    assert_eq!(
        told(&events),
        vec!["reasoning one", "reasoning  two", "content hel", "content lo"]
    );
    assert_eq!(c.answer, "hello");
    assert_eq!(c.skipped, "hidden");
    assert_eq!(c.probe.ttft_ms, Some(1));
    let end = c.complete(vec![], "ignored").unwrap();
    assert_eq!(told(&end.events), vec!["done 2+5=7 (0) stop Some(\"a@b\")"]);
    assert_eq!(end.diagnosis, Diagnosis::Unremarkable);
    assert!(c.probe.success);
    assert_eq!(c.phase_counts(), vec![("answer".to_string(), 2), ("think".to_string(), 3)]);
}

#[test]
fn tools_hold_the_answer_back() {
    let mut c = completion(true);
    let step = c.on_upstream(delta("answer", "  text <call/>"), 3);
    assert!(step.events.is_empty());
    let end = c.finish(vec![call("Bash")], "  text ", 2);
    assert_eq!(told(&end.events), vec!["content text", "calls 1", "done 2+7=9 (0) tool_calls None"]);
}

#[test]
fn calls_of_an_empty_answer_do_not_count() {
    let mut c = completion(true);
    let end = c.finish(vec![call("Bash")], "", 2);
    assert_eq!(told(&end.events), vec!["done 2+0=2 (0) stop None"]);
    assert_eq!(end.diagnosis, Diagnosis::Silent);
}

/// Where stripping leaves nothing and no call was read, the answer is sent as
/// it is.
#[test]
fn an_answer_is_not_swallowed() {
    let mut c = completion(true);
    c.on_upstream(delta("answer", " <odd> "), 3);
    let end = c.finish(vec![], "  ", 0);
    assert_eq!(told(&end.events), vec!["content  <odd> ", "done 0+2=2 (0) stop None"]);
    assert_eq!(end.diagnosis, Diagnosis::Short);
}

#[test]
fn short_answers_are_remarked() {
    for (n, diagnosis) in [(1, Diagnosis::Short), (29, Diagnosis::Short), (30, Diagnosis::Unremarkable)] {
        let mut c = completion(true);
        let answer = "x".repeat(n);
        c.on_upstream(delta("answer", &answer), 3);
        assert_eq!(c.finish(vec![], &answer, 0).diagnosis, diagnosis);
    }
}

/// After a retry the same events lead to the same end.
#[test]
fn a_retry_leaves_no_trace() {
    let mut fresh = completion(true);
    let mut retried = completion(true);
    retried.on_upstream(thought(None, "old"), 1);
    retried.on_upstream(delta("answer", "broken"), 2);
    assert_eq!(retried.on_upstream(UpstreamEvent::Retrying, 3).next, Next::Listen);
    for c in [&mut fresh, &mut retried] {
        assert_eq!(told(&c.on_upstream(thought(Some("old"), ""), 4).events), vec!["reasoning old"]);
        c.on_upstream(delta("answer", "whole"), 5);
    }
    assert_eq!(fresh.answer, retried.answer);
    assert_eq!(fresh.phase_counts(), retried.phase_counts());
    assert_eq!(
        told(&fresh.finish(vec![], "whole", 1).events),
        told(&retried.finish(vec![], "whole", 1).events)
    );
}

#[test]
fn an_error_ends_the_completion() {
    let mut c = completion(false);
    let step = c.on_upstream(UpstreamEvent::Error("down".into()), 5);
    assert_eq!(step.next, Next::Stop);
    assert_eq!(told(&step.events), vec!["error down None"]);
    let record = c.probe.record(7);
    assert!(!record.success);
    assert_eq!(record.error.as_deref(), Some("down"));
}

#[test]
fn usage_comes_from_the_upstream() {
    let mut c = completion(false);
    let usage = |text: &str| {
        UpstreamEvent::Delta(QwenDelta { usage: Json::parse(text), ..QwenDelta::default() })
    };
    c.on_upstream(
        usage(r#"{"output_tokens":40,"output_tokens_details":{"reasoning_tokens":9}}"#),
        1,
    );
    c.on_upstream(usage(r#"{"output_tokens":0,"output_tokens_details":{"reasoning_tokens":-1}}"#), 2);
    let end = c.complete(vec![], "").unwrap();
    assert_eq!(told(&end.events), vec!["done 2+40=42 (9) stop None"]);
    assert_eq!(parse_upstream_usage(&Json::parse("{}").unwrap()), (0, 0));
    assert_eq!(
        parse_upstream_usage(&Json::parse(r#"{"output_tokens":"7","output_tokens_details":3}"#).unwrap()),
        (0, 0)
    );
}

#[test]
fn a_total_that_does_not_fit_is_refused() {
    let mut c = completion(false);
    c.out_tokens = i64::MAX;
    assert!(c.complete(vec![], "").is_none());
    assert!(!c.probe.success);
}

#[test]
fn reasoning_increments() {
    let mut t = ReasoningTracker::new();
    assert_eq!(t.delta(&Some("ab".into()), "ignored"), "ab");
    assert_eq!(t.delta(&Some("abc".into()), ""), "c");
    assert_eq!(t.delta(&Some("abc".into()), ""), "");
    assert_eq!(t.delta(&Some("xyz".into()), ""), "xyz");
    assert_eq!(t.delta(&None, "!"), "!");
    assert_eq!(t.delta(&None, ""), "");
    assert_eq!(t.delta(&Some("xyz!?".into()), ""), "?");
    assert_eq!(t.delta(&Some("日本".into()), ""), "日本");
    assert_eq!(t.delta(&Some("日本語".into()), ""), "語");
}

#[test]
fn callers_are_cut() {
    assert_eq!(truncate_caller("sk-123456789"), "sk-123456789");
    assert_eq!(truncate_caller("sk-1234567890"), "sk-123456789…");
    assert_eq!(truncate_caller("一二三四五六七八九十甲乙丙"), "一二三四五六七八九十甲乙…");
    assert_eq!(truncate_caller(""), "");
}

#[test]
fn a_record_of_a_request() {
    let mut p = StatsProbe::new(meta(), 500);
    let cut_off = p.record(3);
    assert!(!cut_off.success);
    assert!(cut_off.error.is_none());
    p.mark_first_token(20);
    p.mark_first_token(30);
    p.mark_succeeded(Usage {
        prompt_tokens: 1,
        completion_tokens: 2,
        total_tokens: 3,
        reasoning_tokens: 4,
    });
    let r = p.record(100);
    assert_eq!(
        (r.ts_ms, r.ttft_ms, r.duration_ms, r.success, r.error, r.stream),
        (500, Some(20), 100, true, None, true)
    );
    assert_eq!((r.surface.as_str(), r.model.as_str()), ("openai", "gpt-4o"));
    assert_eq!((r.resolved_model.as_str(), r.chat_type.as_str()), ("qwen", "t2t"));
    assert_eq!(r.caller.as_deref(), Some("sk-1"));
    assert_eq!(
        (r.prompt_tokens, r.completion_tokens, r.total_tokens, r.reasoning_tokens),
        (1, 2, 3, 4)
    );
}

fn request(chat_type: &str, bound: Option<&str>) -> StandardRequest {
    StandardRequest {
        surface: "openai".into(),
        response_model: "gpt-4o".into(),
        resolved_model: "qwen".into(),
        prompt: "draw".into(),
        has_tools: true,
        files: vec![Json::text("f")],
        chat_type: chat_type.into(),
        image_options: Some(Json::parse(r#"{"ratio":"1:1"}"#).unwrap()),
        thinking_enabled: Some(true),
        enable_search: false,
        stream: true,
        bound_account: bound.map(|s| s.to_string()),
        exclude_accounts: vec!["x@y".into()],
        caller: Some("sk-1234567890".into()),
    }
}

#[test]
fn stream_parameters() {
    let p = build_stream_params(&request("t2t", None), None);
    assert!(p.use_prewarmed);
    assert_eq!(p.max_retries, None);
    assert_eq!(p.fixed_account, None);
    assert_eq!((p.model.as_str(), p.content.as_str()), ("qwen", "draw"));
    assert!(p.has_custom_tools && p.delete_on_close && p.existing_chat_id.is_none());
    assert_eq!(p.exclude, vec!["x@y".to_string()]);
    assert_eq!(p.files[0].to_text(), "\"f\"");
    assert!(p.image_options.is_none());

    let bound = build_stream_params(&request("t2t", Some("a@b")), None);
    assert!(!bound.use_prewarmed);
    assert_eq!(bound.fixed_account.as_deref(), Some("a@b"));

    for media in ["t2i", "t2v"] {
        let p = build_stream_params(&request(media, None), None);
        assert!(!p.use_prewarmed);
        assert_eq!(p.max_retries, Some(1));
    }
}

#[test]
fn a_completion_begins() {
    let (c, p) = begin_completion(&request("t2i", None), 77);
    assert!(c.has_tools);
    assert_eq!(c.prompt, "draw");
    assert_eq!(c.probe.start_ms, 77);
    assert_eq!(c.probe.meta.caller.as_deref(), Some("sk-123456789…"));
    assert_eq!(p.image_options.unwrap().to_text(), r#"{"ratio":"1:1"}"#);
}

#[test]
fn events_are_collected() {
    let usage =
        Usage { prompt_tokens: 1, completion_tokens: 2, total_tokens: 3, reasoning_tokens: 0 };
    let r = collect_completion(vec![
        OutEvent::ReasoningDelta("r1".into()),
        OutEvent::ContentDelta("a".into()),
        OutEvent::ReasoningDelta("r2".into()),
        OutEvent::ContentDelta("b".into()),
        OutEvent::ToolCalls(vec![call("x")]),
        OutEvent::Done { usage, finish_reason: "tool_calls".into(), email: Some("a@b".into()) },
    ]);
    assert_eq!((r.content.as_str(), r.reasoning.as_str()), ("ab", "r1r2"));
    assert_eq!(r.tool_calls.len(), 1);
    assert_eq!(r.usage, usage);
    assert_eq!(r.finish_reason, "tool_calls");
    assert_eq!(r.email.as_deref(), Some("a@b"));
    assert!(r.error.is_none());

    let failed = collect_completion(vec![OutEvent::Error {
        message: "down".into(),
        email: Some("a@b".into()),
    }]);
    assert_eq!(failed.error.as_deref(), Some("down"));
    assert_eq!(failed.email.as_deref(), Some("a@b"));
    assert_eq!(failed.finish_reason, "stop");
    assert_eq!(CollectedResult::new().usage, Usage::default());
}

#[test]
fn a_copy_of_an_event_says_the_same() {
    let events = vec![
        OutEvent::ToolCalls(vec![call("x"), call("y")]),
        OutEvent::Done {
            usage: Usage::default(),
            finish_reason: "stop".into(),
            email: Some("a@b".into()),
        },
        OutEvent::Error { message: "e".into(), email: Some("a@b".into()) },
    ];
    let copies: Vec<OutEvent> = events.iter().map(|event| event.clone()).collect();
    assert_eq!(told(&events), told(&copies));
}

/// However a completion goes, its stream has one end marker, and it comes last.
#[test]
fn a_stream_ends_once() {
    let runs = vec![
        vec![],
        vec![delta("answer", "a"), UpstreamEvent::Done],
        vec![thought(None, "t"), delta("answer", "a")],
        vec![delta("answer", "a"), UpstreamEvent::Error("down".into())],
    ];
    for (has_tools, run) in [false, true, false, true].into_iter().zip(runs) {
        let mut c = completion(has_tools);
        let mut events = Vec::new();
        let mut stopped = false;
        for event in run {
            let step = c.on_upstream(event, 0);
            events.extend(step.events);
            stopped = step.next == Next::Stop;
        }
        if !stopped {
            let answer = c.answer.clone();
            events.extend(c.complete(vec![], &answer).unwrap().events);
        }
        let mut t = OpenAiStreamTranslator::new("m", "s", 0);
        let sent: Vec<String> = events.iter().flat_map(|event| t.on_event(event)).collect();
        let ends = sent.iter().filter(|line| *line == "data: [DONE]\n\n").count();
        assert_eq!(ends, 1);
        assert_eq!(sent.last().unwrap(), "data: [DONE]\n\n");
    }
}

/// A request that fails is known by the account that it went through last.
#[test]
fn a_failed_completion_names_its_account() {
    for account in [None, Some("a@x")] {
        let mut c = completion(true);
        let mut events = Vec::new();
        if let Some(email) = account {
            c.on_upstream(UpstreamEvent::Meta { email: "first@x".into() }, 0);
            c.on_upstream(UpstreamEvent::Retrying, 0);
            events.extend(c.on_upstream(UpstreamEvent::Meta { email: email.into() }, 0).events);
        }
        events.extend(c.on_upstream(UpstreamEvent::Error("boom".into()), 1).events);
        let result = collect_completion(events);
        assert_eq!(result.error.as_deref(), Some("boom"));
        assert_eq!(result.email.as_deref(), account);
    }
}
