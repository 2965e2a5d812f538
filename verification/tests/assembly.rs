use openai_proxy::assemble::assemble_chat_completion;
use openai_proxy::assemble::assemble_responses_response;
use openai_proxy::assemble::chat_completion_from_events;
use openai_proxy::assemble::responses_response_from_events;
use openai_proxy::errors::ErrorKind;
use openai_proxy::errors::TurnError;
use openai_proxy::errors::error_envelope;
use openai_proxy::errors::event_stream_failure;
use openai_proxy::errors::submit_failure;
use openai_proxy::items::ContentItem;
use openai_proxy::items::ResponseItem;
use openai_proxy::items::map_tool_call;
use openai_proxy::items::tool_calls_of;
use openai_proxy::session::SessionDecision;
use openai_proxy::session::build_turn_request;
use openai_proxy::session::invalid_reference_failure;
use openai_proxy::session::lookup_failure;
use openai_proxy::session::plan_session;
use openai_proxy::turn::EventMsg;
use openai_proxy::turn::SessionEvent;
use openai_proxy::turn::run_turn;

fn ev(id: &str, msg: EventMsg) -> SessionEvent {
    SessionEvent { id: id.to_string(), msg }
}

fn delta(id: &str, text: &str) -> SessionEvent {
    ev(id, EventMsg::AgentMessageDelta { delta: text.to_string() })
}

fn complete(id: &str, last: Option<&str>) -> SessionEvent {
    ev(id, EventMsg::TurnComplete { last_agent_message: last.map(|s| s.to_string()) })
}

#[test]
fn aggregate_response_for_plain_text_turn() {
    let events = vec![delta("r", "Hel"), delta("r", "lo"), complete("r", None)];
    let (accum, _) = run_turn(&events, "r");
    let resp = assemble_chat_completion(&accum, "gpt-4o-mini");
    assert_eq!(resp.object, "chat.completion");
    assert_eq!(resp.model, "gpt-4o-mini");
    assert!(resp.id.starts_with("chatcmpl-codex-"));
    assert_eq!(resp.id.len(), "chatcmpl-codex-".len() + 36);
    assert_eq!(resp.usage.prompt_tokens, 0);
    assert_eq!(resp.usage.completion_tokens, 0);
    assert_eq!(resp.usage.total_tokens, 0);
    assert_eq!(resp.choices.len(), 1);
    let choice = &resp.choices[0];
    assert_eq!(choice.index, 0);
    assert_eq!(choice.message.role, "assistant");
    assert_eq!(choice.message.content, "Hello");
    assert!(choice.message.tool_calls.is_none());
    assert_eq!(choice.finish_reason, "stop");
}

#[test]
fn aggregate_response_for_tool_call_turn() {
    let events = vec![
        ev(
            "r",
            EventMsg::RawItem {
                item: ResponseItem::FunctionCall {
                    call_id: "call-1".to_string(),
                    name: "lookup".to_string(),
                    arguments: "{}".to_string(),
                },
            },
        ),
        complete("r", None),
    ];
    let (accum, _) = run_turn(&events, "r");
    let resp = assemble_chat_completion(&accum, "gpt-4o-mini");
    assert_eq!(resp.choices[0].message.content, "");
    assert_eq!(resp.choices[0].finish_reason, "tool_calls");
    let calls = resp.choices[0].message.tool_calls.as_ref().unwrap();
    assert_eq!(calls.len(), 1);
    assert_eq!(calls[0].kind, "function");
    assert_eq!(calls[0].function.name, "lookup");
    assert_eq!(calls[0].function.arguments, "{}");
}

#[test]
fn finish_reason_is_tool_calls_even_with_text() {
    let events = vec![
        delta("r", "thinking"),
        ev(
            "r",
            EventMsg::RawItem {
                item: ResponseItem::CustomToolCall {
                    call_id: "c".to_string(),
                    name: "custom".to_string(),
                    input: "payload".to_string(),
                },
            },
        ),
        complete("r", None),
    ];
    let (accum, _) = run_turn(&events, "r");
    let resp = assemble_chat_completion(&accum, "gpt-4o");
    assert_eq!(resp.choices[0].finish_reason, "tool_calls");
    let calls = resp.choices[0].message.tool_calls.as_ref().unwrap();
    assert_eq!(calls[0].function.arguments, "payload");
}

#[test]
fn aggregate_content_is_trimmed() {
    let events = vec![complete("r", Some("  spaced out  "))];
    let (accum, _) = run_turn(&events, "r");
    let resp = assemble_chat_completion(&accum, "m");
    assert_eq!(resp.choices[0].message.content, "spaced out");
}

#[test]
fn responses_response_appends_final_text_as_message_item() {
    let events = vec![
        ev("r", EventMsg::RawItem { item: ResponseItem::Other }),
        delta("r", "the text"),
        complete("r", None),
    ];
    let (accum, _) = run_turn(&events, "r");
    let resp = assemble_responses_response(
        accum,
        "resp-1".to_string(),
        "gpt-4o".to_string(),
        "conv-1".to_string(),
    );
    assert_eq!(resp.id, "resp-1");
    assert_eq!(resp.object, "response");
    assert_eq!(resp.status, "completed");
    assert_eq!(resp.model, "gpt-4o");
    assert_eq!(resp.conversation_id.as_deref(), Some("conv-1"));
    assert_eq!(resp.output.len(), 2);
    match &resp.output[1] {
        ResponseItem::Message { id, role, content } => {
            assert!(id.is_none());
            assert_eq!(role, "assistant");
            assert_eq!(content.len(), 1);
            match &content[0] {
                ContentItem::OutputText { text } => assert_eq!(text, "the text"),
                _ => panic!("expected output text"),
            }
        }
        _ => panic!("expected a trailing assistant message"),
    }
}

#[test]
fn responses_response_without_text_keeps_items_only() {
    let events = vec![ev("r", EventMsg::RawItem { item: ResponseItem::Other }), complete("r", None)];
    let (accum, _) = run_turn(&events, "r");
    let resp = assemble_responses_response(
        accum,
        "resp-2".to_string(),
        "gpt-4o".to_string(),
        "conv-2".to_string(),
    );
    assert_eq!(resp.output.len(), 1);
}

#[test]
fn tool_call_mapping_covers_both_shapes_and_nothing_else() {
    let f = ResponseItem::FunctionCall {
        call_id: "a".to_string(),
        name: "f".to_string(),
        arguments: "{\"x\":1}".to_string(),
    };
    let c = ResponseItem::CustomToolCall {
        call_id: "b".to_string(),
        name: "g".to_string(),
        input: "raw".to_string(),
    };
    let m = ResponseItem::Message { id: None, role: "assistant".to_string(), content: vec![] };
    let tf = map_tool_call(&f).unwrap();
    assert_eq!(tf.id, "a");
    assert_eq!(tf.kind, "function");
    assert_eq!(tf.function.arguments, "{\"x\":1}");
    let tc = map_tool_call(&c).unwrap();
    assert_eq!(tc.id, "b");
    assert_eq!(tc.kind, "function");
    assert_eq!(tc.function.arguments, "raw");
    assert!(map_tool_call(&m).is_none());
    assert!(map_tool_call(&ResponseItem::Other).is_none());
    let calls = tool_calls_of(&vec![f, m, c]);
    assert_eq!(calls.len(), 2);
    assert_eq!(calls[0].id, "a");
    assert_eq!(calls[1].id, "b");
}

#[test]
fn replayed_chat_turn_succeeds_only_on_completion() {
    let ok = chat_completion_from_events(
        &vec![delta("r", "Hel"), delta("r", "lo"), complete("r", None)],
        "r",
        "gpt-4o-mini",
    )
    .unwrap();
    assert_eq!(ok.choices[0].message.content, "Hello");
    assert_eq!(ok.choices[0].finish_reason, "stop");

    let failed = chat_completion_from_events(
        &vec![ev("r", EventMsg::Error { message: "boom".to_string() })],
        "r",
        "gpt-4o-mini",
    )
    .unwrap_err();
    assert_eq!(failed.message, "turn error: boom");

    let pending = chat_completion_from_events(&vec![delta("r", "half")], "r", "m").unwrap_err();
    assert!(matches!(pending.kind, ErrorKind::EventStreamFailed));
    assert_eq!(pending.message, "event stream ended before the turn completed");
}

#[test]
fn replayed_responses_turn_builds_the_full_response() {
    let resp = responses_response_from_events(
        &vec![delta("r", "answer"), complete("r", None)],
        "r",
        "resp-9".to_string(),
        "gpt-4o".to_string(),
        "conv-9".to_string(),
    )
    .unwrap();
    assert_eq!(resp.id, "resp-9");
    assert_eq!(resp.status, "completed");
    assert_eq!(resp.output.len(), 1);
    match &resp.output[0] {
        ResponseItem::Message { role, content, .. } => {
            assert_eq!(role, "assistant");
            match &content[0] {
                ContentItem::OutputText { text } => assert_eq!(text, "answer"),
                _ => panic!("expected output text"),
            }
        }
        _ => panic!("expected an assistant message item"),
    }
}

#[test]
fn error_envelope_carries_message_and_type() {
    let err = TurnError { kind: ErrorKind::SessionFailure, message: "no such session".to_string() };
    let envelope = error_envelope(&err);
    assert_eq!(envelope.message, "no such session");
    assert_eq!(envelope.error_type, "internal_error");
    assert_eq!(err.kind.http_status(), 500);
    assert_eq!(err.kind.category(), "session resolution failed");
}

#[test]
fn failure_builders_classify_and_prefix() {
    let s = submit_failure("pipe closed");
    assert!(matches!(s.kind, ErrorKind::SubmissionFailed));
    assert_eq!(s.message, "submit error: pipe closed");
    assert_eq!(s.kind.category(), "submission failed");
    let e = event_stream_failure("recv failed");
    assert!(matches!(e.kind, ErrorKind::EventStreamFailed));
    assert_eq!(e.message, "event error: recv failed");
    assert_eq!(e.kind.category(), "event stream failed");
    let i = invalid_reference_failure("bad uuid");
    assert!(matches!(i.kind, ErrorKind::SessionFailure));
    assert_eq!(i.message, "invalid conversation_id: bad uuid");
    let l = lookup_failure("gone");
    assert_eq!(l.message, "thread not found: gone");
}

#[test]
fn session_plan_looks_up_supplied_reference() {
    let plan = plan_session("gpt-4o", &Some("conv-9".to_string()));
    match plan {
        SessionDecision::Lookup { reference } => assert_eq!(reference, "conv-9"),
        _ => panic!("expected a lookup"),
    }
}

#[test]
fn session_plan_creates_with_fixed_policy_overrides() {
    let plan = plan_session("GPT-4O", &None);
    match plan {
        SessionDecision::Create { overrides } => {
            assert_eq!(overrides.len(), 3);
            assert_eq!(overrides[0].key, "model");
            assert_eq!(overrides[0].value, "gpt-4o");
            assert_eq!(overrides[1].key, "approval_policy");
            assert_eq!(overrides[1].value, "never");
            assert_eq!(overrides[2].key, "sandbox_mode");
            assert_eq!(overrides[2].value, "read-only");
        }
        _ => panic!("expected a creation"),
    }
}

#[test]
fn turn_request_is_fresh_and_normalized() {
    let r1 = build_turn_request("user: hi".to_string(), "GPT-4O-MINI");
    let r2 = build_turn_request("user: hi".to_string(), "GPT-4O-MINI");
    assert_eq!(r1.id.len(), 36);
    assert_ne!(r1.id, r2.id);
    assert_eq!(r1.instruction, "user: hi");
    assert_eq!(r1.model, "gpt-4o-mini");
}
