use openai_proxy::chat_stream::ChatFrame;
use openai_proxy::chat_stream::ChatStreamTurn;
use openai_proxy::chat_stream::ChatWire;
use openai_proxy::chat_stream::chat_frame_wire;
use openai_proxy::chat_stream::stream_chunk;
use openai_proxy::chat_stream::stream_chunk_with_finish;
use openai_proxy::errors::ErrorKind;
use openai_proxy::items::ResponseItem;
use openai_proxy::items::ToolCall;
use openai_proxy::items::ToolFunction;
use openai_proxy::responses_stream::RespFrame;
use openai_proxy::responses_stream::RespStreamTurn;
use openai_proxy::responses_stream::RespWire;
use openai_proxy::responses_stream::resp_frame_wire;
use openai_proxy::responses_stream::response_created_event;
use openai_proxy::responses_stream::response_output_item_done_event;
use openai_proxy::responses_stream::response_output_text_delta_event;
use openai_proxy::turn::EventMsg;
use openai_proxy::turn::SessionEvent;

fn ev(id: &str, msg: EventMsg) -> SessionEvent {
    SessionEvent { id: id.to_string(), msg }
}

fn delta(id: &str, text: &str) -> SessionEvent {
    ev(id, EventMsg::AgentMessageDelta { delta: text.to_string() })
}

fn complete(id: &str, last: Option<&str>) -> SessionEvent {
    ev(id, EventMsg::TurnComplete { last_agent_message: last.map(|s| s.to_string()) })
}

fn function_call(id: &str, name: &str) -> SessionEvent {
    ev(
        id,
        EventMsg::RawItem {
            item: ResponseItem::FunctionCall {
                call_id: "call-1".to_string(),
                name: name.to_string(),
                arguments: "{}".to_string(),
            },
        },
    )
}

fn run_chat(events: &[SessionEvent], rid: &str) -> Vec<ChatFrame> {
    let mut turn = ChatStreamTurn::new();
    let mut frames = Vec::new();
    for e in events {
        frames.extend(turn.on_event(e, rid));
        if turn.finished {
            break;
        }
    }
    frames
}

fn run_resp(events: &[SessionEvent], rid: &str) -> Vec<RespFrame> {
    let mut turn = RespStreamTurn::new();
    let mut frames = vec![RespFrame::Created];
    for e in events {
        frames.extend(turn.on_event(e, rid));
        if turn.finished {
            break;
        }
    }
    frames
}

#[test]
fn chat_stream_emits_deltas_finish_and_done() {
    let events = vec![delta("r", "Hel"), delta("r", "lo"), complete("r", None)];
    let frames = run_chat(&events, "r");
    assert_eq!(frames.len(), 4);
    assert!(matches!(&frames[0], ChatFrame::Content { text } if text == "Hel"));
    assert!(matches!(&frames[1], ChatFrame::Content { text } if text == "lo"));
    assert!(matches!(&frames[2], ChatFrame::Finish { reason } if reason == "stop"));
    assert!(matches!(&frames[3], ChatFrame::Done));
}

#[test]
fn chat_stream_has_exactly_one_done_and_nothing_after_it() {
    let events = vec![delta("r", "a"), complete("r", None), delta("r", "late")];
    let frames = run_chat(&events, "r");
    let done_positions: Vec<usize> = frames
        .iter()
        .enumerate()
        .filter(|(_, f)| matches!(f, ChatFrame::Done))
        .map(|(i, _)| i)
        .collect();
    assert_eq!(done_positions.len(), 1);
    assert_eq!(done_positions[0], frames.len() - 1);
}

#[test]
fn chat_stream_forwards_tool_calls_and_finishes_with_tool_calls() {
    let events = vec![function_call("r", "lookup"), complete("r", None)];
    let frames = run_chat(&events, "r");
    assert!(matches!(&frames[0], ChatFrame::ToolCallDelta { call } if call.function.name == "lookup"));
    assert!(matches!(&frames[1], ChatFrame::Finish { reason } if reason == "tool_calls"));
    assert!(matches!(&frames[2], ChatFrame::Done));
}

#[test]
fn chat_stream_forwards_only_tool_call_items() {
    let events = vec![
        ev("r", EventMsg::RawItem { item: ResponseItem::Other }),
        complete("r", None),
    ];
    let frames = run_chat(&events, "r");
    assert!(matches!(&frames[0], ChatFrame::Finish { reason } if reason == "stop"));
}

#[test]
fn chat_stream_emits_final_message_before_finish() {
    let events = vec![complete("r", Some("Hello"))];
    let frames = run_chat(&events, "r");
    assert!(matches!(&frames[0], ChatFrame::Content { text } if text == "Hello"));
    assert!(matches!(&frames[1], ChatFrame::Finish { .. }));
    assert!(matches!(&frames[2], ChatFrame::Done));
}

#[test]
fn chat_stream_ignores_foreign_events() {
    let events = vec![
        delta("other", "WRONG"),
        function_call("other", "foreign"),
        delta("r", "mine"),
        complete("r", None),
    ];
    let frames = run_chat(&events, "r");
    assert_eq!(frames.len(), 3);
    assert!(matches!(&frames[0], ChatFrame::Content { text } if text == "mine"));
    assert!(matches!(&frames[1], ChatFrame::Finish { reason } if reason == "stop"));
}

#[test]
fn chat_stream_error_ends_without_done() {
    let events = vec![delta("r", "so far"), ev("r", EventMsg::Error { message: "boom".to_string() })];
    let frames = run_chat(&events, "r");
    assert_eq!(frames.len(), 2);
    match &frames[1] {
        ChatFrame::Fail(e) => {
            assert!(matches!(e.kind, ErrorKind::UpstreamError));
            assert_eq!(e.message, "turn error: boom");
        }
        _ => panic!("expected a failure frame"),
    }
}

#[test]
fn streamed_text_matches_aggregate_text() {
    let events = vec![delta("r", "Hel"), delta("r", "lo"), complete("r", None)];
    let frames = run_chat(&events, "r");
    let streamed: String = frames
        .iter()
        .filter_map(|f| match f {
            ChatFrame::Content { text } => Some(text.as_str()),
            _ => None,
        })
        .collect();
    let (accum, _) = openai_proxy::turn::run_turn(&events, "r");
    assert_eq!(streamed, accum.text);
}

#[test]
fn responses_stream_emits_created_deltas_items_completed_done() {
    let events = vec![
        delta("r", "one"),
        ev("r", EventMsg::RawItem { item: ResponseItem::Other }),
        delta("r", "two"),
        complete("r", None),
    ];
    let frames = run_resp(&events, "r");
    assert_eq!(frames.len(), 6);
    assert!(matches!(&frames[0], RespFrame::Created));
    assert!(matches!(&frames[1], RespFrame::TextDelta { delta } if delta == "one"));
    assert!(matches!(&frames[2], RespFrame::ItemDone { item } if matches!(item, ResponseItem::Other)));
    assert!(matches!(&frames[3], RespFrame::TextDelta { delta } if delta == "two"));
    assert!(matches!(&frames[4], RespFrame::Completed));
    assert!(matches!(&frames[5], RespFrame::Done));
}

#[test]
fn responses_stream_synthesizes_final_message_when_no_text_streamed() {
    let events = vec![complete("r", Some("only final"))];
    let frames = run_resp(&events, "r");
    assert_eq!(frames.len(), 4);
    assert!(matches!(&frames[1], RespFrame::TextDelta { delta } if delta == "only final"));
    assert!(matches!(&frames[2], RespFrame::Completed));
    assert!(matches!(&frames[3], RespFrame::Done));
}

#[test]
fn responses_stream_never_duplicates_streamed_text() {
    let events = vec![delta("r", "already streamed"), complete("r", Some("final"))];
    let frames = run_resp(&events, "r");
    let texts: Vec<&str> = frames
        .iter()
        .filter_map(|f| match f {
            RespFrame::TextDelta { delta } => Some(delta.as_str()),
            _ => None,
        })
        .collect();
    assert_eq!(texts, vec!["already streamed"]);
}

#[test]
fn responses_stream_forwards_every_item() {
    let events = vec![function_call("r", "lookup"), complete("r", None)];
    let frames = run_resp(&events, "r");
    assert!(matches!(&frames[1], RespFrame::ItemDone { item } if matches!(item, ResponseItem::FunctionCall { .. })));
}

#[test]
fn stream_chunk_shapes_delta_and_finish() {
    let chunk = stream_chunk(Some("hi"), None, false, Some("conv-1".to_string()));
    assert_eq!(chunk.object, "chat.completion.chunk");
    assert!(chunk.id.starts_with("chatcmpl-codex-"));
    assert_eq!(chunk.id.len(), "chatcmpl-codex-".len() + 36);
    assert_eq!(chunk.choices.len(), 1);
    assert_eq!(chunk.choices[0].index, 0);
    assert_eq!(chunk.choices[0].delta.content.as_deref(), Some("hi"));
    assert!(chunk.choices[0].delta.tool_calls.is_none());
    assert!(chunk.choices[0].finish_reason.is_none());
    assert_eq!(chunk.conversation_id.as_deref(), Some("conv-1"));
}

#[test]
fn stream_chunk_done_without_tool_calls_finishes_with_stop() {
    let chunk = stream_chunk(None, None, true, None);
    assert_eq!(chunk.choices[0].finish_reason.as_deref(), Some("stop"));
}

#[test]
fn stream_chunk_done_with_tool_call_finishes_with_tool_calls() {
    let call = ToolCall {
        id: "c1".to_string(),
        kind: "function".to_string(),
        function: ToolFunction { name: "f".to_string(), arguments: "{}".to_string() },
    };
    let chunk = stream_chunk(None, Some(call), true, None);
    assert_eq!(chunk.choices[0].finish_reason.as_deref(), Some("tool_calls"));
    let calls = chunk.choices[0].delta.tool_calls.as_ref().unwrap();
    assert_eq!(calls.len(), 1);
    assert_eq!(calls[0].index, 0);
    assert_eq!(calls[0].id, "c1");
    assert_eq!(calls[0].kind, "function");
    assert_eq!(calls[0].function.name, "f");
}

#[test]
fn stream_chunk_with_finish_carries_given_reason() {
    let chunk = stream_chunk_with_finish(None, None, "tool_calls", Some("c".to_string()));
    assert_eq!(chunk.choices[0].finish_reason.as_deref(), Some("tool_calls"));
    assert!(chunk.choices[0].delta.content.is_none());
}

#[test]
fn chat_frames_map_to_wire_chunks() {
    let w = chat_frame_wire(
        ChatFrame::Content { text: "x".to_string() },
        Some("conv".to_string()),
    );
    match w {
        ChatWire::Chunk(c) => {
            assert_eq!(c.choices[0].delta.content.as_deref(), Some("x"));
            assert!(c.choices[0].finish_reason.is_none());
        }
        _ => panic!("expected a chunk"),
    }
    assert!(matches!(chat_frame_wire(ChatFrame::Done, None), ChatWire::DoneMarker));
    let e = chat_frame_wire(
        ChatFrame::Fail(openai_proxy::errors::TurnError {
            kind: ErrorKind::UpstreamError,
            message: "bad".to_string(),
        }),
        None,
    );
    assert!(matches!(e, ChatWire::StreamError { message } if message == "bad"));
}

#[test]
fn response_events_carry_their_payloads() {
    let created = response_created_event("resp-1", Some("conv-1".to_string()));
    assert_eq!(created.kind, "response.created");
    let summary = created.response.unwrap();
    assert_eq!(summary.id, "resp-1");
    assert_eq!(summary.conversation_id.as_deref(), Some("conv-1"));
    assert!(created.item.is_none());
    assert!(created.delta.is_none());

    let d = response_output_text_delta_event("chunk");
    assert_eq!(d.kind, "response.output_text.delta");
    assert_eq!(d.delta.as_deref(), Some("chunk"));

    let item_done = response_output_item_done_event(ResponseItem::Other);
    assert_eq!(item_done.kind, "response.output_item.done");
    assert!(matches!(item_done.item, Some(ResponseItem::Other)));
}

#[test]
fn response_frames_map_to_wire_events() {
    let w = resp_frame_wire(RespFrame::Completed, "resp-7", Some("conv-7".to_string()));
    match w {
        RespWire::Event(p) => {
            assert_eq!(p.kind, "response.completed");
            let s = p.response.unwrap();
            assert_eq!(s.id, "resp-7");
            assert_eq!(s.conversation_id.as_deref(), Some("conv-7"));
        }
        _ => panic!("expected an event"),
    }
    assert!(matches!(resp_frame_wire(RespFrame::Done, "r", None), RespWire::DoneMarker));
}
