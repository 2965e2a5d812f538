use openai_proxy::items::ResponseItem;
use openai_proxy::turn::Accum;
use openai_proxy::turn::EventMsg;
use openai_proxy::turn::SessionEvent;
use openai_proxy::turn::TurnOutcome;
use openai_proxy::turn::run_turn;
use openai_proxy::errors::ErrorKind;

fn ev(id: &str, msg: EventMsg) -> SessionEvent {
    SessionEvent { id: id.to_string(), msg }
}

fn delta(id: &str, text: &str) -> SessionEvent {
    ev(id, EventMsg::AgentMessageDelta { delta: text.to_string() })
}

fn complete(id: &str, last: Option<&str>) -> SessionEvent {
    ev(id, EventMsg::TurnComplete { last_agent_message: last.map(|s| s.to_string()) })
}

fn function_call(id: &str, name: &str, arguments: &str) -> SessionEvent {
    ev(
        id,
        EventMsg::RawItem {
            item: ResponseItem::FunctionCall {
                call_id: "call-1".to_string(),
                name: name.to_string(),
                arguments: arguments.to_string(),
            },
        },
    )
}

#[test]
fn deltas_concatenate_in_order() {
    let events = vec![delta("r", "Hel"), delta("r", "lo"), complete("r", None)];
    let (accum, outcome) = run_turn(&events, "r");
    assert_eq!(accum.text, "Hello");
    assert!(matches!(outcome, TurnOutcome::Complete));
}

#[test]
fn final_message_overwrites_streamed_deltas() {
    let events = vec![delta("r", "partial"), complete("r", Some("the real answer"))];
    let (accum, outcome) = run_turn(&events, "r");
    assert_eq!(accum.text, "the real answer");
    assert!(matches!(outcome, TurnOutcome::Complete));
}

#[test]
fn whole_messages_append_with_newline() {
    let events = vec![
        ev("r", EventMsg::AgentMessage { message: "line one".to_string() }),
        ev("r", EventMsg::AgentMessage { message: "line two".to_string() }),
        complete("r", None),
    ];
    let (accum, _) = run_turn(&events, "r");
    assert_eq!(accum.text, "line one\nline two\n");
    assert!(accum.text_seen);
}

#[test]
fn foreign_events_are_ignored() {
    let events = vec![
        delta("other", "WRONG"),
        delta("r", "mine"),
        function_call("other", "not_mine", "{}"),
        complete("other", Some("foreign final")),
        complete("r", None),
    ];
    let (accum, outcome) = run_turn(&events, "r");
    assert_eq!(accum.text, "mine");
    assert!(accum.items.is_empty());
    assert!(matches!(outcome, TurnOutcome::Complete));
}

#[test]
fn two_interleaved_turns_each_see_only_their_own_events() {
    let events = vec![
        delta("a", "first "),
        delta("b", "second "),
        delta("a", "turn"),
        delta("b", "stream"),
        complete("a", None),
        complete("b", None),
    ];
    let (accum_a, _) = run_turn(&events, "a");
    let (accum_b, _) = run_turn(&events, "b");
    assert_eq!(accum_a.text, "first turn");
    assert_eq!(accum_b.text, "second stream");
}

#[test]
fn structured_items_are_collected_in_order() {
    let events = vec![
        function_call("r", "lookup", "{}"),
        ev("r", EventMsg::RawItem { item: ResponseItem::Other }),
        complete("r", None),
    ];
    let (accum, _) = run_turn(&events, "r");
    assert_eq!(accum.items.len(), 2);
    assert!(matches!(accum.items[0], ResponseItem::FunctionCall { .. }));
    assert!(matches!(accum.items[1], ResponseItem::Other));
}

#[test]
fn warnings_change_nothing() {
    let events = vec![
        delta("r", "text"),
        ev("r", EventMsg::Warning { message: "heads up".to_string() }),
        complete("r", None),
    ];
    let (accum, outcome) = run_turn(&events, "r");
    assert_eq!(accum.text, "text");
    assert!(matches!(outcome, TurnOutcome::Complete));
}

#[test]
fn error_event_fails_the_turn() {
    let events = vec![delta("r", "some"), ev("r", EventMsg::Error { message: "boom".to_string() })];
    let (_, outcome) = run_turn(&events, "r");
    match outcome {
        TurnOutcome::Failed(e) => {
            assert!(matches!(e.kind, ErrorKind::UpstreamError));
            assert_eq!(e.message, "turn error: boom");
            assert_eq!(e.kind.http_status(), 500);
            assert_eq!(e.kind.error_type(), "internal_error");
            assert_eq!(e.kind.category(), "upstream turn error");
        }
        _ => panic!("expected a failed turn"),
    }
}

#[test]
fn abort_event_fails_the_turn() {
    let events = vec![ev("r", EventMsg::TurnAborted { reason: "interrupted".to_string() })];
    let (_, outcome) = run_turn(&events, "r");
    match outcome {
        TurnOutcome::Failed(e) => {
            assert!(matches!(e.kind, ErrorKind::TurnAborted));
            assert_eq!(e.message, "turn aborted: interrupted");
            assert_eq!(e.kind.category(), "turn aborted");
        }
        _ => panic!("expected a failed turn"),
    }
}

#[test]
fn nothing_is_consumed_after_the_terminal_event() {
    let events = vec![
        delta("r", "kept"),
        complete("r", None),
        delta("r", "dropped"),
        function_call("r", "late", "{}"),
    ];
    let (accum, outcome) = run_turn(&events, "r");
    assert_eq!(accum.text, "kept");
    assert!(accum.items.is_empty());
    assert!(matches!(outcome, TurnOutcome::Complete));
}

#[test]
fn no_terminal_event_leaves_the_turn_pending() {
    let events = vec![delta("r", "still going")];
    let (accum, outcome) = run_turn(&events, "r");
    assert_eq!(accum.text, "still going");
    assert!(matches!(outcome, TurnOutcome::Pending));
}

#[test]
fn events_apply_one_at_a_time() {
    let mut accum = Accum::new();
    let o1 = accum.apply_event(&delta("r", "a"), "r");
    assert!(matches!(o1, TurnOutcome::Pending));
    let o2 = accum.apply_event(&delta("x", "zzz"), "r");
    assert!(matches!(o2, TurnOutcome::Pending));
    let o3 = accum.apply_event(&complete("r", None), "r");
    assert!(matches!(o3, TurnOutcome::Complete));
    assert_eq!(accum.text, "a");
}
