use openai_proxy::items::ContentItem;
use openai_proxy::items::ResponseItem;
use openai_proxy::request::ChatCompletionRequest;
use openai_proxy::request::ChatMessage;
use openai_proxy::request::ContentBlock;
use openai_proxy::request::InputValue;
use openai_proxy::request::MessageContent;
use openai_proxy::request::ResponsesRequest;
use openai_proxy::request::chat_instruction;
use openai_proxy::request::merge_messages;
use openai_proxy::request::merge_responses_input;
use openai_proxy::request::merge_responses_input_values;
use openai_proxy::request::merged_text_from_request;
use openai_proxy::request::responses_instruction;
use openai_proxy::errors::ErrorKind;

fn msg(role: &str, content: &str) -> ChatMessage {
    ChatMessage {
        role: role.to_string(),
        content: MessageContent::Text { text: content.to_string() },
    }
}

fn chat_request(messages: Vec<ChatMessage>) -> ChatCompletionRequest {
    ChatCompletionRequest {
        model: "gpt-4o-mini".to_string(),
        messages: Some(messages),
        input: None,
        instructions: None,
        stream: false,
        conversation_id: None,
    }
}

#[test]
fn merges_role_prefixed_messages_in_order() {
    let msgs = vec![msg("system", "be brief"), msg("user", "hi")];
    let merged = merge_messages(&msgs).unwrap();
    assert_eq!(merged, "system: be brief\nuser: hi");
}

#[test]
fn message_content_is_not_trimmed_in_chat_shape() {
    let msgs = vec![msg("user", "  hi  ")];
    let merged = merge_messages(&msgs).unwrap();
    assert_eq!(merged, "user:   hi  ");
}

#[test]
fn blank_messages_are_dropped() {
    let msgs = vec![msg("user", "   "), msg("user", "hello"), msg("assistant", "\t\n")];
    let merged = merge_messages(&msgs).unwrap();
    assert_eq!(merged, "user: hello");
}

#[test]
fn all_blank_messages_merge_to_none() {
    let msgs = vec![msg("user", ""), msg("assistant", " \t "), msg("system", "\n")];
    assert!(merge_messages(&msgs).is_none());
}

#[test]
fn block_content_joins_texts_with_newlines() {
    let msgs = vec![ChatMessage {
        role: "user".to_string(),
        content: MessageContent::Blocks {
            blocks: vec![
                ContentBlock { text: Some("first".to_string()) },
                ContentBlock { text: None },
                ContentBlock { text: Some("second".to_string()) },
            ],
        },
    }];
    let merged = merge_messages(&msgs).unwrap();
    assert_eq!(merged, "user: first\nsecond");
}

#[test]
fn non_text_content_carries_nothing() {
    let msgs = vec![ChatMessage { role: "user".to_string(), content: MessageContent::Other }];
    assert!(merge_messages(&msgs).is_none());
}

#[test]
fn input_values_trim_content_and_default_role_to_user() {
    let input = vec![
        InputValue::Entry {
            role: None,
            content: MessageContent::Text { text: "  question  ".to_string() },
        },
        InputValue::Other,
        InputValue::Entry {
            role: Some("assistant".to_string()),
            content: MessageContent::Text { text: "answer".to_string() },
        },
    ];
    let merged = merge_responses_input_values(&input, &None).unwrap();
    assert_eq!(merged, "user: question\nassistant: answer");
}

#[test]
fn instructions_are_prepended_as_system_line() {
    let input = vec![InputValue::Entry {
        role: Some("user".to_string()),
        content: MessageContent::Text { text: "hi".to_string() },
    }];
    let merged =
        merge_responses_input_values(&input, &Some("  stay focused  ".to_string())).unwrap();
    assert_eq!(merged, "system: stay focused\nuser: hi");
}

#[test]
fn blank_instructions_are_dropped() {
    let input = vec![InputValue::Entry {
        role: Some("user".to_string()),
        content: MessageContent::Text { text: "hi".to_string() },
    }];
    let merged = merge_responses_input_values(&input, &Some("   ".to_string())).unwrap();
    assert_eq!(merged, "user: hi");
}

#[test]
fn instructions_alone_are_enough() {
    let merged = merge_responses_input_values(&vec![], &Some("rules".to_string())).unwrap();
    assert_eq!(merged, "system: rules");
}

#[test]
fn structured_items_merge_message_texts() {
    let input = vec![
        ResponseItem::Message {
            id: None,
            role: "user".to_string(),
            content: vec![
                ContentItem::InputText { text: "part one".to_string() },
                ContentItem::Other,
                ContentItem::OutputText { text: "part two".to_string() },
            ],
        },
        ResponseItem::FunctionCall {
            call_id: "c1".to_string(),
            name: "f".to_string(),
            arguments: "{}".to_string(),
        },
    ];
    let merged = merge_responses_input(&input, &None).unwrap();
    assert_eq!(merged, "user: part one\npart two");
}

#[test]
fn chat_request_falls_back_to_input_when_messages_are_blank() {
    let req = ChatCompletionRequest {
        model: "gpt-4o-mini".to_string(),
        messages: Some(vec![msg("user", "  ")]),
        input: Some(vec![InputValue::Entry {
            role: None,
            content: MessageContent::Text { text: "from input".to_string() },
        }]),
        instructions: None,
        stream: false,
        conversation_id: None,
    };
    let merged = merged_text_from_request(&req).unwrap();
    assert_eq!(merged, "user: from input");
}

#[test]
fn empty_chat_request_is_rejected_as_invalid() {
    let req = chat_request(vec![msg("user", " \t\n")]);
    let err = chat_instruction(&req).unwrap_err();
    assert!(matches!(err.kind, ErrorKind::InvalidRequest));
    assert_eq!(err.message, "no user content found");
    assert_eq!(err.kind.http_status(), 400);
    assert_eq!(err.kind.error_type(), "invalid_request_error");
}

#[test]
fn empty_responses_request_is_rejected_as_invalid() {
    let req = ResponsesRequest {
        model: "gpt-4o".to_string(),
        input: vec![ResponseItem::Message {
            id: None,
            role: "user".to_string(),
            content: vec![ContentItem::InputText { text: "   ".to_string() }],
        }],
        instructions: None,
        stream: false,
        conversation_id: None,
    };
    let err = responses_instruction(&req).unwrap_err();
    assert!(matches!(err.kind, ErrorKind::InvalidRequest));
    assert_eq!(err.kind.http_status(), 400);
    assert_eq!(err.kind.error_type(), "invalid_request_error");
}

#[test]
fn instructions_are_prepended_to_the_message_shape_too() {
    let req = ChatCompletionRequest {
        model: "gpt-4o-mini".to_string(),
        messages: Some(vec![msg("user", "hi")]),
        input: None,
        instructions: Some(" stay close to the text ".to_string()),
        stream: false,
        conversation_id: None,
    };
    let merged = merged_text_from_request(&req).unwrap();
    assert_eq!(merged, "system: stay close to the text\nuser: hi");
}

#[test]
fn valid_chat_request_yields_instruction() {
    let req = chat_request(vec![msg("user", "hi")]);
    let text = chat_instruction(&req).unwrap();
    assert_eq!(text, "user: hi");
}
