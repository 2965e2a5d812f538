//! The aggregate response assemblers: once a turn has completed, package
//! the accumulated result as a single response object.  On failure the
//! error envelope takes its place; a response is never partially emitted.

use vstd::prelude::*;

use crate::ids::chat_completion_id;
use crate::ids::now_ts;
use crate::items::ContentItem;
use crate::items::ContentItemModel;
use crate::items::ItemModel;
use crate::items::ResponseItem;
use crate::items::ToolCall;
use crate::items::lemma_tool_calls_nonempty;
use crate::items::spec_finish_reason;
use crate::items::spec_tool_calls;
use crate::items::tool_calls_of;
use crate::text::trim;
use crate::text::trim_str;
use crate::errors::ErrorKind;
use crate::errors::TurnError;
use crate::turn::Accum;
use crate::turn::AccumModel;
use crate::turn::OutcomeModel;
use crate::turn::SessionEvent;
use crate::turn::TurnOutcome;
use crate::turn::init_accum;
use crate::turn::run_accum;
use crate::turn::run_outcome;
use crate::turn::run_turn;

verus! {

/// Token accounting; this adapter performs none, so every count is zero.
#[derive(Debug)]
pub struct Usage {
    pub prompt_tokens: u32,
    pub completion_tokens: u32,
    pub total_tokens: u32,
}

/// The assistant message of the single choice.
#[derive(Debug)]
pub struct ChatMessageResponse {
    pub role: String,
    pub content: String,
    pub tool_calls: Option<Vec<ToolCall>>,
}

/// The single choice of an aggregate chat response.
#[derive(Debug)]
pub struct ChatChoice {
    pub index: usize,
    pub message: ChatMessageResponse,
    pub finish_reason: String,
}

/// One aggregate chat-completion response object.
#[derive(Debug)]
pub struct ChatCompletionResponse {
    pub id: String,
    pub object: String,
    pub created: u64,
    pub model: String,
    pub choices: Vec<ChatChoice>,
    pub usage: Usage,
}

/// Package a completed turn as one aggregate chat response: one choice
/// with role `assistant`, the trimmed final text, the tool calls observed
/// during the turn (present only when non-empty), and the finish reason
/// derived from them.  The model name is the one the caller supplied, not
/// the normalized one.
pub fn assemble_chat_completion(accum: &Accum, original_model: &str) -> (r: ChatCompletionResponse)
    ensures
        r.object@ == "chat.completion"@,
        r.model@ == original_model@,
        r.id@.len() == "chatcmpl-codex-"@.len() + 36,
        r.id@.subrange(0, "chatcmpl-codex-"@.len() as int) == "chatcmpl-codex-"@,
        r.usage.prompt_tokens == 0,
        r.usage.completion_tokens == 0,
        r.usage.total_tokens == 0,
        r.choices@.len() == 1,
        r.choices@[0].index == 0,
        r.choices@[0].message.role@ == "assistant"@,
        r.choices@[0].message.content@ == trim(accum@.text),
        (if spec_tool_calls(accum@.items).len() == 0 {
            r.choices@[0].message.tool_calls is None
        } else {
            r.choices@[0].message.tool_calls matches Some(v) && v@.map_values(|tc: ToolCall| tc@)
                == spec_tool_calls(accum@.items)
        }),
        r.choices@[0].finish_reason@ == spec_finish_reason(accum@.items),
{
    let content = trim_str(accum.text.as_str());
    let tcs = tool_calls_of(&accum.items);
    proof {
        lemma_tool_calls_nonempty(accum@.items);
    }
    let has_tools = tcs.len() > 0;
    let finish_reason = if has_tools {
        String::from_str("tool_calls")
    } else {
        String::from_str("stop")
    };
    let tool_calls = if has_tools {
        Some(tcs)
    } else {
        None
    };
    let mut choices: Vec<ChatChoice> = Vec::new();
    choices.push(
        ChatChoice {
            index: 0,
            message: ChatMessageResponse {
                role: String::from_str("assistant"),
                content,
                tool_calls,
            },
            finish_reason,
        },
    );
    ChatCompletionResponse {
        id: chat_completion_id(),
        object: String::from_str("chat.completion"),
        created: now_ts(),
        model: original_model.to_owned(),
        choices,
        usage: Usage { prompt_tokens: 0, completion_tokens: 0, total_tokens: 0 },
    }
}

/// One aggregate responses-style response object.
#[derive(Debug)]
pub struct ResponsesResponse {
    pub id: String,
    pub object: String,
    pub created_at: u64,
    pub model: String,
    pub status: String,
    pub output: Vec<ResponseItem>,
    pub conversation_id: Option<String>,
}

/// The output items of a completed turn: the structured items in arrival
/// order, followed by one assistant message holding the trimmed final text
/// when any non-blank text was seen.
pub open spec fn spec_final_output(a: AccumModel) -> Seq<ItemModel> {
    if a.text_seen && trim(a.text).len() > 0 {
        a.items.push(
            ItemModel::Message {
                id: None,
                role: "assistant"@,
                content: seq![ContentItemModel::OutputText { text: trim(a.text) }],
            },
        )
    } else {
        a.items
    }
}

/// Package a completed turn as one aggregate responses-style response:
/// status `completed`, the accumulated items with the final text appended
/// as an assistant message, and the session reference the caller can reuse.
/// The model name is the normalized one the turn actually ran under.
pub fn assemble_responses_response(
    accum: Accum,
    resp_id: String,
    model: String,
    conversation_id: String,
) -> (r: ResponsesResponse)
    ensures
        r.id == resp_id,
        r.object@ == "response"@,
        r.model == model,
        r.status@ == "completed"@,
        r.output@.map_values(|it: ResponseItem| it@) == spec_final_output(accum@),
        r.conversation_id matches Some(c) && c == conversation_id,
{
    let ghost a = accum@;
    let Accum { text, mut items, text_seen } = accum;
    if text_seen {
        let trimmed = trim_str(text.as_str());
        if trimmed.as_str().unicode_len() > 0 {
            let mut content: Vec<ContentItem> = Vec::new();
            content.push(ContentItem::OutputText { text: trimmed });
            items.push(
                ResponseItem::Message {
                    id: None,
                    role: String::from_str("assistant"),
                    content,
                },
            );
        }
    }
    proof {
        assert(items@.map_values(|it: ResponseItem| it@) =~~= spec_final_output(a));
    }
    ResponsesResponse {
        id: resp_id,
        object: String::from_str("response"),
        created_at: now_ts(),
        model,
        status: String::from_str("completed"),
        output: items,
        conversation_id: Some(conversation_id),
    }
}

/// Replay one aggregate chat turn over a collected event sequence.
/// Succeeds exactly when the events complete the turn; a terminal error or
/// abort of this turn yields its classified failure, and a sequence that
/// ends before any terminal event is reported as an event-stream failure.
pub fn chat_completion_from_events(
    events: &Vec<SessionEvent>,
    req_id: &str,
    original_model: &str,
) -> (r: Result<ChatCompletionResponse, TurnError>)
    ensures
        ({
            let a = run_accum(init_accum(), events@, req_id@);
            match r {
                Ok(resp) => run_outcome(events@, req_id@) == OutcomeModel::Complete && resp.object@
                    == "chat.completion"@ && resp.model@ == original_model@ && resp.choices@.len()
                    == 1 && resp.choices@[0].message.role@ == "assistant"@
                    && resp.choices@[0].message.content@ == trim(a.text)
                    && resp.choices@[0].finish_reason@ == spec_finish_reason(a.items) && (if
                spec_tool_calls(a.items).len() == 0 {
                    resp.choices@[0].message.tool_calls is None
                } else {
                    resp.choices@[0].message.tool_calls matches Some(v) && v@.map_values(
                        |tc: ToolCall| tc@,
                    ) == spec_tool_calls(a.items)
                }),
                Err(e) => match run_outcome(events@, req_id@) {
                    OutcomeModel::Complete => false,
                    OutcomeModel::Failed(f) => e@ == f,
                    OutcomeModel::Pending => e.kind == ErrorKind::EventStreamFailed && e.message@
                        == "event stream ended before the turn completed"@,
                },
            }
        }),
{
    let (accum, outcome) = run_turn(events, req_id);
    match outcome {
        TurnOutcome::Complete => Ok(assemble_chat_completion(&accum, original_model)),
        TurnOutcome::Failed(e) => Err(e),
        TurnOutcome::Pending => Err(
            TurnError {
                kind: ErrorKind::EventStreamFailed,
                message: String::from_str("event stream ended before the turn completed"),
            },
        ),
    }
}

/// Replay one aggregate responses-style turn over a collected event
/// sequence, with the same success condition as the chat replay.
pub fn responses_response_from_events(
    events: &Vec<SessionEvent>,
    req_id: &str,
    resp_id: String,
    model: String,
    conversation_id: String,
) -> (r: Result<ResponsesResponse, TurnError>)
    ensures
        ({
            let a = run_accum(init_accum(), events@, req_id@);
            match r {
                Ok(resp) => run_outcome(events@, req_id@) == OutcomeModel::Complete && resp.id
                    == resp_id && resp.object@ == "response"@ && resp.model == model
                    && resp.status@ == "completed"@ && resp.output@.map_values(
                    |it: ResponseItem| it@,
                ) == spec_final_output(a) && (resp.conversation_id matches Some(c) && c
                    == conversation_id),
                Err(e) => match run_outcome(events@, req_id@) {
                    OutcomeModel::Complete => false,
                    OutcomeModel::Failed(f) => e@ == f,
                    OutcomeModel::Pending => e.kind == ErrorKind::EventStreamFailed && e.message@
                        == "event stream ended before the turn completed"@,
                },
            }
        }),
{
    let (accum, outcome) = run_turn(events, req_id);
    match outcome {
        TurnOutcome::Complete => Ok(
            assemble_responses_response(accum, resp_id, model, conversation_id),
        ),
        TurnOutcome::Failed(e) => Err(e),
        TurnOutcome::Pending => Err(
            TurnError {
                kind: ErrorKind::EventStreamFailed,
                message: String::from_str("event stream ended before the turn completed"),
            },
        ),
    }
}

} // verus!
