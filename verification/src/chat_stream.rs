//! The chat-style streaming dialect: one chunk per fragment as it arrives,
//! a terminal chunk carrying the finish reason, then the end-of-stream
//! marker.

use vstd::prelude::*;

use crate::errors::ErrorKind;
use crate::errors::TurnError;
use crate::errors::TurnErrorModel;
use crate::ids::chat_completion_id;
use crate::ids::now_ts;
use crate::items::ToolCall;
use crate::items::ToolCallModel;
use crate::items::ToolFunction;
use crate::items::map_tool_call;
use crate::items::opt_str_view;
use crate::items::spec_finish_reason;
use crate::items::spec_tool_call;
use crate::items::has_tool_call;
use crate::turn::AccumModel;
use crate::turn::EventMsg;
use crate::turn::OutcomeModel;
use crate::turn::SessionEvent;
use crate::turn::accum_step;
use crate::turn::deltas_concat;
use crate::turn::event_outcome;
use crate::turn::init_accum;
use crate::turn::is_terminal;
use crate::turn::lemma_deltas_accumulate;
use crate::turn::lemma_has_tool_call_push;
use crate::turn::run_accum;
use crate::turn::own_events;
use crate::turn::run_outcome;
use crate::text::str_eq;

verus! {

/// One semantic frame of the chat-style stream, before wire decoration.
pub enum ChatFrame {
    /// A fragment of assistant text.
    Content { text: String },
    /// A tool call, forwarded as soon as its item arrives.
    ToolCallDelta { call: ToolCall },
    /// The terminal chunk's finish reason.
    Finish { reason: String },
    /// The end-of-stream marker.
    Done,
    /// The turn failed; this frame replaces the next scheduled chunk and
    /// nothing follows it.
    Fail(TurnError),
}

/// Spec-level value of a [`ChatFrame`].
#[verifier::ext_equal]
pub enum ChatFrameModel {
    Content { text: Seq<char> },
    ToolCallDelta { call: ToolCallModel },
    Finish { reason: Seq<char> },
    Done,
    Fail(TurnErrorModel),
}

impl View for ChatFrame {
    type V = ChatFrameModel;

    open spec fn view(&self) -> ChatFrameModel {
        match self {
            ChatFrame::Content { text } => ChatFrameModel::Content { text: text@ },
            ChatFrame::ToolCallDelta { call } => ChatFrameModel::ToolCallDelta { call: call@ },
            ChatFrame::Finish { reason } => ChatFrameModel::Finish { reason: reason@ },
            ChatFrame::Done => ChatFrameModel::Done,
            ChatFrame::Fail(e) => ChatFrameModel::Fail(e@),
        }
    }
}

/// The streaming turn's state: whether a tool call was forwarded, and
/// whether the turn ended.
#[derive(Clone, Copy, PartialEq, Eq, Structural, Debug)]
pub struct ChatStreamTurn {
    pub tool_seen: bool,
    pub finished: bool,
}

/// The finish reason the terminal chunk carries, decided once at terminal
/// time from the state so far.
pub open spec fn chat_finish_reason(s: ChatStreamTurn) -> Seq<char> {
    if s.tool_seen {
        "tool_calls"@
    } else {
        "stop"@
    }
}

/// The frames one event of the turn emits, given the state so far.
pub open spec fn chat_emits(s: ChatStreamTurn, m: EventMsg) -> Seq<ChatFrameModel> {
    match m {
        EventMsg::AgentMessage { message } => seq![ChatFrameModel::Content { text: message@ }],
        EventMsg::AgentMessageDelta { delta } => seq![ChatFrameModel::Content { text: delta@ }],
        EventMsg::RawItem { item } => match spec_tool_call(item@) {
            Some(tc) => seq![ChatFrameModel::ToolCallDelta { call: tc }],
            None => Seq::empty(),
        },
        EventMsg::TurnComplete { last_agent_message } => (match last_agent_message {
            Some(msg) => seq![ChatFrameModel::Content { text: msg@ }],
            None => Seq::<ChatFrameModel>::empty(),
        }) + seq![
            ChatFrameModel::Finish { reason: chat_finish_reason(s) },
            ChatFrameModel::Done,
        ],
        EventMsg::Error { message } => seq![
            ChatFrameModel::Fail(
                TurnErrorModel {
                    kind: ErrorKind::UpstreamError,
                    message: "turn error: "@ + message@,
                },
            ),
        ],
        EventMsg::Warning { message } => Seq::empty(),
        EventMsg::TurnAborted { reason } => seq![
            ChatFrameModel::Fail(
                TurnErrorModel {
                    kind: ErrorKind::TurnAborted,
                    message: "turn aborted: "@ + reason@,
                },
            ),
        ],
        EventMsg::Other => Seq::empty(),
    }
}

/// How one event of the turn changes the streaming state.
pub open spec fn chat_next(s: ChatStreamTurn, m: EventMsg) -> ChatStreamTurn {
    match m {
        EventMsg::RawItem { item } => if spec_tool_call(item@) is Some {
            ChatStreamTurn { tool_seen: true, finished: s.finished }
        } else {
            s
        },
        EventMsg::TurnComplete { last_agent_message } => ChatStreamTurn {
            tool_seen: s.tool_seen,
            finished: true,
        },
        EventMsg::Error { message } => ChatStreamTurn { tool_seen: s.tool_seen, finished: true },
        EventMsg::TurnAborted { reason } => ChatStreamTurn {
            tool_seen: s.tool_seen,
            finished: true,
        },
        _ => s,
    }
}

impl ChatStreamTurn {
    /// The state a streaming turn starts in.
    pub fn new() -> (r: ChatStreamTurn)
        ensures
            r == (ChatStreamTurn { tool_seen: false, finished: false }),
    {
        ChatStreamTurn { tool_seen: false, finished: false }
    }

    /// React to one session event: an event of another turn emits nothing
    /// and changes nothing; an event of this turn emits its frames
    /// immediately, in order, and advances the state.
    pub fn on_event(&mut self, ev: &SessionEvent, req_id: &str) -> (frames: Vec<ChatFrame>)
        ensures
            ev.id@ != req_id@ ==> *final(self) == *old(self) && frames@.len() == 0,
            ev.id@ == req_id@ ==> *final(self) == chat_next(*old(self), ev.msg)
                && frames@.map_values(|f: ChatFrame| f@) == chat_emits(*old(self), ev.msg),
    {
        let mut frames: Vec<ChatFrame> = Vec::new();
        if !str_eq(ev.id.as_str(), req_id) {
            return frames;
        }
        match &ev.msg {
            EventMsg::AgentMessage { message } => {
                frames.push(ChatFrame::Content { text: message.clone() });
            },
            EventMsg::AgentMessageDelta { delta } => {
                frames.push(ChatFrame::Content { text: delta.clone() });
            },
            EventMsg::RawItem { item } => {
                if let Some(call) = map_tool_call(item) {
                    self.tool_seen = true;
                    frames.push(ChatFrame::ToolCallDelta { call });
                }
            },
            EventMsg::TurnComplete { last_agent_message } => {
                if let Some(msg) = last_agent_message {
                    frames.push(ChatFrame::Content { text: msg.clone() });
                }
                let reason = if self.tool_seen {
                    String::from_str("tool_calls")
                } else {
                    String::from_str("stop")
                };
                frames.push(ChatFrame::Finish { reason });
                frames.push(ChatFrame::Done);
                self.finished = true;
            },
            EventMsg::Error { message } => {
                let mut m = String::from_str("turn error: ");
                m.append(message.as_str());
                frames.push(
                    ChatFrame::Fail(TurnError { kind: ErrorKind::UpstreamError, message: m }),
                );
                self.finished = true;
            },
            EventMsg::Warning { message } => {},
            EventMsg::TurnAborted { reason } => {
                let mut m = String::from_str("turn aborted: ");
                m.append(reason.as_str());
                frames.push(
                    ChatFrame::Fail(TurnError { kind: ErrorKind::TurnAborted, message: m }),
                );
                self.finished = true;
            },
            EventMsg::Other => {},
        }
        proof {
            assert(frames@.map_values(|f: ChatFrame| f@) =~~= chat_emits(*old(self), ev.msg));
        }
        frames
    }
}

/// One tool call inside a chunk's delta, carrying its list position.
pub struct ToolCallIndexed {
    pub index: usize,
    pub id: String,
    pub kind: String,
    pub function: ToolFunction,
}

/// The delta object of one chunk: at most one of a content fragment or a
/// singleton tool-call list.
pub struct ChunkDelta {
    pub content: Option<String>,
    pub tool_calls: Option<Vec<ToolCallIndexed>>,
}

/// One choice of a chunk.
pub struct ChunkChoice {
    pub index: usize,
    pub delta: ChunkDelta,
    pub finish_reason: Option<String>,
}

/// One chat-style streaming chunk, as put on the wire.
pub struct ChatChunk {
    pub id: String,
    pub object: String,
    pub created: u64,
    pub choices: Vec<ChunkChoice>,
    pub conversation_id: Option<String>,
}

/// Build one chat-style chunk: a fresh id, one choice whose delta carries
/// the given content and/or tool call, and, when `done`, a finish reason
/// of `tool_calls` exactly when the chunk carries a tool call.
pub fn stream_chunk(
    content: Option<&str>,
    tool_call: Option<ToolCall>,
    done: bool,
    conversation_id: Option<String>,
) -> (r: ChatChunk)
    ensures
        r.object@ == "chat.completion.chunk"@,
        r.id@.len() == "chatcmpl-codex-"@.len() + 36,
        r.id@.subrange(0, "chatcmpl-codex-"@.len() as int) == "chatcmpl-codex-"@,
        r.choices@.len() == 1,
        r.choices@[0].index == 0,
        (match content {
            Some(s) => r.choices@[0].delta.content matches Some(c) && c@ == s@,
            None => r.choices@[0].delta.content is None,
        }),
        (match tool_call {
            Some(tc) => r.choices@[0].delta.tool_calls matches Some(v) && v@.len() == 1
                && v@[0].index == 0 && v@[0].id@ == tc.id@ && v@[0].kind@ == tc.kind@
                && v@[0].function.name@ == tc.function.name@ && v@[0].function.arguments@
                == tc.function.arguments@,
            None => r.choices@[0].delta.tool_calls is None,
        }),
        done ==> (r.choices@[0].finish_reason matches Some(f) && f@ == (if tool_call is Some {
            "tool_calls"@
        } else {
            "stop"@
        })),
        !done ==> r.choices@[0].finish_reason is None,
        r.conversation_id == conversation_id,
{
    let has_tool = tool_call.is_some();
    let delta_content = match content {
        Some(s) => Some(s.to_owned()),
        None => None,
    };
    let delta_tool_calls = match tool_call {
        Some(tc) => {
            let mut v: Vec<ToolCallIndexed> = Vec::new();
            v.push(ToolCallIndexed { index: 0, id: tc.id, kind: tc.kind, function: tc.function });
            Some(v)
        },
        None => None,
    };
    let finish_reason = if done {
        if has_tool {
            Some(String::from_str("tool_calls"))
        } else {
            Some(String::from_str("stop"))
        }
    } else {
        None
    };
    let mut choices: Vec<ChunkChoice> = Vec::new();
    choices.push(
        ChunkChoice {
            index: 0,
            delta: ChunkDelta { content: delta_content, tool_calls: delta_tool_calls },
            finish_reason,
        },
    );
    ChatChunk {
        id: chat_completion_id(),
        object: String::from_str("chat.completion.chunk"),
        created: now_ts(),
        choices,
        conversation_id,
    }
}

/// Build the terminal chat-style chunk, carrying the given finish reason.
pub fn stream_chunk_with_finish(
    content: Option<&str>,
    tool_call: Option<ToolCall>,
    finish_reason: &str,
    conversation_id: Option<String>,
) -> (r: ChatChunk)
    ensures
        r.object@ == "chat.completion.chunk"@,
        r.id@.len() == "chatcmpl-codex-"@.len() + 36,
        r.id@.subrange(0, "chatcmpl-codex-"@.len() as int) == "chatcmpl-codex-"@,
        r.choices@.len() == 1,
        r.choices@[0].index == 0,
        (match content {
            Some(s) => r.choices@[0].delta.content matches Some(c) && c@ == s@,
            None => r.choices@[0].delta.content is None,
        }),
        (match tool_call {
            Some(tc) => r.choices@[0].delta.tool_calls matches Some(v) && v@.len() == 1
                && v@[0].index == 0 && v@[0].id@ == tc.id@ && v@[0].kind@ == tc.kind@
                && v@[0].function.name@ == tc.function.name@ && v@[0].function.arguments@
                == tc.function.arguments@,
            None => r.choices@[0].delta.tool_calls is None,
        }),
        r.choices@[0].finish_reason matches Some(f) && f@ == finish_reason@,
        r.conversation_id == conversation_id,
{
    let delta_content = match content {
        Some(s) => Some(s.to_owned()),
        None => None,
    };
    let delta_tool_calls = match tool_call {
        Some(tc) => {
            let mut v: Vec<ToolCallIndexed> = Vec::new();
            v.push(ToolCallIndexed { index: 0, id: tc.id, kind: tc.kind, function: tc.function });
            Some(v)
        },
        None => None,
    };
    let mut choices: Vec<ChunkChoice> = Vec::new();
    choices.push(
        ChunkChoice {
            index: 0,
            delta: ChunkDelta { content: delta_content, tool_calls: delta_tool_calls },
            finish_reason: Some(finish_reason.to_owned()),
        },
    );
    ChatChunk {
        id: chat_completion_id(),
        object: String::from_str("chat.completion.chunk"),
        created: now_ts(),
        choices,
        conversation_id,
    }
}

/// What one chat-style frame becomes on the wire: a chunk, the literal
/// end-of-stream marker, or an in-band error element.
pub enum ChatWire {
    Chunk(ChatChunk),
    DoneMarker,
    StreamError { message: String },
}

/// Put one semantic frame on the wire.
pub fn chat_frame_wire(frame: ChatFrame, conversation_id: Option<String>) -> (r: ChatWire)
    ensures
        (match frame {
            ChatFrame::Content { text } => r matches ChatWire::Chunk(c) && c.choices@.len() == 1
                && (c.choices@[0].delta.content matches Some(s) && s@ == text@)
                && c.choices@[0].delta.tool_calls is None && c.choices@[0].finish_reason is None,
            ChatFrame::ToolCallDelta { call } => r matches ChatWire::Chunk(c) && c.choices@.len()
                == 1 && c.choices@[0].delta.content is None && (c.choices@[0].delta.tool_calls
                matches Some(v) && v@.len() == 1 && v@[0].id@ == call.id@ && v@[0].kind@
                == call.kind@ && v@[0].function.name@ == call.function.name@
                && v@[0].function.arguments@ == call.function.arguments@)
                && c.choices@[0].finish_reason is None,
            ChatFrame::Finish { reason } => r matches ChatWire::Chunk(c) && c.choices@.len() == 1
                && c.choices@[0].delta.content is None && c.choices@[0].delta.tool_calls is None
                && (c.choices@[0].finish_reason matches Some(f) && f@ == reason@),
            ChatFrame::Done => r is DoneMarker,
            ChatFrame::Fail(e) => r matches ChatWire::StreamError { message } && message@
                == e.message@,
        }),
{
    match frame {
        ChatFrame::Content { text } => ChatWire::Chunk(
            stream_chunk(Some(text.as_str()), None, false, conversation_id),
        ),
        ChatFrame::ToolCallDelta { call } => ChatWire::Chunk(
            stream_chunk(None, Some(call), false, conversation_id),
        ),
        ChatFrame::Finish { reason } => ChatWire::Chunk(
            stream_chunk_with_finish(None, None, reason.as_str(), conversation_id),
        ),
        ChatFrame::Done => ChatWire::DoneMarker,
        ChatFrame::Fail(e) => ChatWire::StreamError { message: e.message },
    }
}

/// All frames a chat-style streaming turn emits over the given events,
/// from state `s`: frames of the first terminal event of this turn end the
/// stream, and events of other turns emit nothing.
pub open spec fn chat_stream_run(
    s: ChatStreamTurn,
    evs: Seq<SessionEvent>,
    rid: Seq<char>,
) -> Seq<ChatFrameModel>
    decreases evs.len(),
{
    if evs.len() == 0 {
        Seq::empty()
    } else if evs.first().id@ != rid {
        chat_stream_run(s, evs.drop_first(), rid)
    } else if is_terminal(evs.first().msg) {
        chat_emits(s, evs.first().msg)
    } else {
        chat_emits(s, evs.first().msg) + chat_stream_run(
            chat_next(s, evs.first().msg),
            evs.drop_first(),
            rid,
        )
    }
}

/// Events bearing another turn's id are never reflected in a turn's
/// stream: the frames emitted over any event sequence equal the frames
/// emitted over just the events of this turn.
pub proof fn lemma_chat_stream_ignores_foreign(
    s: ChatStreamTurn,
    evs: Seq<SessionEvent>,
    rid: Seq<char>,
)
    ensures
        chat_stream_run(s, evs, rid) == chat_stream_run(s, own_events(evs, rid), rid),
    decreases evs.len(),
{
    if evs.len() == 0 {
    } else if evs.first().id@ != rid {
        lemma_chat_stream_ignores_foreign(s, evs.drop_first(), rid);
    } else {
        let own = own_events(evs, rid);
        assert(own == seq![evs.first()] + own_events(evs.drop_first(), rid));
        assert(own.first() == evs.first());
        assert(own.drop_first() =~= own_events(evs.drop_first(), rid));
        if !is_terminal(evs.first().msg) {
            lemma_chat_stream_ignores_foreign(
                chat_next(s, evs.first().msg),
                evs.drop_first(),
                rid,
            );
        }
    }
}

/// The streamed text: the concatenation, in arrival order, of the content
/// frames, ignoring control frames.
pub open spec fn frames_text(fs: Seq<ChatFrameModel>) -> Seq<char>
    decreases fs.len(),
{
    if fs.len() == 0 {
        Seq::empty()
    } else {
        (match fs.first() {
            ChatFrameModel::Content { text } => text,
            _ => Seq::<char>::empty(),
        }) + frames_text(fs.drop_first())
    }
}

/// How many end-of-stream markers a frame sequence holds.
pub open spec fn count_done(fs: Seq<ChatFrameModel>) -> int
    decreases fs.len(),
{
    if fs.len() == 0 {
        0int
    } else {
        (if fs.first() is Done {
            1int
        } else {
            0int
        }) + count_done(fs.drop_first())
    }
}

pub proof fn lemma_count_done_add(a: Seq<ChatFrameModel>, b: Seq<ChatFrameModel>)
    ensures
        count_done(a + b) == count_done(a) + count_done(b),
    decreases a.len(),
{
    if a.len() == 0 {
        assert(a + b =~= b);
    } else {
        assert((a + b).first() == a.first());
        assert((a + b).drop_first() =~= a.drop_first() + b);
        lemma_count_done_add(a.drop_first(), b);
    }
}

pub proof fn lemma_frames_text_add(a: Seq<ChatFrameModel>, b: Seq<ChatFrameModel>)
    ensures
        frames_text(a + b) == frames_text(a) + frames_text(b),
    decreases a.len(),
{
    if a.len() == 0 {
        assert(a + b =~= b);
        assert(frames_text(a) + frames_text(b) =~= frames_text(b));
    } else {
        assert((a + b).first() == a.first());
        assert((a + b).drop_first() =~= a.drop_first() + b);
        lemma_frames_text_add(a.drop_first(), b);
        assert((match a.first() {
            ChatFrameModel::Content { text } => text,
            _ => Seq::<char>::empty(),
        }) + (frames_text(a.drop_first()) + frames_text(b)) =~= ((match a.first() {
            ChatFrameModel::Content { text } => text,
            _ => Seq::<char>::empty(),
        }) + frames_text(a.drop_first())) + frames_text(b));
    }
}

proof fn lemma_count_done_single(f: ChatFrameModel)
    ensures
        count_done(seq![f]) == (if f is Done {
            1int
        } else {
            0int
        }),
{
    assert(seq![f].first() == f);
    assert(seq![f].drop_first() =~= Seq::<ChatFrameModel>::empty());
    assert(count_done(Seq::<ChatFrameModel>::empty()) == 0);
}

proof fn lemma_frames_text_single(f: ChatFrameModel)
    ensures
        frames_text(seq![f]) == (match f {
            ChatFrameModel::Content { text } => text,
            _ => Seq::<char>::empty(),
        }),
{
    assert(seq![f].first() == f);
    assert(seq![f].drop_first() =~= Seq::<ChatFrameModel>::empty());
    assert(frames_text(Seq::<ChatFrameModel>::empty()) == Seq::<char>::empty());
    assert((match f {
        ChatFrameModel::Content { text } => text,
        _ => Seq::<char>::empty(),
    }) + Seq::<char>::empty() =~= (match f {
        ChatFrameModel::Content { text } => text,
        _ => Seq::<char>::empty(),
    }));
}

proof fn lemma_chat_emits_nonterminal_no_done(s: ChatStreamTurn, m: EventMsg)
    requires
        !is_terminal(m) || m is Error || m is TurnAborted,
    ensures
        count_done(chat_emits(s, m)) == 0,
{
    let fs = chat_emits(s, m);
    match m {
        EventMsg::AgentMessage { message } => {
            lemma_count_done_single(ChatFrameModel::Content { text: message@ });
        },
        EventMsg::AgentMessageDelta { delta } => {
            lemma_count_done_single(ChatFrameModel::Content { text: delta@ });
        },
        EventMsg::RawItem { item } => {
            if let Some(tc) = spec_tool_call(item@) {
                lemma_count_done_single(ChatFrameModel::ToolCallDelta { call: tc });
            }
        },
        EventMsg::Error { message } => {
            lemma_count_done_single(
                ChatFrameModel::Fail(
                    TurnErrorModel {
                        kind: ErrorKind::UpstreamError,
                        message: "turn error: "@ + message@,
                    },
                ),
            );
        },
        EventMsg::TurnAborted { reason } => {
            lemma_count_done_single(
                ChatFrameModel::Fail(
                    TurnErrorModel {
                        kind: ErrorKind::TurnAborted,
                        message: "turn aborted: "@ + reason@,
                    },
                ),
            );
        },
        _ => {},
    }
}

/// The two frames every completing turn ends with.
spec fn finish_tail(s: ChatStreamTurn) -> Seq<ChatFrameModel> {
    seq![ChatFrameModel::Finish { reason: chat_finish_reason(s) }, ChatFrameModel::Done]
}

proof fn lemma_finish_tail_facts(s: ChatStreamTurn)
    ensures
        count_done(finish_tail(s)) == 1,
        frames_text(finish_tail(s)) == Seq::<char>::empty(),
{
    let a = seq![ChatFrameModel::Finish { reason: chat_finish_reason(s) }];
    let b = seq![ChatFrameModel::Done];
    assert(finish_tail(s) =~= a + b);
    lemma_count_done_add(a, b);
    lemma_count_done_single(ChatFrameModel::Finish { reason: chat_finish_reason(s) });
    lemma_count_done_single(ChatFrameModel::Done);
    lemma_frames_text_add(a, b);
    lemma_frames_text_single(ChatFrameModel::Finish { reason: chat_finish_reason(s) });
    lemma_frames_text_single(ChatFrameModel::Done);
    assert(frames_text(finish_tail(s)) =~= Seq::<char>::empty());
}

/// A streamed turn that completes ends with exactly one end-of-stream
/// marker, as the last frame: nothing follows it.
pub proof fn lemma_chat_stream_single_done(s: ChatStreamTurn, evs: Seq<SessionEvent>, rid: Seq<char>)
    requires
        run_outcome(evs, rid) == OutcomeModel::Complete,
    ensures
        chat_stream_run(s, evs, rid).len() >= 1,
        chat_stream_run(s, evs, rid).last() == ChatFrameModel::Done,
        count_done(chat_stream_run(s, evs, rid)) == 1,
    decreases evs.len(),
{
    let fs = chat_stream_run(s, evs, rid);
    if evs.len() == 0 {
        assert(false);
    } else if evs.first().id@ != rid {
        lemma_chat_stream_single_done(s, evs.drop_first(), rid);
    } else if is_terminal(evs.first().msg) {
        assert(event_outcome(evs.first().msg) == OutcomeModel::Complete);
        assert(evs.first().msg is TurnComplete);
        let head = match evs.first().msg->TurnComplete_last_agent_message {
            Some(msg) => seq![ChatFrameModel::Content { text: msg@ }],
            None => Seq::<ChatFrameModel>::empty(),
        };
        let tail = finish_tail(s);
        assert(fs == head + tail);
        lemma_count_done_add(head, tail);
        lemma_finish_tail_facts(s);
        match evs.first().msg->TurnComplete_last_agent_message {
            Some(msg) => lemma_count_done_single(ChatFrameModel::Content { text: msg@ }),
            None => {},
        }
        assert(fs.last() == tail[1]);
    } else {
        lemma_chat_stream_single_done(chat_next(s, evs.first().msg), evs.drop_first(), rid);
        let head = chat_emits(s, evs.first().msg);
        let rest = chat_stream_run(chat_next(s, evs.first().msg), evs.drop_first(), rid);
        lemma_count_done_add(head, rest);
        lemma_chat_emits_nonterminal_no_done(s, evs.first().msg);
        assert(fs.last() == rest.last());
    }
}

/// Streaming/aggregate consistency for text: over a turn of text-delta
/// events ending in a turn-complete with no final message, the streamed
/// content frames concatenate to exactly the text the aggregate run
/// accumulates.
pub proof fn lemma_chat_stream_text_matches_aggregate(
    s: ChatStreamTurn,
    evs: Seq<SessionEvent>,
    rid: Seq<char>,
)
    requires
        evs.len() >= 1,
        forall|i: int|
            0 <= i < evs.len() - 1 ==> (#[trigger] evs[i]).id@ == rid
                && evs[i].msg is AgentMessageDelta,
        evs.last().id@ == rid,
        evs.last().msg is TurnComplete,
        opt_str_view(evs.last().msg->TurnComplete_last_agent_message) is None,
    ensures
        frames_text(chat_stream_run(s, evs, rid)) == run_accum(init_accum(), evs, rid).text,
    decreases evs.len(),
{
    lemma_deltas_accumulate(init_accum(), evs, rid);
    assert(run_accum(init_accum(), evs, rid).text =~= deltas_concat(evs.take(evs.len() - 1)));
    lemma_chat_stream_deltas_text(s, evs, rid);
}

proof fn lemma_chat_stream_deltas_text(s: ChatStreamTurn, evs: Seq<SessionEvent>, rid: Seq<char>)
    requires
        evs.len() >= 1,
        forall|i: int|
            0 <= i < evs.len() - 1 ==> (#[trigger] evs[i]).id@ == rid
                && evs[i].msg is AgentMessageDelta,
        evs.last().id@ == rid,
        evs.last().msg is TurnComplete,
        opt_str_view(evs.last().msg->TurnComplete_last_agent_message) is None,
    ensures
        frames_text(chat_stream_run(s, evs, rid)) == deltas_concat(evs.take(evs.len() - 1)),
    decreases evs.len(),
{
    if evs.len() == 1 {
        assert(evs.first() == evs.last());
        assert(chat_stream_run(s, evs, rid) =~= finish_tail(s));
        lemma_finish_tail_facts(s);
        assert(evs.take(0) =~= Seq::<SessionEvent>::empty());
    } else {
        assert(evs[0].msg is AgentMessageDelta);
        let rest = evs.drop_first();
        assert(rest.last() == evs.last());
        assert(forall|i: int|
            0 <= i < rest.len() - 1 ==> (#[trigger] rest[i]).id@ == rid
                && rest[i].msg is AgentMessageDelta);
        lemma_chat_stream_deltas_text(chat_next(s, evs.first().msg), rest, rid);
        let d = evs.first().msg->AgentMessageDelta_delta@;
        let head = chat_emits(s, evs.first().msg);
        let restrun = chat_stream_run(chat_next(s, evs.first().msg), rest, rid);
        lemma_frames_text_add(head, restrun);
        lemma_frames_text_single(ChatFrameModel::Content { text: d });
        assert(frames_text(head) == d);
        assert(evs.take(evs.len() - 1).first() == evs.first());
        assert(evs.take(evs.len() - 1).drop_first() =~= rest.take(rest.len() - 1));
        assert(deltas_concat(evs.take(evs.len() - 1)) == d + deltas_concat(
            rest.take(rest.len() - 1),
        ));
    }
}

/// Streaming/aggregate consistency when nothing was streamed before the
/// final message: a turn whose only event is a turn-complete carrying a
/// final message streams exactly that message, which is also the text the
/// aggregate run holds.
pub proof fn lemma_chat_stream_final_only_matches(
    s: ChatStreamTurn,
    evs: Seq<SessionEvent>,
    rid: Seq<char>,
    fm: Seq<char>,
)
    requires
        evs.len() == 1,
        evs.last().id@ == rid,
        evs.last().msg is TurnComplete,
        opt_str_view(evs.last().msg->TurnComplete_last_agent_message) == Some(fm),
    ensures
        frames_text(chat_stream_run(s, evs, rid)) == fm,
        run_accum(init_accum(), evs, rid).text == fm,
{
    assert(evs.first() == evs.last());
    let head = seq![ChatFrameModel::Content { text: fm }];
    let tail = finish_tail(s);
    let fs = chat_stream_run(s, evs, rid);
    assert(fs =~= head + tail);
    lemma_frames_text_add(head, tail);
    lemma_frames_text_single(ChatFrameModel::Content { text: fm });
    lemma_finish_tail_facts(s);
    assert(frames_text(fs) =~= fm);
}

/// Finish-reason consistency between the two modes: when a turn
/// completes, the streamed terminal chunk carries exactly the finish
/// reason the aggregate mode derives from the same events.
pub proof fn lemma_chat_finish_consistent(
    s: ChatStreamTurn,
    a: AccumModel,
    evs: Seq<SessionEvent>,
    rid: Seq<char>,
)
    requires
        run_outcome(evs, rid) == OutcomeModel::Complete,
        s.tool_seen == has_tool_call(a.items),
    ensures
        chat_stream_run(s, evs, rid).len() >= 2,
        chat_stream_run(s, evs, rid)[chat_stream_run(s, evs, rid).len() - 2]
            == (ChatFrameModel::Finish {
            reason: spec_finish_reason(run_accum(a, evs, rid).items),
        }),
    decreases evs.len(),
{
    let fs = chat_stream_run(s, evs, rid);
    if evs.len() == 0 {
        assert(false);
    } else if evs.first().id@ != rid {
        lemma_chat_finish_consistent(s, a, evs.drop_first(), rid);
    } else if is_terminal(evs.first().msg) {
        assert(event_outcome(evs.first().msg) == OutcomeModel::Complete);
        assert(evs.first().msg is TurnComplete);
        let head = match evs.first().msg->TurnComplete_last_agent_message {
            Some(msg) => seq![ChatFrameModel::Content { text: msg@ }],
            None => Seq::<ChatFrameModel>::empty(),
        };
        let tail = seq![
            ChatFrameModel::Finish { reason: chat_finish_reason(s) },
            ChatFrameModel::Done,
        ];
        assert(fs == head + tail);
        assert(fs[fs.len() - 2] == tail[0]);
        assert(run_accum(a, evs, rid).items == a.items);
    } else {
        let m = evs.first().msg;
        let s2 = chat_next(s, m);
        let a2 = accum_step(a, m);
        match m {
            EventMsg::RawItem { item } => {
                lemma_has_tool_call_push(a.items, item@);
            },
            _ => {},
        }
        assert(s2.tool_seen == has_tool_call(a2.items));
        lemma_chat_finish_consistent(s2, a2, evs.drop_first(), rid);
        let head = chat_emits(s, m);
        let rest = chat_stream_run(s2, evs.drop_first(), rid);
        assert(fs == head + rest);
        assert(fs[fs.len() - 2] == rest[rest.len() - 2]);
    }
}

/// Finish-reason consistency from the start of a turn: a freshly started
/// stream's terminal chunk carries exactly the finish reason the aggregate
/// mode derives over the same events.
pub proof fn lemma_chat_finish_matches_aggregate(evs: Seq<SessionEvent>, rid: Seq<char>)
    requires
        run_outcome(evs, rid) == OutcomeModel::Complete,
    ensures
        ({
            let s = ChatStreamTurn { tool_seen: false, finished: false };
            let fs = chat_stream_run(s, evs, rid);
            fs.len() >= 2 && fs[fs.len() - 2] == (ChatFrameModel::Finish {
                reason: spec_finish_reason(run_accum(init_accum(), evs, rid).items),
            })
        }),
{
    let s = ChatStreamTurn { tool_seen: false, finished: false };
    assert(!has_tool_call(init_accum().items));
    lemma_chat_finish_consistent(s, init_accum(), evs, rid);
}

} // verus!
