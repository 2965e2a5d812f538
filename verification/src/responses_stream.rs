//! The responses-style streaming dialect: a created event first, then text
//! deltas interleaved with item-done events (one per structured item,
//! carrying the full item), then a completed event and the end-of-stream
//! marker.  When the terminal event supplies a final message and no text
//! was ever streamed, exactly one text delta is synthesized from it; text
//! already streamed is never duplicated.

use vstd::prelude::*;

use crate::errors::ErrorKind;
use crate::errors::TurnError;
use crate::errors::TurnErrorModel;
use crate::items::ItemModel;
use crate::items::ResponseItem;
use crate::items::opt_str_view;
use crate::text::str_eq;
use crate::turn::EventMsg;
use crate::turn::OutcomeModel;
use crate::turn::SessionEvent;
use crate::turn::consumed_items;
use crate::turn::deltas_concat;
use crate::turn::event_outcome;
use crate::turn::init_accum;
use crate::turn::is_terminal;
use crate::turn::lemma_deltas_accumulate;
use crate::turn::lemma_run_accum_items;
use crate::turn::run_accum;
use crate::turn::own_events;
use crate::turn::run_outcome;

verus! {

/// One semantic frame of the responses-style stream, before wire
/// decoration.
pub enum RespFrame {
    /// The stream opened; emitted before any turn work begins.
    Created,
    /// A fragment of assistant text.
    TextDelta { delta: String },
    /// A structured item, forwarded in full as soon as it arrives.
    ItemDone { item: ResponseItem },
    /// The turn finished.
    Completed,
    /// The end-of-stream marker.
    Done,
    /// The turn failed; this frame replaces the next scheduled event and
    /// nothing follows it.
    Fail(TurnError),
}

/// Spec-level value of a [`RespFrame`].
#[verifier::ext_equal]
pub enum RespFrameModel {
    Created,
    TextDelta { delta: Seq<char> },
    ItemDone { item: ItemModel },
    Completed,
    Done,
    Fail(TurnErrorModel),
}

impl View for RespFrame {
    type V = RespFrameModel;

    open spec fn view(&self) -> RespFrameModel {
        match self {
            RespFrame::Created => RespFrameModel::Created,
            RespFrame::TextDelta { delta } => RespFrameModel::TextDelta { delta: delta@ },
            RespFrame::ItemDone { item } => RespFrameModel::ItemDone { item: item@ },
            RespFrame::Completed => RespFrameModel::Completed,
            RespFrame::Done => RespFrameModel::Done,
            RespFrame::Fail(e) => RespFrameModel::Fail(e@),
        }
    }
}

/// The streaming turn's state: whether any text was streamed, and whether
/// the turn ended.
#[derive(Clone, Copy, PartialEq, Eq, Structural, Debug)]
pub struct RespStreamTurn {
    pub text_seen: bool,
    pub finished: bool,
}

/// The frames one event of the turn emits, given the state so far.  At the
/// terminal event, a final message is synthesized as one text delta only
/// when no text was ever streamed.
pub open spec fn resp_emits(s: RespStreamTurn, m: EventMsg) -> Seq<RespFrameModel> {
    match m {
        EventMsg::AgentMessage { message } => seq![RespFrameModel::TextDelta { delta: message@ }],
        EventMsg::AgentMessageDelta { delta } => seq![RespFrameModel::TextDelta { delta: delta@ }],
        EventMsg::RawItem { item } => seq![RespFrameModel::ItemDone { item: item@ }],
        EventMsg::TurnComplete { last_agent_message } => (match last_agent_message {
            Some(msg) => if !s.text_seen {
                seq![RespFrameModel::TextDelta { delta: msg@ }]
            } else {
                Seq::<RespFrameModel>::empty()
            },
            None => Seq::<RespFrameModel>::empty(),
        }) + seq![RespFrameModel::Completed, RespFrameModel::Done],
        EventMsg::Error { message } => seq![
            RespFrameModel::Fail(
                TurnErrorModel {
                    kind: ErrorKind::UpstreamError,
                    message: "turn error: "@ + message@,
                },
            ),
        ],
        EventMsg::Warning { message } => Seq::empty(),
        EventMsg::TurnAborted { reason } => seq![
            RespFrameModel::Fail(
                TurnErrorModel {
                    kind: ErrorKind::TurnAborted,
                    message: "turn aborted: "@ + reason@,
                },
            ),
        ],
        EventMsg::Other => Seq::empty(),
    }
}

/// How one event of the turn changes the streaming state.
pub open spec fn resp_next(s: RespStreamTurn, m: EventMsg) -> RespStreamTurn {
    match m {
        EventMsg::AgentMessage { message } => RespStreamTurn {
            text_seen: true,
            finished: s.finished,
        },
        EventMsg::AgentMessageDelta { delta } => RespStreamTurn {
            text_seen: true,
            finished: s.finished,
        },
        EventMsg::TurnComplete { last_agent_message } => RespStreamTurn {
            text_seen: s.text_seen || last_agent_message is Some,
            finished: true,
        },
        EventMsg::Error { message } => RespStreamTurn { text_seen: s.text_seen, finished: true },
        EventMsg::TurnAborted { reason } => RespStreamTurn {
            text_seen: s.text_seen,
            finished: true,
        },
        _ => s,
    }
}

impl RespStreamTurn {
    /// The state a streaming turn starts in.
    pub fn new() -> (r: RespStreamTurn)
        ensures
            r == (RespStreamTurn { text_seen: false, finished: false }),
    {
        RespStreamTurn { text_seen: false, finished: false }
    }

    /// React to one session event: an event of another turn emits nothing
    /// and changes nothing; an event of this turn emits its frames
    /// immediately, in order, and advances the state.
    pub fn on_event(&mut self, ev: &SessionEvent, req_id: &str) -> (frames: Vec<RespFrame>)
        ensures
            ev.id@ != req_id@ ==> *final(self) == *old(self) && frames@.len() == 0,
            ev.id@ == req_id@ ==> *final(self) == resp_next(*old(self), ev.msg)
                && frames@.map_values(|f: RespFrame| f@) == resp_emits(*old(self), ev.msg),
    {
        let mut frames: Vec<RespFrame> = Vec::new();
        if !str_eq(ev.id.as_str(), req_id) {
            return frames;
        }
        match &ev.msg {
            EventMsg::AgentMessage { message } => {
                self.text_seen = true;
                frames.push(RespFrame::TextDelta { delta: message.clone() });
            },
            EventMsg::AgentMessageDelta { delta } => {
                self.text_seen = true;
                frames.push(RespFrame::TextDelta { delta: delta.clone() });
            },
            EventMsg::RawItem { item } => {
                frames.push(RespFrame::ItemDone { item: item.clone_item() });
            },
            EventMsg::TurnComplete { last_agent_message } => {
                if let Some(msg) = last_agent_message {
                    if !self.text_seen {
                        frames.push(RespFrame::TextDelta { delta: msg.clone() });
                    }
                    self.text_seen = true;
                }
                frames.push(RespFrame::Completed);
                frames.push(RespFrame::Done);
                self.finished = true;
            },
            EventMsg::Error { message } => {
                let mut m = String::from_str("turn error: ");
                m.append(message.as_str());
                frames.push(
                    RespFrame::Fail(TurnError { kind: ErrorKind::UpstreamError, message: m }),
                );
                self.finished = true;
            },
            EventMsg::Warning { message } => {},
            EventMsg::TurnAborted { reason } => {
                let mut m = String::from_str("turn aborted: ");
                m.append(reason.as_str());
                frames.push(
                    RespFrame::Fail(TurnError { kind: ErrorKind::TurnAborted, message: m }),
                );
                self.finished = true;
            },
            EventMsg::Other => {},
        }
        proof {
            assert(frames@.map_values(|f: RespFrame| f@) =~~= resp_emits(*old(self), ev.msg));
        }
        frames
    }
}

/// The response summary a created or completed event carries.
pub struct ResponseSummary {
    pub id: String,
    pub conversation_id: Option<String>,
}

/// One responses-style wire event: its kind string and at most one of a
/// response summary, a full item, or a text delta.
pub struct ResponseEventPayload {
    pub kind: String,
    pub response: Option<ResponseSummary>,
    pub item: Option<ResponseItem>,
    pub delta: Option<String>,
}

/// Build the opening event of a responses-style stream.
pub fn response_created_event(response_id: &str, conversation_id: Option<String>) -> (r:
    ResponseEventPayload)
    ensures
        r.kind@ == "response.created"@,
        r.response matches Some(s) && s.id@ == response_id@ && s.conversation_id
            == conversation_id,
        r.item is None,
        r.delta is None,
{
    ResponseEventPayload {
        kind: String::from_str("response.created"),
        response: Some(ResponseSummary { id: response_id.to_owned(), conversation_id }),
        item: None,
        delta: None,
    }
}

/// Build one text-delta event.
pub fn response_output_text_delta_event(delta: &str) -> (r: ResponseEventPayload)
    ensures
        r.kind@ == "response.output_text.delta"@,
        r.response is None,
        r.item is None,
        r.delta matches Some(d) && d@ == delta@,
{
    ResponseEventPayload {
        kind: String::from_str("response.output_text.delta"),
        response: None,
        item: None,
        delta: Some(delta.to_owned()),
    }
}

/// Build one item-done event, carrying the full item.
pub fn response_output_item_done_event(item: ResponseItem) -> (r: ResponseEventPayload)
    ensures
        r.kind@ == "response.output_item.done"@,
        r.response is None,
        r.item matches Some(it) && it@ == item@,
        r.delta is None,
{
    ResponseEventPayload {
        kind: String::from_str("response.output_item.done"),
        response: None,
        item: Some(item),
        delta: None,
    }
}

/// Build the completion event of a responses-style stream.
pub fn response_completed_event(response_id: &str, conversation_id: Option<String>) -> (r:
    ResponseEventPayload)
    ensures
        r.kind@ == "response.completed"@,
        r.response matches Some(s) && s.id@ == response_id@ && s.conversation_id
            == conversation_id,
        r.item is None,
        r.delta is None,
{
    ResponseEventPayload {
        kind: String::from_str("response.completed"),
        response: Some(ResponseSummary { id: response_id.to_owned(), conversation_id }),
        item: None,
        delta: None,
    }
}

/// What one responses-style frame becomes on the wire: an event payload,
/// the literal end-of-stream marker, or an in-band error element.
pub enum RespWire {
    Event(ResponseEventPayload),
    DoneMarker,
    StreamError { message: String },
}

/// Put one semantic frame on the wire, attaching the stream's response id
/// and conversation reference where the event carries them.
pub fn resp_frame_wire(
    frame: RespFrame,
    response_id: &str,
    conversation_id: Option<String>,
) -> (r: RespWire)
    ensures
        (match frame {
            RespFrame::Created => r matches RespWire::Event(p) && p.kind@ == "response.created"@
                && (p.response matches Some(s) && s.id@ == response_id@ && s.conversation_id
                == conversation_id) && p.item is None && p.delta is None,
            RespFrame::TextDelta { delta } => r matches RespWire::Event(p) && p.kind@
                == "response.output_text.delta"@ && p.response is None && p.item is None && (
            p.delta matches Some(d) && d@ == delta@),
            RespFrame::ItemDone { item } => r matches RespWire::Event(p) && p.kind@
                == "response.output_item.done"@ && p.response is None && (p.item matches Some(it)
                && it@ == item@) && p.delta is None,
            RespFrame::Completed => r matches RespWire::Event(p) && p.kind@
                == "response.completed"@ && (p.response matches Some(s) && s.id@ == response_id@
                && s.conversation_id == conversation_id) && p.item is None && p.delta is None,
            RespFrame::Done => r is DoneMarker,
            RespFrame::Fail(e) => r matches RespWire::StreamError { message } && message@
                == e.message@,
        }),
{
    match frame {
        RespFrame::Created => RespWire::Event(response_created_event(response_id, conversation_id)),
        RespFrame::TextDelta { delta } => RespWire::Event(
            response_output_text_delta_event(delta.as_str()),
        ),
        RespFrame::ItemDone { item } => RespWire::Event(response_output_item_done_event(item)),
        RespFrame::Completed => RespWire::Event(
            response_completed_event(response_id, conversation_id),
        ),
        RespFrame::Done => RespWire::DoneMarker,
        RespFrame::Fail(e) => RespWire::StreamError { message: e.message },
    }
}

/// All frames a responses-style streaming turn emits over the given
/// events, from state `s`, not counting the opening created event.
pub open spec fn resp_stream_run(
    s: RespStreamTurn,
    evs: Seq<SessionEvent>,
    rid: Seq<char>,
) -> Seq<RespFrameModel>
    decreases evs.len(),
{
    if evs.len() == 0 {
        Seq::empty()
    } else if evs.first().id@ != rid {
        resp_stream_run(s, evs.drop_first(), rid)
    } else if is_terminal(evs.first().msg) {
        resp_emits(s, evs.first().msg)
    } else {
        resp_emits(s, evs.first().msg) + resp_stream_run(
            resp_next(s, evs.first().msg),
            evs.drop_first(),
            rid,
        )
    }
}

/// The whole wire-event sequence of a responses-style streaming turn: the
/// created event first, then the frames the events emit.
pub open spec fn resp_stream_frames(evs: Seq<SessionEvent>, rid: Seq<char>) -> Seq<
    RespFrameModel,
> {
    seq![RespFrameModel::Created] + resp_stream_run(
        RespStreamTurn { text_seen: false, finished: false },
        evs,
        rid,
    )
}

/// Events bearing another turn's id are never reflected in a turn's
/// stream: the frames emitted over any event sequence equal the frames
/// emitted over just the events of this turn.
pub proof fn lemma_resp_stream_ignores_foreign(
    s: RespStreamTurn,
    evs: Seq<SessionEvent>,
    rid: Seq<char>,
)
    ensures
        resp_stream_run(s, evs, rid) == resp_stream_run(s, own_events(evs, rid), rid),
    decreases evs.len(),
{
    if evs.len() == 0 {
    } else if evs.first().id@ != rid {
        lemma_resp_stream_ignores_foreign(s, evs.drop_first(), rid);
    } else {
        let own = own_events(evs, rid);
        assert(own == seq![evs.first()] + own_events(evs.drop_first(), rid));
        assert(own.first() == evs.first());
        assert(own.drop_first() =~= own_events(evs.drop_first(), rid));
        if !is_terminal(evs.first().msg) {
            lemma_resp_stream_ignores_foreign(
                resp_next(s, evs.first().msg),
                evs.drop_first(),
                rid,
            );
        }
    }
}

/// The streamed text: the concatenation, in arrival order, of the text
/// deltas, ignoring control frames.
pub open spec fn resp_frames_text(fs: Seq<RespFrameModel>) -> Seq<char>
    decreases fs.len(),
{
    if fs.len() == 0 {
        Seq::empty()
    } else {
        (match fs.first() {
            RespFrameModel::TextDelta { delta } => delta,
            _ => Seq::<char>::empty(),
        }) + resp_frames_text(fs.drop_first())
    }
}

/// The items carried by the item-done frames, in order.
pub open spec fn frames_items(fs: Seq<RespFrameModel>) -> Seq<ItemModel>
    decreases fs.len(),
{
    if fs.len() == 0 {
        Seq::empty()
    } else {
        (match fs.first() {
            RespFrameModel::ItemDone { item } => seq![item],
            _ => Seq::<ItemModel>::empty(),
        }) + frames_items(fs.drop_first())
    }
}

pub proof fn lemma_frames_items_add(a: Seq<RespFrameModel>, b: Seq<RespFrameModel>)
    ensures
        frames_items(a + b) == frames_items(a) + frames_items(b),
    decreases a.len(),
{
    if a.len() == 0 {
        assert(a + b =~= b);
        assert(frames_items(a) + frames_items(b) =~= frames_items(b));
    } else {
        assert((a + b).first() == a.first());
        assert((a + b).drop_first() =~= a.drop_first() + b);
        lemma_frames_items_add(a.drop_first(), b);
        assert((match a.first() {
            RespFrameModel::ItemDone { item } => seq![item],
            _ => Seq::<ItemModel>::empty(),
        }) + (frames_items(a.drop_first()) + frames_items(b)) =~= ((match a.first() {
            RespFrameModel::ItemDone { item } => seq![item],
            _ => Seq::<ItemModel>::empty(),
        }) + frames_items(a.drop_first())) + frames_items(b));
    }
}

proof fn lemma_frames_items_single(f: RespFrameModel)
    ensures
        frames_items(seq![f]) == (match f {
            RespFrameModel::ItemDone { item } => seq![item],
            _ => Seq::<ItemModel>::empty(),
        }),
{
    assert(seq![f].first() == f);
    assert(seq![f].drop_first() =~= Seq::<RespFrameModel>::empty());
    assert(frames_items(Seq::<RespFrameModel>::empty()) == Seq::<ItemModel>::empty());
    assert((match f {
        RespFrameModel::ItemDone { item } => seq![item],
        _ => Seq::<ItemModel>::empty(),
    }) + Seq::<ItemModel>::empty() =~= (match f {
        RespFrameModel::ItemDone { item } => seq![item],
        _ => Seq::<ItemModel>::empty(),
    }));
}

proof fn lemma_resp_emits_items(s: RespStreamTurn, m: EventMsg)
    ensures
        frames_items(resp_emits(s, m)) == (match m {
            EventMsg::RawItem { item } => seq![item@],
            _ => Seq::<ItemModel>::empty(),
        }),
{
    match m {
        EventMsg::AgentMessage { message } => {
            lemma_frames_items_single(RespFrameModel::TextDelta { delta: message@ });
        },
        EventMsg::AgentMessageDelta { delta } => {
            lemma_frames_items_single(RespFrameModel::TextDelta { delta: delta@ });
        },
        EventMsg::RawItem { item } => {
            lemma_frames_items_single(RespFrameModel::ItemDone { item: item@ });
        },
        EventMsg::TurnComplete { last_agent_message } => {
            let head = match last_agent_message {
                Some(msg) => if !s.text_seen {
                    seq![RespFrameModel::TextDelta { delta: msg@ }]
                } else {
                    Seq::<RespFrameModel>::empty()
                },
                None => Seq::<RespFrameModel>::empty(),
            };
            lemma_frames_items_add(head, resp_finish_tail());
            match last_agent_message {
                Some(msg) => lemma_frames_items_single(
                    RespFrameModel::TextDelta { delta: msg@ },
                ),
                None => {},
            }
            let a = seq![RespFrameModel::Completed];
            let b = seq![RespFrameModel::Done];
            assert(resp_finish_tail() =~= a + b);
            lemma_frames_items_add(a, b);
            lemma_frames_items_single(RespFrameModel::Completed);
            lemma_frames_items_single(RespFrameModel::Done);
            assert(frames_items(resp_emits(s, m)) =~= Seq::<ItemModel>::empty());
        },
        EventMsg::Error { message } => {
            lemma_frames_items_single(
                RespFrameModel::Fail(
                    TurnErrorModel {
                        kind: ErrorKind::UpstreamError,
                        message: "turn error: "@ + message@,
                    },
                ),
            );
        },
        EventMsg::Warning { message } => {},
        EventMsg::TurnAborted { reason } => {
            lemma_frames_items_single(
                RespFrameModel::Fail(
                    TurnErrorModel {
                        kind: ErrorKind::TurnAborted,
                        message: "turn aborted: "@ + reason@,
                    },
                ),
            );
        },
        EventMsg::Other => {},
    }
}

proof fn lemma_resp_run_items(s: RespStreamTurn, evs: Seq<SessionEvent>, rid: Seq<char>)
    ensures
        frames_items(resp_stream_run(s, evs, rid)) == consumed_items(evs, rid),
    decreases evs.len(),
{
    if evs.len() == 0 {
    } else if evs.first().id@ != rid {
        lemma_resp_run_items(s, evs.drop_first(), rid);
    } else if is_terminal(evs.first().msg) {
        lemma_resp_emits_items(s, evs.first().msg);
    } else {
        let m = evs.first().msg;
        lemma_resp_run_items(resp_next(s, m), evs.drop_first(), rid);
        lemma_resp_emits_items(s, m);
        lemma_frames_items_add(resp_emits(s, m), resp_stream_run(resp_next(s, m), evs.drop_first(), rid));
    }
}

/// Incremental/aggregate consistency for items: the full items the stream
/// forwards in its item-done events, in arrival order, are exactly the
/// items the aggregate mode accumulates over the same events.
pub proof fn lemma_resp_stream_items_match_aggregate(evs: Seq<SessionEvent>, rid: Seq<char>)
    ensures
        frames_items(resp_stream_frames(evs, rid)) == run_accum(init_accum(), evs, rid).items,
{
    let s = RespStreamTurn { text_seen: false, finished: false };
    lemma_run_accum_items(init_accum(), evs, rid);
    lemma_resp_run_items(s, evs, rid);
    let a = seq![RespFrameModel::Created];
    let b = resp_stream_run(s, evs, rid);
    lemma_frames_items_add(a, b);
    lemma_frames_items_single(RespFrameModel::Created);
    assert(frames_items(a) + frames_items(b) =~= frames_items(b));
    assert(init_accum().items + consumed_items(evs, rid) =~= consumed_items(evs, rid));
}

/// How many end-of-stream markers a frame sequence holds.
pub open spec fn resp_count_done(fs: Seq<RespFrameModel>) -> int
    decreases fs.len(),
{
    if fs.len() == 0 {
        0int
    } else {
        (if fs.first() is Done {
            1int
        } else {
            0int
        }) + resp_count_done(fs.drop_first())
    }
}

pub proof fn lemma_resp_count_done_add(a: Seq<RespFrameModel>, b: Seq<RespFrameModel>)
    ensures
        resp_count_done(a + b) == resp_count_done(a) + resp_count_done(b),
    decreases a.len(),
{
    if a.len() == 0 {
        assert(a + b =~= b);
    } else {
        assert((a + b).first() == a.first());
        assert((a + b).drop_first() =~= a.drop_first() + b);
        lemma_resp_count_done_add(a.drop_first(), b);
    }
}

pub proof fn lemma_resp_frames_text_add(a: Seq<RespFrameModel>, b: Seq<RespFrameModel>)
    ensures
        resp_frames_text(a + b) == resp_frames_text(a) + resp_frames_text(b),
    decreases a.len(),
{
    if a.len() == 0 {
        assert(a + b =~= b);
        assert(resp_frames_text(a) + resp_frames_text(b) =~= resp_frames_text(b));
    } else {
        assert((a + b).first() == a.first());
        assert((a + b).drop_first() =~= a.drop_first() + b);
        lemma_resp_frames_text_add(a.drop_first(), b);
        assert((match a.first() {
            RespFrameModel::TextDelta { delta } => delta,
            _ => Seq::<char>::empty(),
        }) + (resp_frames_text(a.drop_first()) + resp_frames_text(b)) =~= ((match a.first() {
            RespFrameModel::TextDelta { delta } => delta,
            _ => Seq::<char>::empty(),
        }) + resp_frames_text(a.drop_first())) + resp_frames_text(b));
    }
}

proof fn lemma_resp_count_done_single(f: RespFrameModel)
    ensures
        resp_count_done(seq![f]) == (if f is Done {
            1int
        } else {
            0int
        }),
{
    assert(seq![f].first() == f);
    assert(seq![f].drop_first() =~= Seq::<RespFrameModel>::empty());
    assert(resp_count_done(Seq::<RespFrameModel>::empty()) == 0);
}

proof fn lemma_resp_frames_text_single(f: RespFrameModel)
    ensures
        resp_frames_text(seq![f]) == (match f {
            RespFrameModel::TextDelta { delta } => delta,
            _ => Seq::<char>::empty(),
        }),
{
    assert(seq![f].first() == f);
    assert(seq![f].drop_first() =~= Seq::<RespFrameModel>::empty());
    assert(resp_frames_text(Seq::<RespFrameModel>::empty()) == Seq::<char>::empty());
    assert((match f {
        RespFrameModel::TextDelta { delta } => delta,
        _ => Seq::<char>::empty(),
    }) + Seq::<char>::empty() =~= (match f {
        RespFrameModel::TextDelta { delta } => delta,
        _ => Seq::<char>::empty(),
    }));
}

/// The two frames every completing turn ends with.
spec fn resp_finish_tail() -> Seq<RespFrameModel> {
    seq![RespFrameModel::Completed, RespFrameModel::Done]
}

proof fn lemma_resp_finish_tail_facts()
    ensures
        resp_count_done(resp_finish_tail()) == 1,
        resp_frames_text(resp_finish_tail()) == Seq::<char>::empty(),
{
    let a = seq![RespFrameModel::Completed];
    let b = seq![RespFrameModel::Done];
    assert(resp_finish_tail() =~= a + b);
    lemma_resp_count_done_add(a, b);
    lemma_resp_count_done_single(RespFrameModel::Completed);
    lemma_resp_count_done_single(RespFrameModel::Done);
    lemma_resp_frames_text_add(a, b);
    lemma_resp_frames_text_single(RespFrameModel::Completed);
    lemma_resp_frames_text_single(RespFrameModel::Done);
    assert(resp_frames_text(resp_finish_tail()) =~= Seq::<char>::empty());
}

proof fn lemma_resp_emits_nonterminal_no_done(s: RespStreamTurn, m: EventMsg)
    requires
        !is_terminal(m) || m is Error || m is TurnAborted,
    ensures
        resp_count_done(resp_emits(s, m)) == 0,
{
    match m {
        EventMsg::AgentMessage { message } => {
            lemma_resp_count_done_single(RespFrameModel::TextDelta { delta: message@ });
        },
        EventMsg::AgentMessageDelta { delta } => {
            lemma_resp_count_done_single(RespFrameModel::TextDelta { delta: delta@ });
        },
        EventMsg::RawItem { item } => {
            lemma_resp_count_done_single(RespFrameModel::ItemDone { item: item@ });
        },
        EventMsg::Error { message } => {
            lemma_resp_count_done_single(
                RespFrameModel::Fail(
                    TurnErrorModel {
                        kind: ErrorKind::UpstreamError,
                        message: "turn error: "@ + message@,
                    },
                ),
            );
        },
        EventMsg::TurnAborted { reason } => {
            lemma_resp_count_done_single(
                RespFrameModel::Fail(
                    TurnErrorModel {
                        kind: ErrorKind::TurnAborted,
                        message: "turn aborted: "@ + reason@,
                    },
                ),
            );
        },
        _ => {},
    }
}

proof fn lemma_resp_run_single_done(s: RespStreamTurn, evs: Seq<SessionEvent>, rid: Seq<char>)
    requires
        run_outcome(evs, rid) == OutcomeModel::Complete,
    ensures
        resp_stream_run(s, evs, rid).len() >= 1,
        resp_stream_run(s, evs, rid).last() == RespFrameModel::Done,
        resp_count_done(resp_stream_run(s, evs, rid)) == 1,
    decreases evs.len(),
{
    let fs = resp_stream_run(s, evs, rid);
    if evs.len() == 0 {
        assert(false);
    } else if evs.first().id@ != rid {
        lemma_resp_run_single_done(s, evs.drop_first(), rid);
    } else if is_terminal(evs.first().msg) {
        assert(event_outcome(evs.first().msg) == OutcomeModel::Complete);
        assert(evs.first().msg is TurnComplete);
        let head = match evs.first().msg->TurnComplete_last_agent_message {
            Some(msg) => if !s.text_seen {
                seq![RespFrameModel::TextDelta { delta: msg@ }]
            } else {
                Seq::<RespFrameModel>::empty()
            },
            None => Seq::<RespFrameModel>::empty(),
        };
        let tail = resp_finish_tail();
        assert(fs == head + tail);
        lemma_resp_count_done_add(head, tail);
        lemma_resp_finish_tail_facts();
        match evs.first().msg->TurnComplete_last_agent_message {
            Some(msg) => lemma_resp_count_done_single(
                RespFrameModel::TextDelta { delta: msg@ },
            ),
            None => {},
        }
        assert(fs.last() == tail[1]);
    } else {
        lemma_resp_run_single_done(resp_next(s, evs.first().msg), evs.drop_first(), rid);
        let head = resp_emits(s, evs.first().msg);
        let rest = resp_stream_run(resp_next(s, evs.first().msg), evs.drop_first(), rid);
        lemma_resp_count_done_add(head, rest);
        lemma_resp_emits_nonterminal_no_done(s, evs.first().msg);
        assert(fs.last() == rest.last());
    }
}

/// A streamed responses-style turn that completes ends with exactly one
/// end-of-stream marker, as the last wire event: nothing follows it.
pub proof fn lemma_resp_stream_single_done(evs: Seq<SessionEvent>, rid: Seq<char>)
    requires
        run_outcome(evs, rid) == OutcomeModel::Complete,
    ensures
        resp_stream_frames(evs, rid).len() >= 2,
        resp_stream_frames(evs, rid).last() == RespFrameModel::Done,
        resp_count_done(resp_stream_frames(evs, rid)) == 1,
{
    let s = RespStreamTurn { text_seen: false, finished: false };
    lemma_resp_run_single_done(s, evs, rid);
    let a = seq![RespFrameModel::Created];
    let b = resp_stream_run(s, evs, rid);
    lemma_resp_count_done_add(a, b);
    lemma_resp_count_done_single(RespFrameModel::Created);
    assert(resp_stream_frames(evs, rid).last() == b.last());
}

proof fn lemma_resp_run_deltas_text(s: RespStreamTurn, evs: Seq<SessionEvent>, rid: Seq<char>)
    requires
        evs.len() >= 1,
        forall|i: int|
            0 <= i < evs.len() - 1 ==> (#[trigger] evs[i]).id@ == rid
                && evs[i].msg is AgentMessageDelta,
        evs.last().id@ == rid,
        evs.last().msg is TurnComplete,
        opt_str_view(evs.last().msg->TurnComplete_last_agent_message) is None,
    ensures
        resp_frames_text(resp_stream_run(s, evs, rid)) == deltas_concat(evs.take(evs.len() - 1)),
    decreases evs.len(),
{
    if evs.len() == 1 {
        assert(evs.first() == evs.last());
        assert(resp_stream_run(s, evs, rid) =~= resp_finish_tail());
        lemma_resp_finish_tail_facts();
        assert(evs.take(0) =~= Seq::<SessionEvent>::empty());
    } else {
        assert(evs[0].msg is AgentMessageDelta);
        let rest = evs.drop_first();
        assert(rest.last() == evs.last());
        assert(forall|i: int|
            0 <= i < rest.len() - 1 ==> (#[trigger] rest[i]).id@ == rid
                && rest[i].msg is AgentMessageDelta);
        lemma_resp_run_deltas_text(resp_next(s, evs.first().msg), rest, rid);
        let d = evs.first().msg->AgentMessageDelta_delta@;
        let head = resp_emits(s, evs.first().msg);
        let restrun = resp_stream_run(resp_next(s, evs.first().msg), rest, rid);
        lemma_resp_frames_text_add(head, restrun);
        lemma_resp_frames_text_single(RespFrameModel::TextDelta { delta: d });
        assert(resp_frames_text(head) == d);
        assert(evs.take(evs.len() - 1).first() == evs.first());
        assert(evs.take(evs.len() - 1).drop_first() =~= rest.take(rest.len() - 1));
        assert(deltas_concat(evs.take(evs.len() - 1)) == d + deltas_concat(
            rest.take(rest.len() - 1),
        ));
    }
}

/// Streaming/aggregate consistency for text: over a turn of text-delta
/// events ending in a turn-complete with no final message, the streamed
/// text deltas concatenate to exactly the text the aggregate run
/// accumulates.
pub proof fn lemma_resp_stream_text_matches_aggregate(evs: Seq<SessionEvent>, rid: Seq<char>)
    requires
        evs.len() >= 1,
        forall|i: int|
            0 <= i < evs.len() - 1 ==> (#[trigger] evs[i]).id@ == rid
                && evs[i].msg is AgentMessageDelta,
        evs.last().id@ == rid,
        evs.last().msg is TurnComplete,
        opt_str_view(evs.last().msg->TurnComplete_last_agent_message) is None,
    ensures
        resp_frames_text(resp_stream_frames(evs, rid)) == run_accum(init_accum(), evs, rid).text,
{
    let s = RespStreamTurn { text_seen: false, finished: false };
    lemma_deltas_accumulate(init_accum(), evs, rid);
    assert(run_accum(init_accum(), evs, rid).text =~= deltas_concat(evs.take(evs.len() - 1)));
    lemma_resp_run_deltas_text(s, evs, rid);
    let a = seq![RespFrameModel::Created];
    let b = resp_stream_run(s, evs, rid);
    lemma_resp_frames_text_add(a, b);
    lemma_resp_frames_text_single(RespFrameModel::Created);
    assert(resp_frames_text(a) + resp_frames_text(b) =~= resp_frames_text(b));
}

/// Streaming/aggregate consistency when nothing was streamed before the
/// final message: a turn whose only event is a turn-complete carrying a
/// final message synthesizes exactly one text delta from it, which is also
/// the text the aggregate run holds.
pub proof fn lemma_resp_stream_final_only_matches(
    evs: Seq<SessionEvent>,
    rid: Seq<char>,
    fm: Seq<char>,
)
    requires
        evs.len() == 1,
        evs.last().id@ == rid,
        evs.last().msg is TurnComplete,
        opt_str_view(evs.last().msg->TurnComplete_last_agent_message) == Some(fm),
    ensures
        resp_frames_text(resp_stream_frames(evs, rid)) == fm,
        run_accum(init_accum(), evs, rid).text == fm,
{
    let s = RespStreamTurn { text_seen: false, finished: false };
    assert(evs.first() == evs.last());
    let head = seq![RespFrameModel::TextDelta { delta: fm }];
    let tail = resp_finish_tail();
    let b = resp_stream_run(s, evs, rid);
    assert(b =~= head + tail);
    lemma_resp_frames_text_add(head, tail);
    lemma_resp_frames_text_single(RespFrameModel::TextDelta { delta: fm });
    lemma_resp_finish_tail_facts();
    let a = seq![RespFrameModel::Created];
    lemma_resp_frames_text_add(a, b);
    lemma_resp_frames_text_single(RespFrameModel::Created);
    assert(resp_frames_text(resp_stream_frames(evs, rid)) =~= fm);
}

} // verus!
