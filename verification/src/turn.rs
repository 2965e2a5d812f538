//! The turn driver: consume a session's id-tagged event stream, discard
//! events of other turns, accumulate text and structured items, and stop at
//! the first terminal event.
//!
//! The accumulator is append-only until the terminal event; a final message
//! carried by the terminal event overwrites the text buffer (last write
//! wins for the aggregate view).

use vstd::prelude::*;

use crate::errors::ErrorKind;
use crate::errors::TurnError;
use crate::errors::TurnErrorModel;
use crate::items::ItemModel;
use crate::items::ResponseItem;
use crate::items::has_tool_call;
use crate::items::opt_str_view;
use crate::items::spec_finish_reason;
use crate::items::spec_tool_call;
use crate::text::str_eq;

verus! {

/// One unit pushed by the session's event stream.
pub enum EventMsg {
    /// A complete message of agent text.
    AgentMessage { message: String },
    /// An incremental fragment of agent text.
    AgentMessageDelta { delta: String },
    /// A structured (non-text) output item.
    RawItem { item: ResponseItem },
    /// The turn finished; it may carry the authoritative final message.
    TurnComplete { last_agent_message: Option<String> },
    /// The turn failed.
    Error { message: String },
    /// Observability only; never alters the result.
    Warning { message: String },
    /// The turn was aborted for the given reason.
    TurnAborted { reason: String },
    /// Any other event kind; ignored.
    Other,
}

/// An event together with the id of the turn it belongs to.
pub struct SessionEvent {
    pub id: String,
    pub msg: EventMsg,
}

/// The events that end a turn.
pub open spec fn is_terminal(m: EventMsg) -> bool {
    m is TurnComplete || m is Error || m is TurnAborted
}

/// The result accumulated over one turn: a running text buffer, the
/// structured items in arrival order, and whether any text was seen.
pub struct Accum {
    pub text: String,
    pub items: Vec<ResponseItem>,
    pub text_seen: bool,
}

/// Spec-level value of an [`Accum`].
#[verifier::ext_equal]
pub struct AccumModel {
    pub text: Seq<char>,
    pub items: Seq<ItemModel>,
    pub text_seen: bool,
}

impl View for Accum {
    type V = AccumModel;

    open spec fn view(&self) -> AccumModel {
        AccumModel {
            text: self.text@,
            items: self.items@.map_values(|it: ResponseItem| it@),
            text_seen: self.text_seen,
        }
    }
}

/// The empty accumulator a turn starts from.
pub open spec fn init_accum() -> AccumModel {
    AccumModel { text: Seq::empty(), items: Seq::empty(), text_seen: false }
}

/// How one event of the turn changes the accumulator: a message appends
/// itself and a newline, a delta appends itself verbatim, a structured item
/// is appended to the item list, and a final message carried by the
/// terminal event overwrites the text buffer; everything else is ignored.
pub open spec fn accum_step(a: AccumModel, m: EventMsg) -> AccumModel {
    match m {
        EventMsg::AgentMessage { message } => AccumModel {
            text: a.text + message@ + "\n"@,
            items: a.items,
            text_seen: true,
        },
        EventMsg::AgentMessageDelta { delta } => AccumModel {
            text: a.text + delta@,
            items: a.items,
            text_seen: true,
        },
        EventMsg::RawItem { item } => AccumModel {
            text: a.text,
            items: a.items.push(item@),
            text_seen: a.text_seen,
        },
        EventMsg::TurnComplete { last_agent_message } => match last_agent_message {
            Some(msg) => AccumModel { text: msg@, items: a.items, text_seen: true },
            None => a,
        },
        _ => a,
    }
}

/// Whether a turn is still running, finished, or failed.
pub enum TurnOutcome {
    Pending,
    Complete,
    Failed(TurnError),
}

/// Spec-level value of a [`TurnOutcome`].
pub enum OutcomeModel {
    Pending,
    Complete,
    Failed(TurnErrorModel),
}

impl View for TurnOutcome {
    type V = OutcomeModel;

    open spec fn view(&self) -> OutcomeModel {
        match self {
            TurnOutcome::Pending => OutcomeModel::Pending,
            TurnOutcome::Complete => OutcomeModel::Complete,
            TurnOutcome::Failed(e) => OutcomeModel::Failed(e@),
        }
    }
}

/// The outcome one event of the turn decides: completion, a classified
/// failure, or still pending.
pub open spec fn event_outcome(m: EventMsg) -> OutcomeModel {
    match m {
        EventMsg::TurnComplete { last_agent_message } => OutcomeModel::Complete,
        EventMsg::Error { message } => OutcomeModel::Failed(
            TurnErrorModel { kind: ErrorKind::UpstreamError, message: "turn error: "@ + message@ },
        ),
        EventMsg::TurnAborted { reason } => OutcomeModel::Failed(
            TurnErrorModel { kind: ErrorKind::TurnAborted, message: "turn aborted: "@ + reason@ },
        ),
        _ => OutcomeModel::Pending,
    }
}

impl Accum {
    /// The empty accumulator.
    pub fn new() -> (r: Accum)
        ensures
            r@ == init_accum(),
    {
        let r = Accum { text: String::new(), items: Vec::new(), text_seen: false };
        proof {
            assert(r@ =~~= init_accum());
        }
        r
    }

    /// Apply one session event to this accumulator.  An event tagged with a
    /// different turn id leaves the accumulator untouched and the turn
    /// pending; an event of this turn changes the accumulator by one step
    /// and decides whether the turn ended.
    pub fn apply_event(&mut self, ev: &SessionEvent, req_id: &str) -> (o: TurnOutcome)
        ensures
            ev.id@ != req_id@ ==> final(self)@ == old(self)@ && o@ == OutcomeModel::Pending,
            ev.id@ == req_id@ ==> final(self)@ == accum_step(old(self)@, ev.msg) && o@
                == event_outcome(ev.msg),
    {
        if !str_eq(ev.id.as_str(), req_id) {
            return TurnOutcome::Pending;
        }
        match &ev.msg {
            EventMsg::AgentMessage { message } => {
                self.text.append(message.as_str());
                self.text.append("\n");
                self.text_seen = true;
                proof {
                    assert(final(self)@ =~~= accum_step(old(self)@, ev.msg));
                }
                TurnOutcome::Pending
            },
            EventMsg::AgentMessageDelta { delta } => {
                self.text.append(delta.as_str());
                self.text_seen = true;
                proof {
                    assert(final(self)@ =~~= accum_step(old(self)@, ev.msg));
                }
                TurnOutcome::Pending
            },
            EventMsg::RawItem { item } => {
                self.items.push(item.clone_item());
                proof {
                    assert(final(self)@ =~~= accum_step(old(self)@, ev.msg));
                }
                TurnOutcome::Pending
            },
            EventMsg::TurnComplete { last_agent_message } => {
                if let Some(msg) = last_agent_message {
                    self.text = msg.clone();
                    self.text_seen = true;
                }
                proof {
                    assert(final(self)@ =~~= accum_step(old(self)@, ev.msg));
                }
                TurnOutcome::Complete
            },
            EventMsg::Error { message } => {
                let mut m = String::from_str("turn error: ");
                m.append(message.as_str());
                TurnOutcome::Failed(TurnError { kind: ErrorKind::UpstreamError, message: m })
            },
            EventMsg::Warning { message } => TurnOutcome::Pending,
            EventMsg::TurnAborted { reason } => {
                let mut m = String::from_str("turn aborted: ");
                m.append(reason.as_str());
                TurnOutcome::Failed(TurnError { kind: ErrorKind::TurnAborted, message: m })
            },
            EventMsg::Other => TurnOutcome::Pending,
        }
    }
}

/// The accumulator a turn reaches from `a` over the given events: events of
/// other turns are skipped, the first terminal event of this turn is
/// applied and ends the run, and later events change nothing.
pub open spec fn run_accum(a: AccumModel, evs: Seq<SessionEvent>, rid: Seq<char>) -> AccumModel
    decreases evs.len(),
{
    if evs.len() == 0 {
        a
    } else if evs.first().id@ != rid {
        run_accum(a, evs.drop_first(), rid)
    } else if is_terminal(evs.first().msg) {
        accum_step(a, evs.first().msg)
    } else {
        run_accum(accum_step(a, evs.first().msg), evs.drop_first(), rid)
    }
}

/// The outcome a turn reaches over the given events: the outcome of the
/// first terminal event of this turn, or pending when there is none.
pub open spec fn run_outcome(evs: Seq<SessionEvent>, rid: Seq<char>) -> OutcomeModel
    decreases evs.len(),
{
    if evs.len() == 0 {
        OutcomeModel::Pending
    } else if evs.first().id@ != rid {
        run_outcome(evs.drop_first(), rid)
    } else if is_terminal(evs.first().msg) {
        event_outcome(evs.first().msg)
    } else {
        run_outcome(evs.drop_first(), rid)
    }
}

/// Replay a whole event sequence against a fresh accumulator, stopping at
/// the first terminal event of this turn.
pub fn run_turn(events: &Vec<SessionEvent>, req_id: &str) -> (r: (Accum, TurnOutcome))
    ensures
        r.0@ == run_accum(init_accum(), events@, req_id@),
        r.1@ == run_outcome(events@, req_id@),
{
    let mut accum = Accum::new();
    let mut k: usize = 0;
    proof {
        assert(events@.skip(0) =~= events@);
    }
    while k < events.len()
        invariant
            k <= events@.len(),
            run_accum(init_accum(), events@, req_id@) == run_accum(
                accum@,
                events@.skip(k as int),
                req_id@,
            ),
            run_outcome(events@, req_id@) == run_outcome(events@.skip(k as int), req_id@),
        decreases events@.len() - k,
    {
        proof {
            assert(events@.skip(k as int).first() == events@[k as int]);
            assert(events@.skip(k as int).drop_first() =~= events@.skip(k as int + 1));
        }
        let o = accum.apply_event(&events[k], req_id);
        match o {
            TurnOutcome::Pending => {},
            _ => {
                return (accum, o);
            },
        }
        k = k + 1;
    }
    (accum, TurnOutcome::Pending)
}

/// The events of the turn `rid`, in order.
pub open spec fn own_events(evs: Seq<SessionEvent>, rid: Seq<char>) -> Seq<SessionEvent>
    decreases evs.len(),
{
    if evs.len() == 0 {
        Seq::empty()
    } else if evs.first().id@ == rid {
        seq![evs.first()] + own_events(evs.drop_first(), rid)
    } else {
        own_events(evs.drop_first(), rid)
    }
}

/// Events bearing another turn's id are never reflected in a turn's
/// result: the run over any event sequence equals the run over just the
/// events of this turn.
pub proof fn lemma_foreign_events_ignored(a: AccumModel, evs: Seq<SessionEvent>, rid: Seq<char>)
    ensures
        run_accum(a, evs, rid) == run_accum(a, own_events(evs, rid), rid),
        run_outcome(evs, rid) == run_outcome(own_events(evs, rid), rid),
    decreases evs.len(),
{
    if evs.len() == 0 {
    } else if evs.first().id@ != rid {
        lemma_foreign_events_ignored(a, evs.drop_first(), rid);
    } else {
        let own = own_events(evs, rid);
        assert(own == seq![evs.first()] + own_events(evs.drop_first(), rid));
        assert(own.first() == evs.first());
        assert(own.drop_first() =~= own_events(evs.drop_first(), rid));
        if is_terminal(evs.first().msg) {
        } else {
            lemma_foreign_events_ignored(accum_step(a, evs.first().msg), evs.drop_first(), rid);
            lemma_foreign_events_ignored(a, evs.drop_first(), rid);
        }
    }
}

/// Until the terminal event the accumulator only grows: every non-terminal
/// step keeps the text so far as a prefix and the items so far as a prefix,
/// and never clears the text-seen flag.  Only a final message carried by
/// the terminal event may overwrite the text.
pub proof fn lemma_accum_append_only(a: AccumModel, m: EventMsg)
    requires
        !is_terminal(m),
    ensures
        accum_step(a, m).text.len() >= a.text.len(),
        accum_step(a, m).text.subrange(0, a.text.len() as int) == a.text,
        accum_step(a, m).items.len() >= a.items.len(),
        accum_step(a, m).items.subrange(0, a.items.len() as int) == a.items,
        a.text_seen ==> accum_step(a, m).text_seen,
{
    let b = accum_step(a, m);
    assert(b.text.subrange(0, a.text.len() as int) =~= a.text);
    assert(b.items.subrange(0, a.items.len() as int) =~= a.items);
}

/// The structured items the turn consumes, in arrival order: those carried
/// by raw-item events of this turn before its first terminal event.
pub open spec fn consumed_items(evs: Seq<SessionEvent>, rid: Seq<char>) -> Seq<ItemModel>
    decreases evs.len(),
{
    if evs.len() == 0 {
        Seq::empty()
    } else if evs.first().id@ != rid {
        consumed_items(evs.drop_first(), rid)
    } else if is_terminal(evs.first().msg) {
        Seq::empty()
    } else {
        (match evs.first().msg {
            EventMsg::RawItem { item } => seq![item@],
            _ => Seq::<ItemModel>::empty(),
        }) + consumed_items(evs.drop_first(), rid)
    }
}

/// The aggregate item list is the starting items followed by exactly the
/// items the turn consumes, in arrival order.
pub proof fn lemma_run_accum_items(a: AccumModel, evs: Seq<SessionEvent>, rid: Seq<char>)
    ensures
        run_accum(a, evs, rid).items == a.items + consumed_items(evs, rid),
    decreases evs.len(),
{
    if evs.len() == 0 {
        assert(a.items + consumed_items(evs, rid) =~= a.items);
    } else if evs.first().id@ != rid {
        lemma_run_accum_items(a, evs.drop_first(), rid);
    } else if is_terminal(evs.first().msg) {
        assert(accum_step(a, evs.first().msg).items == a.items);
        assert(a.items + consumed_items(evs, rid) =~= a.items);
    } else {
        let m = evs.first().msg;
        lemma_run_accum_items(accum_step(a, m), evs.drop_first(), rid);
        match m {
            EventMsg::RawItem { item } => {
                assert(a.items.push(item@) + consumed_items(evs.drop_first(), rid) =~= a.items + (
                seq![item@] + consumed_items(evs.drop_first(), rid)));
            },
            _ => {
                assert(accum_step(a, m).items == a.items);
                assert(a.items + (Seq::<ItemModel>::empty() + consumed_items(
                    evs.drop_first(),
                    rid,
                )) =~= a.items + consumed_items(evs.drop_first(), rid));
            },
        }
    }
}

/// The concatenation, in receipt order, of the text-delta fragments among
/// the given events.
pub open spec fn deltas_concat(evs: Seq<SessionEvent>) -> Seq<char>
    decreases evs.len(),
{
    if evs.len() == 0 {
        Seq::empty()
    } else {
        (match evs.first().msg {
            EventMsg::AgentMessageDelta { delta } => delta@,
            _ => Seq::<char>::empty(),
        }) + deltas_concat(evs.drop_first())
    }
}

/// Overwrite rule: after any sequence of text-delta events of this turn
/// followed by a turn-complete carrying a final message, the accumulated
/// text is exactly that final message, not the concatenation of the
/// deltas, and the turn completes.
pub proof fn lemma_final_message_overwrites(
    a: AccumModel,
    evs: Seq<SessionEvent>,
    rid: Seq<char>,
    fm: Seq<char>,
)
    requires
        evs.len() >= 1,
        forall|i: int|
            0 <= i < evs.len() - 1 ==> (#[trigger] evs[i]).id@ == rid
                && evs[i].msg is AgentMessageDelta,
        evs.last().id@ == rid,
        evs.last().msg is TurnComplete,
        opt_str_view(evs.last().msg->TurnComplete_last_agent_message) == Some(fm),
    ensures
        run_accum(a, evs, rid).text == fm,
        run_accum(a, evs, rid).items == a.items,
        run_outcome(evs, rid) == OutcomeModel::Complete,
    decreases evs.len(),
{
    if evs.len() == 1 {
        assert(evs.first() == evs.last());
    } else {
        assert(evs[0].msg is AgentMessageDelta);
        let rest = evs.drop_first();
        assert(rest.last() == evs.last());
        assert(forall|i: int|
            0 <= i < rest.len() - 1 ==> (#[trigger] rest[i]).id@ == rid
                && rest[i].msg is AgentMessageDelta);
        lemma_final_message_overwrites(accum_step(a, evs.first().msg), rest, rid, fm);
    }
}

/// Delta accumulation rule: after any sequence of text-delta events of
/// this turn followed by a turn-complete with no final message, the
/// accumulated text is the starting text followed by the concatenation of
/// the deltas in receipt order, and the turn completes.
pub proof fn lemma_deltas_accumulate(a: AccumModel, evs: Seq<SessionEvent>, rid: Seq<char>)
    requires
        evs.len() >= 1,
        forall|i: int|
            0 <= i < evs.len() - 1 ==> (#[trigger] evs[i]).id@ == rid
                && evs[i].msg is AgentMessageDelta,
        evs.last().id@ == rid,
        evs.last().msg is TurnComplete,
        opt_str_view(evs.last().msg->TurnComplete_last_agent_message) is None,
    ensures
        run_accum(a, evs, rid).text == a.text + deltas_concat(evs.take(evs.len() - 1)),
        run_accum(a, evs, rid).items == a.items,
        run_outcome(evs, rid) == OutcomeModel::Complete,
    decreases evs.len(),
{
    if evs.len() == 1 {
        assert(evs.first() == evs.last());
        assert(evs.take(0) =~= Seq::<SessionEvent>::empty());
        assert(a.text + deltas_concat(evs.take(0)) =~= a.text);
    } else {
        assert(evs[0].msg is AgentMessageDelta);
        let rest = evs.drop_first();
        assert(rest.last() == evs.last());
        assert(forall|i: int|
            0 <= i < rest.len() - 1 ==> (#[trigger] rest[i]).id@ == rid
                && rest[i].msg is AgentMessageDelta);
        lemma_deltas_accumulate(accum_step(a, evs.first().msg), rest, rid);
        let d = evs.first().msg->AgentMessageDelta_delta@;
        assert(evs.take(evs.len() - 1).first() == evs.first());
        assert(evs.take(evs.len() - 1).drop_first() =~= rest.take(rest.len() - 1));
        assert(deltas_concat(evs.take(evs.len() - 1)) == d + deltas_concat(
            rest.take(rest.len() - 1),
        ));
        assert((a.text + d) + deltas_concat(rest.take(rest.len() - 1)) =~= a.text + (d
            + deltas_concat(rest.take(rest.len() - 1))));
    }
}

/// Whether, among the events this turn consumes (those of this turn up to
/// and including its first terminal event), some structured item maps to a
/// tool call.
pub open spec fn saw_tool_call(evs: Seq<SessionEvent>, rid: Seq<char>) -> bool
    decreases evs.len(),
{
    if evs.len() == 0 {
        false
    } else if evs.first().id@ != rid {
        saw_tool_call(evs.drop_first(), rid)
    } else if is_terminal(evs.first().msg) {
        false
    } else {
        (match evs.first().msg {
            EventMsg::RawItem { item } => spec_tool_call(item@) is Some,
            _ => false,
        }) || saw_tool_call(evs.drop_first(), rid)
    }
}

pub proof fn lemma_has_tool_call_push(items: Seq<ItemModel>, item: ItemModel)
    ensures
        has_tool_call(items.push(item)) <==> (has_tool_call(items) || spec_tool_call(item) is Some),
{
    let p = items.push(item);
    if spec_tool_call(item) is Some {
        assert(spec_tool_call(p[items.len() as int]) is Some);
    }
    if has_tool_call(items) {
        let i = choose|i: int| 0 <= i < items.len() && #[trigger] spec_tool_call(items[i]) is Some;
        assert(spec_tool_call(p[i]) is Some);
    }
    if has_tool_call(p) && !(spec_tool_call(item) is Some) {
        let i = choose|i: int| 0 <= i < p.len() && #[trigger] spec_tool_call(p[i]) is Some;
        assert(i < items.len());
        assert(spec_tool_call(items[i]) is Some);
    }
}

/// Finish-reason rule: a turn's items contain a tool call exactly when the
/// starting accumulator already contained one or a consumed event of this
/// turn carried an item mapping to one — regardless of any text events.
pub proof fn lemma_run_has_tool_call(a: AccumModel, evs: Seq<SessionEvent>, rid: Seq<char>)
    ensures
        has_tool_call(run_accum(a, evs, rid).items) <==> (has_tool_call(a.items) || saw_tool_call(
            evs,
            rid,
        )),
    decreases evs.len(),
{
    if evs.len() == 0 {
    } else if evs.first().id@ != rid {
        lemma_run_has_tool_call(a, evs.drop_first(), rid);
    } else if is_terminal(evs.first().msg) {
        assert(accum_step(a, evs.first().msg).items == a.items);
    } else {
        lemma_run_has_tool_call(accum_step(a, evs.first().msg), evs.drop_first(), rid);
        match evs.first().msg {
            EventMsg::RawItem { item } => {
                lemma_has_tool_call_push(a.items, item@);
            },
            _ => {},
        }
    }
}

/// Finish-reason rule at the start of a turn: the derived finish reason is
/// `"tool_calls"` if and only if at least one consumed event of this turn
/// carried a function or custom tool-call item, else it is `"stop"`.
pub proof fn lemma_finish_reason_iff_tool_call(evs: Seq<SessionEvent>, rid: Seq<char>)
    ensures
        spec_finish_reason(run_accum(init_accum(), evs, rid).items) == "tool_calls"@
            <==> saw_tool_call(evs, rid),
        !saw_tool_call(evs, rid) ==> spec_finish_reason(run_accum(init_accum(), evs, rid).items)
            == "stop"@,
{
    lemma_run_has_tool_call(init_accum(), evs, rid);
    reveal_strlit("tool_calls");
    reveal_strlit("stop");
    assert("tool_calls"@.len() != "stop"@.len());
}

} // verus!
