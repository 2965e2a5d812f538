//! The library's model of structured turn output: content fragments,
//! structured items, and the external tool-call shape, together with the
//! pure mapping from items to tool calls.

use vstd::prelude::*;

verus! {

/// One content fragment inside a structured message item.
#[derive(Debug)]
pub enum ContentItem {
    InputText { text: String },
    OutputText { text: String },
    Other,
}

/// Spec-level value of a [`ContentItem`].
#[verifier::ext_equal]
pub enum ContentItemModel {
    InputText { text: Seq<char> },
    OutputText { text: Seq<char> },
    Other,
}

impl View for ContentItem {
    type V = ContentItemModel;

    open spec fn view(&self) -> ContentItemModel {
        match self {
            ContentItem::InputText { text } => ContentItemModel::InputText { text: text@ },
            ContentItem::OutputText { text } => ContentItemModel::OutputText { text: text@ },
            ContentItem::Other => ContentItemModel::Other,
        }
    }
}

/// One structured (non-delta) unit of turn output.  Only the fields the
/// adapter reads are modelled; any other item kind is `Other`.
#[derive(Debug)]
pub enum ResponseItem {
    Message { id: Option<String>, role: String, content: Vec<ContentItem> },
    FunctionCall { call_id: String, name: String, arguments: String },
    CustomToolCall { call_id: String, name: String, input: String },
    Other,
}

/// Spec-level value of a [`ResponseItem`].
#[verifier::ext_equal]
pub enum ItemModel {
    Message { id: Option<Seq<char>>, role: Seq<char>, content: Seq<ContentItemModel> },
    FunctionCall { call_id: Seq<char>, name: Seq<char>, arguments: Seq<char> },
    CustomToolCall { call_id: Seq<char>, name: Seq<char>, input: Seq<char> },
    Other,
}

pub open spec fn opt_str_view(o: Option<String>) -> Option<Seq<char>> {
    match o {
        Some(s) => Some(s@),
        None => None,
    }
}

impl View for ResponseItem {
    type V = ItemModel;

    open spec fn view(&self) -> ItemModel {
        match self {
            ResponseItem::Message { id, role, content } => ItemModel::Message {
                id: opt_str_view(*id),
                role: role@,
                content: content@.map_values(|c: ContentItem| c@),
            },
            ResponseItem::FunctionCall { call_id, name, arguments } => ItemModel::FunctionCall {
                call_id: call_id@,
                name: name@,
                arguments: arguments@,
            },
            ResponseItem::CustomToolCall { call_id, name, input } => ItemModel::CustomToolCall {
                call_id: call_id@,
                name: name@,
                input: input@,
            },
            ResponseItem::Other => ItemModel::Other,
        }
    }
}

impl ContentItem {
    /// An equal copy of this content fragment.
    pub fn clone_item(&self) -> (r: ContentItem)
        ensures
            r == *self,
    {
        match self {
            ContentItem::InputText { text } => ContentItem::InputText { text: text.clone() },
            ContentItem::OutputText { text } => ContentItem::OutputText { text: text.clone() },
            ContentItem::Other => ContentItem::Other,
        }
    }
}

fn clone_opt_string(o: &Option<String>) -> (r: Option<String>)
    ensures
        r == *o,
{
    match o {
        Some(s) => Some(s.clone()),
        None => None,
    }
}

fn clone_content_vec(v: &Vec<ContentItem>) -> (r: Vec<ContentItem>)
    ensures
        r@ == v@,
{
    let mut r: Vec<ContentItem> = Vec::new();
    let mut k: usize = 0;
    while k < v.len()
        invariant
            k <= v@.len(),
            r@ == v@.take(k as int),
        decreases v@.len() - k,
    {
        r.push(v[k].clone_item());
        proof {
            assert(r@ =~= v@.take(k as int + 1));
        }
        k = k + 1;
    }
    proof {
        assert(v@.take(v@.len() as int) =~= v@);
    }
    r
}

impl ResponseItem {
    /// A copy of this item with the same spec-level value.
    pub fn clone_item(&self) -> (r: ResponseItem)
        ensures
            r@ == self@,
    {
        match self {
            ResponseItem::Message { id, role, content } => ResponseItem::Message {
                id: clone_opt_string(id),
                role: role.clone(),
                content: clone_content_vec(content),
            },
            ResponseItem::FunctionCall { call_id, name, arguments } => ResponseItem::FunctionCall {
                call_id: call_id.clone(),
                name: name.clone(),
                arguments: arguments.clone(),
            },
            ResponseItem::CustomToolCall { call_id, name, input } => ResponseItem::CustomToolCall {
                call_id: call_id.clone(),
                name: name.clone(),
                input: input.clone(),
            },
            ResponseItem::Other => ResponseItem::Other,
        }
    }
}

/// The function part of an external tool call.
#[derive(Debug)]
pub struct ToolFunction {
    pub name: String,
    pub arguments: String,
}

/// Spec-level value of a [`ToolFunction`].
#[verifier::ext_equal]
pub struct ToolFunctionModel {
    pub name: Seq<char>,
    pub arguments: Seq<char>,
}

impl View for ToolFunction {
    type V = ToolFunctionModel;

    open spec fn view(&self) -> ToolFunctionModel {
        ToolFunctionModel { name: self.name@, arguments: self.arguments@ }
    }
}

/// The external tool-call shape; `kind` is always `"function"`.
#[derive(Debug)]
pub struct ToolCall {
    pub id: String,
    pub kind: String,
    pub function: ToolFunction,
}

/// Spec-level value of a [`ToolCall`].
#[verifier::ext_equal]
pub struct ToolCallModel {
    pub id: Seq<char>,
    pub kind: Seq<char>,
    pub function: ToolFunctionModel,
}

impl View for ToolCall {
    type V = ToolCallModel;

    open spec fn view(&self) -> ToolCallModel {
        ToolCallModel { id: self.id@, kind: self.kind@, function: self.function@ }
    }
}

/// The tool call an item maps to, if any: function calls and custom tool
/// calls both map to the external `"function"` shape; a custom call's input
/// becomes the function arguments.
pub open spec fn spec_tool_call(item: ItemModel) -> Option<ToolCallModel> {
    match item {
        ItemModel::FunctionCall { call_id, name, arguments } => Some(
            ToolCallModel {
                id: call_id,
                kind: "function"@,
                function: ToolFunctionModel { name, arguments },
            },
        ),
        ItemModel::CustomToolCall { call_id, name, input } => Some(
            ToolCallModel {
                id: call_id,
                kind: "function"@,
                function: ToolFunctionModel { name, arguments: input },
            },
        ),
        _ => None,
    }
}

pub open spec fn opt_tool_call_view(o: Option<ToolCall>) -> Option<ToolCallModel> {
    match o {
        Some(tc) => Some(tc@),
        None => None,
    }
}

/// Map a structured item to the external tool-call shape, or `None` when the
/// item is not a tool call.
pub fn map_tool_call(item: &ResponseItem) -> (r: Option<ToolCall>)
    ensures
        opt_tool_call_view(r) == spec_tool_call(item@),
{
    match item {
        ResponseItem::FunctionCall { call_id, name, arguments } => Some(
            ToolCall {
                id: call_id.clone(),
                kind: String::from_str("function"),
                function: ToolFunction { name: name.clone(), arguments: arguments.clone() },
            },
        ),
        ResponseItem::CustomToolCall { call_id, name, input } => Some(
            ToolCall {
                id: call_id.clone(),
                kind: String::from_str("function"),
                function: ToolFunction { name: name.clone(), arguments: input.clone() },
            },
        ),
        _ => None,
    }
}

/// Whether some item of the sequence maps to a tool call.
pub open spec fn has_tool_call(items: Seq<ItemModel>) -> bool {
    exists|i: int| 0 <= i < items.len() && #[trigger] spec_tool_call(items[i]) is Some
}

/// The tool calls of the given items, in item order.
pub open spec fn spec_tool_calls(items: Seq<ItemModel>) -> Seq<ToolCallModel>
    decreases items.len(),
{
    if items.len() == 0 {
        Seq::empty()
    } else {
        spec_tool_calls(items.drop_last()) + (match spec_tool_call(items.last()) {
            Some(tc) => seq![tc],
            None => Seq::empty(),
        })
    }
}

/// There is a mapped tool call exactly when some item maps to one.
pub proof fn lemma_tool_calls_nonempty(items: Seq<ItemModel>)
    ensures
        spec_tool_calls(items).len() > 0 <==> has_tool_call(items),
    decreases items.len(),
{
    if items.len() > 0 {
        lemma_tool_calls_nonempty(items.drop_last());
        if spec_tool_call(items.last()) is Some {
            assert(spec_tool_call(items[items.len() - 1]) is Some);
        } else if has_tool_call(items.drop_last()) {
            let i = choose|i: int|
                0 <= i < items.drop_last().len() && #[trigger] spec_tool_call(
                    items.drop_last()[i],
                ) is Some;
            assert(spec_tool_call(items[i]) is Some);
        } else if has_tool_call(items) {
            let i = choose|i: int|
                0 <= i < items.len() && #[trigger] spec_tool_call(items[i]) is Some;
            assert(i == items.len() - 1 || spec_tool_call(items.drop_last()[i]) is Some);
        }
    }
}

/// Collect the tool calls of the given items, in item order.
pub fn tool_calls_of(items: &Vec<ResponseItem>) -> (r: Vec<ToolCall>)
    ensures
        r@.map_values(|tc: ToolCall| tc@) == spec_tool_calls(
            items@.map_values(|it: ResponseItem| it@),
        ),
{
    let ghost all = items@.map_values(|it: ResponseItem| it@);
    let mut r: Vec<ToolCall> = Vec::new();
    let mut k: usize = 0;
    proof {
        assert(r@.map_values(|tc: ToolCall| tc@) =~= spec_tool_calls(all.take(0)));
    }
    while k < items.len()
        invariant
            all == items@.map_values(|it: ResponseItem| it@),
            k <= items@.len(),
            r@.map_values(|tc: ToolCall| tc@) == spec_tool_calls(all.take(k as int)),
        decreases items@.len() - k,
    {
        proof {
            assert(all.take(k as int + 1).drop_last() =~= all.take(k as int));
            assert(all.take(k as int + 1).last() == all[k as int]);
        }
        if let Some(tc) = map_tool_call(&items[k]) {
            r.push(tc);
            proof {
                assert(r@.map_values(|tc: ToolCall| tc@) =~= spec_tool_calls(
                    all.take(k as int + 1),
                ));
            }
        } else {
            proof {
                assert(r@.map_values(|tc: ToolCall| tc@) =~= spec_tool_calls(
                    all.take(k as int + 1),
                ));
            }
        }
        k = k + 1;
    }
    proof {
        assert(all.take(items@.len() as int) =~= all);
    }
    r
}

/// The finish reason derived from the items observed during a turn:
/// `"tool_calls"` when at least one item mapped to a tool call, else
/// `"stop"`.
pub open spec fn spec_finish_reason(items: Seq<ItemModel>) -> Seq<char> {
    if has_tool_call(items) {
        "tool_calls"@
    } else {
        "stop"@
    }
}

} // verus!
