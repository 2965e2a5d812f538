//! Request normalization: the accepted external request shapes and the
//! merge of their role-tagged content fragments into one ordered plain-text
//! instruction.
//!
//! A request with no non-blank content yields no instruction and is
//! rejected as an invalid request.

use vstd::prelude::*;

use crate::errors::ErrorKind;
use crate::errors::TurnError;
use crate::items::ContentItemModel;
use crate::items::ItemModel;
use crate::items::ResponseItem;
use crate::items::opt_str_view;
use crate::text::is_blank;
use crate::text::is_blank_str;
use crate::text::join_lines;
use crate::text::join_lines_spec;
use crate::text::trim;
use crate::text::trim_str;

verus! {

/// One block of list-form message content: the block's `text` (or, failing
/// that, `content`) string, when it has one.
pub struct ContentBlock {
    pub text: Option<String>,
}

/// Spec-level value of a [`ContentBlock`].
pub struct ContentBlockModel {
    pub text: Option<Seq<char>>,
}

impl View for ContentBlock {
    type V = ContentBlockModel;

    open spec fn view(&self) -> ContentBlockModel {
        ContentBlockModel { text: opt_str_view(self.text) }
    }
}

/// A message's content value: a plain string, an ordered list of blocks, or
/// any other shape (which carries no text).
pub enum MessageContent {
    Text { text: String },
    Blocks { blocks: Vec<ContentBlock> },
    Other,
}

/// Spec-level value of a [`MessageContent`].
pub enum ContentValueModel {
    Text { text: Seq<char> },
    Blocks { blocks: Seq<ContentBlockModel> },
    Other,
}

impl View for MessageContent {
    type V = ContentValueModel;

    open spec fn view(&self) -> ContentValueModel {
        match self {
            MessageContent::Text { text } => ContentValueModel::Text { text: text@ },
            MessageContent::Blocks { blocks } => ContentValueModel::Blocks {
                blocks: blocks@.map_values(|b: ContentBlock| b@),
            },
            MessageContent::Other => ContentValueModel::Other,
        }
    }
}

/// One role-tagged message of the message-list request shape.
pub struct ChatMessage {
    pub role: String,
    pub content: MessageContent,
}

/// Spec-level value of a [`ChatMessage`].
pub struct ChatMessageModel {
    pub role: Seq<char>,
    pub content: ContentValueModel,
}

impl View for ChatMessage {
    type V = ChatMessageModel;

    open spec fn view(&self) -> ChatMessageModel {
        ChatMessageModel { role: self.role@, content: self.content@ }
    }
}

/// One value of the free-form input-item list: an entry with an optional
/// role and a content value, or any other shape (which is skipped).
pub enum InputValue {
    Entry { role: Option<String>, content: MessageContent },
    Other,
}

/// Spec-level value of an [`InputValue`].
pub enum InputValueModel {
    Entry { role: Option<Seq<char>>, content: ContentValueModel },
    Other,
}

impl View for InputValue {
    type V = InputValueModel;

    open spec fn view(&self) -> InputValueModel {
        match self {
            InputValue::Entry { role, content } => InputValueModel::Entry {
                role: opt_str_view(*role),
                content: content@,
            },
            InputValue::Other => InputValueModel::Other,
        }
    }
}

/// A chat-completion style request body.
pub struct ChatCompletionRequest {
    pub model: String,
    pub messages: Option<Vec<ChatMessage>>,
    pub input: Option<Vec<InputValue>>,
    pub instructions: Option<String>,
    pub stream: bool,
    pub conversation_id: Option<String>,
}

/// Spec-level value of a [`ChatCompletionRequest`].
pub struct ChatRequestModel {
    pub model: Seq<char>,
    pub messages: Option<Seq<ChatMessageModel>>,
    pub input: Option<Seq<InputValueModel>>,
    pub instructions: Option<Seq<char>>,
    pub stream: bool,
    pub conversation_id: Option<Seq<char>>,
}

pub open spec fn opt_msgs_view(o: Option<Vec<ChatMessage>>) -> Option<Seq<ChatMessageModel>> {
    match o {
        Some(v) => Some(v@.map_values(|m: ChatMessage| m@)),
        None => None,
    }
}

pub open spec fn opt_input_view(o: Option<Vec<InputValue>>) -> Option<Seq<InputValueModel>> {
    match o {
        Some(v) => Some(v@.map_values(|m: InputValue| m@)),
        None => None,
    }
}

impl View for ChatCompletionRequest {
    type V = ChatRequestModel;

    open spec fn view(&self) -> ChatRequestModel {
        ChatRequestModel {
            model: self.model@,
            messages: opt_msgs_view(self.messages),
            input: opt_input_view(self.input),
            instructions: opt_str_view(self.instructions),
            stream: self.stream,
            conversation_id: opt_str_view(self.conversation_id),
        }
    }
}

/// A responses-style request body, whose input is a list of structured
/// items.
pub struct ResponsesRequest {
    pub model: String,
    pub input: Vec<ResponseItem>,
    pub instructions: Option<String>,
    pub stream: bool,
    pub conversation_id: Option<String>,
}

/// Spec-level value of a [`ResponsesRequest`].
pub struct ResponsesRequestModel {
    pub model: Seq<char>,
    pub input: Seq<ItemModel>,
    pub instructions: Option<Seq<char>>,
    pub stream: bool,
    pub conversation_id: Option<Seq<char>>,
}

impl View for ResponsesRequest {
    type V = ResponsesRequestModel;

    open spec fn view(&self) -> ResponsesRequestModel {
        ResponsesRequestModel {
            model: self.model@,
            input: self.input@.map_values(|it: ResponseItem| it@),
            instructions: opt_str_view(self.instructions),
            stream: self.stream,
            conversation_id: opt_str_view(self.conversation_id),
        }
    }
}

/// The texts of the blocks that carry one, in block order.
pub open spec fn block_texts(bs: Seq<ContentBlockModel>) -> Seq<Seq<char>>
    decreases bs.len(),
{
    if bs.len() == 0 {
        Seq::empty()
    } else {
        block_texts(bs.drop_last()) + (match bs.last().text {
            Some(t) => seq![t],
            None => Seq::empty(),
        })
    }
}

/// The text a content value carries: the plain string itself, or the block
/// texts joined with newlines; any other shape carries no text.
pub open spec fn content_text(c: ContentValueModel) -> Seq<char> {
    match c {
        ContentValueModel::Text { text } => text,
        ContentValueModel::Blocks { blocks } => join_lines_spec(block_texts(blocks)),
        ContentValueModel::Other => Seq::empty(),
    }
}

/// Extract the text a content value carries.
pub fn content_text_of(c: &MessageContent) -> (r: String)
    ensures
        r@ == content_text(c@),
{
    match c {
        MessageContent::Text { text } => text.clone(),
        MessageContent::Blocks { blocks } => {
            let ghost all = blocks@.map_values(|b: ContentBlock| b@);
            let mut texts: Vec<String> = Vec::new();
            let mut k: usize = 0;
            proof {
                assert(texts@.map_values(|p: String| p@) =~= block_texts(all.take(0)));
            }
            while k < blocks.len()
                invariant
                    all == blocks@.map_values(|b: ContentBlock| b@),
                    k <= blocks@.len(),
                    texts@.map_values(|p: String| p@) == block_texts(all.take(k as int)),
                decreases blocks@.len() - k,
            {
                proof {
                    assert(all.take(k as int + 1).drop_last() =~= all.take(k as int));
                    assert(all.take(k as int + 1).last() == all[k as int]);
                }
                if let Some(t) = &blocks[k].text {
                    texts.push(t.clone());
                }
                proof {
                    assert(texts@.map_values(|p: String| p@) =~= block_texts(
                        all.take(k as int + 1),
                    ));
                }
                k = k + 1;
            }
            proof {
                assert(all.take(blocks@.len() as int) =~= all);
            }
            join_lines(&texts)
        },
        MessageContent::Other => String::new(),
    }
}

/// The non-blank fragments of a message list, each prefixed with its role.
/// A message's content is kept as carried, without trimming.
pub open spec fn message_fragments(msgs: Seq<ChatMessageModel>) -> Seq<Seq<char>>
    decreases msgs.len(),
{
    if msgs.len() == 0 {
        Seq::empty()
    } else {
        message_fragments(msgs.drop_last()) + (if is_blank(content_text(msgs.last().content)) {
            Seq::<Seq<char>>::empty()
        } else {
            seq![msgs.last().role + ": "@ + content_text(msgs.last().content)]
        })
    }
}

/// The merged instruction of a message list: the role-prefixed non-blank
/// fragments joined with newlines, or nothing when every fragment is blank.
pub open spec fn spec_merge_messages(msgs: Seq<ChatMessageModel>) -> Option<Seq<char>> {
    if message_fragments(msgs).len() == 0 {
        None
    } else {
        Some(join_lines_spec(message_fragments(msgs)))
    }
}

fn role_fragment(role: &str, text: &str) -> (r: String)
    ensures
        r@ == role@ + ": "@ + text@,
{
    let mut r = role.to_owned();
    r.append(": ");
    r.append(text);
    r
}

/// Merge a message list into one instruction, or `None` when no message has
/// non-blank content.
pub fn merge_messages(msgs: &Vec<ChatMessage>) -> (r: Option<String>)
    ensures
        opt_str_view(r) == spec_merge_messages(msgs@.map_values(|m: ChatMessage| m@)),
{
    let ghost all = msgs@.map_values(|m: ChatMessage| m@);
    let mut parts: Vec<String> = Vec::new();
    let mut k: usize = 0;
    proof {
        assert(parts@.map_values(|p: String| p@) =~= message_fragments(all.take(0)));
    }
    while k < msgs.len()
        invariant
            all == msgs@.map_values(|m: ChatMessage| m@),
            k <= msgs@.len(),
            parts@.map_values(|p: String| p@) == message_fragments(all.take(k as int)),
        decreases msgs@.len() - k,
    {
        proof {
            assert(all.take(k as int + 1).drop_last() =~= all.take(k as int));
            assert(all.take(k as int + 1).last() == all[k as int]);
        }
        let content = content_text_of(&msgs[k].content);
        if !is_blank_str(content.as_str()) {
            parts.push(role_fragment(msgs[k].role.as_str(), content.as_str()));
        }
        proof {
            assert(parts@.map_values(|p: String| p@) =~= message_fragments(all.take(k as int + 1)));
        }
        k = k + 1;
    }
    proof {
        assert(all.take(msgs@.len() as int) =~= all);
    }
    if parts.len() == 0 {
        None
    } else {
        Some(join_lines(&parts))
    }
}

/// The leading `system:` fragment contributed by non-blank instructions.
pub open spec fn instruction_fragments(instructions: Option<Seq<char>>) -> Seq<Seq<char>> {
    match instructions {
        Some(ins) => if is_blank(ins) {
            Seq::empty()
        } else {
            seq!["system: "@ + trim(ins)]
        },
        None => Seq::empty(),
    }
}

fn instruction_parts(instructions: &Option<String>) -> (r: Vec<String>)
    ensures
        r@.map_values(|p: String| p@) == instruction_fragments(opt_str_view(*instructions)),
{
    let mut parts: Vec<String> = Vec::new();
    if let Some(ins) = instructions {
        if !is_blank_str(ins.as_str()) {
            let trimmed = trim_str(ins.as_str());
            parts.push(role_fragment("system", trimmed.as_str()));
            proof {
                reveal_strlit("system");
                reveal_strlit(": ");
                reveal_strlit("system: ");
                assert("system"@ + ": "@ =~= "system: "@);
            }
        }
    }
    proof {
        assert(parts@.map_values(|p: String| p@) =~~= instruction_fragments(
            opt_str_view(*instructions),
        ));
    }
    parts
}

/// The non-blank fragments of a free-form input-item list: each entry with
/// non-blank content contributes its trimmed text prefixed with its role
/// (or `user` when it names none); every other value is skipped.
pub open spec fn input_value_fragments(input: Seq<InputValueModel>) -> Seq<Seq<char>>
    decreases input.len(),
{
    if input.len() == 0 {
        Seq::empty()
    } else {
        input_value_fragments(input.drop_last()) + (match input.last() {
            InputValueModel::Entry { role, content } => if is_blank(content_text(content)) {
                Seq::<Seq<char>>::empty()
            } else {
                seq![
                    (match role {
                        Some(r) => r,
                        None => "user"@,
                    }) + ": "@ + trim(content_text(content)),
                ]
            },
            InputValueModel::Other => Seq::<Seq<char>>::empty(),
        })
    }
}

/// The merged instruction of a free-form input-item list with optional
/// system instructions.
pub open spec fn spec_merge_input_values(
    input: Seq<InputValueModel>,
    instructions: Option<Seq<char>>,
) -> Option<Seq<char>> {
    let parts = instruction_fragments(instructions) + input_value_fragments(input);
    if parts.len() == 0 {
        None
    } else {
        Some(join_lines_spec(parts))
    }
}

/// Merge a free-form input-item list with optional system instructions, or
/// `None` when nothing contributes non-blank content.
pub fn merge_responses_input_values(input: &Vec<InputValue>, instructions: &Option<String>) -> (r:
    Option<String>)
    ensures
        opt_str_view(r) == spec_merge_input_values(
            input@.map_values(|m: InputValue| m@),
            opt_str_view(*instructions),
        ),
{
    let ghost all = input@.map_values(|m: InputValue| m@);
    let ghost head = instruction_fragments(opt_str_view(*instructions));
    let mut parts: Vec<String> = instruction_parts(instructions);
    let mut k: usize = 0;
    proof {
        assert(head + input_value_fragments(all.take(0)) =~= head);
    }
    while k < input.len()
        invariant
            all == input@.map_values(|m: InputValue| m@),
            head == instruction_fragments(opt_str_view(*instructions)),
            k <= input@.len(),
            parts@.map_values(|p: String| p@) == head + input_value_fragments(all.take(k as int)),
        decreases input@.len() - k,
    {
        proof {
            assert(all.take(k as int + 1).drop_last() =~= all.take(k as int));
            assert(all.take(k as int + 1).last() == all[k as int]);
        }
        if let InputValue::Entry { role, content } = &input[k] {
            let text = content_text_of(content);
            if !is_blank_str(text.as_str()) {
                let trimmed = trim_str(text.as_str());
                let frag = match role {
                    Some(r) => role_fragment(r.as_str(), trimmed.as_str()),
                    None => role_fragment("user", trimmed.as_str()),
                };
                proof {
                    assert(input_value_fragments(all.take(k as int + 1)) =~~=
                        input_value_fragments(all.take(k as int)) + seq![frag@]);
                }
                let ghost fs = frag;
                let ghost pold = parts@;
                parts.push(frag);
                proof {
                    assert(parts@ == pold.push(fs));
                    assert(parts@.map_values(|p: String| p@) =~~= pold.map_values(
                        |p: String| p@,
                    ).push(fs@));
                    assert(parts@.map_values(|p: String| p@) =~~= head + input_value_fragments(
                        all.take(k as int + 1),
                    ));
                }
            } else {
                proof {
                    assert(parts@.map_values(|p: String| p@) =~~= head + input_value_fragments(
                        all.take(k as int + 1),
                    ));
                }
            }
        } else {
            proof {
                assert(parts@.map_values(|p: String| p@) =~~= head + input_value_fragments(
                    all.take(k as int + 1),
                ));
            }
        }
        k = k + 1;
    }
    proof {
        assert(all.take(input@.len() as int) =~= all);
    }
    if parts.len() == 0 {
        None
    } else {
        Some(join_lines(&parts))
    }
}

/// The texts of a structured message's content fragments, in order.
pub open spec fn content_item_texts(content: Seq<ContentItemModel>) -> Seq<Seq<char>>
    decreases content.len(),
{
    if content.len() == 0 {
        Seq::empty()
    } else {
        content_item_texts(content.drop_last()) + (match content.last() {
            ContentItemModel::InputText { text } => seq![text],
            ContentItemModel::OutputText { text } => seq![text],
            ContentItemModel::Other => Seq::<Seq<char>>::empty(),
        })
    }
}

/// The non-blank fragments of a structured item list: each message item
/// whose joined content is non-blank contributes its trimmed text prefixed
/// with its role; every other item is skipped.
pub open spec fn item_fragments(input: Seq<ItemModel>) -> Seq<Seq<char>>
    decreases input.len(),
{
    if input.len() == 0 {
        Seq::empty()
    } else {
        item_fragments(input.drop_last()) + (match input.last() {
            ItemModel::Message { id, role, content } => if is_blank(
                join_lines_spec(content_item_texts(content)),
            ) {
                Seq::<Seq<char>>::empty()
            } else {
                seq![role + ": "@ + trim(join_lines_spec(content_item_texts(content)))]
            },
            _ => Seq::<Seq<char>>::empty(),
        })
    }
}

/// The merged instruction of a structured item list with optional system
/// instructions.
pub open spec fn spec_merge_responses_input(
    input: Seq<ItemModel>,
    instructions: Option<Seq<char>>,
) -> Option<Seq<char>> {
    let parts = instruction_fragments(instructions) + item_fragments(input);
    if parts.len() == 0 {
        None
    } else {
        Some(join_lines_spec(parts))
    }
}

fn message_item_text(content: &Vec<crate::items::ContentItem>) -> (r: String)
    ensures
        r@ == join_lines_spec(content_item_texts(content@.map_values(|c: crate::items::ContentItem| c@))),
{
    let ghost all = content@.map_values(|c: crate::items::ContentItem| c@);
    let mut texts: Vec<String> = Vec::new();
    let mut k: usize = 0;
    proof {
        assert(texts@.map_values(|p: String| p@) =~= content_item_texts(all.take(0)));
    }
    while k < content.len()
        invariant
            all == content@.map_values(|c: crate::items::ContentItem| c@),
            k <= content@.len(),
            texts@.map_values(|p: String| p@) == content_item_texts(all.take(k as int)),
        decreases content@.len() - k,
    {
        proof {
            assert(all.take(k as int + 1).drop_last() =~= all.take(k as int));
            assert(all.take(k as int + 1).last() == all[k as int]);
        }
        match &content[k] {
            crate::items::ContentItem::InputText { text } => texts.push(text.clone()),
            crate::items::ContentItem::OutputText { text } => texts.push(text.clone()),
            crate::items::ContentItem::Other => (),
        }
        proof {
            assert(texts@.map_values(|p: String| p@) =~= content_item_texts(all.take(k as int + 1)));
        }
        k = k + 1;
    }
    proof {
        assert(all.take(content@.len() as int) =~= all);
    }
    join_lines(&texts)
}

/// Merge a structured item list with optional system instructions, or
/// `None` when nothing contributes non-blank content.
pub fn merge_responses_input(input: &Vec<ResponseItem>, instructions: &Option<String>) -> (r:
    Option<String>)
    ensures
        opt_str_view(r) == spec_merge_responses_input(
            input@.map_values(|it: ResponseItem| it@),
            opt_str_view(*instructions),
        ),
{
    let ghost all = input@.map_values(|it: ResponseItem| it@);
    let ghost head = instruction_fragments(opt_str_view(*instructions));
    let mut parts: Vec<String> = instruction_parts(instructions);
    let mut k: usize = 0;
    proof {
        assert(head + item_fragments(all.take(0)) =~= head);
    }
    while k < input.len()
        invariant
            all == input@.map_values(|it: ResponseItem| it@),
            head == instruction_fragments(opt_str_view(*instructions)),
            k <= input@.len(),
            parts@.map_values(|p: String| p@) == head + item_fragments(all.take(k as int)),
        decreases input@.len() - k,
    {
        proof {
            assert(all.take(k as int + 1).drop_last() =~= all.take(k as int));
            assert(all.take(k as int + 1).last() == all[k as int]);
        }
        if let ResponseItem::Message { id, role, content } = &input[k] {
            let text = message_item_text(content);
            if !is_blank_str(text.as_str()) {
                let trimmed = trim_str(text.as_str());
                let frag = role_fragment(role.as_str(), trimmed.as_str());
                proof {
                    assert(item_fragments(all.take(k as int + 1)) =~~= item_fragments(
                        all.take(k as int),
                    ) + seq![frag@]);
                }
                let ghost fs = frag;
                let ghost pold = parts@;
                parts.push(frag);
                proof {
                    assert(parts@ == pold.push(fs));
                    assert(parts@.map_values(|p: String| p@) =~~= pold.map_values(
                        |p: String| p@,
                    ).push(fs@));
                    assert(parts@.map_values(|p: String| p@) =~~= head + item_fragments(
                        all.take(k as int + 1),
                    ));
                }
            } else {
                proof {
                    assert(parts@.map_values(|p: String| p@) =~~= head + item_fragments(
                        all.take(k as int + 1),
                    ));
                }
            }
        } else {
            proof {
                assert(parts@.map_values(|p: String| p@) =~~= head + item_fragments(
                    all.take(k as int + 1),
                ));
            }
        }
        k = k + 1;
    }
    proof {
        assert(all.take(input@.len() as int) =~= all);
    }
    if parts.len() == 0 {
        None
    } else {
        Some(join_lines(&parts))
    }
}

/// The instruction a chat-completion request merges to: the message list
/// when it yields fragments, else the free-form input list, else nothing.
/// Non-blank system instructions are always prepended, whichever shape is
/// used.
pub open spec fn spec_merged_text(req: ChatRequestModel) -> Option<Seq<char>> {
    match req.messages {
        Some(msgs) => if message_fragments(msgs).len() > 0 {
            Some(
                join_lines_spec(instruction_fragments(req.instructions) + message_fragments(msgs)),
            )
        } else {
            spec_merged_text_from_input(req)
        },
        None => spec_merged_text_from_input(req),
    }
}

pub open spec fn spec_merged_text_from_input(req: ChatRequestModel) -> Option<Seq<char>> {
    match req.input {
        Some(input) => spec_merge_input_values(input, req.instructions),
        None => None,
    }
}

/// Merge whichever shape a chat-completion request carries.
pub fn merged_text_from_request(req: &ChatCompletionRequest) -> (r: Option<String>)
    ensures
        opt_str_view(r) == spec_merged_text(req@),
{
    if let Some(msgs) = &req.messages {
        if let Some(text) = merge_messages(msgs) {
            let ghost frags = message_fragments(msgs@.map_values(|m: ChatMessage| m@));
            let ghost head = instruction_fragments(opt_str_view(req.instructions));
            let mut parts = instruction_parts(&req.instructions);
            if parts.len() == 0 {
                proof {
                    assert(head + frags =~= frags);
                }
                return Some(text);
            }
            proof {
                assert(head =~= seq![head[0]]);
                crate::text::lemma_join_lines_cons(head[0], frags);
            }
            let ghost ts = text;
            parts.push(text);
            proof {
                assert(parts@.map_values(|p: String| p@) =~= seq![head[0], ts@]);
                assert(seq![head[0], ts@].drop_last() =~= seq![head[0]]);
                assert(join_lines_spec(seq![head[0]]) == head[0]);
            }
            let joined = join_lines(&parts);
            proof {
                assert(joined@ == join_lines_spec(head + frags));
            }
            return Some(joined);
        }
    }
    if let Some(input) = &req.input {
        return merge_responses_input_values(input, &req.instructions);
    }
    None
}

/// Normalize a chat-completion request into its instruction, or reject it
/// as invalid when it has no usable content.
pub fn chat_instruction(req: &ChatCompletionRequest) -> (r: Result<String, TurnError>)
    ensures
        match r {
            Ok(text) => spec_merged_text(req@) == Some(text@),
            Err(e) => spec_merged_text(req@) is None && e.kind == ErrorKind::InvalidRequest
                && e.message@ == "no user content found"@,
        },
{
    match merged_text_from_request(req) {
        Some(text) => Ok(text),
        None => Err(
            TurnError {
                kind: ErrorKind::InvalidRequest,
                message: String::from_str("no user content found"),
            },
        ),
    }
}

/// A message whose content is blank contributes no fragment, so a message
/// list in which every content is blank merges to nothing.
pub proof fn lemma_blank_messages_merge_to_none(msgs: Seq<ChatMessageModel>)
    requires
        forall|i: int|
            0 <= i < msgs.len() ==> is_blank(content_text((#[trigger] msgs[i]).content)),
    ensures
        spec_merge_messages(msgs) is None,
    decreases msgs.len(),
{
    if msgs.len() > 0 {
        lemma_blank_messages_merge_to_none(msgs.drop_last());
        assert(msgs.drop_last().len() < msgs.len());
        assert(is_blank(content_text(msgs[msgs.len() - 1].content)));
        assert(message_fragments(msgs) =~= message_fragments(msgs.drop_last()));
    }
}

/// An input list in which every entry's content is blank, together with
/// blank or absent instructions, merges to nothing.
pub proof fn lemma_blank_input_values_merge_to_none(
    input: Seq<InputValueModel>,
    instructions: Option<Seq<char>>,
)
    requires
        (match instructions {
            Some(ins) => is_blank(ins),
            None => true,
        }),
        forall|i: int|
            0 <= i < input.len() ==> (match #[trigger] input[i] {
                InputValueModel::Entry { role, content } => is_blank(content_text(content)),
                InputValueModel::Other => true,
            }),
    ensures
        spec_merge_input_values(input, instructions) is None,
    decreases input.len(),
{
    assert(instruction_fragments(instructions) =~= Seq::<Seq<char>>::empty());
    if input.len() > 0 {
        lemma_blank_input_values_merge_to_none(input.drop_last(), instructions);
        assert(match input[input.len() - 1] {
            InputValueModel::Entry { role, content } => is_blank(content_text(content)),
            InputValueModel::Other => true,
        });
        assert(input_value_fragments(input) =~= input_value_fragments(input.drop_last()));
    } else {
        assert(input_value_fragments(input) =~= Seq::<Seq<char>>::empty());
    }
}

/// A structured item list in which every message item's joined content is
/// blank, together with blank or absent instructions, merges to nothing.
pub proof fn lemma_blank_items_merge_to_none(
    input: Seq<ItemModel>,
    instructions: Option<Seq<char>>,
)
    requires
        (match instructions {
            Some(ins) => is_blank(ins),
            None => true,
        }),
        forall|i: int|
            0 <= i < input.len() ==> (match #[trigger] input[i] {
                ItemModel::Message { id, role, content } => is_blank(
                    join_lines_spec(content_item_texts(content)),
                ),
                _ => true,
            }),
    ensures
        spec_merge_responses_input(input, instructions) is None,
    decreases input.len(),
{
    assert(instruction_fragments(instructions) =~= Seq::<Seq<char>>::empty());
    if input.len() > 0 {
        lemma_blank_items_merge_to_none(input.drop_last(), instructions);
        assert(match input[input.len() - 1] {
            ItemModel::Message { id, role, content } => is_blank(
                join_lines_spec(content_item_texts(content)),
            ),
            _ => true,
        });
        assert(item_fragments(input) =~= item_fragments(input.drop_last()));
    } else {
        assert(item_fragments(input) =~= Seq::<Seq<char>>::empty());
    }
}

/// A chat-completion request with only blank content across every accepted
/// shape yields no instruction, so it is rejected as an invalid request,
/// which is reported with HTTP status 400 and type `invalid_request_error`.
pub proof fn lemma_blank_chat_request_rejected(req: ChatRequestModel)
    requires
        (match req.messages {
            Some(msgs) => forall|i: int|
                0 <= i < msgs.len() ==> is_blank(content_text((#[trigger] msgs[i]).content)),
            None => true,
        }),
        (match req.input {
            Some(input) => forall|i: int|
                0 <= i < input.len() ==> (match #[trigger] input[i] {
                    InputValueModel::Entry { role, content } => is_blank(content_text(content)),
                    InputValueModel::Other => true,
                }),
            None => true,
        }),
        (match req.instructions {
            Some(ins) => is_blank(ins),
            None => true,
        }),
    ensures
        spec_merged_text(req) is None,
        crate::errors::spec_http_status(ErrorKind::InvalidRequest) == 400,
        crate::errors::spec_error_type(ErrorKind::InvalidRequest) == "invalid_request_error"@,
{
    if let Some(msgs) = req.messages {
        lemma_blank_messages_merge_to_none(msgs);
    }
    if let Some(input) = req.input {
        lemma_blank_input_values_merge_to_none(input, req.instructions);
    }
}

/// A responses-style request with only blank content yields no
/// instruction, so it is rejected as an invalid request, which is reported
/// with HTTP status 400 and type `invalid_request_error`.
pub proof fn lemma_blank_responses_request_rejected(req: ResponsesRequestModel)
    requires
        forall|i: int|
            0 <= i < req.input.len() ==> (match #[trigger] req.input[i] {
                ItemModel::Message { id, role, content } => is_blank(
                    join_lines_spec(content_item_texts(content)),
                ),
                _ => true,
            }),
        (match req.instructions {
            Some(ins) => is_blank(ins),
            None => true,
        }),
    ensures
        spec_merge_responses_input(req.input, req.instructions) is None,
        crate::errors::spec_http_status(ErrorKind::InvalidRequest) == 400,
        crate::errors::spec_error_type(ErrorKind::InvalidRequest) == "invalid_request_error"@,
{
    lemma_blank_items_merge_to_none(req.input, req.instructions);
}

/// Normalize a responses-style request into its instruction, or reject it
/// as invalid when it has no usable content.
pub fn responses_instruction(req: &ResponsesRequest) -> (r: Result<String, TurnError>)
    ensures
        match r {
            Ok(text) => spec_merge_responses_input(req@.input, req@.instructions) == Some(text@),
            Err(e) => spec_merge_responses_input(req@.input, req@.instructions) is None && e.kind
                == ErrorKind::InvalidRequest && e.message@ == "no user content found"@,
        },
{
    match merge_responses_input(&req.input, &req.instructions) {
        Some(text) => Ok(text),
        None => Err(
            TurnError {
                kind: ErrorKind::InvalidRequest,
                message: String::from_str("no user content found"),
            },
        ),
    }
}

} // verus!
