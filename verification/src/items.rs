//! The model-visible history items that the Spine logic reads.
//!
//! These hold, as plain values, the parts of the host's response items that
//! the projection, the compact planner and the renderers inspect.
use vstd::prelude::*;

verus! {

/// A content part of a message.
#[derive(Clone, Debug, PartialEq, Eq)]
pub enum ContentItem {
    InputText { text: String },
    OutputText { text: String },
    InputImage { image_url: String },
}

/// The phase of an assistant message.
#[derive(Clone, Copy, Debug, PartialEq, Eq)]
pub enum MessagePhase {
    Commentary,
    FinalAnswer,
}

/// One item of the model-visible history.
#[derive(Clone, Debug, PartialEq, Eq)]
pub enum ResponseItem {
    Message {
        id: Option<String>,
        role: String,
        content: Vec<ContentItem>,
        phase: Option<MessagePhase>,
    },
    Reasoning { id: String },
    LocalShellCall { call_id: Option<String> },
    FunctionCall { name: String, namespace: Option<String>, arguments: String, call_id: String },
    FunctionCallOutput { call_id: String, output: String, success: Option<bool> },
    CustomToolCall { call_id: String, name: String, input: String },
    CustomToolCallOutput { call_id: String, output: String },
    ToolSearchCall { call_id: Option<String>, execution: String },
    ToolSearchOutput { call_id: Option<String>, status: String, execution: String },
    WebSearchCall { id: Option<String> },
    ImageGenerationCall { id: String },
    Compaction { encrypted_content: String },
    ContextCompaction { encrypted_content: String },
    Other,
}

/// The text of the first `OutputText` part, if any.
pub open spec fn first_output_text(content: Seq<ContentItem>) -> Option<Seq<char>>
    decreases content.len(),
{
    if content.len() == 0 {
        None
    } else {
        match content[0] {
            ContentItem::OutputText { text } => Some(text@),
            _ => first_output_text(content.drop_first()),
        }
    }
}

/// The text of the first text part (input or output), if any.
pub open spec fn first_text(content: Seq<ContentItem>) -> Option<Seq<char>>
    decreases content.len(),
{
    if content.len() == 0 {
        None
    } else {
        match content[0] {
            ContentItem::OutputText { text } => Some(text@),
            ContentItem::InputText { text } => Some(text@),
            _ => first_text(content.drop_first()),
        }
    }
}

/// The first `OutputText` part of a message.
pub fn first_output_text_of(content: &Vec<ContentItem>) -> (r: Option<&String>)
    ensures
        match r {
            Some(t) => first_output_text(content@) == Some(t@),
            None => first_output_text(content@) is None,
        },
{
    let mut i: usize = 0;
    assert(content@.subrange(0, content@.len() as int) =~= content@);
    while i < content.len()
        invariant
            i <= content.len(),
            first_output_text(content@) == first_output_text(content@.subrange(i as int, content@.len() as int)),
        decreases content.len() - i,
    {
        let ghost rest = content@.subrange(i as int, content@.len() as int);
        assert(rest.drop_first() =~= content@.subrange(i + 1, content@.len() as int));
        match &content[i] {
            ContentItem::OutputText { text } => {
                return Some(text);
            },
            _ => {},
        }
        i = i + 1;
    }
    None
}

/// The first text part (input or output) of a message.
pub fn first_text_of(content: &Vec<ContentItem>) -> (r: Option<&String>)
    ensures
        match r {
            Some(t) => first_text(content@) == Some(t@),
            None => first_text(content@) is None,
        },
{
    let mut i: usize = 0;
    assert(content@.subrange(0, content@.len() as int) =~= content@);
    while i < content.len()
        invariant
            i <= content.len(),
            first_text(content@) == first_text(content@.subrange(i as int, content@.len() as int)),
        decreases content.len() - i,
    {
        let ghost rest = content@.subrange(i as int, content@.len() as int);
        assert(rest.drop_first() =~= content@.subrange(i + 1, content@.len() as int));
        match &content[i] {
            ContentItem::OutputText { text } => {
                return Some(text);
            },
            ContentItem::InputText { text } => {
                return Some(text);
            },
            _ => {},
        }
        i = i + 1;
    }
    None
}

/// A copy of an optional string.
pub fn copy_opt_string(s: &Option<String>) -> (r: Option<String>)
    ensures
        r == *s,
{
    match s {
        Some(x) => Some(x.clone()),
        None => None,
    }
}

/// A copy of a content part.
pub fn copy_content_item(c: &ContentItem) -> (r: ContentItem)
    ensures
        r == *c,
{
    match c {
        ContentItem::InputText { text } => ContentItem::InputText { text: text.clone() },
        ContentItem::OutputText { text } => ContentItem::OutputText { text: text.clone() },
        ContentItem::InputImage { image_url } => ContentItem::InputImage { image_url: image_url.clone() },
    }
}

/// A copy of a message's content.
pub fn copy_content(content: &Vec<ContentItem>) -> (r: Vec<ContentItem>)
    ensures
        r@ == content@,
{
    let mut r: Vec<ContentItem> = Vec::new();
    let mut i: usize = 0;
    while i < content.len()
        invariant
            i <= content.len(),
            r@ == content@.take(i as int),
        decreases content.len() - i,
    {
        r.push(copy_content_item(&content[i]));
        assert(r@ =~= content@.take(i + 1));
        i = i + 1;
    }
    assert(content@.take(i as int) =~= content@);
    r
}

/// Two items hold the same values (a message's parts compared by view).
pub open spec fn same_item(a: ResponseItem, b: ResponseItem) -> bool {
    match (a, b) {
        (
            ResponseItem::Message { id: ia, role: ra, content: ca, phase: pa },
            ResponseItem::Message { id: ib, role: rb, content: cb, phase: pb },
        ) => ia == ib && ra == rb && ca@ == cb@ && pa == pb,
        (ResponseItem::Message { .. }, _) => false,
        _ => a == b,
    }
}

/// Two item sequences hold the same items, position by position.
pub open spec fn same_items(a: Seq<ResponseItem>, b: Seq<ResponseItem>) -> bool {
    a.len() == b.len() && forall|i: int| 0 <= i < a.len() ==> same_item(#[trigger] a[i], b[i])
}

/// A copy of a history item.
pub fn copy_item(item: &ResponseItem) -> (r: ResponseItem)
    ensures
        same_item(r, *item),
{
    match item {
        ResponseItem::Message { id, role, content, phase } => {
            let c = copy_content(content);
            ResponseItem::Message {
                id: copy_opt_string(id),
                role: role.clone(),
                content: c,
                phase: *phase,
            }
        },
        ResponseItem::Reasoning { id } => ResponseItem::Reasoning { id: id.clone() },
        ResponseItem::LocalShellCall { call_id } => ResponseItem::LocalShellCall {
            call_id: copy_opt_string(call_id),
        },
        ResponseItem::FunctionCall { name, namespace, arguments, call_id } => ResponseItem::FunctionCall {
            name: name.clone(),
            namespace: copy_opt_string(namespace),
            arguments: arguments.clone(),
            call_id: call_id.clone(),
        },
        ResponseItem::FunctionCallOutput { call_id, output, success } => ResponseItem::FunctionCallOutput {
            call_id: call_id.clone(),
            output: output.clone(),
            success: *success,
        },
        ResponseItem::CustomToolCall { call_id, name, input } => ResponseItem::CustomToolCall {
            call_id: call_id.clone(),
            name: name.clone(),
            input: input.clone(),
        },
        ResponseItem::CustomToolCallOutput { call_id, output } => ResponseItem::CustomToolCallOutput {
            call_id: call_id.clone(),
            output: output.clone(),
        },
        ResponseItem::ToolSearchCall { call_id, execution } => ResponseItem::ToolSearchCall {
            call_id: copy_opt_string(call_id),
            execution: execution.clone(),
        },
        ResponseItem::ToolSearchOutput { call_id, status, execution } => ResponseItem::ToolSearchOutput {
            call_id: copy_opt_string(call_id),
            status: status.clone(),
            execution: execution.clone(),
        },
        ResponseItem::WebSearchCall { id } => ResponseItem::WebSearchCall { id: copy_opt_string(id) },
        ResponseItem::ImageGenerationCall { id } => ResponseItem::ImageGenerationCall { id: id.clone() },
        ResponseItem::Compaction { encrypted_content } => ResponseItem::Compaction {
            encrypted_content: encrypted_content.clone(),
        },
        ResponseItem::ContextCompaction { encrypted_content } => ResponseItem::ContextCompaction {
            encrypted_content: encrypted_content.clone(),
        },
        ResponseItem::Other => ResponseItem::Other,
    }
}

/// A copy of the items `history[start..end]`.
pub fn copy_items(history: &Vec<ResponseItem>, start: usize, end: usize) -> (r: Vec<ResponseItem>)
    requires
        start <= end <= history.len(),
    ensures
        same_items(r@, history@.subrange(start as int, end as int)),
{
    let mut r: Vec<ResponseItem> = Vec::new();
    let mut i: usize = start;
    while i < end
        invariant
            start <= i <= end <= history.len(),
            same_items(r@, history@.subrange(start as int, i as int)),
        decreases end - i,
    {
        r.push(copy_item(&history[i]));
        i = i + 1;
    }
    r
}

} // verus!
