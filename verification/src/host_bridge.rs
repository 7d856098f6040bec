//! The host bridge projection: how each item of the model-visible history maps
//! onto raw rollout ordinals, given the compact span ledger.
//!
//! An ordinary item consumes one raw ordinal, a handoff or initial-context
//! wrapper consumes none, a rendered Spine memory consumes the span that the
//! ledger records for it, and a non-Spine compaction stops the mapping.
use crate::ids::{node_id_text, parse_node_id_spec, NodeId, ParsedNodeId};
use crate::items::{first_output_text, first_output_text_of, ContentItem, ResponseItem};
use crate::model::{op_label, op_label_spec, InstalledCompactSpan, SpineOperation};
use crate::text::{
    chars_of, copy_string, ends_with, eq_chars, first_line, first_line_of, has_prefix, has_suffix,
    push_all, push_str, rsplit_char_spec, rsplit_once, starts_with, str_eq, string_of,
    strip_prefix, strip_suffix,
};
use vstd::prelude::*;

verus! {

// ----------------------------------------------------------------------------
// Constants
// ----------------------------------------------------------------------------
/// Opening tag of the runtime-generated initial-context wrapper.
pub const SPINE_INITIAL_CONTEXT_OPEN_TAG: &'static str = "<spine_initial_context runtime_generated=\"true\">";

/// Closing tag of the runtime-generated initial-context wrapper.
pub const SPINE_INITIAL_CONTEXT_CLOSE_TAG: &'static str = "</spine_initial_context>";

/// Prefix of the durable marker line of a rendered Spine memory.
pub const SPINE_MEMORY_MARKER_PREFIX: &'static str = "<!-- codex-spine-memory:";

/// Suffix of the durable marker line of a rendered Spine memory.
pub const SPINE_MEMORY_MARKER_SUFFIX: &'static str = " -->";

/// Prefix of the synthetic id of a rendered Spine memory.
pub const SPINE_MEMORY_ID_PREFIX: &'static str = "spine-memory:";

/// The first line of the host's native compaction summary message.
pub const SUMMARY_PREFIX: &'static str = "Another language model started to solve this problem and produced a summary of its thinking process. You also have access to the state of the tools that were used by that language model. Use this to build on the work that has already been done and avoid duplicating work. Here is the summary produced by the other language model, use the information in this summary to assist with your own analysis:";

// ----------------------------------------------------------------------------
// Outside call: JSON shape of the initial-context wrapper body
// ----------------------------------------------------------------------------
/// The `type` tags of the elements of a JSON array, as `serde_json` reads the
/// text; `None` when the text is not a JSON array.
pub uninterp spec fn json_array_type_tags(body: Seq<char>) -> Option<Seq<Option<Seq<char>>>>;

/// The view of a list of optional tags.
pub open spec fn tags_view(tags: Seq<Option<String>>) -> Seq<Option<Seq<char>>> {
    tags.map_values(|t: Option<String>| match t {
        Some(s) => Some(s@),
        None => None,
    })
}

/// Parses `body` with `serde_json::from_str` as an array of JSON values and reads
/// the `type` field of each element. Claims only that the result is a function
/// of the text (named `json_array_type_tags`).
#[verifier::external_body]
fn parse_json_array_type_tags(body: &str) -> (r: Option<Vec<Option<String>>>)
    ensures
        match r {
            Some(tags) => json_array_type_tags(body@) == Some(tags_view(tags@)),
            None => json_array_type_tags(body@) is None,
        },
{
    match serde_json::from_str::<Vec<serde_json::Value>>(body) {
        Ok(values) => Some(
            values.iter().map(|v| v.get("type").and_then(|t| t.as_str()).map(|t| t.to_string())).collect(),
        ),
        Err(_) => None,
    }
}

// ----------------------------------------------------------------------------
// Specifications of the item classifiers
// ----------------------------------------------------------------------------
/// `s` without the prefix `p`, if it has it.
pub open spec fn strip_prefix_spec(s: Seq<char>, p: Seq<char>) -> Option<Seq<char>> {
    if has_prefix(s, p) {
        Some(s.subrange(p.len() as int, s.len() as int))
    } else {
        None
    }
}

/// `s` without the suffix `p`, if it has it.
pub open spec fn strip_suffix_spec(s: Seq<char>, p: Seq<char>) -> Option<Seq<char>> {
    if has_suffix(s, p) {
        Some(s.subrange(0, s.len() - p.len()))
    } else {
        None
    }
}

/// The operation whose label is `s`.
pub open spec fn parse_label_spec(s: Seq<char>) -> Option<SpineOperation> {
    if s == op_label_spec(SpineOperation::Open) {
        Some(SpineOperation::Open)
    } else if s == op_label_spec(SpineOperation::Next) {
        Some(SpineOperation::Next)
    } else if s == op_label_spec(SpineOperation::Close) {
        Some(SpineOperation::Close)
    } else if s == op_label_spec(SpineOperation::Archive) {
        Some(SpineOperation::Archive)
    } else {
        None
    }
}

/// `NODE:LABEL`, split at the last `:`.
pub open spec fn parse_memory_pair_spec(s: Seq<char>) -> Option<(Seq<u32>, SpineOperation)> {
    match rsplit_char_spec(s, ':') {
        Some((node, label)) => match parse_node_id_spec(node) {
            ParsedNodeId::Parsed(segs) => match parse_label_spec(label) {
                Some(op) => Some((segs, op)),
                None => None,
            },
            _ => None,
        },
        None => None,
    }
}

/// What a synthetic memory id (`spine-memory:NODE:LABEL`) says.
pub open spec fn parse_spine_memory_id_spec(id: Seq<char>) -> Option<(Seq<u32>, SpineOperation)> {
    match strip_prefix_spec(id, SPINE_MEMORY_ID_PREFIX@) {
        Some(rest) => parse_memory_pair_spec(rest),
        None => None,
    }
}

/// What the marker on the first line of a memory text says.
pub open spec fn parse_spine_memory_text_marker_spec(text: Seq<char>) -> Option<
    (Seq<u32>, SpineOperation),
> {
    match first_line(text) {
        Some(line) => match strip_prefix_spec(line, SPINE_MEMORY_MARKER_PREFIX@) {
            Some(a) => match strip_suffix_spec(a, SPINE_MEMORY_MARKER_SUFFIX@) {
                Some(m) => parse_memory_pair_spec(m),
                None => None,
            },
            None => None,
        },
        None => None,
    }
}

/// The node and operation of a rendered Spine memory item: an assistant message
/// with an output text, identified by its synthetic id or by its marker line.
pub open spec fn current_memory_metadata_spec(item: ResponseItem) -> Option<(Seq<u32>, SpineOperation)> {
    match item {
        ResponseItem::Message { id, role, content, .. } => if role@ == "assistant"@ {
            match first_output_text(content@) {
                Some(text) => {
                    let by_id = match id {
                        Some(i) => parse_spine_memory_id_spec(i@),
                        None => None,
                    };
                    if by_id is Some {
                        by_id
                    } else {
                        parse_spine_memory_text_marker_spec(text)
                    }
                },
                None => None,
            }
        } else {
            None
        },
        _ => None,
    }
}

/// The single input text of a developer message, if that is all it holds.
pub open spec fn sole_developer_text(item: ResponseItem) -> Option<Seq<char>> {
    match item {
        ResponseItem::Message { role, content, .. } => if role@ == "developer"@ && content@.len()
            == 1 {
            match content@[0] {
                ContentItem::InputText { text } => Some(text@),
                _ => None,
            }
        } else {
            None
        },
        _ => None,
    }
}

/// A Spine handoff marker: `<spine_handoff>...</spine_handoff>` from the developer.
pub open spec fn is_handoff_spec(item: ResponseItem) -> bool {
    match sole_developer_text(item) {
        Some(text) => has_prefix(text, "<spine_handoff>"@) && has_suffix(text, "</spine_handoff>"@),
        None => false,
    }
}

/// The body of an initial-context wrapper, between the tags and their newlines.
pub open spec fn initial_context_body_spec(item: ResponseItem) -> Option<Seq<char>> {
    match sole_developer_text(item) {
        Some(text) => match strip_prefix_spec(text, SPINE_INITIAL_CONTEXT_OPEN_TAG@) {
            Some(a) => match strip_prefix_spec(a, seq!['\n']) {
                Some(b) => match strip_suffix_spec(b, SPINE_INITIAL_CONTEXT_CLOSE_TAG@) {
                    Some(c) => strip_suffix_spec(c, seq!['\n']),
                    None => None,
                },
                None => None,
            },
            None => None,
        },
        None => None,
    }
}

/// Every element of the JSON array carries a `type` tag.
pub open spec fn all_tagged(tags: Seq<Option<Seq<char>>>) -> bool {
    forall|i: int| 0 <= i < tags.len() ==> tags[i] is Some
}

/// A runtime-generated initial-context wrapper whose body reads as a list of items.
pub open spec fn is_initial_context_spec(item: ResponseItem) -> bool {
    match initial_context_body_spec(item) {
        Some(body) => match json_array_type_tags(body) {
            Some(tags) => all_tagged(tags),
            None => false,
        },
        None => false,
    }
}

/// A message text that the host's native compaction produced.
pub open spec fn is_summary_message_spec(text: Seq<char>) -> bool {
    has_prefix(text, SUMMARY_PREFIX@.push('\n'))
}

/// Some input text of the content is a native compaction summary.
pub open spec fn has_summary_text(content: Seq<ContentItem>) -> bool {
    exists|i: int|
        0 <= i < content.len() && (match #[trigger] content[i] {
            ContentItem::InputText { text } => is_summary_message_spec(text@),
            _ => false,
        })
}

/// A native (non-Spine) compaction item.
pub open spec fn is_non_spine_compact_spec(item: ResponseItem) -> bool {
    match item {
        ResponseItem::Compaction { .. } => true,
        ResponseItem::ContextCompaction { .. } => true,
        ResponseItem::Message { role, content, .. } => role@ == "user"@ && has_summary_text(
            content@,
        ),
        _ => false,
    }
}

// ----------------------------------------------------------------------------
// Parsers and renderers of the memory identity
// ----------------------------------------------------------------------------
/// The node and operation that a rendered Spine memory belongs to.
#[derive(Clone, Debug, PartialEq, Eq)]
pub struct SpineMemoryMetadata {
    pub node_id: NodeId,
    pub op: SpineOperation,
}

/// The view of optional metadata.
pub open spec fn meta_view(m: Option<SpineMemoryMetadata>) -> Option<(Seq<u32>, SpineOperation)> {
    match m {
        Some(meta) => Some((meta.node_id@, meta.op)),
        None => None,
    }
}

/// The operation whose label is `value` (`open`, `next`, `close`, `archive`).
pub fn parse_spine_operation_label(value: &Vec<char>) -> (r: Option<SpineOperation>)
    ensures
        r == parse_label_spec(value@),
{
    if eq_chars(value, &op_label(SpineOperation::Open)) {
        Some(SpineOperation::Open)
    } else if eq_chars(value, &op_label(SpineOperation::Next)) {
        Some(SpineOperation::Next)
    } else if eq_chars(value, &op_label(SpineOperation::Close)) {
        Some(SpineOperation::Close)
    } else if eq_chars(value, &op_label(SpineOperation::Archive)) {
        Some(SpineOperation::Archive)
    } else {
        None
    }
}

/// Reads `NODE:LABEL`.
fn parse_memory_pair(s: &Vec<char>) -> (r: Option<SpineMemoryMetadata>)
    ensures
        meta_view(r) == parse_memory_pair_spec(s@),
{
    match rsplit_once(s, ':') {
        Some((node, label)) => match crate::ids::parse_node_id_chars(&node) {
            Ok(node_id) => match parse_spine_operation_label(&label) {
                Some(op) => Some(SpineMemoryMetadata { node_id, op }),
                None => None,
            },
            Err(_) => None,
        },
        None => None,
    }
}

/// Reads a synthetic memory id `spine-memory:NODE:LABEL`.
pub fn parse_spine_memory_id(id: &Vec<char>) -> (r: Option<SpineMemoryMetadata>)
    ensures
        meta_view(r) == parse_spine_memory_id_spec(id@),
{
    let prefix = chars_of(SPINE_MEMORY_ID_PREFIX);
    match strip_prefix(id, &prefix) {
        Some(rest) => parse_memory_pair(&rest),
        None => None,
    }
}

/// Reads the durable marker `<!-- codex-spine-memory:NODE:LABEL -->` on the
/// first line of a memory text.
pub fn parse_spine_memory_text_marker(text: &Vec<char>) -> (r: Option<SpineMemoryMetadata>)
    ensures
        meta_view(r) == parse_spine_memory_text_marker_spec(text@),
{
    let line = match first_line_of(text) {
        Some(l) => l,
        None => return None,
    };
    let prefix = chars_of(SPINE_MEMORY_MARKER_PREFIX);
    let suffix = chars_of(SPINE_MEMORY_MARKER_SUFFIX);
    let a = match strip_prefix(&line, &prefix) {
        Some(a) => a,
        None => return None,
    };
    let m = match strip_suffix(&a, &suffix) {
        Some(m) => m,
        None => return None,
    };
    parse_memory_pair(&m)
}

/// The text `NODE:LABEL`.
pub open spec fn memory_pair_text(node: Seq<u32>, op: SpineOperation) -> Seq<char> {
    node_id_text(node) + seq![':'] + op_label_spec(op)
}

fn push_memory_pair(v: &mut Vec<char>, node_id: &NodeId, op: SpineOperation)
    ensures
        final(v)@ == old(v)@ + memory_pair_text(node_id@, op),
{
    let t = node_id.to_text();
    push_all(v, &t);
    v.push(':');
    let l = op_label(op);
    push_all(v, &l);
    assert(old(v)@ + t@ + seq![':'] + l@ =~= old(v)@ + memory_pair_text(node_id@, op));
}

/// The durable marker line of a rendered memory.
pub fn spine_memory_text_marker(node_id: &NodeId, op: SpineOperation) -> (r: String)
    ensures
        r@ == SPINE_MEMORY_MARKER_PREFIX@ + memory_pair_text(node_id@, op)
            + SPINE_MEMORY_MARKER_SUFFIX@,
{
    let mut v: Vec<char> = Vec::new();
    push_str(&mut v, SPINE_MEMORY_MARKER_PREFIX);
    push_memory_pair(&mut v, node_id, op);
    push_str(&mut v, SPINE_MEMORY_MARKER_SUFFIX);
    assert(v@ =~= SPINE_MEMORY_MARKER_PREFIX@ + memory_pair_text(node_id@, op)
        + SPINE_MEMORY_MARKER_SUFFIX@);
    string_of(&v)
}

/// The synthetic id of a rendered memory, `spine-memory:NODE:LABEL`.
pub fn spine_memory_synthetic_id(node_id: &NodeId, op: SpineOperation) -> (r: String)
    ensures
        r@ == SPINE_MEMORY_ID_PREFIX@ + memory_pair_text(node_id@, op),
{
    let mut v: Vec<char> = Vec::new();
    push_str(&mut v, SPINE_MEMORY_ID_PREFIX);
    push_memory_pair(&mut v, node_id, op);
    string_of(&v)
}

// ----------------------------------------------------------------------------
// Item classifiers
// ----------------------------------------------------------------------------
/// The single input text of a developer message, if that is all it holds.
fn sole_developer_text_of(item: &ResponseItem) -> (r: Option<&String>)
    ensures
        match r {
            Some(t) => sole_developer_text(*item) == Some(t@),
            None => sole_developer_text(*item) is None,
        },
{
    match item {
        ResponseItem::Message { role, content, .. } => {
            if !str_eq(role.as_str(), "developer") || content.len() != 1 {
                return None;
            }
            match &content[0] {
                ContentItem::InputText { text } => Some(text),
                _ => None,
            }
        },
        _ => None,
    }
}

/// A Spine handoff marker message.
pub fn is_spine_handoff_item(item: &ResponseItem) -> (r: bool)
    ensures
        r == is_handoff_spec(*item),
{
    match sole_developer_text_of(item) {
        Some(text) => {
            let t = chars_of(text.as_str());
            starts_with(&t, &chars_of("<spine_handoff>")) && ends_with(
                &t,
                &chars_of("</spine_handoff>"),
            )
        },
        None => false,
    }
}

/// The body of an initial-context wrapper (the text between the tags).
pub fn initial_context_body(item: &ResponseItem) -> (r: Option<Vec<char>>)
    ensures
        match r {
            Some(b) => initial_context_body_spec(*item) == Some(b@),
            None => initial_context_body_spec(*item) is None,
        },
{
    let text = match sole_developer_text_of(item) {
        Some(t) => chars_of(t.as_str()),
        None => return None,
    };
    let mut nl: Vec<char> = Vec::new();
    nl.push('\n');
    assert(nl@ =~= seq!['\n']);
    let a = match strip_prefix(&text, &chars_of(SPINE_INITIAL_CONTEXT_OPEN_TAG)) {
        Some(a) => a,
        None => return None,
    };
    let b = match strip_prefix(&a, &nl) {
        Some(b) => b,
        None => return None,
    };
    let c = match strip_suffix(&b, &chars_of(SPINE_INITIAL_CONTEXT_CLOSE_TAG)) {
        Some(c) => c,
        None => return None,
    };
    strip_suffix(&c, &nl)
}

/// A runtime-generated initial-context wrapper whose body reads as a list of items.
pub fn is_spine_initial_context_item(item: &ResponseItem) -> (r: bool)
    ensures
        r == is_initial_context_spec(*item),
{
    let body = match initial_context_body(item) {
        Some(b) => b,
        None => return false,
    };
    let body_text = string_of(&body);
    match parse_json_array_type_tags(body_text.as_str()) {
        Some(tags) => all_tags_present(&tags),
        None => false,
    }
}

/// Every element of the parsed array carries a `type` tag.
fn all_tags_present(tags: &Vec<Option<String>>) -> (r: bool)
    ensures
        r == all_tagged(tags_view(tags@)),
{
    let mut i: usize = 0;
    while i < tags.len()
        invariant
            i <= tags.len(),
            forall|j: int| 0 <= j < i ==> (#[trigger] tags@[j]) is Some,
        decreases tags.len() - i,
    {
        if tags[i].is_none() {
            assert(tags_view(tags@)[i as int] is None);
            assert(!all_tagged(tags_view(tags@)));
            return false;
        }
        i = i + 1;
    }
    assert(all_tagged(tags_view(tags@)));
    true
}

/// Whether a message text is the host's native compaction summary.
pub fn is_summary_message(text: &String) -> (r: bool)
    ensures
        r == is_summary_message_spec(text@),
{
    let mut p = chars_of(SUMMARY_PREFIX);
    p.push('\n');
    starts_with(&chars_of(text.as_str()), &p)
}

/// A native (non-Spine) compaction item: it stops the raw mapping.
pub fn is_non_spine_compact_item(item: &ResponseItem) -> (r: bool)
    ensures
        r == is_non_spine_compact_spec(*item),
        (item is Compaction || item is ContextCompaction) ==> r,
{
    match item {
        ResponseItem::Compaction { .. } => true,
        ResponseItem::ContextCompaction { .. } => true,
        ResponseItem::Message { role, content, .. } => {
            if !str_eq(role.as_str(), "user") {
                return false;
            }
            content_has_summary(content)
        },
        _ => false,
    }
}

/// Some input text of the content is a native compaction summary.
fn content_has_summary(content: &Vec<ContentItem>) -> (r: bool)
    ensures
        r == has_summary_text(content@),
{
    let mut i: usize = 0;
    while i < content.len()
        invariant
            i <= content.len(),
            forall|j: int|
                0 <= j < i ==> !(match #[trigger] content@[j] {
                    ContentItem::InputText { text } => is_summary_message_spec(text@),
                    _ => false,
                }),
        decreases content.len() - i,
    {
        match &content[i] {
            ContentItem::InputText { text } => {
                if is_summary_message(text) {
                    assert(match content@[i as int] {
                        ContentItem::InputText { text } => is_summary_message_spec(text@),
                        _ => false,
                    });
                    return true;
                }
            },
            _ => {},
        }
        i = i + 1;
    }
    false
}

/// The node and operation of a rendered Spine memory item.
pub fn parse_current_spine_memory_metadata(item: &ResponseItem) -> (r: Option<SpineMemoryMetadata>)
    ensures
        meta_view(r) == current_memory_metadata_spec(*item),
{
    match item {
        ResponseItem::Message { id, role, content, .. } => {
            if !str_eq(role.as_str(), "assistant") {
                return None;
            }
            let text = match first_output_text_of(content) {
                Some(t) => t,
                None => return None,
            };
            match id {
                Some(i) => {
                    let by_id = parse_spine_memory_id(&chars_of(i.as_str()));
                    if by_id.is_some() {
                        return by_id;
                    }
                },
                None => {},
            }
            parse_spine_memory_text_marker(&chars_of(text.as_str()))
        },
        _ => None,
    }
}

/// Host/UI filter: the item is a rendered Spine memory.
pub fn is_spine_internal_render_item(item: &ResponseItem) -> (r: bool)
    ensures
        r == current_memory_metadata_spec(*item) is Some,
{
    parse_current_spine_memory_metadata(item).is_some()
}

// ----------------------------------------------------------------------------
// Span lookup
// ----------------------------------------------------------------------------
/// `span` records the memory `meta` folded at `cut`.
pub open spec fn span_matches(span: InstalledCompactSpan, meta: (Seq<u32>, SpineOperation), cut: u64) -> bool {
    span.cut_ordinal == cut && span.node_id@ == meta.0 && span.op == meta.1
}

/// The span at position `i` (at or after the cursor) matches.
pub open spec fn matches_from(
    spans: Seq<InstalledCompactSpan>,
    sc: nat,
    meta: (Seq<u32>, SpineOperation),
    cut: u64,
    i: int,
) -> bool {
    sc <= i < spans.len() && span_matches(spans[i], meta, cut)
}

/// How a memory item finds its span in the ledger.
#[derive(Clone, Copy, Debug, PartialEq, Eq)]
pub enum RuntimeMemorySpanMatch {
    NoMatch,
    Unique { index: usize },
    Ambiguous,
}

/// The unique span at or after the cursor that records `meta` at `cut`, if there is one.
pub open spec fn lookup_spec(
    spans: Seq<InstalledCompactSpan>,
    sc: nat,
    meta: (Seq<u32>, SpineOperation),
    cut: u64,
) -> RuntimeMemorySpanMatch {
    if !(exists|i: int| matches_from(spans, sc, meta, cut, i)) {
        RuntimeMemorySpanMatch::NoMatch
    } else if exists|i: int, j: int|
        matches_from(spans, sc, meta, cut, i) && matches_from(spans, sc, meta, cut, j) && i != j {
        RuntimeMemorySpanMatch::Ambiguous
    } else {
        RuntimeMemorySpanMatch::Unique {
            index: (choose|i: int| matches_from(spans, sc, meta, cut, i)) as usize,
        }
    }
}

/// Whether two node ids are equal.
pub fn node_id_eq(a: &NodeId, b: &NodeId) -> (r: bool)
    ensures
        r == (a@ == b@),
{
    if a.0.len() != b.0.len() {
        return false;
    }
    let mut i: usize = 0;
    while i < a.0.len()
        invariant
            a.0.len() == b.0.len(),
            i <= a.0.len(),
            forall|j: int| 0 <= j < i ==> a@[j] == b@[j],
        decreases a.0.len() - i,
    {
        if a.0[i] != b.0[i] {
            return false;
        }
        i = i + 1;
    }
    assert(a@ =~= b@);
    true
}

/// The span records the memory of the same node and operation.
pub fn runtime_span_matches_memory(span: &InstalledCompactSpan, meta: &SpineMemoryMetadata) -> (r: bool)
    ensures
        r == (span.node_id@ == meta.node_id@ && span.op == meta.op),
{
    node_id_eq(&span.node_id, &meta.node_id) && span.op == meta.op
}

/// Looks up, at or after the cursor, the span that records `meta` at `cut_ordinal`.
pub fn lookup_runtime_span_for_memory(
    runtime_spans: &Vec<InstalledCompactSpan>,
    span_cursor: usize,
    meta: &SpineMemoryMetadata,
    cut_ordinal: u64,
) -> (r: RuntimeMemorySpanMatch)
    ensures
        r == lookup_spec(runtime_spans@, span_cursor as nat, (meta.node_id@, meta.op), cut_ordinal),
        r matches RuntimeMemorySpanMatch::Unique { index } ==> matches_from(
            runtime_spans@,
            span_cursor as nat,
            (meta.node_id@, meta.op),
            cut_ordinal,
            index as int,
        ),
{
    let ghost m = (meta.node_id@, meta.op);
    let ghost spans = runtime_spans@;
    let mut found: Option<usize> = None;
    let mut i = span_cursor;
    while i < runtime_spans.len()
        invariant
            span_cursor <= i,
            spans == runtime_spans@,
            m == (meta.node_id@, meta.op),
            match found {
                None => forall|j: int| span_cursor <= j < i ==> !matches_from(spans, span_cursor as nat, m, cut_ordinal, j),
                Some(f) => span_cursor <= f < i && matches_from(spans, span_cursor as nat, m, cut_ordinal, f as int)
                    && forall|j: int|
                    span_cursor <= j < i && j != f ==> !matches_from(spans, span_cursor as nat, m, cut_ordinal, j),
            },
        decreases runtime_spans.len() - i,
    {
        let span = &runtime_spans[i];
        if span.cut_ordinal == cut_ordinal && runtime_span_matches_memory(span, meta) {
            assert(matches_from(spans, span_cursor as nat, m, cut_ordinal, i as int));
            match found {
                Some(f) => {
                    assert(matches_from(spans, span_cursor as nat, m, cut_ordinal, f as int));
                    return RuntimeMemorySpanMatch::Ambiguous;
                },
                None => {
                    found = Some(i);
                },
            }
        }
        i = i + 1;
    }
    match found {
        Some(f) => {
            assert(forall|j: int| #![auto] matches_from(spans, span_cursor as nat, m, cut_ordinal, j) ==> j == f);
            assert(matches_from(spans, span_cursor as nat, m, cut_ordinal, f as int));
            RuntimeMemorySpanMatch::Unique { index: f }
        },
        None => RuntimeMemorySpanMatch::NoMatch,
    }
}

/// Consumes the unique matching span: the cursor moves past it.
pub fn consume_runtime_span_for_memory(
    runtime_spans: &Vec<InstalledCompactSpan>,
    span_cursor: &mut usize,
    meta: &SpineMemoryMetadata,
    cut_ordinal: u64,
) -> (r: Option<usize>)
    ensures
        match lookup_spec(runtime_spans@, *old(span_cursor) as nat, (meta.node_id@, meta.op), cut_ordinal) {
            RuntimeMemorySpanMatch::Unique { index } => r == Some(index) && *final(span_cursor)
                == index + 1 && *old(span_cursor) <= index < runtime_spans@.len() && span_matches(
                runtime_spans@[index as int],
                (meta.node_id@, meta.op),
                cut_ordinal,
            ),
            _ => r is None && *final(span_cursor) == *old(span_cursor),
        },
{
    match lookup_runtime_span_for_memory(runtime_spans, *span_cursor, meta, cut_ordinal) {
        RuntimeMemorySpanMatch::Unique { index } => {
            assert(index < runtime_spans.len());
            *span_cursor = index + 1;
            Some(index)
        },
        _ => None,
    }
}

// ----------------------------------------------------------------------------
// Classification of one item
// ----------------------------------------------------------------------------
/// How many raw ordinals one history item stands for.
#[derive(Clone, Copy, Debug, PartialEq, Eq)]
pub enum EffectiveItemSemantics {
    Raw1,
    Zero,
    Span { cut: u64, fold_end: u64 },
    Stop,
}

/// The semantics of `item` at raw cursor `raw` and span cursor `sc`, with the
/// span cursor after it; `None` when a memory item has no unique ledger span.
pub open spec fn classify_spec(
    item: ResponseItem,
    raw: u64,
    spans: Seq<InstalledCompactSpan>,
    sc: nat,
) -> Option<(EffectiveItemSemantics, nat)> {
    match current_memory_metadata_spec(item) {
        Some(meta) => match lookup_spec(spans, sc, meta, raw) {
            RuntimeMemorySpanMatch::Unique { index } => Some(
                (
                    EffectiveItemSemantics::Span {
                        cut: spans[index as int].cut_ordinal,
                        fold_end: spans[index as int].fold_end_ordinal,
                    },
                    (index + 1) as nat,
                ),
            ),
            _ => None,
        },
        None => if is_handoff_spec(item) || is_initial_context_spec(item) {
            Some((EffectiveItemSemantics::Zero, sc))
        } else if is_non_spine_compact_spec(item) {
            Some((EffectiveItemSemantics::Stop, sc))
        } else {
            Some((EffectiveItemSemantics::Raw1, sc))
        },
    }
}

/// Classifies one history item, advancing the span cursor past a consumed span.
pub fn classify_effective_item(
    item: &ResponseItem,
    raw_cursor: u64,
    runtime_spans: &Vec<InstalledCompactSpan>,
    span_cursor: &mut usize,
) -> (r: Option<EffectiveItemSemantics>)
    ensures
        match classify_spec(*item, raw_cursor, runtime_spans@, *old(span_cursor) as nat) {
            Some((sem, sc)) => r == Some(sem) && *final(span_cursor) as nat == sc,
            None => r is None,
        },
{
    match parse_current_spine_memory_metadata(item) {
        Some(meta) => {
            match consume_runtime_span_for_memory(runtime_spans, span_cursor, &meta, raw_cursor) {
                Some(index) => {
                    let span = &runtime_spans[index];
                    Some(
                        EffectiveItemSemantics::Span {
                            cut: span.cut_ordinal,
                            fold_end: span.fold_end_ordinal,
                        },
                    )
                },
                None => None,
            }
        },
        None => {
            if is_spine_handoff_item(item) || is_spine_initial_context_item(item) {
                Some(EffectiveItemSemantics::Zero)
            } else if is_non_spine_compact_item(item) {
                Some(EffectiveItemSemantics::Stop)
            } else {
                Some(EffectiveItemSemantics::Raw1)
            }
        },
    }
}

// ----------------------------------------------------------------------------
// The projection
// ----------------------------------------------------------------------------
/// How many raw ordinals an entry of the projection covers.
#[derive(Clone, Debug, PartialEq, Eq)]
pub enum BridgeWidth {
    Raw1,
    Zero,
    Span { compact_id: String, start: u64, end: u64 },
    Stop,
}

/// One history item of the projection.
#[derive(Clone, Debug, PartialEq, Eq)]
pub struct BridgeEntry {
    pub index: usize,
    pub raw_before: u64,
    pub width: BridgeWidth,
}

/// An entry over plain values.
pub enum WidthV {
    Raw1,
    Zero,
    Span { compact_id: Seq<char>, start: u64, end: u64 },
    Stop,
}

/// An entry over plain values.
pub struct EntryV {
    pub index: nat,
    pub raw_before: u64,
    pub width: WidthV,
}

impl BridgeEntry {
    pub open spec fn view_v(self) -> EntryV {
        EntryV {
            index: self.index as nat,
            raw_before: self.raw_before,
            width: match self.width {
                BridgeWidth::Raw1 => WidthV::Raw1,
                BridgeWidth::Zero => WidthV::Zero,
                BridgeWidth::Span { compact_id, start, end } => WidthV::Span {
                    compact_id: compact_id@,
                    start,
                    end,
                },
                BridgeWidth::Stop => WidthV::Stop,
            },
        }
    }
}

/// The entries over plain values.
pub open spec fn entries_view(es: Seq<BridgeEntry>) -> Seq<EntryV> {
    es.map_values(|e: BridgeEntry| e.view_v())
}

/// The projection of the items from `k` on, with raw cursor `raw` and span
/// cursor `sc`: the entries, the raw length and whether a native compaction
/// stopped it; `None` when the history is not admissible.
pub open spec fn walk(
    h: Seq<ResponseItem>,
    spans: Seq<InstalledCompactSpan>,
    k: nat,
    raw: u64,
    sc: nat,
) -> Option<(Seq<EntryV>, u64, bool)>
    decreases h.len() - k,
{
    if k >= h.len() {
        Some((Seq::empty(), raw, false))
    } else {
        match classify_spec(h[k as int], raw, spans, sc) {
            None => None,
            Some((sem, sc2)) => match sem {
                EffectiveItemSemantics::Raw1 => if raw == u64::MAX {
                    None
                } else {
                    match walk(h, spans, k + 1, (raw + 1) as u64, sc2) {
                        Some((es, r, st)) => Some(
                            (seq![EntryV { index: k, raw_before: raw, width: WidthV::Raw1 }] + es, r, st),
                        ),
                        None => None,
                    }
                },
                EffectiveItemSemantics::Zero => match walk(h, spans, k + 1, raw, sc2) {
                    Some((es, r, st)) => Some(
                        (seq![EntryV { index: k, raw_before: raw, width: WidthV::Zero }] + es, r, st),
                    ),
                    None => None,
                },
                EffectiveItemSemantics::Span { cut, fold_end } => if cut != raw || cut >= fold_end
                    || sc2 <= sc || sc2 > spans.len() {
                    None
                } else {
                    match walk(h, spans, k + 1, fold_end, sc2) {
                        Some((es, r, st)) => Some(
                            (
                                seq![
                                    EntryV {
                                        index: k,
                                        raw_before: raw,
                                        width: WidthV::Span {
                                            compact_id: spans[sc2 - 1].compact_id@,
                                            start: cut,
                                            end: fold_end,
                                        },
                                    },
                                ] + es,
                                r,
                                st,
                            ),
                        ),
                        None => None,
                    }
                },
                EffectiveItemSemantics::Stop => Some(
                    (seq![EntryV { index: k, raw_before: raw, width: WidthV::Stop }], raw, true),
                ),
            },
        }
    }
}

/// Why a history cannot be projected.
#[derive(Clone, Debug, PartialEq, Eq)]
pub enum BridgeError {
    /// A memory item has no unique span in the ledger at its raw cursor.
    ItemNotAdmissible { index: usize, raw_cursor: u64 },
    /// The raw cursor passed `u64::MAX`.
    RawCursorOverflow,
    /// A span does not start at the raw cursor.
    SpanMisaligned { index: usize, cut: u64, expected: u64 },
    /// A span is empty or inverted.
    SpanEmpty { index: usize, cut: u64, fold_end: u64 },
    /// A span item did not consume a ledger span.
    SpanNotConsumed { index: usize },
}

/// The projection of a history onto raw ordinals.
pub struct HostBridgeProjection {
    pub history_len: usize,
    pub entries: Vec<BridgeEntry>,
    pub raw_len: u64,
    pub stopped: bool,
}

/// The projection is well formed: entry `k` describes item `k`, spans start at
/// the raw cursor, and an unstopped projection covers the whole history.
pub open spec fn wf_entries(es: Seq<EntryV>, stopped: bool, hlen: nat) -> bool {
    &&& es.len() <= hlen
    &&& forall|j: int| 0 <= j < es.len() ==> (#[trigger] es[j]).index == j
    &&& forall|j: int|
        0 <= j < es.len() ==> match (#[trigger] es[j]).width {
            WidthV::Span { start, end, .. } => start == es[j].raw_before && start < end,
            _ => true,
        }
    &&& !stopped ==> es.len() == hlen
}

impl HostBridgeProjection {
    pub open spec fn wf(&self) -> bool {
        wf_entries(entries_view(self.entries@), self.stopped, self.history_len as nat)
    }
}

/// The position of the first entry for item `index`.
pub open spec fn find_entry(es: Seq<EntryV>, index: nat) -> Option<int>
    decreases es.len(),
{
    if es.len() == 0 {
        None
    } else if es[0].index == index {
        Some(0)
    } else {
        match find_entry(es.drop_first(), index) {
            Some(k) => Some(k + 1),
            None => None,
        }
    }
}

/// The raw ordinal before item `index` (or after the whole history).
pub open spec fn raw_for_spec(es: Seq<EntryV>, stopped: bool, raw_len: u64, hlen: nat, index: nat) -> Option<u64> {
    match find_entry(es, index) {
        Some(k) => Some(es[k].raw_before),
        None => if !stopped && index == hlen {
            Some(raw_len)
        } else {
            None
        },
    }
}

/// Walking the entries for a raw boundary: found, rejected, or not yet decided.
pub enum BoundaryScan {
    Found(nat),
    Rejected,
    NotFound,
}

/// The item at which raw boundary `raw` starts, scanning the entries in order.
pub open spec fn scan_entries(es: Seq<EntryV>, raw: u64) -> BoundaryScan
    decreases es.len(),
{
    if es.len() == 0 {
        BoundaryScan::NotFound
    } else {
        let e = es[0];
        match e.width {
            WidthV::Raw1 => if e.raw_before == raw {
                BoundaryScan::Found(e.index)
            } else {
                scan_entries(es.drop_first(), raw)
            },
            WidthV::Zero => scan_entries(es.drop_first(), raw),
            WidthV::Span { start, end, .. } => if raw == start {
                BoundaryScan::Found(e.index)
            } else if start < raw && raw < end {
                BoundaryScan::Rejected
            } else {
                scan_entries(es.drop_first(), raw)
            },
            WidthV::Stop => if raw == e.raw_before {
                BoundaryScan::Found(e.index)
            } else {
                BoundaryScan::Rejected
            },
        }
    }
}

/// The history index at which raw boundary `raw` starts.
pub open spec fn effective_index_spec(es: Seq<EntryV>, stopped: bool, raw_len: u64, hlen: nat, raw: u64) -> Option<nat> {
    match scan_entries(es, raw) {
        BoundaryScan::Found(i) => Some(i),
        BoundaryScan::Rejected => None,
        BoundaryScan::NotFound => if !stopped && raw == raw_len {
            Some(hlen)
        } else {
            None
        },
    }
}

/// The first span entry before item `prefix_index`: its start and its item.
pub open spec fn first_span_spec(es: Seq<EntryV>, prefix_index: nat) -> Option<(u64, nat)>
    decreases es.len(),
{
    if es.len() == 0 {
        None
    } else if es[0].index < prefix_index && es[0].width is Span {
        Some((es[0].width->start, es[0].index))
    } else {
        first_span_spec(es.drop_first(), prefix_index)
    }
}

proof fn lemma_entries_view_drop_first(es: Seq<BridgeEntry>)
    requires
        es.len() > 0,
    ensures
        entries_view(es.drop_first()) == entries_view(es).drop_first(),
{
    assert(entries_view(es.drop_first()) =~= entries_view(es).drop_first());
}

proof fn lemma_walk_wf(
    h: Seq<ResponseItem>,
    spans: Seq<InstalledCompactSpan>,
    k: nat,
    raw: u64,
    sc: nat,
)
    requires
        k <= h.len(),
        walk(h, spans, k, raw, sc) is Some,
    ensures
        ({
            let (es, r, st) = walk(h, spans, k, raw, sc)->0;
            &&& es.len() <= h.len() - k
            &&& forall|j: int| 0 <= j < es.len() ==> (#[trigger] es[j]).index == k + j
            &&& forall|j: int|
                0 <= j < es.len() ==> match (#[trigger] es[j]).width {
                    WidthV::Span { start, end, .. } => start == es[j].raw_before && start < end,
                    _ => true,
                }
            &&& !st ==> es.len() == h.len() - k
        }),
    decreases h.len() - k,
{
    if k < h.len() {
        let (sem, sc2) = classify_spec(h[k as int], raw, spans, sc)->0;
        match sem {
            EffectiveItemSemantics::Raw1 => {
                lemma_walk_wf(h, spans, k + 1, (raw + 1) as u64, sc2);
            },
            EffectiveItemSemantics::Zero => {
                lemma_walk_wf(h, spans, k + 1, raw, sc2);
            },
            EffectiveItemSemantics::Span { cut, fold_end } => {
                lemma_walk_wf(h, spans, k + 1, fold_end, sc2);
            },
            EffectiveItemSemantics::Stop => {},
        }
    }
}

/// Which raw ordinal the projection walk reached, for the loop of `build`.
pub open spec fn walk_from_prefix(
    done: Seq<EntryV>,
    rest: Option<(Seq<EntryV>, u64, bool)>,
) -> Option<(Seq<EntryV>, u64, bool)> {
    match rest {
        Some((es, r, st)) => Some((done + es, r, st)),
        None => None,
    }
}

impl HostBridgeProjection {
    /// Projects a history onto raw ordinals, validating each memory item against
    /// the compact span ledger.
    pub fn build(history: &Vec<ResponseItem>, runtime_spans: &Vec<InstalledCompactSpan>) -> (r: Result<
        HostBridgeProjection,
        BridgeError,
    >)
        ensures
            match walk(history@, runtime_spans@, 0, 0, 0) {
                Some((es, raw_len, stopped)) => r matches Ok(p) && entries_view(p.entries@) == es
                    && p.raw_len == raw_len && p.stopped == stopped && p.history_len == history.len()
                    && p.wf(),
                None => r is Err,
            },
    {
        let mut raw_cursor: u64 = 0;
        let mut span_cursor: usize = 0;
        let mut entries: Vec<BridgeEntry> = Vec::new();
        let mut index: usize = 0;
        let ghost h = history@;
        let ghost spans = runtime_spans@;
        proof {
            assert(entries_view(entries@) =~= Seq::<EntryV>::empty());
        }
        while index < history.len()
            invariant
                h == history@,
                spans == runtime_spans@,
                index <= history.len(),
                walk(h, spans, 0, 0, 0) == walk_from_prefix(
                    entries_view(entries@),
                    walk(h, spans, index as nat, raw_cursor, span_cursor as nat),
                ),
            decreases history.len() - index,
        {
            let item = &history[index];
            let raw_before = raw_cursor;
            let previous_span_cursor = span_cursor;
            let ghost old_entries = entries_view(entries@);
            let semantics = match classify_effective_item(
                item,
                raw_cursor,
                runtime_spans,
                &mut span_cursor,
            ) {
                Some(s) => s,
                None => {
                    return Err(BridgeError::ItemNotAdmissible { index, raw_cursor });
                },
            };
            let width = match semantics {
                EffectiveItemSemantics::Raw1 => {
                    if raw_cursor == u64::MAX {
                        return Err(BridgeError::RawCursorOverflow);
                    }
                    raw_cursor = raw_cursor + 1;
                    BridgeWidth::Raw1
                },
                EffectiveItemSemantics::Zero => BridgeWidth::Zero,
                EffectiveItemSemantics::Span { cut, fold_end } => {
                    if cut != raw_cursor {
                        return Err(
                            BridgeError::SpanMisaligned { index, cut, expected: raw_cursor },
                        );
                    }
                    if cut >= fold_end {
                        return Err(BridgeError::SpanEmpty { index, cut, fold_end });
                    }
                    let compact_id = match consumed_span_compact_id(
                        runtime_spans,
                        previous_span_cursor,
                        span_cursor,
                    ) {
                        Some(id) => id,
                        None => {
                            return Err(BridgeError::SpanNotConsumed { index });
                        },
                    };
                    raw_cursor = fold_end;
                    BridgeWidth::Span { compact_id, start: cut, end: fold_end }
                },
                EffectiveItemSemantics::Stop => BridgeWidth::Stop,
            };
            let is_stop = match width {
                BridgeWidth::Stop => true,
                _ => false,
            };
            let entry = BridgeEntry { index, raw_before, width };
            entries.push(entry);
            proof {
                assert(entries_view(entries@) =~= old_entries.push(entry.view_v()));
                let rest = walk(h, spans, index as nat, raw_before, previous_span_cursor as nat);
                let next = walk(h, spans, (index + 1) as nat, raw_cursor, span_cursor as nat);
                if !is_stop {
                    match next {
                        Some((es, rr, st)) => {
                            assert(rest == Some((seq![entry.view_v()] + es, rr, st)));
                            assert(old_entries + (seq![entry.view_v()] + es) =~= entries_view(
                                entries@,
                            ) + es);
                        },
                        None => {},
                    }
                } else {
                    assert(rest == Some((seq![entry.view_v()], raw_before, true)));
                    assert(old_entries + seq![entry.view_v()] =~= entries_view(entries@));
                }
            }
            if is_stop {
                proof {
                    lemma_walk_wf(h, spans, 0, 0, 0);
                }
                return Ok(
                    HostBridgeProjection {
                        history_len: history.len(),
                        entries,
                        raw_len: raw_cursor,
                        stopped: true,
                    },
                );
            }
            index = index + 1;
        }
        proof {
            assert(entries_view(entries@) + Seq::<EntryV>::empty() =~= entries_view(entries@));
            lemma_walk_wf(h, spans, 0, 0, 0);
        }
        Ok(
            HostBridgeProjection {
                history_len: history.len(),
                entries,
                raw_len: raw_cursor,
                stopped: false,
            },
        )
    }

    /// The raw ordinal after the projected history.
    pub fn raw_len(&self) -> (r: u64)
        ensures
            r == self.raw_len,
    {
        self.raw_len
    }

    /// The raw ordinal before history item `index`, or after the whole history.
    pub fn raw_for_effective_index(&self, index: usize) -> (r: Option<u64>)
        ensures
            r == raw_for_spec(
                entries_view(self.entries@),
                self.stopped,
                self.raw_len,
                self.history_len as nat,
                index as nat,
            ),
    {
        let ghost es = entries_view(self.entries@);
        assert(es.subrange(0, es.len() as int) =~= es);
        let mut k: usize = 0;
        while k < self.entries.len()
            invariant
                es == entries_view(self.entries@),
                k <= self.entries.len(),
                find_entry(es, index as nat) == match find_entry(es.subrange(k as int, es.len() as int), index as nat) {
                    Some(j) => Some(j + k),
                    None => None::<int>,
                },
            decreases self.entries.len() - k,
        {
            let ghost rest = es.subrange(k as int, es.len() as int);
            assert(rest.drop_first() =~= es.subrange(k + 1, es.len() as int));
            if self.entries[k].index == index {
                return Some(self.entries[k].raw_before);
            }
            k = k + 1;
        }
        if !self.stopped && index == self.history_len {
            return Some(self.raw_len);
        }
        None
    }

    /// The history index at which raw boundary `raw` starts; `None` inside a span
    /// or past a stop.
    pub fn effective_index_for_raw_boundary(&self, raw: u64) -> (r: Option<usize>)
        ensures
            match effective_index_spec(
                entries_view(self.entries@),
                self.stopped,
                self.raw_len,
                self.history_len as nat,
                raw,
            ) {
                Some(i) => r matches Some(x) && x as nat == i,
                None => r is None,
            },
    {
        let ghost es = entries_view(self.entries@);
        assert(es.subrange(0, es.len() as int) =~= es);
        let mut k: usize = 0;
        while k < self.entries.len()
            invariant
                es == entries_view(self.entries@),
                k <= self.entries.len(),
                scan_entries(es, raw) == scan_entries(es.subrange(k as int, es.len() as int), raw),
            decreases self.entries.len() - k,
        {
            let ghost rest = es.subrange(k as int, es.len() as int);
            assert(rest.drop_first() =~= es.subrange(k + 1, es.len() as int));
            let entry = &self.entries[k];
            match &entry.width {
                BridgeWidth::Raw1 => {
                    if entry.raw_before == raw {
                        return Some(entry.index);
                    }
                },
                BridgeWidth::Zero => {},
                BridgeWidth::Span { start, end, .. } => {
                    if raw == *start {
                        return Some(entry.index);
                    }
                    if raw > *start && raw < *end {
                        return None;
                    }
                },
                BridgeWidth::Stop => {
                    if raw == entry.raw_before {
                        return Some(entry.index);
                    }
                    return None;
                },
            }
            k = k + 1;
        }
        assert(es.subrange(k as int, es.len() as int) =~= Seq::<EntryV>::empty());
        if !self.stopped && raw == self.raw_len {
            return Some(self.history_len);
        }
        None
    }

    /// Every required raw ordinal maps to an item and back to itself.
    pub fn validate_required_boundaries(&self, required: &Vec<u64>) -> (r: Result<(), RequiredBoundaryError>)
        ensures
            r is Ok <==> forall|j: int|
                0 <= j < required@.len() ==> #[trigger] round_trips(
                    entries_view(self.entries@),
                    self.stopped,
                    self.raw_len,
                    self.history_len as nat,
                    required@[j],
                ),
    {
        let ghost es = entries_view(self.entries@);
        let mut j: usize = 0;
        while j < required.len()
            invariant
                es == entries_view(self.entries@),
                j <= required.len(),
                forall|m: int|
                    0 <= m < j ==> #[trigger] round_trips(
                        es,
                        self.stopped,
                        self.raw_len,
                        self.history_len as nat,
                        required@[m],
                    ),
            decreases required.len() - j,
        {
            let raw_ordinal = required[j];
            let index = match self.effective_index_for_raw_boundary(raw_ordinal) {
                Some(i) => i,
                None => {
                    assert(!round_trips(es, self.stopped, self.raw_len, self.history_len as nat, required@[j as int]));
                    return Err(RequiredBoundaryError::NotMapped { raw_ordinal });
                },
            };
            let round_trip = match self.raw_for_effective_index(index) {
                Some(r) => r,
                None => {
                    assert(!round_trips(es, self.stopped, self.raw_len, self.history_len as nat, required@[j as int]));
                    return Err(RequiredBoundaryError::NoRoundTrip { raw_ordinal, index });
                },
            };
            if round_trip != raw_ordinal {
                assert(!round_trips(es, self.stopped, self.raw_len, self.history_len as nat, required@[j as int]));
                return Err(RequiredBoundaryError::RoundTripMismatch { raw_ordinal, index, round_trip });
            }
            assert(round_trips(es, self.stopped, self.raw_len, self.history_len as nat, required@[j as int]));
            j = j + 1;
        }
        Ok(())
    }

    /// The first span among the entries before item `prefix_index`: its raw
    /// start and its item.
    pub fn first_span_in_prefix(&self, prefix_index: usize) -> (r: Option<(u64, usize)>)
        ensures
            match first_span_spec(entries_view(self.entries@), prefix_index as nat) {
                Some((s, i)) => r == Some((s, i as usize)),
                None => r is None,
            },
    {
        let ghost es = entries_view(self.entries@);
        assert(es.subrange(0, es.len() as int) =~= es);
        let mut k: usize = 0;
        while k < self.entries.len()
            invariant
                es == entries_view(self.entries@),
                k <= self.entries.len(),
                first_span_spec(es, prefix_index as nat) == first_span_spec(
                    es.subrange(k as int, es.len() as int),
                    prefix_index as nat,
                ),
            decreases self.entries.len() - k,
        {
            let ghost rest = es.subrange(k as int, es.len() as int);
            assert(rest.drop_first() =~= es.subrange(k + 1, es.len() as int));
            let entry = &self.entries[k];
            if entry.index < prefix_index {
                match &entry.width {
                    BridgeWidth::Span { start, .. } => {
                        return Some((*start, entry.index));
                    },
                    _ => {},
                }
            }
            k = k + 1;
        }
        assert(es.subrange(k as int, es.len() as int) =~= Seq::<EntryV>::empty());
        None
    }

    /// The memory item that stands for the span `compact_id`: there must be
    /// exactly one.
    pub fn memory_item_for_span<'h>(&self, history: &'h Vec<ResponseItem>, compact_id: &str) -> (r: Result<
        &'h ResponseItem,
        MemoryItemLookupError,
    >)
        requires
            history.len() == self.history_len,
            self.wf(),
        ensures
            match r {
                Ok(item) => exists|k: int|
                    0 <= k < self.entries@.len() && span_of(self.entries@[k]) == Some(compact_id@)
                        && *item == history@[self.entries@[k].index as int] && (forall|m: int|
                        0 <= m < self.entries@.len() && m != k ==> span_of(
                            #[trigger] self.entries@[m],
                        ) != Some(compact_id@)),
                Err(MemoryItemLookupError::Missing) => forall|m: int|
                    0 <= m < self.entries@.len() ==> span_of(#[trigger] self.entries@[m]) != Some(
                        compact_id@,
                    ),
                Err(MemoryItemLookupError::Duplicate) => exists|a: int, b: int|
                    0 <= a < b < self.entries@.len() && span_of(self.entries@[a]) == Some(
                        compact_id@,
                    ) && span_of(self.entries@[b]) == Some(compact_id@),
            },
    {
        let target = chars_of(compact_id);
        let mut found: Option<usize> = None;
        let mut k: usize = 0;
        while k < self.entries.len()
            invariant
                target@ == compact_id@,
                k <= self.entries.len(),
                match found {
                    None => forall|m: int| 0 <= m < k ==> span_of(#[trigger] self.entries@[m]) != Some(compact_id@),
                    Some(f) => f < k && span_of(self.entries@[f as int]) == Some(compact_id@) && forall|m: int|
                        0 <= m < k && m != f ==> span_of(#[trigger] self.entries@[m]) != Some(compact_id@),
                },
            decreases self.entries.len() - k,
        {
            match &self.entries[k].width {
                BridgeWidth::Span { compact_id: id, .. } => {
                    if eq_chars(&chars_of(id.as_str()), &target) {
                        match found {
                            Some(f) => {
                                return Err(MemoryItemLookupError::Duplicate);
                            },
                            None => {
                                found = Some(k);
                            },
                        }
                    }
                },
                _ => {},
            }
            k = k + 1;
        }
        match found {
            Some(f) => {
                let index = self.entries[f].index;
                proof {
                    assert(entries_view(self.entries@)[f as int].index == f);
                }
                Ok(&history[index])
            },
            None => Err(MemoryItemLookupError::Missing),
        }
    }
}

/// The compact id of a span entry.
pub open spec fn span_of(e: BridgeEntry) -> Option<Seq<char>> {
    match e.width {
        BridgeWidth::Span { compact_id, .. } => Some(compact_id@),
        _ => None,
    }
}

/// Why a memory item could not be found for a span.
#[derive(Clone, Debug, PartialEq, Eq)]
pub enum MemoryItemLookupError {
    Missing,
    Duplicate,
}

/// Why a required raw boundary is not admissible.
#[derive(Clone, Debug, PartialEq, Eq)]
pub enum RequiredBoundaryError {
    NotMapped { raw_ordinal: u64 },
    NoRoundTrip { raw_ordinal: u64, index: usize },
    RoundTripMismatch { raw_ordinal: u64, index: usize, round_trip: u64 },
}

/// Raw boundary `raw` maps to an item that maps back to `raw`.
pub open spec fn round_trips(es: Seq<EntryV>, stopped: bool, raw_len: u64, hlen: nat, raw: u64) -> bool {
    match effective_index_spec(es, stopped, raw_len, hlen, raw) {
        Some(i) => raw_for_spec(es, stopped, raw_len, hlen, i) == Some(raw),
        None => false,
    }
}

/// The compact id of the span consumed between two span cursors.
pub fn consumed_span_compact_id(
    runtime_spans: &Vec<InstalledCompactSpan>,
    previous_span_cursor: usize,
    span_cursor: usize,
) -> (r: Option<String>)
    ensures
        match r {
            Some(id) => previous_span_cursor < span_cursor && span_cursor <= runtime_spans@.len()
                && id@ == runtime_spans@[span_cursor - 1].compact_id@,
            None => span_cursor <= previous_span_cursor || span_cursor > runtime_spans@.len(),
        },
{
    if span_cursor <= previous_span_cursor {
        return None;
    }
    if span_cursor - 1 >= runtime_spans.len() {
        return None;
    }
    Some(copy_string(&runtime_spans[span_cursor - 1].compact_id))
}

// ----------------------------------------------------------------------------
// Laws
// ----------------------------------------------------------------------------
proof fn lemma_find_entry_indexed(es: Seq<EntryV>, base: nat, i: nat)
    requires
        forall|j: int| 0 <= j < es.len() ==> (#[trigger] es[j]).index == base + j,
    ensures
        find_entry(es, i) == (if base <= i < base + es.len() {
            Some(i - base)
        } else {
            None::<int>
        }),
    decreases es.len(),
{
    if es.len() > 0 {
        let t = es.drop_first();
        assert forall|j: int| 0 <= j < t.len() implies (#[trigger] t[j]).index == (base + 1) + j by {
            assert(t[j] == es[j + 1]);
        }
        lemma_find_entry_indexed(t, base + 1, i);
    }
}

proof fn lemma_scan_found_at(es: Seq<EntryV>, base: nat, raw: u64)
    requires
        forall|j: int| 0 <= j < es.len() ==> (#[trigger] es[j]).index == base + j,
        forall|j: int|
            0 <= j < es.len() ==> match (#[trigger] es[j]).width {
                WidthV::Span { start, .. } => start == es[j].raw_before,
                _ => true,
            },
    ensures
        match scan_entries(es, raw) {
            BoundaryScan::Found(i) => base <= i < base + es.len() && es[i - base].raw_before == raw,
            _ => true,
        },
    decreases es.len(),
{
    if es.len() > 0 {
        let t = es.drop_first();
        assert forall|j: int| 0 <= j < t.len() implies (#[trigger] t[j]).index == (base + 1) + j by {
            assert(t[j] == es[j + 1]);
        }
        assert forall|j: int| 0 <= j < t.len() implies match (#[trigger] t[j]).width {
            WidthV::Span { start, .. } => start == t[j].raw_before,
            _ => true,
        } by {
            assert(t[j] == es[j + 1]);
        }
        lemma_scan_found_at(t, base + 1, raw);
    }
}

/// The raw/effective round trip (I2): on a well-formed projection, whenever a
/// raw boundary maps to a history index, that index maps back to the same raw
/// boundary.
pub proof fn lemma_bridge_round_trip(p: HostBridgeProjection, raw: u64)
    requires
        p.wf(),
    ensures
        match effective_index_spec(
            entries_view(p.entries@),
            p.stopped,
            p.raw_len,
            p.history_len as nat,
            raw,
        ) {
            Some(i) => raw_for_spec(
                entries_view(p.entries@),
                p.stopped,
                p.raw_len,
                p.history_len as nat,
                i,
            ) == Some(raw),
            None => true,
        },
{
    let es = entries_view(p.entries@);
    assert forall|j: int| 0 <= j < es.len() implies (#[trigger] es[j]).index == 0 + j by {}
    lemma_scan_found_at(es, 0, raw);
    match scan_entries(es, raw) {
        BoundaryScan::Found(i) => {
            lemma_find_entry_indexed(es, 0, i);
        },
        _ => {
            lemma_find_entry_indexed(es, 0, p.history_len as nat);
        },
    }
}

/// Every projection that `build` returns is well formed, so the round trip
/// holds for every history that the ledger admits.
pub proof fn lemma_build_round_trip(
    history: Seq<ResponseItem>,
    spans: Seq<InstalledCompactSpan>,
    raw: u64,
)
    requires
        walk(history, spans, 0, 0, 0) is Some,
    ensures
        ({
            let (es, raw_len, stopped) = walk(history, spans, 0, 0, 0)->0;
            match effective_index_spec(es, stopped, raw_len, history.len(), raw) {
                Some(i) => raw_for_spec(es, stopped, raw_len, history.len(), i) == Some(raw),
                None => true,
            }
        }),
{
    lemma_walk_wf(history, spans, 0, 0, 0);
    let (es, raw_len, stopped) = walk(history, spans, 0, 0, 0)->0;
    assert forall|j: int| 0 <= j < es.len() implies (#[trigger] es[j]).index == 0 + j by {}
    lemma_scan_found_at(es, 0, raw);
    match scan_entries(es, raw) {
        BoundaryScan::Found(i) => {
            lemma_find_entry_indexed(es, 0, i);
        },
        _ => {
            lemma_find_entry_indexed(es, 0, history.len());
        },
    }
}

// ----------------------------------------------------------------------------
// Whole-history mappings
// ----------------------------------------------------------------------------
/// The raw ordinal before history item `target_index` (or after the history).
pub fn raw_ordinal_for_effective_index_with_spans(
    history: &Vec<ResponseItem>,
    target_index: usize,
    runtime_spans: &Vec<InstalledCompactSpan>,
) -> (r: Option<u64>)
    ensures
        match walk(history@, runtime_spans@, 0, 0, 0) {
            Some((es, raw_len, stopped)) => r == raw_for_spec(
                es,
                stopped,
                raw_len,
                history.len() as nat,
                target_index as nat,
            ),
            None => r is None,
        },
{
    match HostBridgeProjection::build(history, runtime_spans) {
        Ok(p) => p.raw_for_effective_index(target_index),
        Err(_) => None,
    }
}

/// The history index at which raw ordinal `target_raw_ordinal` starts.
pub fn effective_index_for_raw_ordinal_with_spans(
    history: &Vec<ResponseItem>,
    target_raw_ordinal: u64,
    runtime_spans: &Vec<InstalledCompactSpan>,
) -> (r: Option<usize>)
    ensures
        match walk(history@, runtime_spans@, 0, 0, 0) {
            Some((es, raw_len, stopped)) => match effective_index_spec(
                es,
                stopped,
                raw_len,
                history.len() as nat,
                target_raw_ordinal,
            ) {
                Some(i) => r matches Some(x) && x as nat == i,
                None => r is None,
            },
            None => r is None,
        },
{
    match HostBridgeProjection::build(history, runtime_spans) {
        Ok(p) => p.effective_index_for_raw_boundary(target_raw_ordinal),
        Err(_) => None,
    }
}

/// Why a replacement history is not admissible.
#[derive(Clone, Debug, PartialEq, Eq)]
pub enum AdmissibilityError {
    Projection(BridgeError),
    Boundary(RequiredBoundaryError),
}

/// A replacement history is admissible when it projects and every required raw
/// ordinal round-trips.
pub fn validate_spine_replacement_history_admissible(
    history: &Vec<ResponseItem>,
    runtime_spans: &Vec<InstalledCompactSpan>,
    required_raw_ordinals: &Vec<u64>,
) -> (r: Result<(), AdmissibilityError>)
    ensures
        r is Ok <==> match walk(history@, runtime_spans@, 0, 0, 0) {
            Some((es, raw_len, stopped)) => forall|j: int|
                0 <= j < required_raw_ordinals@.len() ==> #[trigger] round_trips(
                    es,
                    stopped,
                    raw_len,
                    history.len() as nat,
                    required_raw_ordinals@[j],
                ),
            None => false,
        },
{
    let p = match HostBridgeProjection::build(history, runtime_spans) {
        Ok(p) => p,
        Err(e) => {
            return Err(AdmissibilityError::Projection(e));
        },
    };
    match p.validate_required_boundaries(required_raw_ordinals) {
        Ok(()) => Ok(()),
        Err(e) => Err(AdmissibilityError::Boundary(e)),
    }
}

} // verus!

verus! {

proof fn lemma_labels_parse(op: SpineOperation)
    ensures
        parse_label_spec(op_label_spec(op)) == Some(op),
        forall|i: int| 0 <= i < op_label_spec(op).len() ==> op_label_spec(op)[i] != ':',
        forall|i: int| 0 <= i < op_label_spec(op).len() ==> op_label_spec(op)[i] != '\n',
        op_label_spec(op).len() > 0,
        op_label_spec(op).last() != '\r',
{
    let o = op_label_spec(SpineOperation::Open);
    let n = op_label_spec(SpineOperation::Next);
    let c = op_label_spec(SpineOperation::Close);
    assert(o[0] != n[0]);
    assert(o.len() != c.len());
    assert(n.len() != c.len());
}

proof fn lemma_memory_pair_round_trip(node: Seq<u32>, op: SpineOperation)
    requires
        node.len() > 0,
        crate::ids::positive_segments(node),
    ensures
        parse_memory_pair_spec(memory_pair_text(node, op)) == Some((node, op)),
{
    lemma_labels_parse(op);
    let a = node_id_text(node);
    let b = op_label_spec(op);
    let s = memory_pair_text(node, op);
    assert(s[a.len() as int] == ':');
    assert forall|j: int| a.len() < j < s.len() implies s[j] != ':' by {
        assert(s[j] == b[j - a.len() - 1]);
    }
    crate::text::lemma_rsplit_char_at(s, ':', a.len() as int);
    assert(s.subrange(0, a.len() as int) =~= a);
    assert(s.subrange(a.len() as int + 1, s.len() as int) =~= b);
    crate::ids::lemma_node_id_text_round_trip(node);
}

/// A synthetic memory id reads back as the node and operation it was made
/// from, for every non-root node id with positive segments.
pub proof fn lemma_memory_id_round_trip(node: Seq<u32>, op: SpineOperation)
    requires
        node.len() > 0,
        crate::ids::positive_segments(node),
    ensures
        parse_spine_memory_id_spec(SPINE_MEMORY_ID_PREFIX@ + memory_pair_text(node, op)) == Some(
            (node, op),
        ),
{
    let p = SPINE_MEMORY_ID_PREFIX@;
    let s = p + memory_pair_text(node, op);
    assert(s.subrange(0, p.len() as int) =~= p);
    assert(s.subrange(p.len() as int, s.len() as int) =~= memory_pair_text(node, op));
    lemma_memory_pair_round_trip(node, op);
}

} // verus!
