//! Planning a suffix fold: the raw ordinals of a compaction are mapped onto the
//! model-visible history (with the legacy memory carriers that older rollouts
//! hold), and the range is widened until no tool call is separated from its
//! output.
use crate::compact::{
    consume_runtime_span_for_legacy, ir_metadata_spec, legacy_consume_spec, markdown_metadata_spec,
    parse_markdown_spine_memory_metadata, parse_spine_ir_metadata, parse_tag_string,
    split_once_first, split_once_spec, tag_string_spec,
};
use crate::host_bridge::{
    consume_runtime_span_for_memory, is_handoff_spec, is_initial_context_spec,
    is_non_spine_compact_item, is_non_spine_compact_spec, is_spine_handoff_item,
    is_spine_initial_context_item, lookup_runtime_span_for_memory, lookup_spec, meta_view,
    parse_label_spec, parse_spine_memory_id, parse_spine_memory_id_spec,
    parse_spine_memory_text_marker, parse_spine_memory_text_marker_spec,
    parse_spine_operation_label, EffectiveItemSemantics, RuntimeMemorySpanMatch,
    SpineMemoryMetadata,
};
use crate::debug_audit::SpineCompactBoundary;
use crate::ids::{node_id_text, parse_node_id_spec, NodeId, ParsedNodeId};
use crate::io::{file_name_of, path_join, strip_prefix_of};
use crate::items::{copy_items, copy_opt_string, first_output_text, first_output_text_of, same_items, ResponseItem};
use crate::model::{InstalledCompactSpan, SpineOperation};
use crate::text::{
    chars_of, contains, contains_seq, dec, has_prefix, owned, push_str, push_u64, slice_chars,
    starts_with, str_eq, string_of, trim, trim_spec,
};
use vstd::prelude::*;

verus! {

// ----------------------------------------------------------------------------
// Memory carriers, including the legacy shapes
// ----------------------------------------------------------------------------
/// The node and operation that an `<spine_memory node=".." op="..">` header names.
pub open spec fn xml_memory_header_spec(text: Seq<char>) -> Option<(Seq<u32>, SpineOperation)> {
    if !has_prefix(text, "<spine_memory "@) {
        None
    } else {
        match split_once_spec(text.skip(14), ">"@) {
            Some((header, _)) => match tag_string_spec(header, "node"@) {
                Some(node) => match parse_node_id_spec(node) {
                    ParsedNodeId::Parsed(segs) => match tag_string_spec(header, "op"@) {
                        Some(label) => match parse_label_spec(label) {
                            Some(op) => Some((segs, op)),
                            None => None,
                        },
                        None => None,
                    },
                    _ => None,
                },
                None => None,
            },
            None => None,
        }
    }
}

/// What an assistant memory item names: its synthetic id, else the durable
/// marker of its first output text, else an `<spine_memory ...>` header there.
pub open spec fn memory_metadata_spec(item: ResponseItem) -> Option<(Seq<u32>, SpineOperation)> {
    match item {
        ResponseItem::Message { id, role, content, .. } => if role@ == "assistant"@ {
            match first_output_text(content@) {
                Some(text) => {
                    let by_id = match id {
                        Some(i) => parse_spine_memory_id_spec(i@),
                        None => None,
                    };
                    if by_id is Some {
                        by_id
                    } else if parse_spine_memory_text_marker_spec(text) is Some {
                        parse_spine_memory_text_marker_spec(text)
                    } else {
                        xml_memory_header_spec(text)
                    }
                },
                None => None,
            }
        } else {
            None
        },
        _ => None,
    }
}

fn parse_xml_memory_header(text: &Vec<char>) -> (r: Option<SpineMemoryMetadata>)
    ensures
        meta_view(r) == xml_memory_header_spec(text@),
{
    let open = chars_of("<spine_memory ");
    proof {
        reveal_strlit("<spine_memory ");
    }
    if !starts_with(text, &open) {
        return None;
    }
    let rest = slice_chars(text, 14, text.len());
    assert(rest@ =~= text@.skip(14));
    let header = match split_once_first(&rest, &chars_of(">")) {
        Some((h, _)) => string_of(&h),
        None => {
            return None;
        },
    };
    let node = match parse_tag_string(header.as_str(), "node") {
        Some(n) => n,
        None => {
            return None;
        },
    };
    let node_id = match NodeId::parse(node.as_str()) {
        Ok(n) => n,
        Err(_) => {
            return None;
        },
    };
    let label = match parse_tag_string(header.as_str(), "op") {
        Some(l) => chars_of(l.as_str()),
        None => {
            return None;
        },
    };
    match parse_spine_operation_label(&label) {
        Some(op) => Some(SpineMemoryMetadata { node_id, op }),
        None => None,
    }
}

/// The node and operation of a Spine memory item in any of its current shapes.
pub fn parse_spine_memory_metadata(item: &ResponseItem) -> (r: Option<SpineMemoryMetadata>)
    ensures
        meta_view(r) == memory_metadata_spec(*item),
{
    match item {
        ResponseItem::Message { id, role, content, .. } => {
            if !str_eq(role.as_str(), "assistant") {
                return None;
            }
            let text = match first_output_text_of(content) {
                Some(t) => chars_of(t.as_str()),
                None => {
                    return None;
                },
            };
            match id {
                Some(i) => {
                    let by_id = parse_spine_memory_id(&chars_of(i.as_str()));
                    if by_id.is_some() {
                        return by_id;
                    }
                },
                None => {},
            }
            let by_marker = parse_spine_memory_text_marker(&text);
            if by_marker.is_some() {
                return by_marker;
            }
            parse_xml_memory_header(&text)
        },
        _ => None,
    }
}

/// A bare `## Spine Memory` markdown message from before the durable marker
/// existed: an assistant message with no id and no phase.
pub open spec fn legacy_markdown_metadata_spec(item: ResponseItem) -> Option<(Seq<u32>, SpineOperation)> {
    match item {
        ResponseItem::Message { id, role, content, phase } => if id is None && role@ == "assistant"@
            && phase is None {
            match first_output_text(content@) {
                Some(text) => markdown_metadata_spec(text),
                None => None,
            }
        } else {
            None
        },
        _ => None,
    }
}

/// The node and operation of a legacy markdown memory item.
pub fn parse_legacy_markdown_spine_memory_metadata(item: &ResponseItem) -> (r: Option<SpineMemoryMetadata>)
    ensures
        meta_view(r) == legacy_markdown_metadata_spec(*item),
{
    match item {
        ResponseItem::Message { id, role, content, phase } => {
            if id.is_some() || !str_eq(role.as_str(), "assistant") || phase.is_some() {
                return None;
            }
            match first_output_text_of(content) {
                Some(text) => parse_markdown_spine_memory_metadata(text.as_str()),
                None => None,
            }
        },
        _ => None,
    }
}

/// The item is a Spine IR item or a Spine memory item.
pub fn is_spine_ir_item(item: &ResponseItem) -> (r: bool)
    ensures
        r == (ir_metadata_spec(*item) is Some || memory_metadata_spec(*item) is Some),
{
    parse_spine_ir_metadata(item).is_some() || parse_spine_memory_metadata(item).is_some()
}

// ----------------------------------------------------------------------------
// Raw ordinals of the history, legacy carriers included
// ----------------------------------------------------------------------------
/// The semantics of `item` at raw cursor `raw` and span cursor `sc`, with the
/// span cursor after it. A legacy IR item whose span the ledger holds covers
/// that span; a memory item covers its unique ledger span (and is rejected
/// without one); a legacy markdown memory covers its unique span, counts as
/// plain text when the ledger has none, and is rejected when it has several.
#[verifier::opaque]
pub open spec fn fold_classify_spec(
    item: ResponseItem,
    raw: u64,
    spans: Seq<InstalledCompactSpan>,
    sc: nat,
) -> Option<(EffectiveItemSemantics, nat)> {
    let legacy = match ir_metadata_spec(item) {
        Some(meta) => match legacy_consume_spec(spans, sc, meta, raw) {
            Some(n) => Some(
                (EffectiveItemSemantics::Span { cut: meta.fold_start, fold_end: meta.fold_end }, n),
            ),
            None => None,
        },
        None => None,
    };
    if legacy is Some {
        legacy
    } else {
        match memory_metadata_spec(item) {
            Some(meta) => match lookup_spec(spans, sc, meta, raw) {
                RuntimeMemorySpanMatch::Unique { index } => Some(
                    (
                        EffectiveItemSemantics::Span {
                            cut: spans[index as int].cut_ordinal,
                            fold_end: spans[index as int].fold_end_ordinal,
                        },
                        (index + 1) as nat,
                    ),
                ),
                _ => None,
            },
            None => match legacy_markdown_metadata_spec(item) {
                Some(meta) => match lookup_spec(spans, sc, meta, raw) {
                    RuntimeMemorySpanMatch::Unique { index } => Some(
                        (
                            EffectiveItemSemantics::Span {
                                cut: spans[index as int].cut_ordinal,
                                fold_end: spans[index as int].fold_end_ordinal,
                            },
                            (index + 1) as nat,
                        ),
                    ),
                    RuntimeMemorySpanMatch::Ambiguous => None,
                    RuntimeMemorySpanMatch::NoMatch => Some((EffectiveItemSemantics::Raw1, sc)),
                },
                None => if is_handoff_spec(item) || is_initial_context_spec(item) {
                    Some((EffectiveItemSemantics::Zero, sc))
                } else if is_non_spine_compact_spec(item) {
                    Some((EffectiveItemSemantics::Stop, sc))
                } else {
                    Some((EffectiveItemSemantics::Raw1, sc))
                },
            },
        }
    }
}

/// Classifies one history item, legacy carriers included, advancing the span
/// cursor past a consumed span.
pub fn classify_effective_item(
    item: &ResponseItem,
    raw_cursor: u64,
    runtime_spans: &Vec<InstalledCompactSpan>,
    span_cursor: &mut usize,
) -> (r: Option<EffectiveItemSemantics>)
    ensures
        match fold_classify_spec(*item, raw_cursor, runtime_spans@, *old(span_cursor) as nat) {
            Some((sem, sc)) => r == Some(sem) && *final(span_cursor) as nat == sc,
            None => r is None,
        },
{
    reveal(fold_classify_spec);
    match parse_spine_ir_metadata(item) {
        Some(meta) => {
            if consume_runtime_span_for_legacy(runtime_spans, span_cursor, &meta, raw_cursor) {
                return Some(
                    EffectiveItemSemantics::Span { cut: meta.fold_start, fold_end: meta.fold_end },
                );
            }
        },
        None => {},
    }
    match parse_spine_memory_metadata(item) {
        Some(meta) => {
            return match consume_runtime_span_for_memory(runtime_spans, span_cursor, &meta, raw_cursor) {
                Some(index) => Some(
                    EffectiveItemSemantics::Span {
                        cut: runtime_spans[index].cut_ordinal,
                        fold_end: runtime_spans[index].fold_end_ordinal,
                    },
                ),
                None => None,
            };
        },
        None => {},
    }
    match parse_legacy_markdown_spine_memory_metadata(item) {
        Some(meta) => {
            return match lookup_runtime_span_for_memory(runtime_spans, *span_cursor, &meta, raw_cursor) {
                RuntimeMemorySpanMatch::Unique { index } => {
                    assert(index < runtime_spans.len());
                    *span_cursor = index + 1;
                    Some(
                        EffectiveItemSemantics::Span {
                            cut: runtime_spans[index].cut_ordinal,
                            fold_end: runtime_spans[index].fold_end_ordinal,
                        },
                    )
                },
                RuntimeMemorySpanMatch::Ambiguous => None,
                RuntimeMemorySpanMatch::NoMatch => Some(EffectiveItemSemantics::Raw1),
            };
        },
        None => {},
    }
    if is_spine_handoff_item(item) || is_spine_initial_context_item(item) {
        Some(EffectiveItemSemantics::Zero)
    } else if is_non_spine_compact_item(item) {
        Some(EffectiveItemSemantics::Stop)
    } else {
        Some(EffectiveItemSemantics::Raw1)
    }
}

/// The raw ordinal before item `target` of `h`, walking from item `k` at raw
/// cursor `raw` and span cursor `sc`; after the last item, the raw length.
pub open spec fn raw_for_index_from(
    h: Seq<ResponseItem>,
    spans: Seq<InstalledCompactSpan>,
    target: nat,
    k: nat,
    raw: u64,
    sc: nat,
) -> Option<u64>
    decreases h.len() - k,
{
    if k >= h.len() {
        if target == h.len() {
            Some(raw)
        } else {
            None
        }
    } else if k == target {
        Some(raw)
    } else {
        match fold_classify_spec(h[k as int], raw, spans, sc) {
            None => None,
            Some((sem, sc2)) => match sem {
                EffectiveItemSemantics::Raw1 => if raw == u64::MAX {
                    None
                } else {
                    raw_for_index_from(h, spans, target, k + 1, (raw + 1) as u64, sc2)
                },
                EffectiveItemSemantics::Zero => raw_for_index_from(h, spans, target, k + 1, raw, sc2),
                EffectiveItemSemantics::Span { fold_end, .. } => raw_for_index_from(
                    h,
                    spans,
                    target,
                    k + 1,
                    fold_end,
                    sc2,
                ),
                EffectiveItemSemantics::Stop => None,
            },
        }
    }
}

/// The raw ordinal before history item `target_index` (or after the history).
pub fn raw_ordinal_for_effective_index_with_spans(
    history: &Vec<ResponseItem>,
    target_index: usize,
    runtime_spans: &Vec<InstalledCompactSpan>,
) -> (r: Option<u64>)
    ensures
        r == raw_for_index_from(history@, runtime_spans@, target_index as nat, 0, 0, 0),
{
    let mut raw_cursor: u64 = 0;
    let mut span_cursor: usize = 0;
    let mut index: usize = 0;
    while index < history.len()
        invariant
            index <= history.len(),
            raw_for_index_from(history@, runtime_spans@, target_index as nat, 0, 0, 0)
                == raw_for_index_from(
                history@,
                runtime_spans@,
                target_index as nat,
                index as nat,
                raw_cursor,
                span_cursor as nat,
            ),
        decreases history.len() - index,
    {
        if index == target_index {
            return Some(raw_cursor);
        }
        let sem = match classify_effective_item(&history[index], raw_cursor, runtime_spans, &mut span_cursor) {
            Some(s) => s,
            None => {
                return None;
            },
        };
        match sem {
            EffectiveItemSemantics::Raw1 => {
                if raw_cursor == u64::MAX {
                    return None;
                }
                raw_cursor = raw_cursor + 1;
            },
            EffectiveItemSemantics::Zero => {},
            EffectiveItemSemantics::Span { cut: _, fold_end } => {
                raw_cursor = fold_end;
            },
            EffectiveItemSemantics::Stop => {
                return None;
            },
        }
        index = index + 1;
    }
    if target_index == history.len() {
        Some(raw_cursor)
    } else {
        None
    }
}

/// The item at which raw boundary `target` starts, walking from item `k` at raw
/// cursor `raw` and span cursor `sc`: a plain item at the boundary, a span that
/// starts there, or a native compaction at it; a boundary inside a span has
/// none. After the last item, the history's length when the boundary is the
/// raw length.
pub open spec fn index_for_raw_from(
    h: Seq<ResponseItem>,
    spans: Seq<InstalledCompactSpan>,
    target: u64,
    k: nat,
    raw: u64,
    sc: nat,
) -> Option<nat>
    decreases h.len() - k,
{
    if k >= h.len() {
        if target == raw {
            Some(h.len())
        } else {
            None
        }
    } else {
        match fold_classify_spec(h[k as int], raw, spans, sc) {
            None => None,
            Some((sem, sc2)) => match sem {
                EffectiveItemSemantics::Raw1 => if raw == target {
                    Some(k)
                } else if raw == u64::MAX {
                    None
                } else {
                    index_for_raw_from(h, spans, target, k + 1, (raw + 1) as u64, sc2)
                },
                EffectiveItemSemantics::Zero => index_for_raw_from(h, spans, target, k + 1, raw, sc2),
                EffectiveItemSemantics::Span { cut, fold_end } => if target == cut {
                    Some(k)
                } else if cut < target && target < fold_end {
                    None
                } else {
                    index_for_raw_from(h, spans, target, k + 1, fold_end, sc2)
                },
                EffectiveItemSemantics::Stop => if target == raw {
                    Some(k)
                } else {
                    None
                },
            },
        }
    }
}

/// The history index at which raw ordinal `target_raw_ordinal` starts.
pub fn effective_index_for_raw_ordinal_with_spans(
    history: &Vec<ResponseItem>,
    target_raw_ordinal: u64,
    runtime_spans: &Vec<InstalledCompactSpan>,
) -> (r: Option<usize>)
    ensures
        match index_for_raw_from(history@, runtime_spans@, target_raw_ordinal, 0, 0, 0) {
            Some(i) => r matches Some(x) && x as nat == i,
            None => r is None,
        },
{
    let mut raw_cursor: u64 = 0;
    let mut span_cursor: usize = 0;
    let mut index: usize = 0;
    while index < history.len()
        invariant
            index <= history.len(),
            index_for_raw_from(history@, runtime_spans@, target_raw_ordinal, 0, 0, 0)
                == index_for_raw_from(
                history@,
                runtime_spans@,
                target_raw_ordinal,
                index as nat,
                raw_cursor,
                span_cursor as nat,
            ),
        decreases history.len() - index,
    {
        let sem = match classify_effective_item(&history[index], raw_cursor, runtime_spans, &mut span_cursor) {
            Some(s) => s,
            None => {
                return None;
            },
        };
        match sem {
            EffectiveItemSemantics::Raw1 => {
                if raw_cursor == target_raw_ordinal {
                    return Some(index);
                }
                if raw_cursor == u64::MAX {
                    return None;
                }
                raw_cursor = raw_cursor + 1;
            },
            EffectiveItemSemantics::Zero => {},
            EffectiveItemSemantics::Span { cut, fold_end } => {
                if target_raw_ordinal == cut {
                    return Some(index);
                }
                if target_raw_ordinal > cut && target_raw_ordinal < fold_end {
                    return None;
                }
                raw_cursor = fold_end;
            },
            EffectiveItemSemantics::Stop => {
                if target_raw_ordinal == raw_cursor {
                    return Some(index);
                }
                return None;
            },
        }
        index = index + 1;
    }
    if target_raw_ordinal == raw_cursor {
        Some(history.len())
    } else {
        None
    }
}

// ----------------------------------------------------------------------------
// Tool calls and their outputs
// ----------------------------------------------------------------------------
/// How an item takes part in a tool call: it opens call `id`, answers call
/// `id`, or neither.
#[derive(Clone, Debug, PartialEq, Eq)]
pub enum ToolPairing {
    Call(String),
    Output(String),
    Neither,
}

/// A pairing over plain values.
pub enum PairingV {
    Call(Seq<char>),
    Output(Seq<char>),
    Neither,
}

/// The view of a pairing.
pub open spec fn pairing_view(p: ToolPairing) -> PairingV {
    match p {
        ToolPairing::Call(id) => PairingV::Call(id@),
        ToolPairing::Output(id) => PairingV::Output(id@),
        ToolPairing::Neither => PairingV::Neither,
    }
}

/// How an item takes part in a tool call. Function, custom tool, local shell
/// and tool search calls open a call (the latter two only with a call id);
/// function and custom tool outputs answer one, and so do tool search outputs
/// with a call id that the server did not execute.
pub open spec fn pairing_spec(item: ResponseItem) -> PairingV {
    match item {
        ResponseItem::FunctionCall { call_id, .. } => PairingV::Call(call_id@),
        ResponseItem::LocalShellCall { call_id: Some(c) } => PairingV::Call(c@),
        ResponseItem::ToolSearchCall { call_id: Some(c), .. } => PairingV::Call(c@),
        ResponseItem::CustomToolCall { call_id, .. } => PairingV::Call(call_id@),
        ResponseItem::FunctionCallOutput { call_id, .. } => PairingV::Output(call_id@),
        ResponseItem::CustomToolCallOutput { call_id, .. } => PairingV::Output(call_id@),
        ResponseItem::ToolSearchOutput { call_id: Some(c), execution, .. } => if execution@
            != "server"@ {
            PairingV::Output(c@)
        } else {
            PairingV::Neither
        },
        _ => PairingV::Neither,
    }
}

/// How an item takes part in a tool call.
pub fn tool_pairing(item: &ResponseItem) -> (r: ToolPairing)
    ensures
        pairing_view(r) == pairing_spec(*item),
{
    match item {
        ResponseItem::FunctionCall { call_id, .. } => ToolPairing::Call(call_id.clone()),
        ResponseItem::LocalShellCall { call_id: Some(c) } => ToolPairing::Call(c.clone()),
        ResponseItem::ToolSearchCall { call_id: Some(c), .. } => ToolPairing::Call(c.clone()),
        ResponseItem::CustomToolCall { call_id, .. } => ToolPairing::Call(call_id.clone()),
        ResponseItem::FunctionCallOutput { call_id, .. } => ToolPairing::Output(call_id.clone()),
        ResponseItem::CustomToolCallOutput { call_id, .. } => ToolPairing::Output(call_id.clone()),
        ResponseItem::ToolSearchOutput { call_id: Some(c), execution, .. } => {
            if str_eq(execution.as_str(), "server") {
                ToolPairing::Neither
            } else {
                ToolPairing::Output(c.clone())
            }
        },
        _ => ToolPairing::Neither,
    }
}

/// Item `i` opens the call that item `j` answers.
pub open spec fn pairs(h: Seq<ResponseItem>, i: int, j: int) -> bool {
    &&& pairing_spec(h[i]) is Call
    &&& pairing_spec(h[j]) == PairingV::Output(pairing_spec(h[i])->Call_0)
}

/// No call inside `[c, e)` is answered after it, and no output inside it
/// answers a call before it.
pub open spec fn tool_closed(h: Seq<ResponseItem>, c: int, e: int) -> bool {
    &&& forall|i: int, j: int| c <= i < e <= j < h.len() ==> !#[trigger] pairs(h, i, j)
    &&& forall|i: int, j: int| 0 <= i < c <= j < e ==> !#[trigger] pairs(h, i, j)
}

/// `[c, e)` is the least range that holds `[cut, fold_end)` and keeps every
/// tool call with its output: it is closed, and every closed range of the
/// history that holds `[cut, fold_end)` holds it.
pub open spec fn least_closed(h: Seq<ResponseItem>, cut: int, fold_end: int, c: int, e: int) -> bool {
    &&& 0 <= c <= cut
    &&& fold_end <= e <= h.len()
    &&& tool_closed(h, c, e)
    &&& forall|c2: int, e2: int|
        0 <= c2 <= cut && fold_end <= e2 <= h.len() && #[trigger] tool_closed(h, c2, e2) ==> c2 <= c
            && e <= e2
}

/// The least closed range that holds `[cut, fold_end)`.
pub open spec fn tool_closure(h: Seq<ResponseItem>, cut: int, fold_end: int) -> (int, int) {
    choose|p: (int, int)| least_closed(h, cut, fold_end, p.0, p.1)
}

/// The id is among the collected ids.
pub open spec fn ids_contain(ids: Seq<Vec<char>>, x: Seq<char>) -> bool {
    exists|k: int| 0 <= k < ids.len() && ids[k]@ == x
}

fn contains_id(ids: &Vec<Vec<char>>, x: &Vec<char>) -> (r: bool)
    ensures
        r == ids_contain(ids@, x@),
{
    let mut k: usize = 0;
    while k < ids.len()
        invariant
            k <= ids.len(),
            forall|m: int| 0 <= m < k ==> ids@[m]@ != x@,
        decreases ids.len() - k,
    {
        if crate::text::eq_chars(&ids[k], x) {
            return true;
        }
        k = k + 1;
    }
    false
}

/// Some item of `[start, end)` opens call `x`.
pub open spec fn opened_in(h: Seq<ResponseItem>, start: int, end: int, x: Seq<char>) -> bool {
    exists|p: int| start <= p < end && #[trigger] pairing_spec(h[p]) == PairingV::Call(x)
}

/// Some item of `[start, end)` answers call `x`.
pub open spec fn answered_in(h: Seq<ResponseItem>, start: int, end: int, x: Seq<char>) -> bool {
    exists|p: int| start <= p < end && #[trigger] pairing_spec(h[p]) == PairingV::Output(x)
}

/// The ids of the calls that items `[start, end)` open.
pub fn call_ids_in(history: &Vec<ResponseItem>, start: usize, end: usize) -> (r: Vec<Vec<char>>)
    requires
        start <= end <= history.len(),
    ensures
        forall|k: int| 0 <= k < r@.len() ==> #[trigger] opened_in(history@, start as int, end as int, r@[k]@),
        forall|i: int|
            start <= i < end && #[trigger] pairing_spec(history@[i]) is Call ==> ids_contain(
                r@,
                pairing_spec(history@[i])->Call_0,
            ),
{
    let mut r: Vec<Vec<char>> = Vec::new();
    let mut i: usize = start;
    while i < end
        invariant
            start <= i <= end <= history.len(),
            forall|k: int| 0 <= k < r@.len() ==> #[trigger] opened_in(history@, start as int, i as int, r@[k]@),
            forall|m: int|
                start <= m < i && #[trigger] pairing_spec(history@[m]) is Call ==> ids_contain(
                    r@,
                    pairing_spec(history@[m])->Call_0,
                ),
        decreases end - i,
    {
        let ghost prev = r@;
        match tool_pairing(&history[i]) {
            ToolPairing::Call(id) => {
                let ghost before = r@;
                r.push(chars_of(id.as_str()));
                assert(r@[r@.len() - 1]@ == pairing_spec(history@[i as int])->Call_0);
                assert forall|m: int|
                    start <= m < i + 1 && #[trigger] pairing_spec(history@[m]) is Call implies ids_contain(
                    r@,
                    pairing_spec(history@[m])->Call_0,
                ) by {
                    if m < i {
                        let k = choose|k: int| 0 <= k < before.len() && before[k]@ == pairing_spec(history@[m])->Call_0;
                        assert(r@[k] == before[k]);
                    } else {
                        assert(r@[r@.len() - 1]@ == pairing_spec(history@[m])->Call_0);
                    }
                }
            },
            _ => {},
        }
        assert forall|k: int| 0 <= k < r@.len() implies #[trigger] opened_in(
            history@,
            start as int,
            i + 1,
            r@[k]@,
        ) by {
            if k < prev.len() {
                assert(r@[k] == prev[k]);
                assert(opened_in(history@, start as int, i as int, prev[k]@));
                let p = choose|p: int| start <= p < i && #[trigger] pairing_spec(history@[p]) == PairingV::Call(prev[k]@);
                assert(pairing_spec(history@[p]) == PairingV::Call(r@[k]@));
            } else {
                assert(pairing_spec(history@[i as int]) == PairingV::Call(r@[k]@));
            }
        }
        i = i + 1;
    }
    r
}

/// The ids of the calls that items `[start, end)` answer.
pub fn output_call_ids_in(history: &Vec<ResponseItem>, start: usize, end: usize) -> (r: Vec<Vec<char>>)
    requires
        start <= end <= history.len(),
    ensures
        forall|k: int| 0 <= k < r@.len() ==> #[trigger] answered_in(history@, start as int, end as int, r@[k]@),
        forall|i: int|
            start <= i < end && #[trigger] pairing_spec(history@[i]) is Output ==> ids_contain(
                r@,
                pairing_spec(history@[i])->Output_0,
            ),
{
    let mut r: Vec<Vec<char>> = Vec::new();
    let mut i: usize = start;
    while i < end
        invariant
            start <= i <= end <= history.len(),
            forall|k: int| 0 <= k < r@.len() ==> #[trigger] answered_in(history@, start as int, i as int, r@[k]@),
            forall|m: int|
                start <= m < i && #[trigger] pairing_spec(history@[m]) is Output ==> ids_contain(
                    r@,
                    pairing_spec(history@[m])->Output_0,
                ),
        decreases end - i,
    {
        let ghost prev = r@;
        match tool_pairing(&history[i]) {
            ToolPairing::Output(id) => {
                let ghost before = r@;
                r.push(chars_of(id.as_str()));
                assert(r@[r@.len() - 1]@ == pairing_spec(history@[i as int])->Output_0);
                assert forall|m: int|
                    start <= m < i + 1 && #[trigger] pairing_spec(history@[m]) is Output implies ids_contain(
                    r@,
                    pairing_spec(history@[m])->Output_0,
                ) by {
                    if m < i {
                        let k = choose|k: int| 0 <= k < before.len() && before[k]@ == pairing_spec(history@[m])->Output_0;
                        assert(r@[k] == before[k]);
                    } else {
                        assert(r@[r@.len() - 1]@ == pairing_spec(history@[m])->Output_0);
                    }
                }
            },
            _ => {},
        }
        assert forall|k: int| 0 <= k < r@.len() implies #[trigger] answered_in(
            history@,
            start as int,
            i + 1,
            r@[k]@,
        ) by {
            if k < prev.len() {
                assert(r@[k] == prev[k]);
                assert(answered_in(history@, start as int, i as int, prev[k]@));
                let p = choose|p: int| start <= p < i && #[trigger] pairing_spec(history@[p]) == PairingV::Output(prev[k]@);
                assert(pairing_spec(history@[p]) == PairingV::Output(r@[k]@));
            } else {
                assert(pairing_spec(history@[i as int]) == PairingV::Output(r@[k]@));
            }
        }
        i = i + 1;
    }
    r
}

/// Item `j` answers one of the calls `ids`.
pub open spec fn answers_one_of(h: Seq<ResponseItem>, j: int, ids: Seq<Vec<char>>) -> bool {
    pairing_spec(h[j]) is Output && ids_contain(ids, pairing_spec(h[j])->Output_0)
}

/// Item `j` opens one of the calls `ids`.
pub open spec fn opens_one_of(h: Seq<ResponseItem>, j: int, ids: Seq<Vec<char>>) -> bool {
    pairing_spec(h[j]) is Call && ids_contain(ids, pairing_spec(h[j])->Call_0)
}

/// The first item at or after `start` that answers one of the calls `call_ids`.
pub fn first_output_for_call_after(history: &Vec<ResponseItem>, start: usize, call_ids: &Vec<Vec<char>>) -> (r:
    Option<usize>)
    ensures
        match r {
            Some(i) => start <= i < history.len() && answers_one_of(history@, i as int, call_ids@)
                && forall|j: int| start <= j < i ==> !#[trigger] answers_one_of(history@, j, call_ids@),
            None => forall|j: int|
                start <= j < history.len() ==> !#[trigger] answers_one_of(history@, j, call_ids@),
        },
{
    if call_ids.len() == 0 {
        return None;
    }
    let mut i: usize = start;
    while i < history.len()
        invariant
            start <= i,
            forall|j: int| start <= j < i ==> !#[trigger] answers_one_of(history@, j, call_ids@),
        decreases history.len() - i,
    {
        match tool_pairing(&history[i]) {
            ToolPairing::Output(id) => {
                let idc = chars_of(id.as_str());
                if contains_id(call_ids, &idc) {
                    assert(pairing_spec(history@[i as int]) == PairingV::Output(idc@));
                    assert(answers_one_of(history@, i as int, call_ids@));
                    return Some(i);
                }
            },
            _ => {},
        }
        i = i + 1;
    }
    None
}

/// The last item before `end` that opens one of the calls `output_call_ids`.
pub fn last_call_for_output_before(history: &Vec<ResponseItem>, end: usize, output_call_ids: &Vec<Vec<char>>) -> (r:
    Option<usize>)
    requires
        end <= history.len(),
    ensures
        match r {
            Some(i) => i < end && opens_one_of(history@, i as int, output_call_ids@) && forall|j: int|
                i < j < end ==> !#[trigger] opens_one_of(history@, j, output_call_ids@),
            None => forall|j: int| 0 <= j < end ==> !#[trigger] opens_one_of(history@, j, output_call_ids@),
        },
{
    if output_call_ids.len() == 0 {
        return None;
    }
    let mut i: usize = end;
    while i > 0
        invariant
            i <= end <= history.len(),
            forall|j: int| i <= j < end ==> !#[trigger] opens_one_of(history@, j, output_call_ids@),
        decreases i,
    {
        i = i - 1;
        match tool_pairing(&history[i]) {
            ToolPairing::Call(id) => {
                let idc = chars_of(id.as_str());
                if contains_id(output_call_ids, &idc) {
                    assert(pairing_spec(history@[i as int]) == PairingV::Call(idc@));
                    assert(opens_one_of(history@, i as int, output_call_ids@));
                    return Some(i);
                }
            },
            _ => {},
        }
    }
    None
}

proof fn lemma_least_closed_unique(h: Seq<ResponseItem>, cut: int, fold_end: int, c: int, e: int, c2: int, e2: int)
    requires
        least_closed(h, cut, fold_end, c, e),
        least_closed(h, cut, fold_end, c2, e2),
    ensures
        c == c2 && e == e2,
{
    assert(tool_closed(h, c2, e2));
    assert(tool_closed(h, c, e));
}

/// The least closed range is the one that `tool_closure` names.
proof fn lemma_least_closed_is_closure(h: Seq<ResponseItem>, cut: int, fold_end: int, c: int, e: int)
    requires
        least_closed(h, cut, fold_end, c, e),
    ensures
        tool_closure(h, cut, fold_end) == (c, e),
{
    let w = (c, e);
    assert(least_closed(h, cut, fold_end, w.0, w.1));
    assert(exists|p: (int, int)| least_closed(h, cut, fold_end, p.0, p.1));
    let q = tool_closure(h, cut, fold_end);
    assert(least_closed(h, cut, fold_end, q.0, q.1));
    lemma_least_closed_unique(h, cut, fold_end, c, e, q.0, q.1);
}

/// Widens `[cut_index, fold_end_index)` until no tool call in it is answered
/// after it and no output in it answers a call before it: the least such range.
pub fn adjusted_range_for_tool_call_closure(
    history: &Vec<ResponseItem>,
    cut_index: usize,
    fold_end_index: usize,
) -> (r: (usize, usize))
    requires
        cut_index <= fold_end_index <= history.len(),
    ensures
        least_closed(history@, cut_index as int, fold_end_index as int, r.0 as int, r.1 as int),
        tool_closure(history@, cut_index as int, fold_end_index as int) == (r.0 as int, r.1 as int),
{
    let ghost h = history@;
    let ghost cut = cut_index as int;
    let ghost fe = fold_end_index as int;
    let mut c = cut_index;
    let mut e = fold_end_index;
    loop
        invariant
            h == history@,
            cut == cut_index,
            fe == fold_end_index,
            c <= cut_index,
            fold_end_index <= e <= history.len(),
            c <= e,
            forall|c2: int, e2: int|
                0 <= c2 <= cut && fe <= e2 <= h.len() && #[trigger] tool_closed(h, c2, e2) ==> c2 <= c
                    && e <= e2,
        decreases c + (history.len() - e),
    {
        let calls = call_ids_in(history, c, e);
        let outs = output_call_ids_in(history, c, e);
        let ghost c0 = c as int;
        let ghost e0 = e as int;
        let mut changed = false;
        match first_output_for_call_after(history, e, &calls) {
            Some(i) => {
                proof {
                    let x = pairing_spec(h[i as int])->Output_0;
                    let k = choose|k: int| 0 <= k < calls@.len() && calls@[k]@ == x;
                    assert(opened_in(h, c0, e0, calls@[k]@));
                    let p = choose|p: int| c0 <= p < e0 && #[trigger] pairing_spec(h[p]) == PairingV::Call(calls@[k]@);
                    assert(pairs(h, p, i as int));
                    assert forall|c2: int, e2: int|
                        0 <= c2 <= cut && fe <= e2 <= h.len() && #[trigger] tool_closed(h, c2, e2) implies c2
                        <= c0 && i + 1 <= e2 by {
                        if e2 <= i {
                            assert(!pairs(h, p, i as int));
                        }
                    }
                }
                e = i + 1;
                changed = true;
            },
            None => {},
        }
        match last_call_for_output_before(history, c, &outs) {
            Some(i) => {
                proof {
                    let x = pairing_spec(h[i as int])->Call_0;
                    let k = choose|k: int| 0 <= k < outs@.len() && outs@[k]@ == x;
                    assert(answered_in(h, c0, e0, outs@[k]@));
                    let q = choose|q: int| c0 <= q < e0 && #[trigger] pairing_spec(h[q]) == PairingV::Output(outs@[k]@);
                    assert(pairs(h, i as int, q));
                    assert forall|c2: int, e2: int|
                        0 <= c2 <= cut && fe <= e2 <= h.len() && #[trigger] tool_closed(h, c2, e2) implies c2
                        <= i && e <= e2 by {
                        if i < c2 {
                            assert(!pairs(h, i as int, q));
                        }
                    }
                }
                c = i;
                changed = true;
            },
            None => {},
        }
        if !changed {
            proof {
                assert forall|i: int, j: int| c <= i < e <= j < h.len() implies !#[trigger] pairs(h, i, j) by {
                    if pairs(h, i, j) {
                        assert(pairing_spec(h[i]) is Call);
                        assert(ids_contain(calls@, pairing_spec(h[i])->Call_0));
                        assert(answers_one_of(h, j, calls@));
                    }
                }
                assert forall|i: int, j: int| 0 <= i < c <= j < e implies !#[trigger] pairs(h, i, j) by {
                    if pairs(h, i, j) {
                        assert(pairing_spec(h[j]) is Output);
                        assert(ids_contain(outs@, pairing_spec(h[j])->Output_0));
                        assert(opens_one_of(h, i, outs@));
                    }
                }
                assert(tool_closed(h, c as int, e as int));
                assert(least_closed(h, cut, fe, c as int, e as int));
                lemma_least_closed_is_closure(h, cut, fe, c as int, e as int);
            }
            return (c, e);
        }
    }
}

// ----------------------------------------------------------------------------
// The suffix fold plan
// ----------------------------------------------------------------------------
/// What a compaction of one node folds: the raw span, the items before and
/// inside it, and where its texts come from.
#[derive(Debug, PartialEq)]
pub struct SpineCompactInput {
    pub op: SpineOperation,
    pub node_id: NodeId,
    pub cut_ordinal: u64,
    pub fold_end_ordinal: u64,
    pub spine_tree: String,
    pub prefix_items: Vec<ResponseItem>,
    pub suffix_items: Vec<ResponseItem>,
    pub transition_summary: String,
    pub compact_instruction: Option<String>,
    pub rollout_path: String,
    pub raw_mirror_path: String,
    pub sidecar_root: String,
}

/// A planned suffix fold: items `[cut_index, fold_end_index)` of the history
/// are replaced by the node's memory, followed by `replacement_tail`.
#[derive(Debug, PartialEq)]
pub struct SpineCompactPlan {
    pub input: SpineCompactInput,
    pub cut_index: usize,
    pub fold_end_index: usize,
    pub replacement_tail: Vec<ResponseItem>,
    pub memory_path: String,
}

/// Why a suffix fold cannot be planned.
#[derive(Clone, Debug, PartialEq, Eq)]
pub enum CompactPlanError {
    CutNotMapped { cut_ordinal: u64 },
    FoldEndNotMapped { fold_end_ordinal: u64 },
    CutAfterFoldEnd { cut_index: usize, fold_end_index: usize },
    EmptyFold,
    AdjustedCutNotMapped { cut_index: usize },
    AdjustedFoldEndNotMapped { fold_end_index: usize },
}

/// The message of a planning error.
pub open spec fn compact_plan_error_text(e: CompactPlanError) -> Seq<char> {
    match e {
        CompactPlanError::CutNotMapped { cut_ordinal } => "spine compact cut ordinal "@ + dec(
            cut_ordinal as nat,
        ) + " does not map to an effective history index"@,
        CompactPlanError::FoldEndNotMapped { fold_end_ordinal } => "spine compact fold_end ordinal "@
            + dec(fold_end_ordinal as nat) + " does not map to an effective history index"@,
        CompactPlanError::CutAfterFoldEnd { cut_index, fold_end_index } => "spine compact cut index "@
            + dec(cut_index as nat) + " is after fold end index "@ + dec(fold_end_index as nat),
        CompactPlanError::EmptyFold => "spine compact fold range is empty after mapping"@,
        CompactPlanError::AdjustedCutNotMapped { cut_index } => "spine compact adjusted cut index "@
            + dec(cut_index as nat) + " does not map to a raw ordinal"@,
        CompactPlanError::AdjustedFoldEndNotMapped { fold_end_index } =>
            "spine compact adjusted fold end index "@ + dec(fold_end_index as nat)
            + " does not map to a raw ordinal"@,
    }
}

impl CompactPlanError {
    /// The error's message.
    pub fn to_string(&self) -> (r: String)
        ensures
            r@ == compact_plan_error_text(*self),
    {
        let mut v: Vec<char> = Vec::new();
        match self {
            CompactPlanError::CutNotMapped { cut_ordinal } => {
                push_str(&mut v, "spine compact cut ordinal ");
                push_u64(&mut v, *cut_ordinal);
                push_str(&mut v, " does not map to an effective history index");
            },
            CompactPlanError::FoldEndNotMapped { fold_end_ordinal } => {
                push_str(&mut v, "spine compact fold_end ordinal ");
                push_u64(&mut v, *fold_end_ordinal);
                push_str(&mut v, " does not map to an effective history index");
            },
            CompactPlanError::CutAfterFoldEnd { cut_index, fold_end_index } => {
                push_str(&mut v, "spine compact cut index ");
                push_u64(&mut v, *cut_index as u64);
                push_str(&mut v, " is after fold end index ");
                push_u64(&mut v, *fold_end_index as u64);
            },
            CompactPlanError::EmptyFold => {
                push_str(&mut v, "spine compact fold range is empty after mapping");
            },
            CompactPlanError::AdjustedCutNotMapped { cut_index } => {
                push_str(&mut v, "spine compact adjusted cut index ");
                push_u64(&mut v, *cut_index as u64);
                push_str(&mut v, " does not map to a raw ordinal");
            },
            CompactPlanError::AdjustedFoldEndNotMapped { fold_end_index } => {
                push_str(&mut v, "spine compact adjusted fold end index ");
                push_u64(&mut v, *fold_end_index as u64);
                push_str(&mut v, " does not map to a raw ordinal");
            },
        }
        assert(v@ =~= compact_plan_error_text(*self));
        string_of(&v)
    }
}

/// The plan keeps what the input said of the compaction and fills in the range.
pub open spec fn plan_matches(
    plan: SpineCompactPlan,
    input: SpineCompactInput,
    h: Seq<ResponseItem>,
    c: int,
    e: int,
    cut_ordinal: u64,
    fold_end_ordinal: u64,
) -> bool {
    &&& plan.cut_index == c
    &&& plan.fold_end_index == e
    &&& plan.input.cut_ordinal == cut_ordinal
    &&& plan.input.fold_end_ordinal == fold_end_ordinal
    &&& same_items(plan.input.prefix_items@, h.take(c))
    &&& same_items(plan.input.suffix_items@, h.subrange(c, e))
    &&& same_items(plan.replacement_tail@, h.skip(e))
    &&& plan.input.op == input.op
    &&& plan.input.node_id == input.node_id
    &&& plan.input.spine_tree == input.spine_tree
    &&& plan.input.transition_summary == input.transition_summary
    &&& plan.input.compact_instruction == input.compact_instruction
    &&& plan.input.rollout_path == input.rollout_path
    &&& plan.input.raw_mirror_path == input.raw_mirror_path
    &&& plan.input.sidecar_root == input.sidecar_root
}

/// What planning a suffix fold of raw `[cut_ordinal, fold_end_ordinal)` gives:
/// both ordinals are mapped to history indices, the range is widened to keep
/// tool calls with their outputs, and the widened range is mapped back.
pub open spec fn suffix_fold_outcome(
    h: Seq<ResponseItem>,
    spans: Seq<InstalledCompactSpan>,
    cut_ordinal: u64,
    fold_end_ordinal: u64,
    input: SpineCompactInput,
    r: Result<SpineCompactPlan, CompactPlanError>,
) -> bool {
    match index_for_raw_from(h, spans, cut_ordinal, 0, 0, 0) {
        None => r == Err::<SpineCompactPlan, CompactPlanError>(CompactPlanError::CutNotMapped { cut_ordinal }),
        Some(ci) => match index_for_raw_from(h, spans, fold_end_ordinal, 0, 0, 0) {
            None => r == Err::<SpineCompactPlan, CompactPlanError>(
                CompactPlanError::FoldEndNotMapped { fold_end_ordinal },
            ),
            Some(fi) => if ci > fi {
                r == Err::<SpineCompactPlan, CompactPlanError>(
                    CompactPlanError::CutAfterFoldEnd { cut_index: ci as usize, fold_end_index: fi as usize },
                )
            } else if ci == fi {
                r == Err::<SpineCompactPlan, CompactPlanError>(CompactPlanError::EmptyFold)
            } else {
                let (c, e) = tool_closure(h, ci as int, fi as int);
                match raw_for_index_from(h, spans, c as nat, 0, 0, 0) {
                    None => r == Err::<SpineCompactPlan, CompactPlanError>(
                        CompactPlanError::AdjustedCutNotMapped { cut_index: c as usize },
                    ),
                    Some(co) => match raw_for_index_from(h, spans, e as nat, 0, 0, 0) {
                        None => r == Err::<SpineCompactPlan, CompactPlanError>(
                            CompactPlanError::AdjustedFoldEndNotMapped { fold_end_index: e as usize },
                        ),
                        Some(fo) => r matches Ok(plan) && plan_matches(plan, input, h, c, e, co, fo),
                    },
                }
            },
        },
    }
}

/// Plans the fold of raw ordinals `[cut_ordinal, fold_end_ordinal)` over the
/// history; `relative_memory_path` is where the node's memory lives under the
/// sidecar root. Which path the memory gets depends on the platform's path
/// joining and is not stated.
pub fn plan_suffix_fold_with_spans(
    history: &Vec<ResponseItem>,
    cut_ordinal: u64,
    fold_end_ordinal: u64,
    runtime_spans: &Vec<InstalledCompactSpan>,
    input: SpineCompactInput,
    relative_memory_path: &str,
) -> (r: Result<SpineCompactPlan, CompactPlanError>)
    ensures
        suffix_fold_outcome(history@, runtime_spans@, cut_ordinal, fold_end_ordinal, input, r),
        r matches Ok(plan) ==> fold_plan_round_trips(history@, runtime_spans@, cut_ordinal, fold_end_ordinal, plan),
        !(index_for_raw_from(history@, runtime_spans@, cut_ordinal, 0, 0, 0) matches Some(ci)
            && index_for_raw_from(history@, runtime_spans@, fold_end_ordinal, 0, 0, 0) matches Some(fi) && ci < fi)
            ==> r is Err,
{
    let ghost h = history@;
    let ghost input0 = input;
    let cut_index = match effective_index_for_raw_ordinal_with_spans(history, cut_ordinal, runtime_spans) {
        Some(i) => i,
        None => {
            return Err(CompactPlanError::CutNotMapped { cut_ordinal });
        },
    };
    let fold_end_index = match effective_index_for_raw_ordinal_with_spans(
        history,
        fold_end_ordinal,
        runtime_spans,
    ) {
        Some(i) => i,
        None => {
            return Err(CompactPlanError::FoldEndNotMapped { fold_end_ordinal });
        },
    };
    if cut_index > fold_end_index {
        return Err(CompactPlanError::CutAfterFoldEnd { cut_index, fold_end_index });
    }
    if cut_index == fold_end_index {
        return Err(CompactPlanError::EmptyFold);
    }
    proof {
        lemma_index_for_raw_bounded(h, runtime_spans@, fold_end_ordinal, 0, 0, 0);
    }
    let (c, e) = adjusted_range_for_tool_call_closure(history, cut_index, fold_end_index);
    let new_cut = match raw_ordinal_for_effective_index_with_spans(history, c, runtime_spans) {
        Some(o) => o,
        None => {
            return Err(CompactPlanError::AdjustedCutNotMapped { cut_index: c });
        },
    };
    let new_fold_end = match raw_ordinal_for_effective_index_with_spans(history, e, runtime_spans) {
        Some(o) => o,
        None => {
            return Err(CompactPlanError::AdjustedFoldEndNotMapped { fold_end_index: e });
        },
    };
    let plan = assemble_plan(history, c, e, new_cut, new_fold_end, input, relative_memory_path);
    proof {
        lemma_same_items_split(plan.input.prefix_items@, plan.input.suffix_items@, plan.replacement_tail@, h, c as int,
            e as int);
    }
    Ok(plan)
}

/// A fold plan splits the history into its prefix, the folded suffix and the
/// tail; the requested raw boundaries map into the widened range; both ends of
/// the range map back to the plan's raw ordinals; and no tool call is parted
/// from its output by either end.
pub open spec fn fold_plan_round_trips(
    h: Seq<ResponseItem>,
    spans: Seq<InstalledCompactSpan>,
    cut_ordinal: u64,
    fold_end_ordinal: u64,
    plan: SpineCompactPlan,
) -> bool {
    &&& same_items(plan.input.prefix_items@ + plan.input.suffix_items@ + plan.replacement_tail@, h)
    &&& plan.input.prefix_items@.len() == plan.cut_index
    &&& plan.cut_index < plan.fold_end_index <= h.len()
    &&& index_for_raw_from(h, spans, cut_ordinal, 0, 0, 0) matches Some(ci) && plan.cut_index <= ci
    &&& index_for_raw_from(h, spans, fold_end_ordinal, 0, 0, 0) matches Some(fi) && fi <= plan.fold_end_index
    &&& raw_for_index_from(h, spans, plan.cut_index as nat, 0, 0, 0) == Some(plan.input.cut_ordinal)
    &&& raw_for_index_from(h, spans, plan.fold_end_index as nat, 0, 0, 0) == Some(plan.input.fold_end_ordinal)
    &&& tool_closed(h, plan.cut_index as int, plan.fold_end_index as int)
}

proof fn lemma_same_items_split(
    a: Seq<ResponseItem>,
    b: Seq<ResponseItem>,
    t: Seq<ResponseItem>,
    h: Seq<ResponseItem>,
    c: int,
    e: int,
)
    requires
        0 <= c <= e <= h.len(),
        same_items(a, h.take(c)),
        same_items(b, h.subrange(c, e)),
        same_items(t, h.skip(e)),
    ensures
        same_items(a + b + t, h),
{
    let all = a + b + t;
    assert forall|i: int| 0 <= i < all.len() implies crate::items::same_item(#[trigger] all[i], h[i]) by {
        if i < c {
            assert(crate::items::same_item(a[i], h.take(c)[i]));
        } else if i < e {
            assert(crate::items::same_item(b[i - c], h.subrange(c, e)[i - c]));
        } else {
            assert(crate::items::same_item(t[i - e], h.skip(e)[i - e]));
        }
    }
}

fn assemble_plan(
    history: &Vec<ResponseItem>,
    c: usize,
    e: usize,
    cut_ordinal: u64,
    fold_end_ordinal: u64,
    input: SpineCompactInput,
    relative_memory_path: &str,
) -> (plan: SpineCompactPlan)
    requires
        c <= e <= history.len(),
    ensures
        plan_matches(plan, input, history@, c as int, e as int, cut_ordinal, fold_end_ordinal),
{
    let ghost h = history@;
    let mut input = input;
    input.cut_ordinal = cut_ordinal;
    input.fold_end_ordinal = fold_end_ordinal;
    input.prefix_items = copy_items(history, 0, c);
    input.suffix_items = copy_items(history, c, e);
    let replacement_tail = copy_items(history, e, history.len());
    let memory_path = path_join(input.sidecar_root.as_str(), relative_memory_path);
    proof {
        assert(h.subrange(0, c as int) =~= h.take(c as int));
        assert(h.subrange(e as int, h.len() as int) =~= h.skip(e as int));
    }
    SpineCompactPlan { input, cut_index: c, fold_end_index: e, replacement_tail, memory_path }
}

proof fn lemma_index_for_raw_bounded(
    h: Seq<ResponseItem>,
    spans: Seq<InstalledCompactSpan>,
    target: u64,
    k: nat,
    raw: u64,
    sc: nat,
)
    requires
        k <= h.len(),
    ensures
        index_for_raw_from(h, spans, target, k, raw, sc) matches Some(i) ==> k <= i <= h.len(),
    decreases h.len() - k,
{
    if k < h.len() {
        match fold_classify_spec(h[k as int], raw, spans, sc) {
            None => {},
            Some((sem, sc2)) => match sem {
                EffectiveItemSemantics::Raw1 => {
                    if raw != u64::MAX {
                        lemma_index_for_raw_bounded(h, spans, target, k + 1, (raw + 1) as u64, sc2);
                    }
                },
                EffectiveItemSemantics::Zero => {
                    lemma_index_for_raw_bounded(h, spans, target, k + 1, raw, sc2);
                },
                EffectiveItemSemantics::Span { fold_end, .. } => {
                    lemma_index_for_raw_bounded(h, spans, target, k + 1, fold_end, sc2);
                },
                EffectiveItemSemantics::Stop => {},
            },
        }
    }
}

// ----------------------------------------------------------------------------
// The model's compaction answer
// ----------------------------------------------------------------------------
/// Why the model's compaction answer cannot be used as memory.
#[derive(Clone, Debug, PartialEq, Eq)]
pub enum CompactMarkdownError {
    Empty,
    XmlWrapper,
}

impl CompactMarkdownError {
    /// The error's message.
    pub fn to_string(&self) -> (r: String)
        ensures
            r@ == (match *self {
                CompactMarkdownError::Empty => "spine compact response memory is empty"@,
                CompactMarkdownError::XmlWrapper =>
                    "spine compact response must be plain Markdown without XML memory wrappers"@,
            }),
    {
        match self {
            CompactMarkdownError::Empty => owned("spine compact response memory is empty"),
            CompactMarkdownError::XmlWrapper => owned(
                "spine compact response must be plain Markdown without XML memory wrappers",
            ),
        }
    }
}

/// The trimmed answer holds an XML memory wrapper.
pub open spec fn has_xml_wrapper(body: Seq<char>) -> bool {
    ||| has_prefix(body, "<spine_memory"@)
    ||| contains_seq(body, "</spine_memory>"@)
    ||| has_prefix(body, "<spine_ir"@)
    ||| contains_seq(body, "</spine_ir>"@)
    ||| has_prefix(body, "<memory>"@)
    ||| contains_seq(body, "</memory>"@)
}

/// The compaction answer as memory markdown: the trimmed text, which must not
/// be empty nor wrapped in XML memory tags.
pub fn extract_spine_compact_markdown(text: &str) -> (r: Result<String, CompactMarkdownError>)
    ensures
        trim_spec(text@).len() == 0 ==> r == Err::<String, CompactMarkdownError>(CompactMarkdownError::Empty),
        trim_spec(text@).len() > 0 && has_xml_wrapper(trim_spec(text@)) ==> r == Err::<
            String,
            CompactMarkdownError,
        >(CompactMarkdownError::XmlWrapper),
        trim_spec(text@).len() > 0 && !has_xml_wrapper(trim_spec(text@)) ==> (r matches Ok(m) && m@
            == trim_spec(text@)),
{
    let body = trim(&chars_of(text));
    if body.len() == 0 {
        return Err(CompactMarkdownError::Empty);
    }
    if starts_with(&body, &chars_of("<spine_memory")) || contains(&body, &chars_of("</spine_memory>"))
        || starts_with(&body, &chars_of("<spine_ir")) || contains(&body, &chars_of("</spine_ir>"))
        || starts_with(&body, &chars_of("<memory>")) || contains(&body, &chars_of("</memory>")) {
        return Err(CompactMarkdownError::XmlWrapper);
    }
    Ok(string_of(&body))
}

// ----------------------------------------------------------------------------
// Laws of the raw ordinal mapping
// ----------------------------------------------------------------------------
/// A span that an item covers starts at the raw cursor it is read at, unless it
/// is a legacy IR item accepted by an empty ledger.
proof fn lemma_span_starts_at_cursor(item: ResponseItem, raw: u64, spans: Seq<InstalledCompactSpan>, sc: nat)
    requires
        spans.len() <= usize::MAX,
        spans.len() > 0 || ir_metadata_spec(item) is None,
        fold_classify_spec(item, raw, spans, sc) matches Some((EffectiveItemSemantics::Span { .. }, _)),
    ensures
        (fold_classify_spec(item, raw, spans, sc)->0).0->cut == raw,
{
    reveal(fold_classify_spec);
    let legacy = match ir_metadata_spec(item) {
        Some(meta) => match legacy_consume_spec(spans, sc, meta, raw) {
            Some(n) => Some(
                (EffectiveItemSemantics::Span { cut: meta.fold_start, fold_end: meta.fold_end }, n),
            ),
            None => None,
        },
        None => None,
    };
    if legacy is Some {
        let meta = ir_metadata_spec(item)->0;
        assert(meta.fold_start == raw);
    } else {
        match memory_metadata_spec(item) {
            Some(meta) => {
                if lookup_spec(spans, sc, meta, raw) is Unique {
                    let i = choose|i: int| crate::host_bridge::matches_from(spans, sc, meta, raw, i);
                    assert(crate::host_bridge::matches_from(spans, sc, meta, raw, i));
                    assert(i as usize as int == i);
                }
            },
            None => match legacy_markdown_metadata_spec(item) {
                Some(meta) => {
                    if lookup_spec(spans, sc, meta, raw) is Unique {
                        let i = choose|i: int| crate::host_bridge::matches_from(spans, sc, meta, raw, i);
                        assert(crate::host_bridge::matches_from(spans, sc, meta, raw, i));
                        assert(i as usize as int == i);
                    }
                },
                None => {},
            },
        }
    }
}

proof fn lemma_round_trip_from(
    h: Seq<ResponseItem>,
    spans: Seq<InstalledCompactSpan>,
    t: u64,
    k: nat,
    raw: u64,
    sc: nat,
)
    requires
        k <= h.len(),
        spans.len() <= usize::MAX,
        spans.len() > 0 || forall|j: int| 0 <= j < h.len() ==> ir_metadata_spec(#[trigger] h[j]) is None,
        index_for_raw_from(h, spans, t, k, raw, sc) is Some,
    ensures
        raw_for_index_from(h, spans, index_for_raw_from(h, spans, t, k, raw, sc)->0, k, raw, sc) == Some(t),
    decreases h.len() - k,
{
    if k < h.len() {
        let item = h[k as int];
        let (sem, sc2) = fold_classify_spec(item, raw, spans, sc)->0;
        match sem {
            EffectiveItemSemantics::Raw1 => {
                if raw != t {
                    lemma_index_for_raw_bounded(h, spans, t, k + 1, (raw + 1) as u64, sc2);
                    lemma_round_trip_from(h, spans, t, k + 1, (raw + 1) as u64, sc2);
                }
            },
            EffectiveItemSemantics::Zero => {
                lemma_index_for_raw_bounded(h, spans, t, k + 1, raw, sc2);
                lemma_round_trip_from(h, spans, t, k + 1, raw, sc2);
            },
            EffectiveItemSemantics::Span { cut, fold_end } => {
                if t == cut {
                    lemma_span_starts_at_cursor(item, raw, spans, sc);
                } else {
                    lemma_index_for_raw_bounded(h, spans, t, k + 1, fold_end, sc2);
                    lemma_round_trip_from(h, spans, t, k + 1, fold_end, sc2);
                }
            },
            EffectiveItemSemantics::Stop => {},
        }
    }
}

/// A raw boundary that maps to a history index maps back to itself: mapping
/// raw ordinals to items and back keeps every boundary that can be mapped.
/// (An empty ledger accepts a legacy IR item wherever it stands, so such items
/// are left out there.)
pub proof fn lemma_boundary_round_trip(h: Seq<ResponseItem>, spans: Seq<InstalledCompactSpan>, raw: u64)
    requires
        spans.len() <= usize::MAX,
        spans.len() > 0 || forall|j: int| 0 <= j < h.len() ==> ir_metadata_spec(#[trigger] h[j]) is None,
        index_for_raw_from(h, spans, raw, 0, 0, 0) is Some,
    ensures
        raw_for_index_from(h, spans, index_for_raw_from(h, spans, raw, 0, 0, 0)->0, 0, 0, 0) == Some(raw),
{
    lemma_round_trip_from(h, spans, raw, 0, 0, 0);
}

/// The least closed range is closed and holds the requested range; widening a
/// range that is already closed leaves it as it is.
pub proof fn lemma_closed_range_is_kept(h: Seq<ResponseItem>, cut: int, fold_end: int)
    requires
        0 <= cut <= fold_end <= h.len(),
        tool_closed(h, cut, fold_end),
    ensures
        tool_closure(h, cut, fold_end) == (cut, fold_end),
{
    assert(least_closed(h, cut, fold_end, cut, fold_end));
    lemma_least_closed_is_closure(h, cut, fold_end, cut, fold_end);
}


// ----------------------------------------------------------------------------
// Preparing a compaction
// ----------------------------------------------------------------------------
/// The effective index of raw ordinal `target` in a history with no installed
/// spans.
pub fn effective_index_for_raw_ordinal(history: &Vec<ResponseItem>, target_raw_ordinal: u64) -> (r: Option<usize>)
    ensures
        match index_for_raw_from(history@, Seq::empty(), target_raw_ordinal, 0, 0, 0) {
            Some(i) => r matches Some(x) && x as nat == i,
            None => r is None,
        },
{
    let spans: Vec<InstalledCompactSpan> = Vec::new();
    effective_index_for_raw_ordinal_with_spans(history, target_raw_ordinal, &spans)
}

/// Plans a suffix fold in a history with no installed spans.
pub fn plan_suffix_fold(
    history: &Vec<ResponseItem>,
    cut_ordinal: u64,
    fold_end_ordinal: u64,
    input: SpineCompactInput,
    relative_memory_path: &str,
) -> (r: Result<SpineCompactPlan, CompactPlanError>)
    ensures
        suffix_fold_outcome(history@, Seq::empty(), cut_ordinal, fold_end_ordinal, input, r),
        r matches Ok(plan) ==> fold_plan_round_trips(history@, Seq::empty(), cut_ordinal, fold_end_ordinal, plan),
{
    let spans: Vec<InstalledCompactSpan> = Vec::new();
    plan_suffix_fold_with_spans(history, cut_ordinal, fold_end_ordinal, &spans, input, relative_memory_path)
}

/// A prepared compaction: the plan, the boundary as the plan adjusted it, the
/// rollout path the compact index records, and the spans it was planned with.
#[derive(Debug)]
pub struct SpineCompactPreparation {
    pub plan: SpineCompactPlan,
    pub effective_boundary: SpineCompactBoundary,
    pub compact_index_rollout_path: String,
    pub runtime_spans: Vec<InstalledCompactSpan>,
}

/// The rollout path the compact index records: the rollout's file name
/// relative to the sidecar directory, else the rollout path itself.
pub open spec fn compact_index_rollout_path_spec(rollout_path: Seq<char>) -> Seq<char> {
    match file_name_of(rollout_path) {
        Some(n) => "../"@ + n,
        None => rollout_path,
    }
}

/// The compaction input a boundary asks for, before planning.
pub open spec fn boundary_input(
    boundary: SpineCompactBoundary,
    rollout_path: Seq<char>,
    spine_tree: Seq<char>,
    raw_mirror_path: Seq<char>,
    sidecar_root: Seq<char>,
    input: SpineCompactInput,
) -> bool {
    &&& input.op == boundary.op
    &&& input.node_id@ == boundary.node_id@
    &&& input.cut_ordinal == boundary.cut_ordinal
    &&& input.fold_end_ordinal == boundary.fold_end_ordinal
    &&& input.spine_tree@ == spine_tree
    &&& input.prefix_items@.len() == 0
    &&& input.suffix_items@.len() == 0
    &&& input.transition_summary@ == boundary.transition_summary@
    &&& input.compact_instruction == boundary.compact_instruction
    &&& input.rollout_path@ == rollout_path
    &&& input.raw_mirror_path@ == raw_mirror_path
    &&& input.sidecar_root@ == sidecar_root
}

/// An optional node id by its segments.
pub open spec fn opt_node_view(n: Option<NodeId>) -> Option<Seq<u32>> {
    match n {
        Some(id) => Some(id@),
        None => None,
    }
}

/// Prepares the compaction a boundary asks for: builds its input, plans the
/// fold against the installed spans, and records the boundary as adjusted.
pub fn prepare_spine_compact_plan(
    boundary: &SpineCompactBoundary,
    history: &Vec<ResponseItem>,
    rollout_path: String,
    spine_tree: String,
    raw_mirror_path: String,
    sidecar_root: String,
    runtime_spans: Vec<InstalledCompactSpan>,
    relative_memory_path: &str,
) -> (r: Result<SpineCompactPreparation, CompactPlanError>)
    ensures
        exists|input: SpineCompactInput|
            boundary_input(*boundary, rollout_path@, spine_tree@, raw_mirror_path@, sidecar_root@, input)
                && suffix_fold_outcome(
                history@,
                runtime_spans@,
                boundary.cut_ordinal,
                boundary.fold_end_ordinal,
                input,
                match r {
                    Ok(p) => Ok(p.plan),
                    Err(e) => Err(e),
                },
            ),
        r matches Ok(p) ==> {
            &&& p.compact_index_rollout_path@ == compact_index_rollout_path_spec(rollout_path@)
            &&& p.runtime_spans@ == runtime_spans@
            &&& p.effective_boundary.op == boundary.op
            &&& p.effective_boundary.node_id@ == boundary.node_id@
            &&& opt_node_view(p.effective_boundary.scope_node_id) == opt_node_view(boundary.scope_node_id)
            &&& p.effective_boundary.transition_summary == boundary.transition_summary
            &&& p.effective_boundary.compact_instruction == boundary.compact_instruction
            &&& p.effective_boundary.cut_ordinal == p.plan.input.cut_ordinal
            &&& p.effective_boundary.fold_end_ordinal == p.plan.input.fold_end_ordinal
        },
{
    proof {
        reveal_strlit("../");
    }
    let compact_index_rollout_path = match crate::io::path_file_name(rollout_path.as_str()) {
        Some(name) => {
            let mut v = chars_of("../");
            push_str(&mut v, name.as_str());
            string_of(&v)
        },
        None => rollout_path.clone(),
    };
    let input = SpineCompactInput {
        op: boundary.op,
        node_id: NodeId::from_segments(boundary.node_id.segments().clone()),
        cut_ordinal: boundary.cut_ordinal,
        fold_end_ordinal: boundary.fold_end_ordinal,
        spine_tree,
        prefix_items: Vec::new(),
        suffix_items: Vec::new(),
        transition_summary: boundary.transition_summary.clone(),
        compact_instruction: copy_opt_string(&boundary.compact_instruction),
        rollout_path,
        raw_mirror_path,
        sidecar_root,
    };
    let ghost input0 = input;
    let plan = plan_suffix_fold_with_spans(
        history,
        boundary.cut_ordinal,
        boundary.fold_end_ordinal,
        &runtime_spans,
        input,
        relative_memory_path,
    );
    proof {
        assert(boundary_input(*boundary, rollout_path@, spine_tree@, raw_mirror_path@, sidecar_root@, input0));
    }
    let plan = match plan {
        Ok(p) => p,
        Err(e) => {
            return Err(e);
        },
    };
    let scope_node_id = match &boundary.scope_node_id {
        Some(n) => Some(NodeId::from_segments(n.segments().clone())),
        None => None,
    };
    let effective_boundary = SpineCompactBoundary {
        op: boundary.op,
        node_id: NodeId::from_segments(boundary.node_id.segments().clone()),
        scope_node_id,
        cut_ordinal: plan.input.cut_ordinal,
        fold_end_ordinal: plan.input.fold_end_ordinal,
        transition_summary: boundary.transition_summary.clone(),
        compact_instruction: copy_opt_string(&boundary.compact_instruction),
    };
    Ok(SpineCompactPreparation { plan, effective_boundary, compact_index_rollout_path, runtime_spans })
}


// ----------------------------------------------------------------------------
// The compacted memory
// ----------------------------------------------------------------------------
/// The text of an auto-compact memory section: where it came from (base,
/// folded range, trajs, raw mirror relative to the base, rollout), the
/// compacted suffix, and the node's summary.
pub open spec fn auto_compact_text(input: SpineCompactInput, compacted_suffix: Seq<char>, node_trajs_path: Seq<char>) -> Seq<
    char,
> {
    let raw_mirror = match strip_prefix_of(input.raw_mirror_path@, input.sidecar_root@) {
        Some(rest) => rest,
        None => input.raw_mirror_path@,
    };
    "\n\n## Auto Compact\n\nBase: "@ + input.sidecar_root@ + "\nFold: response ordinals ["@ + dec(input.cut_ordinal as nat)
        + ", "@ + dec(input.fold_end_ordinal as nat) + ")\nNode trajs: "@ + node_trajs_path + "\nRaw mirror: "@
        + raw_mirror + "\nRollout: "@ + input.rollout_path@ + "\n\n"@ + compacted_suffix + "\n\n## Node Summary\n\n"@
        + input.transition_summary@ + "\n"@
}

/// The auto-compact memory section for a compacted suffix; `node_trajs_path`
/// is the node's trajs file relative to the base.
pub fn render_auto_compact_memory(input: &SpineCompactInput, compacted_suffix: &str, node_trajs_path: &str) -> (r: String)
    ensures
        r@ == auto_compact_text(*input, compacted_suffix@, node_trajs_path@),
{
    let raw_mirror = match crate::io::path_strip_prefix(input.raw_mirror_path.as_str(), input.sidecar_root.as_str()) {
        Some(rest) => rest,
        None => owned(input.raw_mirror_path.as_str()),
    };
    let mut v = chars_of("\n\n## Auto Compact\n\nBase: ");
    push_str(&mut v, input.sidecar_root.as_str());
    push_str(&mut v, "\nFold: response ordinals [");
    push_u64(&mut v, input.cut_ordinal);
    push_str(&mut v, ", ");
    push_u64(&mut v, input.fold_end_ordinal);
    push_str(&mut v, ")\nNode trajs: ");
    push_str(&mut v, node_trajs_path);
    push_str(&mut v, "\nRaw mirror: ");
    push_str(&mut v, raw_mirror.as_str());
    push_str(&mut v, "\nRollout: ");
    push_str(&mut v, input.rollout_path.as_str());
    push_str(&mut v, "\n\n");
    push_str(&mut v, compacted_suffix);
    push_str(&mut v, "\n\n## Node Summary\n\n");
    push_str(&mut v, input.transition_summary.as_str());
    push_str(&mut v, "\n");
    string_of(&v)
}

/// What a compaction produced: the memory section, the compacted body, and
/// the message that records the compaction.
#[derive(Clone, Debug, PartialEq, Eq)]
pub struct SpineCompactOutput {
    pub memory_markdown: String,
    pub compacted_body: String,
    pub compact_message: String,
}

/// The message that records a compaction: the node and the folded range.
pub open spec fn compact_message_text(input: SpineCompactInput) -> Seq<char> {
    "Spine compacted "@ + node_id_text(input.node_id@) + " ["@ + dec(input.cut_ordinal as nat) + ", "@ + dec(
        input.fold_end_ordinal as nat,
    ) + ")"@
}

/// What a compaction produced from the model's response: the response's
/// Markdown, and its memory section.
pub fn compact_output_from_response(input: &SpineCompactInput, response_text: &str, node_trajs_path: &str) -> (r: Result<
    SpineCompactOutput,
    CompactMarkdownError,
>)
    ensures
        trim_spec(response_text@).len() == 0 ==> r == Err::<SpineCompactOutput, CompactMarkdownError>(
            CompactMarkdownError::Empty,
        ),
        trim_spec(response_text@).len() > 0 && has_xml_wrapper(trim_spec(response_text@)) ==> r == Err::<
            SpineCompactOutput,
            CompactMarkdownError,
        >(CompactMarkdownError::XmlWrapper),
        trim_spec(response_text@).len() > 0 && !has_xml_wrapper(trim_spec(response_text@)) ==> (r matches Ok(o) && {
            &&& o.compacted_body@ == trim_spec(response_text@)
            &&& o.memory_markdown@ == auto_compact_text(*input, trim_spec(response_text@), node_trajs_path@)
            &&& o.compact_message@ == compact_message_text(*input)
        }),
{
    let compacted_suffix = extract_spine_compact_markdown(response_text)?;
    let memory_markdown = render_auto_compact_memory(input, compacted_suffix.as_str(), node_trajs_path);
    let mut m = chars_of("Spine compacted ");
    let t = input.node_id.to_text();
    crate::text::push_all(&mut m, &t);
    push_str(&mut m, " [");
    push_u64(&mut m, input.cut_ordinal);
    push_str(&mut m, ", ");
    push_u64(&mut m, input.fold_end_ordinal);
    push_str(&mut m, ")");
    Ok(SpineCompactOutput { compact_message: string_of(&m), memory_markdown, compacted_body: compacted_suffix })
}

/// What to do after a compaction stream failed.
#[derive(Clone, Copy, Debug, PartialEq, Eq, Structural)]
pub enum CompactStreamStep {
    /// Wait, then try again; this is try number `retries`.
    Retry { retries: u64 },
    /// Give up with the error.
    Fail,
}

/// After a failed compaction stream: a retryable failure is retried while
/// fewer than `max_retries` retries were made; anything else fails.
pub fn compact_stream_retry(retries: u64, max_retries: u64, retryable: bool) -> (r: CompactStreamStep)
    ensures
        r == (if retryable && retries < max_retries {
            CompactStreamStep::Retry { retries: (retries + 1) as u64 }
        } else {
            CompactStreamStep::Fail
        }),
        r matches CompactStreamStep::Retry { retries: n } ==> n <= max_retries,
{
    if retryable && retries < max_retries {
        CompactStreamStep::Retry { retries: retries + 1 }
    } else {
        CompactStreamStep::Fail
    }
}

/// The notice shown while retrying a compaction stream.
pub fn reconnecting_notice(retries: u64, max_retries: u64) -> (r: String)
    ensures
        r@ == "Reconnecting... "@ + dec(retries as nat) + "/"@ + dec(max_retries as nat),
{
    let mut m = chars_of("Reconnecting... ");
    push_u64(&mut m, retries);
    push_str(&mut m, "/");
    push_u64(&mut m, max_retries);
    string_of(&m)
}


/// Every native compaction item, of either kind, stops the raw mapping: it is
/// classified `Stop` wherever it stands, and the span cursor stays put.
pub proof fn lemma_native_compaction_stops(
    item: ResponseItem,
    raw: u64,
    spans: Seq<InstalledCompactSpan>,
    sc: nat,
)
    requires
        item is Compaction || item is ContextCompaction,
    ensures
        is_non_spine_compact_spec(item),
        fold_classify_spec(item, raw, spans, sc) == Some((EffectiveItemSemantics::Stop, sc)),
{
    reveal(fold_classify_spec);
}

proof fn lemma_index_stops_at_native_compaction(
    h: Seq<ResponseItem>,
    spans: Seq<InstalledCompactSpan>,
    target: u64,
    j: int,
    k: nat,
    raw: u64,
    sc: nat,
)
    requires
        0 <= j < h.len(),
        h[j] is Compaction || h[j] is ContextCompaction,
        k <= j,
    ensures
        index_for_raw_from(h, spans, target, k, raw, sc) matches Some(i) ==> i <= j,
    decreases j - k,
{
    if k == j {
        lemma_native_compaction_stops(h[j], raw, spans, sc);
    } else {
        match fold_classify_spec(h[k as int], raw, spans, sc) {
            None => {},
            Some((sem, sc2)) => match sem {
                EffectiveItemSemantics::Raw1 => {
                    if raw != target && raw != u64::MAX {
                        lemma_index_stops_at_native_compaction(h, spans, target, j, k + 1, (raw + 1) as u64, sc2);
                    }
                },
                EffectiveItemSemantics::Zero => {
                    lemma_index_stops_at_native_compaction(h, spans, target, j, k + 1, raw, sc2);
                },
                EffectiveItemSemantics::Span { cut, fold_end } => {
                    lemma_index_stops_at_native_compaction(h, spans, target, j, k + 1, fold_end, sc2);
                },
                EffectiveItemSemantics::Stop => {},
            },
        }
    }
}

/// No raw ordinal maps past a native compaction item: whatever index a raw
/// ordinal maps to lies at or before the first such item of the history.
pub proof fn lemma_raw_mapping_stops_at_native_compaction(
    h: Seq<ResponseItem>,
    spans: Seq<InstalledCompactSpan>,
    target: u64,
    j: int,
)
    requires
        0 <= j < h.len(),
        h[j] is Compaction || h[j] is ContextCompaction,
    ensures
        index_for_raw_from(h, spans, target, 0, 0, 0) matches Some(i) ==> i <= j,
{
    lemma_index_stops_at_native_compaction(h, spans, target, j, 0, 0, 0);
}

} // verus!
