//! Spine compaction texts: tag headers, the memory markdown header, the
//! compacted-context outlines, and the ledger check of legacy IR items.
use crate::host_bridge::{
    current_memory_metadata_spec, lemma_memory_id_round_trip, memory_pair_text, parse_label_spec,
    parse_spine_operation_label, spine_memory_synthetic_id, spine_memory_text_marker,
    SpineMemoryMetadata, SPINE_INITIAL_CONTEXT_CLOSE_TAG, SPINE_INITIAL_CONTEXT_OPEN_TAG,
    SPINE_MEMORY_ID_PREFIX, SPINE_MEMORY_MARKER_PREFIX, SPINE_MEMORY_MARKER_SUFFIX,
};
use crate::ids::{node_id_text, parse_node_id_spec, NodeId, ParsedNodeId};
use crate::items::{first_text, first_text_of, ContentItem, ResponseItem};
use crate::mem_install::{split_chars, split_from};
use crate::model::{op_label, op_label_spec, InstalledCompactSpan, SpineOperation};
use crate::text::{
    chars_of, dec, eq_chars, find, first_occurrence, has_prefix, owned, parse_unsigned,
    parse_unsigned_chars, push_all, push_str, push_u64, slice_chars, starts_with, str_eq, string_of,
    strip_prefix, trim, trim_spec,
};
use vstd::prelude::*;

verus! {

// ----------------------------------------------------------------------------
// Tag headers: `key="value"`
// ----------------------------------------------------------------------------
/// `s` split around the first occurrence of `pat` (`str::split_once`).
pub open spec fn split_once_spec(s: Seq<char>, pat: Seq<char>) -> Option<(Seq<char>, Seq<char>)> {
    match first_occurrence(s, pat) {
        Some(i) => Some((s.take(i), s.skip(i + pat.len()))),
        None => None,
    }
}

pub(crate) fn split_once_first(s: &Vec<char>, pat: &Vec<char>) -> (r: Option<(Vec<char>, Vec<char>)>)
    ensures
        match split_once_spec(s@, pat@) {
            Some((a, b)) => r matches Some((x, y)) && x@ == a && y@ == b,
            None => r is None,
        },
{
    match find(s, pat) {
        Some(i) => {
            assert(i + pat.len() <= s.len());
            let a = slice_chars(s, 0, i);
            let b = slice_chars(s, i + pat.len(), s.len());
            Some((a, b))
        },
        None => None,
    }
}

/// The value of attribute `key` in a tag header: the text after the first
/// `key="` up to the next `"`.
pub open spec fn tag_string_spec(header: Seq<char>, key: Seq<char>) -> Option<Seq<char>> {
    match split_once_spec(header, key + "=\""@) {
        Some((_, after)) => match split_once_spec(after, "\""@) {
            Some((value, _)) => Some(value),
            None => None,
        },
        None => None,
    }
}

/// The value of attribute `key` in a tag header.
pub fn parse_tag_string(header: &str, key: &str) -> (r: Option<String>)
    ensures
        match tag_string_spec(header@, key@) {
            Some(v) => r matches Some(s) && s@ == v,
            None => r is None,
        },
{
    let h = chars_of(header);
    let mut needle = chars_of(key);
    push_str(&mut needle, "=\"");
    let after = match split_once_first(&h, &needle) {
        Some((_, after)) => after,
        None => {
            return None;
        },
    };
    let quote = chars_of("\"");
    match split_once_first(&after, &quote) {
        Some((value, _)) => Some(string_of(&value)),
        None => None,
    }
}

/// The unsigned number of attribute `key` in a tag header.
pub open spec fn tag_value_spec(header: Seq<char>, key: Seq<char>) -> Option<nat> {
    match tag_string_spec(header, key) {
        Some(v) => parse_unsigned(v, u64::MAX as nat),
        None => None,
    }
}

/// The unsigned number of attribute `key` in a tag header.
pub fn parse_tag_value(header: &str, key: &str) -> (r: Option<u64>)
    ensures
        match tag_value_spec(header@, key@) {
            Some(n) => r == Some(n as u64),
            None => r is None,
        },
{
    match parse_tag_string(header, key) {
        Some(v) => {
            let c = chars_of(v.as_str());
            parse_unsigned_chars(&c, u64::MAX)
        },
        None => None,
    }
}

// ----------------------------------------------------------------------------
// Spine IR items
// ----------------------------------------------------------------------------
/// The raw span that a Spine IR item records.
#[derive(Clone, Copy, Debug, PartialEq, Eq, Structural)]
pub struct SpineIrMetadata {
    pub fold_start: u64,
    pub fold_end: u64,
}

/// The id of a Spine IR item: `spine-ir:<node>:<start>-<end>:<op>`.
pub open spec fn spine_ir_id_spec(node_id: Seq<u32>, op: SpineOperation, fold_start: u64, fold_end: u64) -> Seq<char> {
    "spine-ir:"@ + node_id_text(node_id) + ":"@ + dec(fold_start as nat) + "-"@ + dec(fold_end as nat)
        + ":"@ + op_label_spec(op)
}

/// The id of a Spine IR item.
pub fn spine_ir_synthetic_id(node_id: &NodeId, op: SpineOperation, fold_start: u64, fold_end: u64) -> (r: String)
    ensures
        r@ == spine_ir_id_spec(node_id@, op, fold_start, fold_end),
{
    let mut v = chars_of("spine-ir:");
    let t = node_id.to_text();
    push_all(&mut v, &t);
    push_str(&mut v, ":");
    push_u64(&mut v, fold_start);
    push_str(&mut v, "-");
    push_u64(&mut v, fold_end);
    push_str(&mut v, ":");
    let l = op_label(op);
    push_all(&mut v, &l);
    string_of(&v)
}

/// What a Spine IR item records, read from an assistant or user message whose
/// first text opens `<spine_ir ...>` with an `id` that starts `spine-ir:` (and
/// equals the item's id, if it has one) and numeric `fold_start`/`fold_end`.
pub open spec fn ir_metadata_spec(item: ResponseItem) -> Option<SpineIrMetadata> {
    match item {
        ResponseItem::Message { id, role, content, .. } => if role@ == "assistant"@ || role@ == "user"@ {
            match first_text(content@) {
                Some(text) => if has_prefix(text, "<spine_ir "@) {
                    match split_once_spec(text.skip(10), ">"@) {
                        Some((header, _)) => match tag_string_spec(header, "id"@) {
                            Some(text_id) => if has_prefix(text_id, "spine-ir:"@) && (match id {
                                Some(item_id) => item_id@ == text_id,
                                None => true,
                            }) {
                                match (tag_value_spec(header, "fold_start"@), tag_value_spec(header, "fold_end"@)) {
                                    (Some(a), Some(b)) => Some(SpineIrMetadata { fold_start: a as u64, fold_end: b as u64 }),
                                    _ => None,
                                }
                            } else {
                                None
                            },
                            None => None,
                        },
                        None => None,
                    }
                } else {
                    None
                },
                None => None,
            }
        } else {
            None
        },
        _ => None,
    }
}

/// What a Spine IR item records, if the item is one.
pub fn parse_spine_ir_metadata(item: &ResponseItem) -> (r: Option<SpineIrMetadata>)
    ensures
        r == ir_metadata_spec(*item),
{
    match item {
        ResponseItem::Message { id, role, content, .. } => {
            if !(str_eq(role.as_str(), "assistant") || str_eq(role.as_str(), "user")) {
                return None;
            }
            let text = match first_text_of(content) {
                Some(t) => chars_of(t.as_str()),
                None => {
                    return None;
                },
            };
            let open = chars_of("<spine_ir ");
            proof {
                reveal_strlit("<spine_ir ");
            }
            let rest = match strip_prefix(&text, &open) {
                Some(rest) => rest,
                None => {
                    return None;
                },
            };
            assert(rest@ =~= text@.skip(10));
            let gt = chars_of(">");
            let header = match split_once_first(&rest, &gt) {
                Some((h, _)) => string_of(&h),
                None => {
                    return None;
                },
            };
            let text_id = match parse_tag_string(header.as_str(), "id") {
                Some(t) => chars_of(t.as_str()),
                None => {
                    return None;
                },
            };
            let prefix = chars_of("spine-ir:");
            if !starts_with(&text_id, &prefix) {
                return None;
            }
            match id {
                Some(item_id) => {
                    let item_chars = chars_of(item_id.as_str());
                    if !eq_chars(&item_chars, &text_id) {
                        return None;
                    }
                },
                None => {},
            }
            let fold_start = match parse_tag_value(header.as_str(), "fold_start") {
                Some(v) => v,
                None => {
                    return None;
                },
            };
            let fold_end = match parse_tag_value(header.as_str(), "fold_end") {
                Some(v) => v,
                None => {
                    return None;
                },
            };
            Some(SpineIrMetadata { fold_start, fold_end })
        },
        _ => None,
    }
}

/// The first span at or after position `i` of the ledger that records the raw
/// span `[a, b)`.
pub open spec fn first_span_at(spans: Seq<InstalledCompactSpan>, i: nat, a: u64, b: u64) -> Option<nat>
    decreases spans.len() - i,
{
    if i >= spans.len() {
        None
    } else if spans[i as int].cut_ordinal == a && spans[i as int].fold_end_ordinal == b {
        Some(i)
    } else {
        first_span_at(spans, i + 1, a, b)
    }
}

/// The span cursor after a legacy IR item at raw cursor `raw` consumes its
/// ledger span (the first one at or after the cursor with the same bounds), or
/// `None` when the ledger does not hold it. An empty ledger accepts any item.
pub open spec fn legacy_consume_spec(
    spans: Seq<InstalledCompactSpan>,
    sc: nat,
    meta: SpineIrMetadata,
    raw: u64,
) -> Option<nat> {
    if spans.len() == 0 {
        Some(sc)
    } else if meta.fold_start != raw {
        None
    } else {
        match first_span_at(spans, sc, meta.fold_start, meta.fold_end) {
            Some(k) => Some(k + 1),
            None => None,
        }
    }
}

/// Consumes the ledger span of a legacy IR item at `raw_cursor`, advancing the
/// span cursor past the first matching span at or after it.
pub fn consume_runtime_span_for_legacy(
    runtime_spans: &Vec<InstalledCompactSpan>,
    span_cursor: &mut usize,
    meta: &SpineIrMetadata,
    raw_cursor: u64,
) -> (r: bool)
    ensures
        match legacy_consume_spec(runtime_spans@, *old(span_cursor) as nat, *meta, raw_cursor) {
            Some(n) => r && *final(span_cursor) as nat == n,
            None => !r && *final(span_cursor) == *old(span_cursor),
        },
{
    if runtime_spans.len() == 0 {
        return true;
    }
    if meta.fold_start != raw_cursor {
        return false;
    }
    let ghost spans = runtime_spans@;
    let mut i = *span_cursor;
    while i < runtime_spans.len()
        invariant
            spans == runtime_spans@,
            spans.len() > 0,
            meta.fold_start == raw_cursor,
            *span_cursor == *old(span_cursor),
            first_span_at(spans, *old(span_cursor) as nat, meta.fold_start, meta.fold_end)
                == first_span_at(spans, i as nat, meta.fold_start, meta.fold_end),
        decreases runtime_spans.len() - i,
    {
        if runtime_spans[i].cut_ordinal == meta.fold_start && runtime_spans[i].fold_end_ordinal == meta.fold_end {
            assert(first_span_at(spans, i as nat, meta.fold_start, meta.fold_end) == Some(i as nat));
            *span_cursor = i + 1;
            return true;
        }
        i = i + 1;
    }
    assert(first_span_at(spans, i as nat, meta.fold_start, meta.fold_end) is None);
    false
}

// ----------------------------------------------------------------------------
// Outlines
// ----------------------------------------------------------------------------
/// The rows `|-- <summary> (<path>)\n` of an outline.
pub open spec fn outline_rows(rows: Seq<(String, String)>) -> Seq<char>
    decreases rows.len(),
{
    if rows.len() == 0 {
        Seq::empty()
    } else {
        outline_rows(rows.drop_last()) + "|-- "@ + rows.last().0@ + " ("@ + rows.last().1@ + ")\n"@
    }
}

/// The compacted-context outline of a scope and its children.
pub open spec fn context_outline_spec(
    scope_node_id: Seq<u32>,
    scope_summary: Seq<char>,
    base_path: Seq<char>,
    scope_memory_path: Seq<char>,
    rows: Seq<(String, String)>,
) -> Seq<char> {
    "## Context Compacted\n\n"@ + "Base: "@ + base_path + "\n"@ + "["@ + node_id_text(scope_node_id) + "] "@
        + scope_summary + " ("@ + scope_memory_path + ")\n"@ + outline_rows(rows)
}

/// Renders the compacted-context outline: the base, the scope, and one row per
/// child (summary and path).
pub fn render_context_compacted_outline(
    scope_node_id: &NodeId,
    scope_summary: &str,
    base_path: &str,
    scope_memory_path: &str,
    child_rows: &Vec<(String, String)>,
) -> (r: String)
    ensures
        r@ == context_outline_spec(scope_node_id@, scope_summary@, base_path@, scope_memory_path@, child_rows@),
{
    let mut v = chars_of("## Context Compacted\n\n");
    push_str(&mut v, "Base: ");
    push_str(&mut v, base_path);
    push_str(&mut v, "\n");
    push_str(&mut v, "[");
    let t = scope_node_id.to_text();
    push_all(&mut v, &t);
    push_str(&mut v, "] ");
    push_str(&mut v, scope_summary);
    push_str(&mut v, " (");
    push_str(&mut v, scope_memory_path);
    push_str(&mut v, ")\n");
    let ghost head = v@;
    assert(head =~= "## Context Compacted\n\n"@ + "Base: "@ + base_path@ + "\n"@ + "["@ + node_id_text(scope_node_id@) + "] "@
        + scope_summary@ + " ("@ + scope_memory_path@ + ")\n"@);
    let mut i: usize = 0;
    while i < child_rows.len()
        invariant
            i <= child_rows.len(),
            v@ == head + outline_rows(child_rows@.take(i as int)),
        decreases child_rows.len() - i,
    {
        let ghost before = v@;
        push_str(&mut v, "|-- ");
        push_str(&mut v, child_rows[i].0.as_str());
        push_str(&mut v, " (");
        push_str(&mut v, child_rows[i].1.as_str());
        push_str(&mut v, ")\n");
        proof {
            assert(child_rows@.take(i + 1).drop_last() =~= child_rows@.take(i as int));
            assert(v@ =~= head + outline_rows(child_rows@.take(i + 1)));
        }
        i = i + 1;
    }
    assert(child_rows@.take(i as int) =~= child_rows@);
    string_of(&v)
}

/// The rows `|-- <row>\n` of a slim outline.
pub open spec fn slim_rows(rows: Seq<String>) -> Seq<char>
    decreases rows.len(),
{
    if rows.len() == 0 {
        Seq::empty()
    } else {
        slim_rows(rows.drop_last()) + "|-- "@ + rows.last()@ + "\n"@
    }
}

/// Renders the slim compacted-context outline: the scope and one row per child.
pub fn render_slim_context_compacted_outline(
    scope_node_id: &NodeId,
    scope_summary: &str,
    child_rows: &Vec<String>,
) -> (r: String)
    ensures
        r@ == "## Context Compacted\n\n"@ + "["@ + node_id_text(scope_node_id@) + "] "@ + scope_summary@
            + "\n"@ + slim_rows(child_rows@),
{
    let mut v = chars_of("## Context Compacted\n\n");
    push_str(&mut v, "[");
    let t = scope_node_id.to_text();
    push_all(&mut v, &t);
    push_str(&mut v, "] ");
    push_str(&mut v, scope_summary);
    push_str(&mut v, "\n");
    let ghost head = v@;
    let mut i: usize = 0;
    while i < child_rows.len()
        invariant
            i <= child_rows.len(),
            v@ == head + slim_rows(child_rows@.take(i as int)),
        decreases child_rows.len() - i,
    {
        push_str(&mut v, "|-- ");
        push_str(&mut v, child_rows[i].as_str());
        push_str(&mut v, "\n");
        proof {
            assert(child_rows@.take(i + 1).drop_last() =~= child_rows@.take(i as int));
            assert(v@ =~= head + slim_rows(child_rows@.take(i + 1)));
        }
        i = i + 1;
    }
    assert(child_rows@.take(i as int) =~= child_rows@);
    string_of(&v)
}

// ----------------------------------------------------------------------------
// The markdown header of a Spine memory
// ----------------------------------------------------------------------------
/// `line` without a final carriage return.
pub open spec fn strip_cr(line: Seq<char>) -> Seq<char> {
    if line.len() > 0 && line.last() == '\r' {
        line.drop_last()
    } else {
        line
    }
}

/// The lines of a text as `str::lines` yields them: cut at each `\n`, a `\r`
/// before it dropped, no empty line after a final `\n`.
pub open spec fn lines_spec(s: Seq<char>) -> Seq<Seq<char>> {
    let pieces = split_from(s, "\n"@, 0);
    let n = pieces.len() as int;
    let body = pieces.take(n - 1).map_values(|p: Seq<char>| strip_cr(p));
    if pieces[n - 1].len() == 0 {
        body
    } else {
        body.push(pieces[n - 1])
    }
}

/// What the header lines have given so far: a node id and an operation, each
/// once found; `None` once a line is malformed.
pub open spec fn md_scan(
    lines: Seq<Seq<char>>,
    node: Option<Seq<u32>>,
    op: Option<SpineOperation>,
) -> Option<(Option<Seq<u32>>, Option<SpineOperation>)>
    decreases lines.len(),
{
    if lines.len() == 0 {
        Some((node, op))
    } else {
        let line = lines[0];
        let step: Option<(Option<Seq<u32>>, Option<SpineOperation>)> = if has_prefix(line, "Node: "@) {
            match parse_node_id_spec(line.skip(6)) {
                ParsedNodeId::Parsed(segs) => Some((Some(segs), op)),
                _ => None,
            }
        } else if has_prefix(line, "Operation: "@) {
            match parse_label_spec(line.skip(11)) {
                Some(o) => Some((node, Some(o))),
                None => None,
            }
        } else {
            Some((node, op))
        };
        match step {
            None => None,
            Some((n, o)) => if n is Some && o is Some {
                Some((n, o))
            } else {
                md_scan(lines.drop_first(), n, o)
            },
        }
    }
}

/// The node and operation in the markdown header of a Spine memory: the first
/// line is `## Spine Memory`, and the next eight lines give `Node: ` and
/// `Operation: `; a malformed one of them voids the header.
pub open spec fn markdown_metadata_spec(text: Seq<char>) -> Option<(Seq<u32>, SpineOperation)> {
    let lines = lines_spec(text);
    if lines.len() == 0 || lines[0] != "## Spine Memory"@ {
        None
    } else {
        match md_scan(lines.skip(1).take(if lines.len() - 1 < 8 { lines.len() - 1 } else { 8 }), None, None) {
            Some((Some(n), Some(o))) => Some((n, o)),
            _ => None,
        }
    }
}

/// Only the heading and the eight lines after it decide the header of a
/// Spine memory: two texts that agree on their first nine lines give the same
/// node and operation, whatever follows.
pub proof fn lemma_markdown_metadata_reads_nine_lines(t1: Seq<char>, t2: Seq<char>)
    requires
        lines_spec(t1).len() >= 9,
        lines_spec(t2).len() >= 9,
        lines_spec(t1).take(9) == lines_spec(t2).take(9),
    ensures
        markdown_metadata_spec(t1) == markdown_metadata_spec(t2),
{
    let l1 = lines_spec(t1);
    let l2 = lines_spec(t2);
    assert(l1[0] == l1.take(9)[0]);
    assert(l2[0] == l2.take(9)[0]);
    assert forall|k: int| 0 <= k < 8 implies l1.skip(1).take(8)[k] == l2.skip(1).take(8)[k] by {
        assert(l1.take(9)[k + 1] == l1[k + 1]);
        assert(l2.take(9)[k + 1] == l2[k + 1]);
    }
    assert(l1.skip(1).take(8) =~= l2.skip(1).take(8));
}

/// The lines of a text (`str::lines`).
pub fn text_lines(text: &Vec<char>) -> (r: Vec<Vec<char>>)
    ensures
        r@.len() == lines_spec(text@).len(),
        forall|k: int| 0 <= k < r@.len() ==> #[trigger] r@[k]@ == lines_spec(text@)[k],
{
    let nl = chars_of("\n");
    proof {
        reveal_strlit("\n");
    }
    let pieces = split_chars(text, &nl);
    let ghost ps = split_from(text@, nl@, 0);
    assert(ps.len() >= 1);
    let n = pieces.len();
    let ghost body = ps.take(n - 1).map_values(|p: Seq<char>| strip_cr(p));
    let mut r: Vec<Vec<char>> = Vec::new();
    let mut i: usize = 0;
    while i + 1 < n
        invariant
            n == pieces@.len(),
            n >= 1,
            i + 1 <= n,
            ps.len() == n,
            forall|k: int| 0 <= k < n ==> #[trigger] pieces@[k]@ == ps[k],
            body == ps.take(n - 1).map_values(|p: Seq<char>| strip_cr(p)),
            r@.len() == i,
            forall|k: int| 0 <= k < i ==> #[trigger] r@[k]@ == body[k],
        decreases n - i,
    {
        let p = &pieces[i];
        if p.len() > 0 && p[p.len() - 1] == '\r' {
            r.push(slice_chars(p, 0, p.len() - 1));
            assert(r@[i as int]@ =~= p@.drop_last());
        } else {
            r.push(slice_chars(p, 0, p.len()));
            assert(r@[i as int]@ =~= p@);
        }
        assert(body[i as int] == strip_cr(ps[i as int]));
        i = i + 1;
    }
    let last = &pieces[n - 1];
    if last.len() > 0 {
        r.push(slice_chars(last, 0, last.len()));
        assert(r@[n - 1]@ =~= last@);
    }
    proof {
        let spec = lines_spec(text@);
        if ps[n - 1].len() == 0 {
            assert(spec == body);
        } else {
            assert(spec == body.push(ps[n - 1]));
        }
    }
    r
}

/// The node and operation in the markdown header of a Spine memory, if it has one.
pub fn parse_markdown_spine_memory_metadata(text: &str) -> (r: Option<SpineMemoryMetadata>)
    ensures
        match markdown_metadata_spec(text@) {
            Some((n, o)) => r matches Some(m) && m.node_id@ == n && m.op == o,
            None => r is None,
        },
{
    let t = chars_of(text);
    let lines = text_lines(&t);
    let heading = chars_of("## Spine Memory");
    if lines.len() == 0 || !eq_chars(&lines[0], &heading) {
        return None;
    }
    let ghost all = lines_spec(text@);
    assert(all[0] == lines@[0]@);
    let count: usize = if lines.len() - 1 < 8 { lines.len() - 1 } else { 8 };
    let ghost window = all.skip(1).take(count as int);
    let node_prefix = chars_of("Node: ");
    let op_prefix = chars_of("Operation: ");
    proof {
        reveal_strlit("Node: ");
        reveal_strlit("Operation: ");
    }
    let mut node_id: Option<NodeId> = None;
    let mut op: Option<SpineOperation> = None;
    let mut k: usize = 0;
    assert(window.skip(0) =~= window);
    assert(window.len() == count);
    while k < count && !(node_id.is_some() && op.is_some())
        invariant
            all == lines_spec(text@),
            all.len() > 0,
            all[0] == "## Spine Memory"@,
            count == (if all.len() - 1 < 8 { all.len() - 1 } else { 8 }),
            count <= lines.len() - 1,
            window.len() == count,
            node_prefix.len() == 6,
            op_prefix.len() == 11,
            lines@.len() == all.len(),
            forall|j: int| 0 <= j < lines@.len() ==> #[trigger] lines@[j]@ == all[j],
            window == all.skip(1).take(count as int),
            node_prefix@ == "Node: "@,
            op_prefix@ == "Operation: "@,
            k <= count,
            md_scan(window, None, None) == if node_id is Some && op is Some {
                Some((Some(node_id->0@), op))
            } else {
                md_scan(window.skip(k as int), match node_id {
                    Some(n) => Some(n@),
                    None => None,
                }, op)
            },
        decreases count - k,
    {
        let line = &lines[k + 1];
        let ghost rest = window.skip(k as int);
        assert(rest[0] == line@);
        assert(rest.drop_first() =~= window.skip(k + 1));
        if starts_with(line, &node_prefix) {
            let value = slice_chars(line, node_prefix.len(), line.len());
            assert(value@ =~= line@.skip(6));
            let s = string_of(&value);
            match NodeId::parse(s.as_str()) {
                Ok(n) => {
                    node_id = Some(n);
                },
                Err(_) => {
                    return None;
                },
            }
        } else if starts_with(line, &op_prefix) {
            let value = slice_chars(line, op_prefix.len(), line.len());
            assert(value@ =~= line@.skip(11));
            match parse_spine_operation_label(&value) {
                Some(o) => {
                    op = Some(o);
                },
                None => {
                    return None;
                },
            }
        }
        k = k + 1;
    }
    match (node_id, op) {
        (Some(node_id), Some(op)) => Some(SpineMemoryMetadata { node_id, op }),
        _ => {
            proof {
                assert(window.skip(k as int).len() == 0);
            }
            None
        },
    }
}

// ----------------------------------------------------------------------------
// Rendered items
// ----------------------------------------------------------------------------
/// The text of a rendered memory: the durable marker line, the header and the
/// trimmed body.
pub open spec fn memory_item_text(node_id: Seq<u32>, op: SpineOperation, summary: Seq<char>, body: Seq<char>) -> Seq<char> {
    SPINE_MEMORY_MARKER_PREFIX@ + memory_pair_text(node_id, op) + SPINE_MEMORY_MARKER_SUFFIX@
        + "\n## Spine Memory\n\nNode: "@ + node_id_text(node_id) + "\nOperation: "@ + op_label_spec(op)
        + "\nSummary: "@ + summary + "\n\n"@ + trim_spec(body)
}

/// `item` is an assistant message with id `id`, no phase, and one output text `text`.
pub open spec fn is_assistant_output(item: ResponseItem, id: Seq<char>, text: Seq<char>) -> bool {
    match item {
        ResponseItem::Message { id: Some(i), role, content, phase: None } => i@ == id && role@ == "assistant"@
            && content@.len() == 1 && (match content@[0] {
            ContentItem::OutputText { text: t } => t@ == text,
            _ => false,
        }),
        _ => false,
    }
}

/// `item` is a developer message with no id or phase and one input text `text`.
pub open spec fn is_developer_input(item: ResponseItem, text: Seq<char>) -> bool {
    match item {
        ResponseItem::Message { id: None, role, content, phase: None } => role@ == "developer"@
            && content@.len() == 1 && (match content@[0] {
            ContentItem::InputText { text: t } => t@ == text,
            _ => false,
        }),
        _ => false,
    }
}

/// The assistant message that carries a node's compiled memory.
pub fn render_spine_memory_item(node_id: &NodeId, op: SpineOperation, summary: &str, memory_body: &str) -> (r: ResponseItem)
    ensures
        is_assistant_output(r, SPINE_MEMORY_ID_PREFIX@ + memory_pair_text(node_id@, op), memory_item_text(node_id@, op, summary@, memory_body@)),
{
    let marker = spine_memory_text_marker(node_id, op);
    let mut v = chars_of(marker.as_str());
    push_str(&mut v, "\n## Spine Memory\n\nNode: ");
    let t = node_id.to_text();
    push_all(&mut v, &t);
    push_str(&mut v, "\nOperation: ");
    let l = op_label(op);
    push_all(&mut v, &l);
    push_str(&mut v, "\nSummary: ");
    push_str(&mut v, summary);
    push_str(&mut v, "\n\n");
    let body = trim(&chars_of(memory_body));
    push_all(&mut v, &body);
    assert(v@ =~= memory_item_text(node_id@, op, summary@, memory_body@));
    let mut content: Vec<ContentItem> = Vec::new();
    content.push(ContentItem::OutputText { text: string_of(&v) });
    ResponseItem::Message {
        id: Some(spine_memory_synthetic_id(node_id, op)),
        role: owned("assistant"),
        content,
        phase: None,
    }
}

/// The text of the developer handoff between two nodes.
pub open spec fn handoff_text(from: Seq<u32>, to: Seq<u32>) -> Seq<char> {
    "<spine_handoff>\nSpine transition completed: "@ + node_id_text(from) + " -> "@ + node_id_text(to)
        + "; use "@ + node_id_text(from) + HANDOFF_TAIL@
}

/// What the handoff says after naming the nodes.
pub const HANDOFF_TAIL: &'static str = "'s generated memory as the active-turn handoff. Spine Memory is internal context; never expose or imitate it in user-visible messages. Continue following preserved system, developer, and project instructions.\n\nTreat raw folded conversation as historical evidence, but treat unresolved user-facing conclusions, decisions, blockers, and next actions captured in the generated memory as current obligations. If the latest user request or generated memory indicates unfinished work, reconstruct the current node plan from the generated memory, latest user intent, and current evidence before continuing. Before asking for new instructions, answer or continue any pending latest user request using that context.\n</spine_handoff>";

/// The developer message that hands the turn from one node to the next.
pub fn render_spine_handoff_item(from_node: &NodeId, to_node: &NodeId) -> (r: ResponseItem)
    ensures
        is_developer_input(r, handoff_text(from_node@, to_node@)),
{
    let mut v = chars_of("<spine_handoff>\nSpine transition completed: ");
    let f = from_node.to_text();
    push_all(&mut v, &f);
    push_str(&mut v, " -> ");
    let t = to_node.to_text();
    push_all(&mut v, &t);
    push_str(&mut v, "; use ");
    push_all(&mut v, &f);
    push_str(&mut v, HANDOFF_TAIL);
    assert(v@ =~= handoff_text(from_node@, to_node@));
    let mut content: Vec<ContentItem> = Vec::new();
    content.push(ContentItem::InputText { text: string_of(&v) });
    ResponseItem::Message { id: None, role: owned("developer"), content, phase: None }
}

/// The developer message that wraps initial context, given the context's JSON
/// encoding: the open tag, the JSON and the close tag, on their own lines.
pub fn render_spine_initial_context_item(encoded_initial_context: &str) -> (r: ResponseItem)
    ensures
        is_developer_input(r, SPINE_INITIAL_CONTEXT_OPEN_TAG@ + "\n"@ + encoded_initial_context@ + "\n"@ + SPINE_INITIAL_CONTEXT_CLOSE_TAG@),
{
    let mut v = chars_of(SPINE_INITIAL_CONTEXT_OPEN_TAG);
    push_str(&mut v, "\n");
    push_str(&mut v, encoded_initial_context);
    push_str(&mut v, "\n");
    push_str(&mut v, SPINE_INITIAL_CONTEXT_CLOSE_TAG);
    let mut content: Vec<ContentItem> = Vec::new();
    content.push(ContentItem::InputText { text: string_of(&v) });
    ResponseItem::Message { id: None, role: owned("developer"), content, phase: None }
}

/// A memory rendered for a node (with positive segments) is read back as that
/// node's memory by the same operation.
pub proof fn lemma_rendered_memory_recognized(item: ResponseItem, node_id: Seq<u32>, op: SpineOperation, summary: Seq<char>, body: Seq<char>)
    requires
        node_id.len() > 0,
        crate::ids::positive_segments(node_id),
        is_assistant_output(item, SPINE_MEMORY_ID_PREFIX@ + memory_pair_text(node_id, op), memory_item_text(node_id, op, summary, body)),
    ensures
        current_memory_metadata_spec(item) == Some((node_id, op)),
{
    lemma_memory_id_round_trip(node_id, op);
    match item {
        ResponseItem::Message { id, role, content, .. } => {
            assert(content@.drop_first().len() == 0);
            reveal_strlit("assistant");
        },
        _ => {},
    }
}


/// The text of a Spine IR item: its tag with id, node, operation and fold
/// range, then the summary, base, memory path and the memory body.
pub open spec fn ir_item_text(
    node_id: Seq<u32>,
    op: SpineOperation,
    summary: Seq<char>,
    base_path: Seq<char>,
    memory_path: Seq<char>,
    memory_body: Seq<char>,
    fold_start: u64,
    fold_end: u64,
) -> Seq<char> {
    "<spine_ir id=\""@ + spine_ir_id_spec(node_id, op, fold_start, fold_end) + "\" node=\""@ + node_id_text(node_id)
        + "\" op=\""@ + op_label_spec(op) + "\" runtime_generated=\"true\" fold_start=\""@ + dec(fold_start as nat)
        + "\" fold_end=\""@ + dec(fold_end as nat) + "\">\nSummary: "@ + summary + "\nBase: "@ + base_path
        + "\nMemory path: "@ + memory_path + "\n\n<memory>\n"@ + memory_body + "\n</memory>\n</spine_ir>"@
}

/// The assistant message that carries a node's memory as Spine IR.
pub fn render_spine_ir_item(
    node_id: &NodeId,
    op: SpineOperation,
    summary: &str,
    base_path: &str,
    memory_path: &str,
    memory_body: &str,
    fold_start: u64,
    fold_end: u64,
) -> (r: ResponseItem)
    ensures
        is_assistant_output(
            r,
            spine_ir_id_spec(node_id@, op, fold_start, fold_end),
            ir_item_text(node_id@, op, summary@, base_path@, memory_path@, memory_body@, fold_start, fold_end),
        ),
{
    let synthetic_id = spine_ir_synthetic_id(node_id, op, fold_start, fold_end);
    let mut v = chars_of("<spine_ir id=\"");
    push_str(&mut v, synthetic_id.as_str());
    push_str(&mut v, "\" node=\"");
    let t = node_id.to_text();
    push_all(&mut v, &t);
    push_str(&mut v, "\" op=\"");
    let l = op_label(op);
    push_all(&mut v, &l);
    push_str(&mut v, "\" runtime_generated=\"true\" fold_start=\"");
    push_u64(&mut v, fold_start);
    push_str(&mut v, "\" fold_end=\"");
    push_u64(&mut v, fold_end);
    push_str(&mut v, "\">\nSummary: ");
    push_str(&mut v, summary);
    push_str(&mut v, "\nBase: ");
    push_str(&mut v, base_path);
    push_str(&mut v, "\nMemory path: ");
    push_str(&mut v, memory_path);
    push_str(&mut v, "\n\n<memory>\n");
    push_str(&mut v, memory_body);
    push_str(&mut v, "\n</memory>\n</spine_ir>");
    let mut content: Vec<ContentItem> = Vec::new();
    content.push(ContentItem::OutputText { text: string_of(&v) });
    ResponseItem::Message { id: Some(synthetic_id), role: owned("assistant"), content, phase: None }
}

} // verus!
