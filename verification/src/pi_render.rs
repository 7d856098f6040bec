//! Rendering a cover Π back into a host replacement history: raw runs become
//! the history items they map to, memories their rendered items, notes the
//! items recorded for them.
use crate::items::{copy_item, same_item, ResponseItem};
use crate::suffix_fold::{effective_index_for_raw_ordinal_with_spans, index_for_raw_from};
use crate::keyed::KeyedItems;
use crate::model::{InstalledCompactSpan, SpineError};
use crate::segment::{segment_view, segments_view, RawSpan, Segment, SegmentArtifacts, SegmentView};
use crate::text::{chars_of, copy_string, push_str, str_eq, string_of};
use vstd::prelude::*;

verus! {

// ----------------------------------------------------------------------------
// Notes around a memory
// ----------------------------------------------------------------------------
/// Note segments of the given kinds, in order.
pub open spec fn note_views(kinds: Seq<String>) -> Seq<SegmentView> {
    kinds.map_values(|k: String| SegmentView::Note(k@))
}

/// `pi` with the notes right after (or before) each memory `id`.
pub open spec fn with_notes(pi: Seq<SegmentView>, id: Seq<char>, notes: Seq<SegmentView>, after: bool) -> Seq<SegmentView>
    decreases pi.len(),
{
    if pi.len() == 0 {
        Seq::empty()
    } else {
        let s = pi.last();
        let here = if s == SegmentView::Mem(id) {
            if after {
                seq![s] + notes
            } else {
                notes + seq![s]
            }
        } else {
            seq![s]
        };
        with_notes(pi.drop_last(), id, notes, after) + here
    }
}

/// `pi` holds memory `id`.
pub open spec fn holds_mem(pi: Seq<SegmentView>, id: Seq<char>) -> bool {
    exists|i: int| 0 <= i < pi.len() && pi[i] == SegmentView::Mem(id)
}

/// A copy of a segment.
pub fn copy_segment(s: &Segment) -> (r: Segment)
    ensures
        segment_view(r) == segment_view(*s),
{
    match s {
        Segment::Raw(span) => Segment::Raw(*span),
        Segment::Mem { compact_id } => Segment::Mem { compact_id: copy_string(compact_id) },
        Segment::Note { kind } => Segment::Note { kind: copy_string(kind) },
    }
}

fn push_notes(result: &mut Vec<Segment>, kinds: &Vec<String>)
    ensures
        segments_view(final(result)@) == segments_view(old(result)@) + note_views(kinds@),
{
    let ghost base = segments_view(result@);
    let mut i: usize = 0;
    while i < kinds.len()
        invariant
            i <= kinds.len(),
            segments_view(result@) == base + note_views(kinds@.take(i as int)),
        decreases kinds.len() - i,
    {
        let ghost before = result@;
        result.push(Segment::note(copy_string(&kinds[i])));
        assert(segments_view(result@) =~= segments_view(before).push(SegmentView::Note(kinds@[i as int]@)));
        assert(note_views(kinds@.take(i + 1)) =~= note_views(kinds@.take(i as int)).push(SegmentView::Note(kinds@[i as int]@)));
        i = i + 1;
    }
    assert(kinds@.take(i as int) =~= kinds@);
}

/// Places note segments next to each memory `compact_id` of a cover; an error
/// when the cover holds no such memory.
fn insert_notes(pi: &Vec<Segment>, compact_id: &str, note_kinds: &Vec<String>, after: bool) -> (r: Result<
    Vec<Segment>,
    SpineError,
>)
    ensures
        holds_mem(segments_view(pi@), compact_id@) ==> (r matches Ok(v) && segments_view(v@) == with_notes(
            segments_view(pi@),
            compact_id@,
            note_views(note_kinds@),
            after,
        )),
        !holds_mem(segments_view(pi@), compact_id@) ==> r is Err,
{
    let ghost pv = segments_view(pi@);
    let ghost notes = note_views(note_kinds@);
    let mut result: Vec<Segment> = Vec::new();
    let mut inserted = false;
    let mut i: usize = 0;
    proof {
        assert(pv.take(0) =~= Seq::<SegmentView>::empty());
        assert(segments_view(result@) =~= Seq::<SegmentView>::empty());
    }
    while i < pi.len()
        invariant
            i <= pi.len(),
            pv == segments_view(pi@),
            notes == note_views(note_kinds@),
            segments_view(result@) == with_notes(pv.take(i as int), compact_id@, notes, after),
            inserted == holds_mem(pv.take(i as int), compact_id@),
        decreases pi.len() - i,
    {
        let seg = &pi[i];
        let is_target = match seg {
            Segment::Mem { compact_id: id } => str_eq(id.as_str(), compact_id),
            _ => false,
        };
        let ghost sv = pv[i as int];
        assert(sv == segment_view(*seg));
        assert(is_target == (sv == SegmentView::Mem(compact_id@)));
        let ghost before = segments_view(result@);
        if is_target && !after {
            push_notes(&mut result, note_kinds);
        }
        let ghost mid = segments_view(result@);
        result.push(copy_segment(seg));
        assert(segments_view(result@) =~= mid.push(sv));
        if is_target && after {
            push_notes(&mut result, note_kinds);
        }
        if is_target {
            inserted = true;
        }
        proof {
            let t = pv.take(i + 1);
            assert(t.drop_last() =~= pv.take(i as int));
            assert(t.last() == sv);
            let here = if sv == SegmentView::Mem(compact_id@) {
                if after {
                    seq![sv] + notes
                } else {
                    notes + seq![sv]
                }
            } else {
                seq![sv]
            };
            assert(segments_view(result@) =~= before + here);
            if is_target {
                assert(t[i as int] == SegmentView::Mem(compact_id@));
            } else if holds_mem(t, compact_id@) {
                let j = choose|j: int| 0 <= j < t.len() && t[j] == SegmentView::Mem(compact_id@);
                assert(pv.take(i as int)[j] == t[j]);
            }
            if holds_mem(pv.take(i as int), compact_id@) {
                let j = choose|j: int| 0 <= j < pv.take(i as int).len() && pv.take(i as int)[j] == SegmentView::Mem(compact_id@);
                assert(t[j] == pv.take(i as int)[j]);
            }
        }
        i = i + 1;
    }
    proof {
        assert(pv.take(i as int) =~= pv);
    }
    if !inserted {
        return Err(SpineError::Invariant(string_of(&chars_of("render(Pi) could not place notes next to the memory"))));
    }
    Ok(result)
}

/// Places note segments right after each memory `compact_id` of a cover.
pub fn insert_notes_after_mem(pi: &Vec<Segment>, compact_id: &str, note_kinds: &Vec<String>) -> (r: Result<
    Vec<Segment>,
    SpineError,
>)
    ensures
        holds_mem(segments_view(pi@), compact_id@) ==> (r matches Ok(v) && segments_view(v@) == with_notes(
            segments_view(pi@),
            compact_id@,
            note_views(note_kinds@),
            true,
        )),
        !holds_mem(segments_view(pi@), compact_id@) ==> r is Err,
{
    insert_notes(pi, compact_id, note_kinds, true)
}

/// Places note segments right before each memory `compact_id` of a cover.
pub fn insert_notes_before_mem(pi: &Vec<Segment>, compact_id: &str, note_kinds: &Vec<String>) -> (r: Result<
    Vec<Segment>,
    SpineError,
>)
    ensures
        holds_mem(segments_view(pi@), compact_id@) ==> (r matches Ok(v) && segments_view(v@) == with_notes(
            segments_view(pi@),
            compact_id@,
            note_views(note_kinds@),
            false,
        )),
        !holds_mem(segments_view(pi@), compact_id@) ==> r is Err,
{
    insert_notes(pi, compact_id, note_kinds, false)
}

// ----------------------------------------------------------------------------
// Rendering a cover
// ----------------------------------------------------------------------------
/// Where a rendered item comes from.
#[derive(Debug, PartialEq, Eq)]
pub enum RenderPiOrigin {
    Raw(RawSpan),
    Mem(String),
    Note(String),
}

/// The plain value of an origin.
pub enum OriginView {
    Raw(RawSpan),
    Mem(Seq<char>),
    Note(Seq<char>),
}

/// The plain value of an origin.
pub open spec fn origin_view(o: RenderPiOrigin) -> OriginView {
    match o {
        RenderPiOrigin::Raw(span) => OriginView::Raw(span),
        RenderPiOrigin::Mem(id) => OriginView::Mem(id@),
        RenderPiOrigin::Note(kind) => OriginView::Note(kind@),
    }
}

/// A rendered item and where it comes from.
#[derive(Debug)]
pub struct RenderedPiItem {
    pub origin: RenderPiOrigin,
    pub item: ResponseItem,
}

/// The history index at which raw ordinal `raw` starts, given the ledger.
pub open spec fn eff_index(h: Seq<ResponseItem>, spans: Seq<InstalledCompactSpan>, raw: u64) -> Option<nat> {
    index_for_raw_from(h, spans, raw, 0, 0, 0)
}

/// The items one segment renders to: a raw run's history items, a memory's
/// item, a note's items; `None` when they cannot be found.
pub open spec fn segment_items(
    h: Seq<ResponseItem>,
    spans: Seq<InstalledCompactSpan>,
    s: SegmentView,
    arts: Map<Seq<char>, RawSpan>,
    mems: Map<Seq<char>, ResponseItem>,
    notes: Map<Seq<char>, Seq<ResponseItem>>,
) -> Option<Seq<(OriginView, ResponseItem)>> {
    match s {
        SegmentView::Raw(span) => match (eff_index(h, spans, span.start), eff_index(h, spans, span.end)) {
            (Some(a), Some(b)) => if a <= b && b <= h.len() {
                Some(h.subrange(a as int, b as int).map_values(|x: ResponseItem| (OriginView::Raw(span), x)))
            } else {
                None
            },
            _ => None,
        },
        SegmentView::Mem(id) => if arts.contains_key(id) && mems.contains_key(id) {
            Some(seq![(OriginView::Mem(id), mems[id])])
        } else {
            None
        },
        SegmentView::Note(kind) => if notes.contains_key(kind) {
            Some(notes[kind].map_values(|x: ResponseItem| (OriginView::Note(kind), x)))
        } else {
            None
        },
    }
}

/// The note items by kind, as sequences.
pub open spec fn notes_view(notes: Map<Seq<char>, Vec<ResponseItem>>) -> Map<Seq<char>, Seq<ResponseItem>> {
    notes.map_values(|v: Vec<ResponseItem>| v@)
}

/// The items a cover renders to, in order; `None` when a segment cannot be
/// rendered.
pub open spec fn render_spec(
    h: Seq<ResponseItem>,
    spans: Seq<InstalledCompactSpan>,
    pi: Seq<SegmentView>,
    arts: Map<Seq<char>, RawSpan>,
    mems: Map<Seq<char>, ResponseItem>,
    notes: Map<Seq<char>, Seq<ResponseItem>>,
) -> Option<Seq<(OriginView, ResponseItem)>>
    decreases pi.len(),
{
    if pi.len() == 0 {
        Some(Seq::empty())
    } else {
        match render_spec(h, spans, pi.drop_last(), arts, mems, notes) {
            None => None,
            Some(acc) => match segment_items(h, spans, pi.last(), arts, mems, notes) {
                None => None,
                Some(part) => Some(acc + part),
            },
        }
    }
}

/// `r` holds, one for one, copies of the planned items with their origins.
pub open spec fn renders_as(r: Seq<RenderedPiItem>, plan: Seq<(OriginView, ResponseItem)>) -> bool {
    r.len() == plan.len() && forall|k: int| 0 <= k < r.len() ==> origin_view(#[trigger] r[k].origin) == plan[k].0
        && same_item(plan[k].1, r[k].item)
}

fn copy_origin(o: &RenderPiOrigin) -> (r: RenderPiOrigin)
    ensures
        origin_view(r) == origin_view(*o),
{
    match o {
        RenderPiOrigin::Raw(span) => RenderPiOrigin::Raw(*span),
        RenderPiOrigin::Mem(id) => RenderPiOrigin::Mem(copy_string(id)),
        RenderPiOrigin::Note(kind) => RenderPiOrigin::Note(copy_string(kind)),
    }
}

/// Appends copies of `items` with origin `origin`.
fn push_copies(out: &mut Vec<RenderedPiItem>, items: &Vec<ResponseItem>, start: usize, end: usize, origin: &RenderPiOrigin)
    requires
        start <= end <= items@.len(),
    ensures
        final(out)@.len() == old(out)@.len() + (end - start),
        forall|k: int| 0 <= k < old(out)@.len() ==> #[trigger] final(out)@[k] == old(out)@[k],
        forall|k: int| 0 <= k < end - start ==> origin_view(#[trigger] final(out)@[old(out)@.len() + k].origin) == origin_view(*origin)
            && same_item(items@[start + k], final(out)@[old(out)@.len() + k].item),
{
    let mut i = start;
    while i < end
        invariant
            start <= i <= end <= items@.len(),
            out@.len() == old(out)@.len() + (i - start),
            forall|k: int| 0 <= k < old(out)@.len() ==> #[trigger] out@[k] == old(out)@[k],
            forall|k: int| 0 <= k < i - start ==> origin_view(#[trigger] out@[old(out)@.len() + k].origin) == origin_view(*origin)
                && same_item(items@[start + k], out@[old(out)@.len() + k].item),
        decreases end - i,
    {
        let item = copy_item(&items[i]);
        out.push(RenderedPiItem { origin: copy_origin(origin), item });
        i = i + 1;
    }
}

proof fn lemma_renders_extend(
    before: Seq<RenderedPiItem>,
    after: Seq<RenderedPiItem>,
    acc: Seq<(OriginView, ResponseItem)>,
    part: Seq<(OriginView, ResponseItem)>,
)
    requires
        renders_as(before, acc),
        after.len() == before.len() + part.len(),
        forall|k: int| 0 <= k < before.len() ==> #[trigger] after[k] == before[k],
        forall|k: int| 0 <= k < part.len() ==> origin_view(#[trigger] after[before.len() + k].origin) == part[k].0
            && same_item(part[k].1, after[before.len() + k].item),
    ensures
        renders_as(after, acc + part),
{
    assert forall|k: int| 0 <= k < after.len() implies origin_view(#[trigger] after[k].origin) == (acc + part)[k].0
        && same_item((acc + part)[k].1, after[k].item) by {
        if k >= before.len() {
            assert(after[before.len() + (k - before.len())] == after[k]);
        }
    }
}

/// Renders a cover into items: each raw run as the history items between the
/// indices its ends map to, each memory as its item, each note as its items.
/// Fails when an end does not map, the range is inverted, or a memory's span
/// or item or a note's items are missing.
pub fn render_pi_bridge_items(
    history: &Vec<ResponseItem>,
    runtime_spans: &Vec<InstalledCompactSpan>,
    pi: &Vec<Segment>,
    artifacts: &SegmentArtifacts,
    mem_items: &KeyedItems<ResponseItem>,
    note_items: &KeyedItems<Vec<ResponseItem>>,
) -> (r: Result<Vec<RenderedPiItem>, SpineError>)
    ensures
        match render_spec(history@, runtime_spans@, segments_view(pi@), artifacts@, mem_items@, notes_view(note_items@)) {
            Some(plan) => r matches Ok(v) && renders_as(v@, plan),
            None => r is Err,
        },
{
    let ghost pv = segments_view(pi@);
    let mut out: Vec<RenderedPiItem> = Vec::new();
    let mut i: usize = 0;
    proof {
        assert(pv.take(0) =~= Seq::<SegmentView>::empty());
    }
    while i < pi.len()
        invariant
            i <= pi.len(),
            pv == segments_view(pi@),
            render_spec(history@, runtime_spans@, pv.take(i as int), artifacts@, mem_items@, notes_view(note_items@)) matches Some(acc)
                && renders_as(out@, acc),
        decreases pi.len() - i,
    {
        let ghost acc = render_spec(history@, runtime_spans@, pv.take(i as int), artifacts@, mem_items@, notes_view(note_items@))->Some_0;
        let ghost before = out@;
        proof {
            assert(pv.take(i + 1).drop_last() =~= pv.take(i as int));
            assert(pv.take(i + 1).last() == pv[i as int]);
            assert(pv[i as int] == segment_view(pi@[i as int]));
        }
        match &pi[i] {
            Segment::Raw(span) => {
                let start = match effective_index_for_raw_ordinal_with_spans(history, span.start, runtime_spans) {
                    Some(a) => a,
                    None => {
                        proof {
                            lemma_render_none_extends(history@, runtime_spans@, pv, artifacts@, mem_items@, notes_view(note_items@), i + 1);
                        }
                        return Err(pi_error("render(Pi) Raw ", Some(*span), " start does not map to an effective index"));
                    },
                };
                let end = match effective_index_for_raw_ordinal_with_spans(history, span.end, runtime_spans) {
                    Some(b) => b,
                    None => {
                        proof {
                            lemma_render_none_extends(history@, runtime_spans@, pv, artifacts@, mem_items@, notes_view(note_items@), i + 1);
                        }
                        return Err(pi_error("render(Pi) Raw ", Some(*span), " end does not map to an effective index"));
                    },
                };
                if start > end || end > history.len() {
                    proof {
                        lemma_render_none_extends(history@, runtime_spans@, pv, artifacts@, mem_items@, notes_view(note_items@), i + 1);
                    }
                    return Err(pi_error("render(Pi) Raw ", Some(*span), " maps to an inverted effective range"));
                }
                let origin = RenderPiOrigin::Raw(*span);
                push_copies(&mut out, history, start, end, &origin);
                proof {
                    let part = history@.subrange(start as int, end as int).map_values(|x: ResponseItem| (OriginView::Raw(*span), x));
                    lemma_renders_extend(before, out@, acc, part);
                }
            },
            Segment::Mem { compact_id } => {
                if artifacts.get(compact_id.as_str()).is_none() {
                    proof {
                        lemma_render_none_extends(history@, runtime_spans@, pv, artifacts@, mem_items@, notes_view(note_items@), i + 1);
                    }
                    return Err(SpineError::Invariant(string_of(&chars_of("render(Pi) failed to build canonical cover: memory has no span artifact"))));
                }
                match mem_items.get(compact_id.as_str()) {
                    Some(item) => {
                        let cloned_item = copy_item(item);
                        out.push(RenderedPiItem { origin: RenderPiOrigin::Mem(copy_string(compact_id)), item: cloned_item });
                        proof {
                            let part = seq![(OriginView::Mem(compact_id@), mem_items@[compact_id@])];
                            lemma_renders_extend(before, out@, acc, part);
                        }
                    },
                    None => {
                        proof {
                            lemma_render_none_extends(history@, runtime_spans@, pv, artifacts@, mem_items@, notes_view(note_items@), i + 1);
                        }
                        let mut m = chars_of("render(Pi) missing Mem item for ");
                        push_str(&mut m, compact_id.as_str());
                        return Err(SpineError::Invariant(string_of(&m)));
                    },
                }
            },
            Segment::Note { kind } => {
                match note_items.get(kind.as_str()) {
                    Some(items) => {
                        let origin = RenderPiOrigin::Note(copy_string(kind));
                        push_copies(&mut out, items, 0, items.len(), &origin);
                        proof {
                            let part = items@.map_values(|x: ResponseItem| (OriginView::Note(kind@), x));
                            assert(items@.subrange(0, items@.len() as int) =~= items@);
                            lemma_renders_extend(before, out@, acc, part);
                        }
                    },
                    None => {
                        proof {
                            lemma_render_none_extends(history@, runtime_spans@, pv, artifacts@, mem_items@, notes_view(note_items@), i + 1);
                        }
                        let mut m = chars_of("render(Pi) missing Note item for ");
                        push_str(&mut m, kind.as_str());
                        return Err(SpineError::Invariant(string_of(&m)));
                    },
                }
            },
        }
        i = i + 1;
    }
    proof {
        assert(pv.take(i as int) =~= pv);
    }
    Ok(out)
}

fn pi_error(head: &str, span: Option<RawSpan>, tail: &str) -> (r: SpineError)
    ensures
        r matches SpineError::Invariant(m) && m@ == head@ + (match span {
            Some(s) => crate::segment::span_text(s),
            None => Seq::empty(),
        }) + tail@,
{
    let mut m = chars_of(head);
    match span {
        Some(s) => {
            let t = s.to_string();
            push_str(&mut m, t.as_str());
        },
        None => {},
    }
    push_str(&mut m, tail);
    SpineError::Invariant(string_of(&m))
}

proof fn lemma_render_none_extends(
    h: Seq<ResponseItem>,
    spans: Seq<InstalledCompactSpan>,
    pi: Seq<SegmentView>,
    arts: Map<Seq<char>, RawSpan>,
    mems: Map<Seq<char>, ResponseItem>,
    notes: Map<Seq<char>, Seq<ResponseItem>>,
    k: int,
)
    requires
        0 <= k <= pi.len(),
        render_spec(h, spans, pi.take(k), arts, mems, notes) is None,
    ensures
        render_spec(h, spans, pi, arts, mems, notes) is None,
    decreases pi.len() - k,
{
    if k == pi.len() {
        assert(pi.take(k) =~= pi);
    } else {
        assert(pi.take(k + 1).drop_last() =~= pi.take(k));
        lemma_render_none_extends(h, spans, pi, arts, mems, notes, k + 1);
    }
}

/// The replacement history a cover renders to: the rendered items alone.
pub fn render_pi_bridge_replacement_history(
    history: &Vec<ResponseItem>,
    runtime_spans: &Vec<InstalledCompactSpan>,
    pi: &Vec<Segment>,
    artifacts: &SegmentArtifacts,
    mem_items: &KeyedItems<ResponseItem>,
    note_items: &KeyedItems<Vec<ResponseItem>>,
) -> (r: Result<Vec<ResponseItem>, SpineError>)
    ensures
        match render_spec(history@, runtime_spans@, segments_view(pi@), artifacts@, mem_items@, notes_view(note_items@)) {
            Some(plan) => r matches Ok(v) && v@.len() == plan.len() && forall|k: int| 0 <= k < v@.len()
                ==> same_item(plan[k].1, #[trigger] v@[k]),
            None => r is Err,
        },
{
    let rendered = render_pi_bridge_items(history, runtime_spans, pi, artifacts, mem_items, note_items)?;
    let ghost rv = rendered@;
    let mut out: Vec<ResponseItem> = Vec::new();
    let mut rendered = rendered;
    let mut taken: usize = 0;
    assert(rv.len() == rendered.len());
    while rendered.len() > 0
        invariant
            render_spec(history@, runtime_spans@, segments_view(pi@), artifacts@, mem_items@, notes_view(note_items@)) matches Some(plan)
                && renders_as(rv, plan),
            rv.len() <= usize::MAX,
            taken + rendered@.len() == rv.len(),
            rendered@ == rv.skip(taken as int),
            out@.len() == taken,
            forall|k: int| 0 <= k < taken ==> #[trigger] out@[k] == rv[k].item,
        decreases rendered.len(),
    {
        let first = rendered.remove(0);
        assert(first == rv[taken as int]);
        out.push(first.item);
        assert(rendered@ =~= rv.skip(taken + 1));
        taken = taken + 1;
    }
    proof {
        let plan = render_spec(history@, runtime_spans@, segments_view(pi@), artifacts@, mem_items@, notes_view(note_items@))->Some_0;
        assert forall|k: int| 0 <= k < out@.len() implies same_item(plan[k].1, #[trigger] out@[k]) by {
            assert(origin_view(rv[k].origin) == plan[k].0);
        }
    }
    Ok(out)
}

// ----------------------------------------------------------------------------
// Memory items of the installed spans
// ----------------------------------------------------------------------------
/// The memory item of each of the first `n` installed spans: the history item
/// at which its cut ordinal starts (a later span of the same id wins); `None`
/// when a cut does not map to an item of the history.
pub open spec fn memory_items_spec(
    h: Seq<ResponseItem>,
    spans: Seq<InstalledCompactSpan>,
    n: nat,
) -> Option<Map<Seq<char>, ResponseItem>>
    decreases n,
{
    if n == 0 {
        Some(Map::empty())
    } else {
        match memory_items_spec(h, spans, (n - 1) as nat) {
            None => None,
            Some(m) => match eff_index(h, spans, spans[n - 1].cut_ordinal) {
                Some(i) => if i < h.len() {
                    Some(m.insert(spans[n - 1].compact_id@, h[i as int]))
                } else {
                    None
                },
                None => None,
            },
        }
    }
}

/// Two maps hold the same items under the same keys.
pub open spec fn similar_items(a: Map<Seq<char>, ResponseItem>, b: Map<Seq<char>, ResponseItem>) -> bool {
    &&& a.dom() == b.dom()
    &&& forall|k: Seq<char>| #[trigger] a.contains_key(k) ==> same_item(a[k], b[k])
}

/// The memory item of each installed span, by compact id.
pub fn memory_items_from_runtime_spans(history: &Vec<ResponseItem>, runtime_spans: &Vec<InstalledCompactSpan>) -> (r:
    Result<KeyedItems<ResponseItem>, SpineError>)
    ensures
        match memory_items_spec(history@, runtime_spans@, runtime_spans@.len()) {
            Some(m) => r matches Ok(items) && similar_items(items@, m),
            None => r is Err,
        },
{
    let mut items: KeyedItems<ResponseItem> = KeyedItems::new();
    let mut i: usize = 0;
    while i < runtime_spans.len()
        invariant
            i <= runtime_spans.len(),
            memory_items_spec(history@, runtime_spans@, i as nat) matches Some(m) && similar_items(items@, m),
        decreases runtime_spans.len() - i,
    {
        let ghost m = memory_items_spec(history@, runtime_spans@, i as nat)->Some_0;
        let span = &runtime_spans[i];
        let index = match effective_index_for_raw_ordinal_with_spans(history, span.cut_ordinal, runtime_spans) {
            Some(x) => x,
            None => {
                proof {
                    lemma_memory_items_none_extends(history@, runtime_spans@, (i + 1) as nat);
                }
                let mut msg = chars_of("render(Pi) could not map existing Mem ");
                push_str(&mut msg, span.compact_id.as_str());
                return Err(SpineError::Invariant(string_of(&msg)));
            },
        };
        if index >= history.len() {
            proof {
                lemma_memory_items_none_extends(history@, runtime_spans@, (i + 1) as nat);
            }
            let mut msg = chars_of("render(Pi) existing Mem ");
            push_str(&mut msg, span.compact_id.as_str());
            push_str(&mut msg, " mapped past history");
            return Err(SpineError::Invariant(string_of(&msg)));
        }
        let ghost before = items@;
        items.insert(copy_string(&span.compact_id), copy_item(&history[index]));
        proof {
            let m2 = m.insert(runtime_spans@[i as int].compact_id@, history@[index as int]);
            assert(memory_items_spec(history@, runtime_spans@, (i + 1) as nat) == Some(m2));
            assert(items@.dom() =~= m2.dom());
            assert forall|k: Seq<char>| #[trigger] items@.contains_key(k) implies same_item(items@[k], m2[k]) by {
                if k != runtime_spans@[i as int].compact_id@ {
                    assert(before.contains_key(k));
                }
            }
        }
        i = i + 1;
    }
    Ok(items)
}

proof fn lemma_memory_items_none_extends(h: Seq<ResponseItem>, spans: Seq<InstalledCompactSpan>, k: nat)
    requires
        k <= spans.len(),
        memory_items_spec(h, spans, k) is None,
    ensures
        memory_items_spec(h, spans, spans.len()) is None,
    decreases spans.len() - k,
{
    if k < spans.len() {
        lemma_memory_items_none_extends(h, spans, k + 1);
    }
}

/// Rendering with memory maps that hold the same items gives the same items.
pub proof fn lemma_render_similar_mems(
    h: Seq<ResponseItem>,
    spans: Seq<InstalledCompactSpan>,
    pi: Seq<SegmentView>,
    arts: Map<Seq<char>, RawSpan>,
    m1: Map<Seq<char>, ResponseItem>,
    m2: Map<Seq<char>, ResponseItem>,
    notes: Map<Seq<char>, Seq<ResponseItem>>,
)
    requires
        similar_items(m1, m2),
    ensures
        render_spec(h, spans, pi, arts, m1, notes) is Some <==> render_spec(h, spans, pi, arts, m2, notes) is Some,
        render_spec(h, spans, pi, arts, m1, notes) is Some ==> similar_plans(
            render_spec(h, spans, pi, arts, m1, notes)->Some_0,
            render_spec(h, spans, pi, arts, m2, notes)->Some_0,
        ),
    decreases pi.len(),
{
    if pi.len() > 0 {
        lemma_render_similar_mems(h, spans, pi.drop_last(), arts, m1, m2, notes);
        let s = pi.last();
        match s {
            SegmentView::Mem(id) => {
                if m1.contains_key(id) {
                    assert(same_item(m1[id], m2[id]));
                }
            },
            _ => {},
        }
    }
}

/// Two plans hold the same items from the same origins, one for one.
pub open spec fn similar_plans(a: Seq<(OriginView, ResponseItem)>, b: Seq<(OriginView, ResponseItem)>) -> bool {
    &&& a.len() == b.len()
    &&& forall|k: int| #![trigger a[k]] 0 <= k < a.len() ==> a[k].0 == b[k].0 && same_item(a[k].1, b[k].1)
}

} // verus!
