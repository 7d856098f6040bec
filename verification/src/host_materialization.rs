//! Materializing the host's history from a cover Π: raw runs are read from
//! the raw items themselves or through the host bridge projection of the
//! current history, memories and notes from their rendered items.
use crate::host_bridge::{effective_index_spec, walk, EntryV, HostBridgeProjection};
use crate::items::{copy_item, same_item, same_items, ResponseItem};
use crate::keyed::KeyedItems;
use crate::model::{InstalledCompactSpan, SpineError};
use crate::pi_render::notes_view;
use crate::segment::{segment_view, segments_view, RawSpan, Segment, SegmentArtifacts, SegmentError, SegmentView};
use crate::text::{chars_of, copy_string, owned, push_str, str_eq, string_of};
use vstd::prelude::*;

verus! {

// ----------------------------------------------------------------------------
// Checking a cover
// ----------------------------------------------------------------------------
/// Why a cover does not tile the raw ordinals.
pub enum CoverFault {
    Gap(u64, u64),
    Overlap(u64, u64),
    Missing(Seq<char>),
    Empty(Seq<char>, RawSpan),
}

/// `e` is the error that reports `f`.
pub open spec fn reports_fault(e: SegmentError, f: CoverFault) -> bool {
    match f {
        CoverFault::Gap(expected, actual) => e == SegmentError::CoverGap { expected, actual },
        CoverFault::Overlap(expected, actual) => e == SegmentError::CoverOverlap { expected, actual },
        CoverFault::Missing(id) => e matches SegmentError::MissingMemArtifact { compact_id } && compact_id@ == id,
        CoverFault::Empty(id, span) => e matches SegmentError::EmptySpan { compact_id, span: s } && compact_id@
            == id && s == span,
    }
}

/// Walking the segments from `k` with raw cursor `cursor`: each raw run and
/// each memory's span must start where the previous one ended (a memory's
/// span must also be non-empty); notes cover nothing. The raw length covered,
/// or the first fault.
pub open spec fn cover_walk(
    pi: Seq<SegmentView>,
    arts: Map<Seq<char>, RawSpan>,
    k: nat,
    cursor: u64,
) -> Result<u64, CoverFault>
    decreases pi.len() - k,
{
    if k >= pi.len() {
        Ok(cursor)
    } else {
        let span = match pi[k as int] {
            SegmentView::Raw(s) => Ok(Some(s)),
            SegmentView::Mem(id) => if !arts.contains_key(id) {
                Err(CoverFault::Missing(id))
            } else if arts[id].start >= arts[id].end {
                Err(CoverFault::Empty(id, arts[id]))
            } else {
                Ok(Some(arts[id]))
            },
            SegmentView::Note(_) => Ok(None),
        };
        match span {
            Err(f) => Err(f),
            Ok(None) => cover_walk(pi, arts, k + 1, cursor),
            Ok(Some(s)) => if s.start > cursor {
                Err(CoverFault::Gap(cursor, s.start))
            } else if s.start < cursor {
                Err(CoverFault::Overlap(cursor, s.start))
            } else {
                cover_walk(pi, arts, k + 1, s.end)
            },
        }
    }
}

/// Checks that a cover tiles the raw ordinals from 0 and gives the raw length
/// it covers.
pub fn validate_cover(pi: &Vec<Segment>, artifacts: &SegmentArtifacts) -> (r: Result<u64, SegmentError>)
    ensures
        match cover_walk(segments_view(pi@), artifacts@, 0, 0) {
            Ok(n) => r == Ok::<u64, SegmentError>(n),
            Err(f) => r matches Err(e) && reports_fault(e, f),
        },
{
    let ghost pv = segments_view(pi@);
    let mut cursor: u64 = 0;
    let mut k: usize = 0;
    while k < pi.len()
        invariant
            k <= pi.len(),
            pv == segments_view(pi@),
            cover_walk(pv, artifacts@, 0, 0) == cover_walk(pv, artifacts@, k as nat, cursor),
        decreases pi.len() - k,
    {
        assert(pv[k as int] == segment_view(pi@[k as int]));
        let span = match &pi[k] {
            Segment::Raw(s) => Some(*s),
            Segment::Mem { compact_id } => match artifacts.get(compact_id.as_str()) {
                None => {
                    return Err(SegmentError::MissingMemArtifact { compact_id: copy_string(compact_id) });
                },
                Some(s) => {
                    if s.start >= s.end {
                        return Err(SegmentError::EmptySpan { compact_id: copy_string(compact_id), span: *s });
                    }
                    Some(*s)
                },
            },
            Segment::Note { .. } => None,
        };
        match span {
            None => {},
            Some(s) => {
                if s.start > cursor {
                    return Err(SegmentError::CoverGap { expected: cursor, actual: s.start });
                }
                if s.start < cursor {
                    return Err(SegmentError::CoverOverlap { expected: cursor, actual: s.start });
                }
                cursor = s.end;
            },
        }
        k = k + 1;
    }
    Ok(cursor)
}

// ----------------------------------------------------------------------------
// Raw sources
// ----------------------------------------------------------------------------
/// Where raw runs are read from: the raw items themselves, or the current
/// history through its host bridge projection.
pub enum SpineHostRawSource<'a> {
    Direct(&'a Vec<ResponseItem>),
    HostBridge { history: &'a Vec<ResponseItem>, runtime_spans: &'a Vec<InstalledCompactSpan> },
}

/// A raw source, ready to read: the raw items, or the history with its
/// projection (entries, whether a native compaction stopped it, raw length).
pub enum SourceView {
    Direct(Seq<ResponseItem>),
    Bridge(Seq<ResponseItem>, Seq<EntryV>, bool, u64),
}

/// The source ready to read; `None` when the history cannot be projected.
pub open spec fn prepared_source(src: SpineHostRawSource) -> Option<SourceView> {
    match src {
        SpineHostRawSource::Direct(items) => Some(SourceView::Direct(items@)),
        SpineHostRawSource::HostBridge { history, runtime_spans } => match walk(
            history@,
            runtime_spans@,
            0,
            0,
            0,
        ) {
            Some((es, raw_len, stopped)) => Some(SourceView::Bridge(history@, es, stopped, raw_len)),
            None => None,
        },
    }
}

/// The raw length of a source.
pub open spec fn source_raw_len(s: SourceView) -> int {
    match s {
        SourceView::Direct(items) => items.len() as int,
        SourceView::Bridge(_, _, _, raw_len) => raw_len as int,
    }
}

/// The items of raw run `span`: a slice of the raw items, or the history items
/// between the indices its ends map to; `None` when it cannot be read.
pub open spec fn source_items(s: SourceView, span: RawSpan) -> Option<Seq<ResponseItem>> {
    match s {
        SourceView::Direct(items) => if span.end > items.len() || span.start > span.end {
            None
        } else {
            Some(items.subrange(span.start as int, span.end as int))
        },
        SourceView::Bridge(h, es, stopped, raw_len) => match (
            effective_index_spec(es, stopped, raw_len, h.len(), span.start),
            effective_index_spec(es, stopped, raw_len, h.len(), span.end),
        ) {
            (Some(a), Some(b)) => if a > b || b > h.len() {
                None
            } else {
                Some(h.subrange(a as int, b as int))
            },
            _ => None,
        },
    }
}

/// The items that segments `[0, k)` of a cover render to.
pub open spec fn materialize_from(
    s: SourceView,
    pi: Seq<SegmentView>,
    arts: Map<Seq<char>, RawSpan>,
    mems: Map<Seq<char>, ResponseItem>,
    notes: Map<Seq<char>, Seq<ResponseItem>>,
    k: nat,
) -> Option<Seq<ResponseItem>>
    decreases k,
{
    if k == 0 || k > pi.len() {
        if k == 0 {
            Some(Seq::empty())
        } else {
            None
        }
    } else {
        match materialize_from(s, pi, arts, mems, notes, (k - 1) as nat) {
            None => None,
            Some(acc) => match pi[k - 1] {
                SegmentView::Raw(span) => match source_items(s, span) {
                    Some(items) => Some(acc + items),
                    None => None,
                },
                SegmentView::Mem(id) => if arts.contains_key(id) && mems.contains_key(id) {
                    Some(acc.push(mems[id]))
                } else {
                    None
                },
                SegmentView::Note(kind) => if notes.contains_key(kind) {
                    Some(acc + notes[kind])
                } else {
                    None
                },
            },
        }
    }
}

/// What materializing a cover gives: it must tile exactly the source's raw
/// length; then each segment renders in turn.
pub open spec fn materialize_spec(
    s: SourceView,
    pi: Seq<SegmentView>,
    arts: Map<Seq<char>, RawSpan>,
    mems: Map<Seq<char>, ResponseItem>,
    notes: Map<Seq<char>, Seq<ResponseItem>>,
) -> Option<Seq<ResponseItem>> {
    match cover_walk(pi, arts, 0, 0) {
        Err(_) => None,
        Ok(n) => if n != source_raw_len(s) {
            None
        } else {
            materialize_from(s, pi, arts, mems, notes, pi.len())
        },
    }
}

/// What the host materializes: a cover, its spans, where raw runs come from,
/// and the items of memories and notes.
pub struct SpineHostMaterializationInput<'a> {
    pub pi: &'a Vec<Segment>,
    pub artifacts: &'a SegmentArtifacts,
    pub raw_source: SpineHostRawSource<'a>,
    pub mem_items: &'a KeyedItems<ResponseItem>,
    pub note_items: &'a KeyedItems<Vec<ResponseItem>>,
}

enum PreparedRawSource<'a> {
    Direct(&'a Vec<ResponseItem>),
    HostBridge { history: &'a Vec<ResponseItem>, projection: HostBridgeProjection },
}

spec fn prepared_view(p: PreparedRawSource) -> SourceView {
    match p {
        PreparedRawSource::Direct(items) => SourceView::Direct(items@),
        PreparedRawSource::HostBridge { history, projection } => SourceView::Bridge(
            history@,
            crate::host_bridge::entries_view(projection.entries@),
            projection.stopped,
            projection.raw_len,
        ),
    }
}

spec fn prepared_wf(p: PreparedRawSource) -> bool {
    match p {
        PreparedRawSource::Direct(_) => true,
        PreparedRawSource::HostBridge { history, projection } => projection.wf() && projection.history_len
            == history.len(),
    }
}

fn prepare_source<'a>(source: SpineHostRawSource<'a>) -> (r: Result<PreparedRawSource<'a>, SpineError>)
    ensures
        match prepared_source(source) {
            Some(v) => r matches Ok(p) && prepared_view(p) == v && prepared_wf(p),
            None => r is Err,
        },
{
    match source {
        SpineHostRawSource::Direct(items) => Ok(PreparedRawSource::Direct(items)),
        SpineHostRawSource::HostBridge { history, runtime_spans } => match HostBridgeProjection::build(
            history,
            runtime_spans,
        ) {
            Ok(projection) => Ok(PreparedRawSource::HostBridge { history, projection }),
            Err(_) => Err(SpineError::Invariant(owned("Spine host materialization could not project the history"))),
        },
    }
}

fn source_raw_len_of(p: &PreparedRawSource) -> (r: u64)
    ensures
        r as int == source_raw_len(prepared_view(*p)),
{
    match p {
        PreparedRawSource::Direct(items) => items.len() as u64,
        PreparedRawSource::HostBridge { projection, .. } => projection.raw_len(),
    }
}

fn raw_error(head: &str, span: RawSpan, tail: &str) -> (r: SpineError)
    ensures
        r matches SpineError::Invariant(m) && m@ == head@ + crate::segment::span_text(span) + tail@,
{
    let mut m = chars_of(head);
    let t = span.to_string();
    push_str(&mut m, t.as_str());
    push_str(&mut m, tail);
    SpineError::Invariant(string_of(&m))
}

/// Appends copies of `items[start..end]`.
pub(crate) fn push_item_copies(out: &mut Vec<ResponseItem>, items: &Vec<ResponseItem>, start: usize, end: usize)
    requires
        start <= end <= items.len(),
    ensures
        same_items(final(out)@, old(out)@ + items@.subrange(start as int, end as int)),
        forall|k: int| 0 <= k < old(out)@.len() ==> #[trigger] final(out)@[k] == old(out)@[k],
{
    let mut i = start;
    while i < end
        invariant
            start <= i <= end <= items.len(),
            out@.len() == old(out)@.len() + (i - start),
            forall|k: int| 0 <= k < old(out)@.len() ==> #[trigger] out@[k] == old(out)@[k],
            forall|k: int|
                0 <= k < i - start ==> same_item(#[trigger] out@[old(out)@.len() + k], items@[start + k]),
        decreases end - i,
    {
        out.push(copy_item(&items[i]));
        i = i + 1;
    }
    proof {
        let expected = old(out)@ + items@.subrange(start as int, end as int);
        assert forall|k: int| 0 <= k < out@.len() implies same_item(#[trigger] out@[k], expected[k]) by {
            if k >= old(out)@.len() {
                assert(same_item(out@[old(out)@.len() + (k - old(out)@.len())], items@[start + (k - old(out)@.len())]));
            }
        }
    }
}

/// The items of raw run `span`.
fn items_for_raw_span(p: &PreparedRawSource, span: RawSpan, out: &mut Vec<ResponseItem>) -> (r: Result<(), SpineError>)
    requires
        prepared_wf(*p),
    ensures
        match source_items(prepared_view(*p), span) {
            Some(items) => r is Ok && same_items(final(out)@, old(out)@ + items) && forall|k: int|
                0 <= k < old(out)@.len() ==> #[trigger] final(out)@[k] == old(out)@[k],
            None => r is Err,
        },
{
    match p {
        PreparedRawSource::Direct(items) => {
            let n_items = items.len();
            if span.start > usize::MAX as u64 {
                return Err(raw_error("Spine host materialization Raw ", span, " start cannot fit usize"));
            }
            if span.end > usize::MAX as u64 {
                return Err(raw_error("Spine host materialization Raw ", span, " end cannot fit usize"));
            }
            let start = span.start as usize;
            let end = span.end as usize;
            if end > items.len() || start > end {
                return Err(raw_error("Spine host materialization Raw ", span, " is outside raw item length"));
            }
            push_item_copies(out, items, start, end);
            Ok(())
        },
        PreparedRawSource::HostBridge { history, projection } => {
            let start = match projection.effective_index_for_raw_boundary(span.start) {
                Some(a) => a,
                None => {
                    return Err(
                        raw_error("Spine host materialization Raw ", span, " start does not map to an effective index"),
                    );
                },
            };
            let end = match projection.effective_index_for_raw_boundary(span.end) {
                Some(b) => b,
                None => {
                    return Err(
                        raw_error("Spine host materialization Raw ", span, " end does not map to an effective index"),
                    );
                },
            };
            if start > end || end > history.len() {
                return Err(raw_error("Spine host materialization Raw ", span, " maps to an inverted effective range"));
            }
            push_item_copies(out, history, start, end);
            Ok(())
        },
    }
}

proof fn lemma_materialize_none_extends(
    s: SourceView,
    pi: Seq<SegmentView>,
    arts: Map<Seq<char>, RawSpan>,
    mems: Map<Seq<char>, ResponseItem>,
    notes: Map<Seq<char>, Seq<ResponseItem>>,
    k: nat,
)
    requires
        k <= pi.len(),
        materialize_from(s, pi, arts, mems, notes, k) is None,
    ensures
        materialize_from(s, pi, arts, mems, notes, pi.len()) is None,
    decreases pi.len() - k,
{
    if k < pi.len() {
        lemma_materialize_none_extends(s, pi, arts, mems, notes, k + 1);
    }
}

/// Materializes the host history of a cover: checks that it tiles the raw
/// source's length, then renders raw runs from the source, memories from
/// their items and notes from theirs.
pub fn materialize_spine_host_history(input: SpineHostMaterializationInput) -> (r: Result<Vec<ResponseItem>, SpineError>)
    ensures
        match prepared_source(input.raw_source) {
            None => r is Err,
            Some(s) => match materialize_spec(
                s,
                segments_view(input.pi@),
                input.artifacts@,
                input.mem_items@,
                notes_view(input.note_items@),
            ) {
                Some(items) => r matches Ok(v) && same_items(v@, items),
                None => r is Err,
            },
        },
{
    let pi = input.pi;
    let artifacts = input.artifacts;
    let mem_items = input.mem_items;
    let note_items = input.note_items;
    let ghost pv = segments_view(pi@);
    let ghost notes = notes_view(note_items@);
    let raw_source = prepare_source(input.raw_source)?;
    let ghost sv = prepared_view(raw_source);
    let covered = match validate_cover(pi, artifacts) {
        Ok(n) => n,
        Err(e) => {
            let mut m = chars_of("Spine host materialization failed to build canonical cover: ");
            let t = e.to_string();
            push_str(&mut m, t.as_str());
            return Err(SpineError::Invariant(string_of(&m)));
        },
    };
    let expected = source_raw_len_of(&raw_source);
    if covered != expected {
        let mut m = chars_of("Spine host materialization Pi covers raw length ");
        crate::text::push_u64(&mut m, covered);
        push_str(&mut m, ", expected ");
        crate::text::push_u64(&mut m, expected);
        return Err(SpineError::Invariant(string_of(&m)));
    }
    let mut rendered: Vec<ResponseItem> = Vec::new();
    let mut k: usize = 0;
    while k < pi.len()
        invariant
            k <= pi.len(),
            pv == segments_view(pi@),
            notes == notes_view(note_items@),
            sv == prepared_view(raw_source),
            pi == input.pi,
            artifacts == input.artifacts,
            mem_items == input.mem_items,
            note_items == input.note_items,
            prepared_source(input.raw_source) == Some(sv),
            cover_walk(pv, artifacts@, 0, 0) == Ok::<u64, CoverFault>(covered),
            covered as int == source_raw_len(sv),
            prepared_wf(raw_source),
            materialize_from(sv, pv, artifacts@, mem_items@, notes, k as nat) matches Some(acc) && same_items(
                rendered@,
                acc,
            ),
        decreases pi.len() - k,
    {
        let ghost acc = materialize_from(sv, pv, artifacts@, mem_items@, notes, k as nat)->Some_0;
        let ghost before = rendered@;
        assert(pv[k as int] == segment_view(pi@[k as int]));
        match &pi[k] {
            Segment::Raw(span) => {
                match items_for_raw_span(&raw_source, *span, &mut rendered) {
                    Ok(()) => {
                        proof {
                            let items = source_items(sv, *span)->Some_0;
                            assert forall|i: int| 0 <= i < rendered@.len() implies same_item(
                                #[trigger] rendered@[i],
                                (acc + items)[i],
                            ) by {
                                assert(same_item(rendered@[i], (before + items)[i]));
                                if i < before.len() {
                                    assert(same_item(before[i], acc[i]));
                                }
                            }
                        }
                    },
                    Err(e) => {
                        proof {
                            lemma_materialize_none_extends(sv, pv, artifacts@, mem_items@, notes, (k + 1) as nat);
                        }
                        return Err(e);
                    },
                }
            },
            Segment::Mem { compact_id } => {
                if artifacts.get(compact_id.as_str()).is_none() {
                    proof {
                        lemma_materialize_none_extends(sv, pv, artifacts@, mem_items@, notes, (k + 1) as nat);
                    }
                    return Err(SpineError::Invariant(owned("Spine host materialization Mem has no span")));
                }
                match mem_items.get(compact_id.as_str()) {
                    Some(item) => {
                        rendered.push(copy_item(item));
                        proof {
                            let next = acc.push(mem_items@[compact_id@]);
                            assert forall|i: int| 0 <= i < rendered@.len() implies same_item(
                                #[trigger] rendered@[i],
                                next[i],
                            ) by {
                                if i < before.len() {
                                    assert(rendered@[i] == before[i]);
                                    assert(same_item(before[i], acc[i]));
                                }
                            }
                        }
                    },
                    None => {
                        proof {
                            lemma_materialize_none_extends(sv, pv, artifacts@, mem_items@, notes, (k + 1) as nat);
                        }
                        let mut m = chars_of("Spine host materialization missing Mem item for ");
                        push_str(&mut m, compact_id.as_str());
                        return Err(SpineError::Invariant(string_of(&m)));
                    },
                }
            },
            Segment::Note { kind } => {
                match note_items.get(kind.as_str()) {
                    Some(items) => {
                        push_item_copies(&mut rendered, items, 0, items.len());
                        proof {
                            assert(items@.subrange(0, items@.len() as int) =~= items@);
                            let next = acc + notes[kind@];
                            assert forall|i: int| 0 <= i < rendered@.len() implies same_item(
                                #[trigger] rendered@[i],
                                next[i],
                            ) by {
                                assert(same_item(rendered@[i], (before + items@)[i]));
                                if i < before.len() {
                                    assert(same_item(before[i], acc[i]));
                                }
                            }
                        }
                    },
                    None => {
                        proof {
                            lemma_materialize_none_extends(sv, pv, artifacts@, mem_items@, notes, (k + 1) as nat);
                        }
                        let mut m = chars_of("Spine host materialization missing Note item for ");
                        push_str(&mut m, kind.as_str());
                        return Err(SpineError::Invariant(string_of(&m)));
                    },
                }
            },
        }
        k = k + 1;
    }
    Ok(rendered)
}

// ----------------------------------------------------------------------------
// Placing notes
// ----------------------------------------------------------------------------
/// Where notes go relative to a memory.
#[derive(Clone, Copy, Debug, PartialEq, Eq)]
pub enum NotePlacement {
    BeforeMem,
    AfterMem,
}

/// The position of the first memory `id` in a cover.
pub open spec fn first_mem_position(pi: Seq<SegmentView>, id: Seq<char>) -> Option<nat>
    decreases pi.len(),
{
    if pi.len() == 0 {
        None
    } else if pi[0] == SegmentView::Mem(id) {
        Some(0)
    } else {
        match first_mem_position(pi.drop_first(), id) {
            Some(p) => Some(p + 1),
            None => None,
        }
    }
}

/// Notes over plain values.
pub open spec fn kinds_as_notes(kinds: Seq<String>) -> Seq<SegmentView> {
    kinds.map_values(|k: String| SegmentView::Note(k@))
}

fn first_mem_index(pi: &Vec<Segment>, compact_id: &str) -> (r: Option<usize>)
    ensures
        match first_mem_position(segments_view(pi@), compact_id@) {
            Some(p) => r == Some(p as usize) && p < pi@.len(),
            None => r is None,
        },
{
    let ghost pv = segments_view(pi@);
    let mut i: usize = 0;
    assert(pv.skip(0) =~= pv);
    while i < pi.len()
        invariant
            i <= pi.len(),
            pv == segments_view(pi@),
            first_mem_position(pv, compact_id@) == match first_mem_position(pv.skip(i as int), compact_id@) {
                Some(p) => Some((p + i) as nat),
                None => None::<nat>,
            },
        decreases pi.len() - i,
    {
        proof {
            assert(pv.skip(i as int).drop_first() =~= pv.skip(i + 1));
            assert(pv.skip(i as int)[0] == segment_view(pi@[i as int]));
        }
        let is_target = match &pi[i] {
            Segment::Mem { compact_id: id } => str_eq(id.as_str(), compact_id),
            _ => false,
        };
        if is_target {
            return Some(i);
        }
        i = i + 1;
    }
    assert(pv.skip(i as int) =~= Seq::<SegmentView>::empty());
    None
}

/// Places note segments before (or after) the first memory `compact_id` of a
/// cover; no notes leave it as it is.
pub fn insert_spine_host_note_segments(
    pi: Vec<Segment>,
    compact_id: &str,
    note_kinds: Vec<String>,
    placement: NotePlacement,
) -> (r: Result<Vec<Segment>, SpineError>)
    ensures
        note_kinds@.len() == 0 ==> (r matches Ok(v) && segments_view(v@) == segments_view(pi@)),
        note_kinds@.len() > 0 ==> match first_mem_position(segments_view(pi@), compact_id@) {
            None => r is Err,
            Some(p) => r matches Ok(v) && segments_view(v@) == (match placement {
                NotePlacement::BeforeMem => segments_view(pi@).take(p as int) + kinds_as_notes(note_kinds@)
                    + segments_view(pi@).skip(p as int),
                NotePlacement::AfterMem => segments_view(pi@).take(p + 1int) + kinds_as_notes(note_kinds@)
                    + segments_view(pi@).skip(p + 1int),
            }),
        },
{
    if note_kinds.len() == 0 {
        return Ok(pi);
    }
    let ghost pv = segments_view(pi@);
    let p = match first_mem_index(&pi, compact_id) {
        Some(p) => p,
        None => {
            let mut m = chars_of("Spine host materialization could not place notes ");
            match placement {
                NotePlacement::BeforeMem => push_str(&mut m, "before"),
                NotePlacement::AfterMem => push_str(&mut m, "after"),
            }
            push_str(&mut m, " Mem ");
            push_str(&mut m, compact_id);
            return Err(SpineError::Invariant(string_of(&m)));
        },
    };
    assert(first_mem_position(pv, compact_id@) is Some);
    assert(p < pi.len());
    let split = match placement {
        NotePlacement::BeforeMem => p,
        NotePlacement::AfterMem => p + 1,
    };
    let mut result: Vec<Segment> = Vec::new();
    let mut j: usize = 0;
    while j < split
        invariant
            j <= split <= pi.len(),
            pv == segments_view(pi@),
            segments_view(result@) == pv.take(j as int),
        decreases split - j,
    {
        let ghost before = result@;
        result.push(crate::pi_render::copy_segment(&pi[j]));
        proof {
            assert(pv[j as int] == segment_view(pi@[j as int]));
            assert(segments_view(result@) =~= segments_view(before).push(pv[j as int]));
            assert(segments_view(result@) =~= pv.take(j + 1));
        }
        j = j + 1;
    }
    let mut n: usize = 0;
    while n < note_kinds.len()
        invariant
            n <= note_kinds.len(),
            j == split,
            segments_view(result@) == pv.take(split as int) + kinds_as_notes(note_kinds@.take(n as int)),
        decreases note_kinds.len() - n,
    {
        let ghost before = result@;
        result.push(Segment::note(copy_string(&note_kinds[n])));
        proof {
            assert(segments_view(result@) =~= segments_view(before).push(SegmentView::Note(note_kinds@[n as int]@)));
            assert(segments_view(result@) =~= pv.take(split as int) + kinds_as_notes(note_kinds@.take(n + 1)));
        }
        n = n + 1;
    }
    let ghost mid = segments_view(result@);
    while j < pi.len()
        invariant
            split <= j <= pi.len(),
            pv == segments_view(pi@),
            segments_view(result@) == mid + pv.subrange(split as int, j as int),
        decreases pi.len() - j,
    {
        let ghost before = result@;
        result.push(crate::pi_render::copy_segment(&pi[j]));
        proof {
            assert(pv[j as int] == segment_view(pi@[j as int]));
            assert(segments_view(result@) =~= segments_view(before).push(pv[j as int]));
            assert(segments_view(result@) =~= mid + pv.subrange(split as int, j + 1));
        }
        j = j + 1;
    }
    proof {
        assert(note_kinds@.take(note_kinds@.len() as int) =~= note_kinds@);
        assert(pv.subrange(split as int, pv.len() as int) =~= pv.skip(split as int));
    }
    Ok(result)
}

} // verus!
