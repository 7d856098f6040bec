//! Replacement histories after a compaction: the canonical cover with the new
//! memory is rendered back into model-visible items, with the memories already
//! installed kept as they stand in the history.
use crate::candidate_mem_plan::{plan_candidate_mem_cover, runtime_artifacts, runtime_ids, CandidateMem, CandidateMemCover};
use crate::debug_audit::SpineCompactBoundary;
use crate::host_bridge::{
    is_initial_context_spec, is_non_spine_compact_item, is_non_spine_compact_spec,
    is_spine_initial_context_item, EffectiveItemSemantics,
};
use crate::items::{same_item, same_items, ResponseItem};
use crate::keyed::KeyedItems;
use crate::model::{InstalledCompactSpan, SpineError};
use crate::pi_render::{
    holds_mem, insert_notes_after_mem, insert_notes_before_mem, lemma_render_similar_mems,
    memory_items_from_runtime_spans, memory_items_spec, note_views, notes_view, render_pi_bridge_replacement_history,
    render_spec, similar_items, similar_plans, with_notes, OriginView,
};
use crate::segment::{canonical_cover_spec, segment_view, segments_view, RawSpan, Segment, SegmentArtifacts, SegmentView};
use crate::suffix_fold::{
    classify_effective_item, fold_classify_spec, raw_for_index_from,
    raw_ordinal_for_effective_index_with_spans,
};
use crate::text::{chars_of, dec, owned, push_str, push_u64, string_of};
use vstd::prelude::*;

verus! {

// ----------------------------------------------------------------------------
// Note kinds, in the order of their keys
// ----------------------------------------------------------------------------
/// `a` sorts before or equal to `b`, character by character (the order of
/// `str`, whose byte order agrees with the order of characters).
pub open spec fn lex_le(a: Seq<char>, b: Seq<char>) -> bool
    decreases a.len(),
{
    if a.len() == 0 {
        true
    } else if b.len() == 0 {
        false
    } else if a[0] != b[0] {
        (a[0] as int) < (b[0] as int)
    } else {
        lex_le(a.drop_first(), b.drop_first())
    }
}

/// The strings are in ascending order.
pub open spec fn lex_sorted(ks: Seq<Seq<char>>) -> bool {
    forall|i: int, j: int| 0 <= i < j < ks.len() ==> lex_le(#[trigger] ks[i], #[trigger] ks[j])
}

/// The texts of some strings.
pub open spec fn strings_view(v: Seq<String>) -> Seq<Seq<char>> {
    v.map_values(|s: String| s@)
}

/// `slice::sort` of strings: the same strings, in ascending order (`String`
/// orders by its UTF-8 bytes, which order as the characters do).
#[verifier::external_body]
fn sort_strings(v: &mut Vec<String>)
    ensures
        strings_view(final(v)@).to_multiset() == strings_view(old(v)@).to_multiset(),
        lex_sorted(strings_view(final(v)@)),
{
    v.sort();
}

/// The keys `<prefix>0`, `<prefix>1`, ... of `n` indexed notes, in index order.
pub open spec fn indexed_keys(prefix: Seq<char>, n: nat) -> Seq<Seq<char>> {
    Seq::new(n, |i: int| prefix + dec(i as nat))
}

/// The keys are the `n` indexed keys, in the order a map sorted by key walks them.
pub open spec fn key_order(ks: Seq<Seq<char>>, prefix: Seq<char>, n: nat) -> bool {
    ks.to_multiset() == indexed_keys(prefix, n).to_multiset() && lex_sorted(ks)
}

/// The kinds `<prefix><i>` of `n` indexed notes, sorted as keys.
pub fn indexed_note_kinds(prefix: &str, n: usize) -> (r: Vec<String>)
    ensures
        key_order(strings_view(r@), prefix@, n as nat),
{
    let mut v: Vec<String> = Vec::new();
    let mut i: usize = 0;
    while i < n
        invariant
            i <= n,
            strings_view(v@) == indexed_keys(prefix@, i as nat),
        decreases n - i,
    {
        let mut k = chars_of(prefix);
        let d = crate::text::u64_decimal(i as u64);
        crate::text::push_all(&mut k, &d);
        let ghost before = v@;
        v.push(string_of(&k));
        proof {
            assert(strings_view(v@) =~= strings_view(before).push(prefix@ + dec(i as nat)));
            assert(indexed_keys(prefix@, (i + 1) as nat) =~= indexed_keys(prefix@, i as nat).push(
                prefix@ + dec(i as nat),
            ));
        }
        i = i + 1;
    }
    sort_strings(&mut v);
    v
}

/// The notes `<prefix><i>` holding item `i` alone.
pub open spec fn indexed_notes_spec(prefix: Seq<char>, items: Seq<ResponseItem>) -> Map<Seq<char>, Seq<ResponseItem>>
    decreases items.len(),
{
    if items.len() == 0 {
        Map::empty()
    } else {
        indexed_notes_spec(prefix, items.drop_last()).insert(
            prefix + dec((items.len() - 1) as nat),
            seq![items.last()],
        )
    }
}

/// Each item as a note of its own, under `<prefix><index>`.
pub fn indexed_note_items(prefix: &str, items: Vec<ResponseItem>) -> (r: KeyedItems<Vec<ResponseItem>>)
    ensures
        notes_view(r@) == indexed_notes_spec(prefix@, items@),
{
    let ghost all = items@;
    let mut rest = items;
    assert(all.len() == rest.len());
    let mut notes: KeyedItems<Vec<ResponseItem>> = KeyedItems::new();
    let mut i: usize = 0;
    proof {
        assert(notes_view(notes@) =~= indexed_notes_spec(prefix@, all.take(0)));
    }
    while rest.len() > 0
        invariant
            all.len() <= usize::MAX,
            i + rest@.len() == all.len(),
            rest@ == all.skip(i as int),
            notes_view(notes@) == indexed_notes_spec(prefix@, all.take(i as int)),
        decreases rest.len(),
    {
        let item = rest.remove(0);
        let mut k = chars_of(prefix);
        let d = crate::text::u64_decimal(i as u64);
        crate::text::push_all(&mut k, &d);
        let mut one: Vec<ResponseItem> = Vec::new();
        one.push(item);
        proof {
            assert(item == all[i as int]);
            assert(one@ =~= seq![all[i as int]]);
            assert(all.take(i + 1).drop_last() =~= all.take(i as int));
            assert(rest@ =~= all.skip(i + 1));
        }
        notes.insert(string_of(&k), one);
        proof {
            assert(notes_view(notes@) =~= indexed_notes_spec(prefix@, all.take(i + 1)));
        }
        i = i + 1;
    }
    proof {
        assert(all.take(i as int) =~= all);
    }
    notes
}

// ----------------------------------------------------------------------------
// Rendering a cover with a new memory
// ----------------------------------------------------------------------------
/// The items of a plan.
pub open spec fn plan_items(plan: Seq<(OriginView, ResponseItem)>) -> Seq<ResponseItem> {
    plan.map_values(|p: (OriginView, ResponseItem)| p.1)
}

/// The note kinds as cover segments.
pub open spec fn kind_notes(kinds: Seq<Seq<char>>) -> Seq<SegmentView> {
    kinds.map_values(|k: Seq<char>| SegmentView::Note(k))
}

/// What rendering a planned cover with memory `compact_id` (item
/// `memory_item`) gives: notes of `kinds` placed after (or before) that memory,
/// the runtime's memory items plus the new one, rendered over the history.
pub open spec fn render_candidate_spec(
    h: Seq<ResponseItem>,
    spans: Seq<InstalledCompactSpan>,
    segs: Seq<SegmentView>,
    arts: Map<Seq<char>, RawSpan>,
    compact_id: Seq<char>,
    memory_item: ResponseItem,
    notes: Map<Seq<char>, Seq<ResponseItem>>,
    kinds: Seq<Seq<char>>,
    after: bool,
) -> Option<Seq<(OriginView, ResponseItem)>> {
    if kinds.len() > 0 && !holds_mem(segs, compact_id) {
        None
    } else {
        let pi = if kinds.len() > 0 {
            with_notes(segs, compact_id, kind_notes(kinds), after)
        } else {
            segs
        };
        match memory_items_spec(h, spans, spans.len()) {
            None => None,
            Some(m) => render_spec(h, spans, pi, arts, m.insert(compact_id, memory_item), notes),
        }
    }
}

/// What rendering the cover of the history with memory `compact_id` over
/// `span` installed last gives: the notes (in `kinds` order) placed after it
/// or before it, the installed memories kept as their history items, the new
/// memory as `memory_item`; `None` when the history's end does not map, the
/// cover cannot be built, the notes cannot be placed, or rendering fails.
pub open spec fn render_with_memory_spec(
    h: Seq<ResponseItem>,
    spans: Seq<InstalledCompactSpan>,
    compact_id: Seq<char>,
    span: RawSpan,
    memory_item: ResponseItem,
    notes: Map<Seq<char>, Seq<ResponseItem>>,
    kinds: Seq<Seq<char>>,
    after: bool,
) -> Option<Seq<(OriginView, ResponseItem)>> {
    match raw_for_index_from(h, spans, h.len(), 0, 0, 0) {
        None => None,
        Some(raw_len) => {
            let arts = runtime_artifacts(spans).insert(compact_id, span);
            match canonical_cover_spec(raw_len, runtime_ids(spans).push(compact_id), arts) {
                Err(_) => None,
                Ok(segs) => render_candidate_spec(h, spans, segs, arts, compact_id, memory_item, notes, kinds, after),
            }
        },
    }
}

pub(crate) proof fn lemma_same_items_trans(a: Seq<ResponseItem>, b: Seq<ResponseItem>, c: Seq<ResponseItem>)
    requires
        same_items(a, b),
        same_items(b, c),
    ensures
        same_items(a, c),
{
    assert forall|i: int| 0 <= i < a.len() implies same_item(#[trigger] a[i], c[i]) by {
        assert(same_item(a[i], b[i]));
        assert(same_item(b[i], c[i]));
    }
}

/// Renders a planned cover of `history` (segments `pi`, spans `artifacts`)
/// with memory `compact_id` as `memory_item`; `note_items` become notes placed
/// after (or before) that memory, keyed `<note_prefix><index>`.
pub fn render_candidate_with_memory(
    history: &Vec<ResponseItem>,
    runtime_spans: &Vec<InstalledCompactSpan>,
    compact_id: &str,
    pi: &Vec<Segment>,
    artifacts: &SegmentArtifacts,
    memory_item: ResponseItem,
    note_prefix: &str,
    note_items: Vec<ResponseItem>,
    after: bool,
) -> (r: Result<Vec<ResponseItem>, SpineError>)
    ensures
        exists|kinds: Seq<Seq<char>>|
            #[trigger] key_order(kinds, note_prefix@, note_items@.len())
                && match render_candidate_spec(
                history@,
                runtime_spans@,
                segments_view(pi@),
                artifacts@,
                compact_id@,
                memory_item,
                indexed_notes_spec(note_prefix@, note_items@),
                kinds,
                after,
            ) {
                Some(plan) => r matches Ok(v) && same_items(v@, plan_items(plan)),
                None => r is Err,
            },
{
    let ghost h = history@;
    let ghost spans = runtime_spans@;
    let ghost notes0 = note_items@;
    let kinds = indexed_note_kinds(note_prefix, note_items.len());
    let ghost ks = strings_view(kinds@);
    let ghost notes_map = indexed_notes_spec(note_prefix@, notes0);
    let has_notes = kinds.len() > 0;
    proof {
        assert(ks.len() == note_items@.len()) by {
            broadcast use vstd::seq_lib::group_to_multiset_ensures;
            assert(ks.to_multiset().len() == ks.len());
            assert(indexed_keys(note_prefix@, notes0.len()).to_multiset().len() == notes0.len());
        }
        assert(note_views(kinds@) == kind_notes(ks)) by {
            assert(note_views(kinds@) =~= kind_notes(ks));
        }
    }
    let notes = indexed_note_items(note_prefix, note_items);
    let pi = if has_notes {
        if after {
            insert_notes_after_mem(pi, compact_id, &kinds)?
        } else {
            insert_notes_before_mem(pi, compact_id, &kinds)?
        }
    } else {
        copy_segments(pi)
    };
    let mut mem_items = memory_items_from_runtime_spans(history, runtime_spans)?;
    let ghost m_spec = memory_items_spec(h, spans, spans.len())->Some_0;
    let ghost m_before = mem_items@;
    mem_items.insert(owned(compact_id), memory_item);
    proof {
        let m1 = mem_items@;
        let m2 = m_spec.insert(compact_id@, memory_item);
        assert(m1.dom() =~= m2.dom());
        assert forall|k: Seq<char>| #[trigger] m1.contains_key(k) implies same_item(m1[k], m2[k]) by {
            if k != compact_id@ {
                assert(m_before.contains_key(k));
            }
        }
        assert(similar_items(m1, m2));
        lemma_render_similar_mems(h, spans, segments_view(pi@), artifacts@, m1, m2, notes_view(notes@));
    }
    let rendered = render_pi_bridge_replacement_history(history, runtime_spans, &pi, artifacts, &mem_items, &notes);
    proof {
        let m1 = mem_items@;
        let m2 = m_spec.insert(compact_id@, memory_item);
        if rendered is Ok {
            let v = rendered->Ok_0;
            {
                let p1 = render_spec(h, spans, segments_view(pi@), artifacts@, m1, notes_view(notes@))->Some_0;
                let p2 = render_spec(h, spans, segments_view(pi@), artifacts@, m2, notes_view(notes@))->Some_0;
                assert(same_items(v@, plan_items(p1)));
                assert(render_spec(h, spans, segments_view(pi@), artifacts@, m1, notes_view(notes@)) is Some);
                assert(similar_plans(p1, p2));
                assert(same_items(plan_items(p1), plan_items(p2))) by {
                    assert forall|i: int| 0 <= i < plan_items(p1).len() implies same_item(
                        #[trigger] plan_items(p1)[i],
                        plan_items(p2)[i],
                    ) by {
                        assert(p1[i].0 == p2[i].0 && same_item(p1[i].1, p2[i].1));
                    }
                }
                lemma_same_items_trans(v@, plan_items(p1), plan_items(p2));
            }
        }
        assert(key_order(ks, note_prefix@, notes0.len()));
    }
    rendered
}

fn copy_segments(pi: &Vec<Segment>) -> (r: Vec<Segment>)
    ensures
        segments_view(r@) == segments_view(pi@),
{
    let mut r: Vec<Segment> = Vec::new();
    let mut i: usize = 0;
    while i < pi.len()
        invariant
            i <= pi.len(),
            segments_view(r@) == segments_view(pi@.take(i as int)),
        decreases pi.len() - i,
    {
        let s = match &pi[i] {
            Segment::Raw(span) => Segment::Raw(*span),
            Segment::Mem { compact_id } => Segment::Mem { compact_id: owned(compact_id.as_str()) },
            Segment::Note { kind } => Segment::Note { kind: owned(kind.as_str()) },
        };
        let ghost before = r@;
        r.push(s);
        proof {
            assert(segment_view(s) == segment_view(pi@[i as int]));
            assert(r@ =~= before.push(s));
            assert(segments_view(pi@.take(i + 1)) =~= segments_view(pi@.take(i as int)).push(segment_view(pi@[i as int])));
            assert(segments_view(r@) =~= segments_view(before).push(segment_view(s)));
        }
        i = i + 1;
    }
    proof {
        assert(pi@.take(i as int) =~= pi@);
    }
    r
}

/// Renders the cover of `history` with memory `compact_id` over `span`
/// installed after the runtime's spans; `note_items` become notes placed after
/// (or before) the new memory, keyed `<note_prefix><index>`.
fn render_with_memory(
    history: &Vec<ResponseItem>,
    runtime_spans: &Vec<InstalledCompactSpan>,
    compact_id: &str,
    span: RawSpan,
    memory_item: ResponseItem,
    note_prefix: &str,
    note_items: Vec<ResponseItem>,
    after: bool,
) -> (r: Result<Vec<ResponseItem>, SpineError>)
    ensures
        exists|kinds: Seq<Seq<char>>|
            #[trigger] key_order(kinds, note_prefix@, note_items@.len())
                && match render_with_memory_spec(
                history@,
                runtime_spans@,
                compact_id@,
                span,
                memory_item,
                indexed_notes_spec(note_prefix@, note_items@),
                kinds,
                after,
            ) {
                Some(plan) => r matches Ok(v) && same_items(v@, plan_items(plan)),
                None => r is Err,
            },
{
    let keys = indexed_note_kinds(note_prefix, note_items.len());
    let ghost ks = strings_view(keys@);
    let raw_len = match raw_ordinal_for_effective_index_with_spans(history, history.len(), runtime_spans) {
        Some(x) => x,
        None => {
            proof {
                assert(key_order(ks, note_prefix@, note_items@.len()));
            }
            return Err(SpineError::Invariant(owned("spine render(Pi) could not map history end")));
        },
    };
    let candidate = CandidateMem::anonymous(owned(compact_id), span);
    let cover = match plan_candidate_mem_cover(raw_len, runtime_spans, &candidate) {
        Ok(c) => c,
        Err(e) => {
            proof {
                assert(key_order(ks, note_prefix@, note_items@.len()));
            }
            let mut m = chars_of("render(Pi) failed to build canonical cover: ");
            let t = e.source.to_string();
            push_str(&mut m, t.as_str());
            return Err(SpineError::Invariant(string_of(&m)));
        },
    };
    render_candidate_with_memory(
        history,
        runtime_spans,
        compact_id,
        &cover.pi,
        &cover.artifacts,
        memory_item,
        note_prefix,
        note_items,
        after,
    )
}

// ----------------------------------------------------------------------------
// Suffix folds
// ----------------------------------------------------------------------------
/// The history with items `[cut_index, fold_end_index)` replaced by `ir_items`.
pub fn build_suffix_replacement_history(
    old_history: &Vec<ResponseItem>,
    cut_index: usize,
    fold_end_index: usize,
    ir_items: Vec<ResponseItem>,
) -> (r: Vec<ResponseItem>)
    requires
        cut_index <= old_history.len(),
        fold_end_index <= old_history.len(),
    ensures
        same_items(r@, old_history@.take(cut_index as int) + ir_items@ + old_history@.skip(fold_end_index as int)),
{
    let ghost h = old_history@;
    let ghost irs = ir_items@;
    let mut r = crate::items::copy_items(old_history, 0, cut_index);
    let mut ir_items = ir_items;
    r.append(&mut ir_items);
    let tail = crate::items::copy_items(old_history, fold_end_index, old_history.len());
    let ghost before = r@;
    let mut tail = tail;
    let ghost t = tail@;
    r.append(&mut tail);
    proof {
        let expected = h.take(cut_index as int) + irs + h.skip(fold_end_index as int);
        assert(h.subrange(0, cut_index as int) =~= h.take(cut_index as int));
        assert(h.subrange(fold_end_index as int, h.len() as int) =~= h.skip(fold_end_index as int));
        assert forall|i: int| 0 <= i < r@.len() implies same_item(#[trigger] r@[i], expected[i]) by {
            if i < cut_index {
                assert(r@[i] == before[i]);
            } else if i < cut_index + irs.len() {
                assert(r@[i] == irs[i - cut_index]);
            } else {
                assert(r@[i] == t[i - before.len()]);
            }
        }
    }
    r
}

/// The replacement history after a suffix fold, rendered from the cover: the
/// new memory `compact_id` over the boundary's span, with `note_items` as notes
/// right after it (keyed `suffix_note_<index>`, in key order).
pub fn build_suffix_replacement_history_from_pi(
    old_history: &Vec<ResponseItem>,
    runtime_spans: &Vec<InstalledCompactSpan>,
    compact_id: &str,
    boundary: &SpineCompactBoundary,
    memory_item: ResponseItem,
    note_items: Vec<ResponseItem>,
) -> (r: Result<Vec<ResponseItem>, SpineError>)
    ensures
        exists|kinds: Seq<Seq<char>>|
            #[trigger] key_order(kinds, "suffix_note_"@, note_items@.len())
                && match render_with_memory_spec(
                old_history@,
                runtime_spans@,
                compact_id@,
                RawSpan { start: boundary.cut_ordinal, end: boundary.fold_end_ordinal },
                memory_item,
                indexed_notes_spec("suffix_note_"@, note_items@),
                kinds,
                true,
            ) {
                Some(plan) => r matches Ok(v) && same_items(v@, plan_items(plan)),
                None => r is Err,
            },
{
    render_with_memory(
        old_history,
        runtime_spans,
        compact_id,
        RawSpan { start: boundary.cut_ordinal, end: boundary.fold_end_ordinal },
        memory_item,
        "suffix_note_",
        note_items,
        true,
    )
}

// ----------------------------------------------------------------------------
// Root archives
// ----------------------------------------------------------------------------
/// A root archive's replacement history, and where the archive's span starts.
#[derive(Debug, PartialEq)]
pub struct RootArchiveReplacementHistory {
    pub replacement_history: Vec<ResponseItem>,
    pub archive_cut_ordinal: u64,
    pub archive_cut_index: usize,
}

/// Why the prefix before a root archive is not admissible.
#[derive(Clone, Debug, PartialEq, Eq)]
pub enum ArchivePrefixError {
    NotAdmissible { index: usize, raw_cursor: u64 },
    RawCursorOverflow,
    SpanMisaligned { index: usize, cut: u64, expected: u64 },
    SpanEmpty { index: usize, cut: u64, fold_end: u64 },
}

/// Scanning the prefix `[k, end)` at raw cursor `raw` and span cursor `sc`
/// (skipping native compactions and initial-context wrappers) for the first
/// installed span: the archive's cut ordinal and item. The scan ends at the
/// prefix's end, or at a native compaction's stop, with the raw cursor there.
pub open spec fn archive_prefix_scan(
    h: Seq<ResponseItem>,
    spans: Seq<InstalledCompactSpan>,
    k: nat,
    end: nat,
    raw: u64,
    sc: nat,
) -> Result<(u64, nat), ArchivePrefixError>
    decreases end - k,
{
    if k >= end {
        Ok((raw, end))
    } else if is_non_spine_compact_spec(h[k as int]) || is_initial_context_spec(h[k as int]) {
        archive_prefix_scan(h, spans, k + 1, end, raw, sc)
    } else {
        match fold_classify_spec(h[k as int], raw, spans, sc) {
            None => Err(ArchivePrefixError::NotAdmissible { index: k as usize, raw_cursor: raw }),
            Some((sem, sc2)) => match sem {
                EffectiveItemSemantics::Raw1 => if raw == u64::MAX {
                    Err(ArchivePrefixError::RawCursorOverflow)
                } else {
                    archive_prefix_scan(h, spans, k + 1, end, (raw + 1) as u64, sc2)
                },
                EffectiveItemSemantics::Zero => archive_prefix_scan(h, spans, k + 1, end, raw, sc2),
                EffectiveItemSemantics::Span { cut, fold_end } => if cut != raw {
                    Err(ArchivePrefixError::SpanMisaligned { index: k as usize, cut, expected: raw })
                } else if cut >= fold_end {
                    Err(ArchivePrefixError::SpanEmpty { index: k as usize, cut, fold_end })
                } else {
                    Ok((raw, k))
                },
                EffectiveItemSemantics::Stop => Ok((raw, end)),
            },
        }
    }
}

/// Where the root archive's span starts: the first installed span in the
/// first `planned_cut_index` items, else the raw cursor after them.
pub fn archive_cut(
    history: &Vec<ResponseItem>,
    planned_cut_index: usize,
    runtime_spans: &Vec<InstalledCompactSpan>,
) -> (r: Result<(u64, usize), ArchivePrefixError>)
    requires
        planned_cut_index <= history.len(),
    ensures
        match archive_prefix_scan(history@, runtime_spans@, 0, planned_cut_index as nat, 0, 0) {
            Ok((o, i)) => r == Ok::<(u64, usize), ArchivePrefixError>((o, i as usize)),
            Err(e) => r == Err::<(u64, usize), ArchivePrefixError>(e),
        },
{
    let ghost h = history@;
    let ghost end = planned_cut_index as nat;
    let mut raw_cursor: u64 = 0;
    let mut span_cursor: usize = 0;
    let mut index: usize = 0;
    while index < planned_cut_index
        invariant
            index <= planned_cut_index <= history.len(),
            h == history@,
            end == planned_cut_index,
            archive_prefix_scan(h, runtime_spans@, 0, end, 0, 0) == archive_prefix_scan(
                h,
                runtime_spans@,
                index as nat,
                end,
                raw_cursor,
                span_cursor as nat,
            ),
        decreases planned_cut_index - index,
    {
        let item = &history[index];
        if is_non_spine_compact_item(item) || is_spine_initial_context_item(item) {
            index = index + 1;
            continue;
        }
        let sem = match classify_effective_item(item, raw_cursor, runtime_spans, &mut span_cursor) {
            Some(s) => s,
            None => {
                return Err(ArchivePrefixError::NotAdmissible { index, raw_cursor });
            },
        };
        match sem {
            EffectiveItemSemantics::Raw1 => {
                if raw_cursor == u64::MAX {
                    return Err(ArchivePrefixError::RawCursorOverflow);
                }
                raw_cursor = raw_cursor + 1;
            },
            EffectiveItemSemantics::Zero => {},
            EffectiveItemSemantics::Span { cut, fold_end } => {
                if cut != raw_cursor {
                    return Err(ArchivePrefixError::SpanMisaligned { index, cut, expected: raw_cursor });
                }
                if cut >= fold_end {
                    return Err(ArchivePrefixError::SpanEmpty { index, cut, fold_end });
                }
                return Ok((raw_cursor, index));
            },
            EffectiveItemSemantics::Stop => {
                return Ok((raw_cursor, planned_cut_index));
            },
        }
        index = index + 1;
    }
    Ok((raw_cursor, planned_cut_index))
}

proof fn lemma_archive_scan_bounded(
    h: Seq<ResponseItem>,
    spans: Seq<InstalledCompactSpan>,
    k: nat,
    end: nat,
    raw: u64,
    sc: nat,
)
    ensures
        archive_prefix_scan(h, spans, k, end, raw, sc) matches Ok((_, i)) ==> i <= end,
    decreases end - k,
{
    if k < end {
        if is_non_spine_compact_spec(h[k as int]) || is_initial_context_spec(h[k as int]) {
            lemma_archive_scan_bounded(h, spans, k + 1, end, raw, sc);
        } else {
            match fold_classify_spec(h[k as int], raw, spans, sc) {
                None => {},
                Some((sem, sc2)) => match sem {
                    EffectiveItemSemantics::Raw1 => {
                        if raw != u64::MAX {
                            lemma_archive_scan_bounded(h, spans, k + 1, end, (raw + 1) as u64, sc2);
                        }
                    },
                    EffectiveItemSemantics::Zero => {
                        lemma_archive_scan_bounded(h, spans, k + 1, end, raw, sc2);
                    },
                    _ => {},
                },
            }
        }
    }
}

/// What building a root archive's replacement history gives: the archive's
/// span runs from the cut the prefix scan finds to `fold_end_ordinal`, and the
/// cover with the root memory over it is rendered with the initial context
/// items as notes right before the root memory (keyed `initial_context_<i>`,
/// in key order).
pub open spec fn root_archive_outcome(
    h: Seq<ResponseItem>,
    spans: Seq<InstalledCompactSpan>,
    planned_cut_index: nat,
    fold_end_ordinal: u64,
    initial_context_items: Seq<ResponseItem>,
    root_memory_item: ResponseItem,
    root_compact_id: Seq<char>,
    r: Result<RootArchiveReplacementHistory, SpineError>,
) -> bool {
    match archive_prefix_scan(h, spans, 0, planned_cut_index, 0, 0) {
        Err(_) => r is Err,
        Ok((cut_ordinal, cut_index)) => if fold_end_ordinal < cut_ordinal {
            r is Err
        } else {
            exists|kinds: Seq<Seq<char>>|
                #[trigger] key_order(kinds, "initial_context_"@, initial_context_items.len())
                    && match render_with_memory_spec(
                    h,
                    spans,
                    root_compact_id,
                    RawSpan { start: cut_ordinal, end: fold_end_ordinal },
                    root_memory_item,
                    indexed_notes_spec("initial_context_"@, initial_context_items),
                    kinds,
                    false,
                ) {
                    Some(plan) => r matches Ok(a) && same_items(a.replacement_history@, plan_items(plan))
                        && a.archive_cut_ordinal == cut_ordinal && a.archive_cut_index == cut_index,
                    None => r is Err,
                }
        },
    }
}

/// The replacement history of a root archive under memory id `root_compact_id`.
pub fn build_root_archive_replacement_history_for_compact_id(
    history: &Vec<ResponseItem>,
    planned_cut_index: usize,
    fold_end_ordinal: u64,
    initial_context_items: Vec<ResponseItem>,
    root_memory_item: ResponseItem,
    runtime_spans: &Vec<InstalledCompactSpan>,
    root_compact_id: &str,
) -> (r: Result<RootArchiveReplacementHistory, SpineError>)
    requires
        planned_cut_index <= history.len(),
    ensures
        root_archive_outcome(
            history@,
            runtime_spans@,
            planned_cut_index as nat,
            fold_end_ordinal,
            initial_context_items@,
            root_memory_item,
            root_compact_id@,
            r,
        ),
{
    let ghost notes0 = initial_context_items@;
    let (archive_cut_ordinal, archive_cut_index) = match archive_cut(history, planned_cut_index, runtime_spans) {
        Ok(c) => c,
        Err(e) => {
            return Err(SpineError::Invariant(archive_prefix_error_text(&e)));
        },
    };
    if fold_end_ordinal < archive_cut_ordinal {
        let mut m = chars_of("spine root archive render(Pi) fold_end ordinal ");
        push_u64(&mut m, fold_end_ordinal);
        push_str(&mut m, " is before archive cut ordinal ");
        push_u64(&mut m, archive_cut_ordinal);
        return Err(SpineError::Invariant(string_of(&m)));
    }
    let rendered = render_with_memory(
        history,
        runtime_spans,
        root_compact_id,
        RawSpan { start: archive_cut_ordinal, end: fold_end_ordinal },
        root_memory_item,
        "initial_context_",
        initial_context_items,
        false,
    );
    let ghost span = RawSpan { start: archive_cut_ordinal, end: fold_end_ordinal };
    let ghost notes_map = indexed_notes_spec("initial_context_"@, notes0);
    let ghost kinds = choose|kinds: Seq<Seq<char>>|
        #[trigger] key_order(kinds, "initial_context_"@, notes0.len()) && match render_with_memory_spec(
            history@,
            runtime_spans@,
            root_compact_id@,
            span,
            root_memory_item,
            notes_map,
            kinds,
            false,
        ) {
            Some(plan) => rendered matches Ok(v) && same_items(v@, plan_items(plan)),
            None => rendered is Err,
        };
    let r = match rendered {
        Ok(replacement_history) => Ok(
            RootArchiveReplacementHistory { replacement_history, archive_cut_ordinal, archive_cut_index },
        ),
        Err(e) => Err(e),
    };
    proof {
        lemma_archive_scan_bounded(history@, runtime_spans@, 0, planned_cut_index as nat, 0, 0);
        assert(key_order(kinds, "initial_context_"@, notes0.len()));
        match render_with_memory_spec(
            history@,
            runtime_spans@,
            root_compact_id@,
            span,
            root_memory_item,
            notes_map,
            kinds,
            false,
        ) {
            Some(plan) => {
                assert(r matches Ok(a) && same_items(a.replacement_history@, plan_items(plan))
                    && a.archive_cut_ordinal == archive_cut_ordinal && a.archive_cut_index == archive_cut_index);
            },
            None => {},
        }
    }
    r
}

/// The replacement history of a root archive.
pub fn build_root_archive_replacement_history(
    history: &Vec<ResponseItem>,
    planned_cut_index: usize,
    fold_end_ordinal: u64,
    initial_context_items: Vec<ResponseItem>,
    root_memory_item: ResponseItem,
    runtime_spans: &Vec<InstalledCompactSpan>,
) -> (r: Result<RootArchiveReplacementHistory, SpineError>)
    requires
        planned_cut_index <= history.len(),
    ensures
        root_archive_outcome(
            history@,
            runtime_spans@,
            planned_cut_index as nat,
            fold_end_ordinal,
            initial_context_items@,
            root_memory_item,
            ROOT_ARCHIVE_COMPACT_ID@,
            r,
        ),
{
    build_root_archive_replacement_history_for_compact_id(
        history,
        planned_cut_index,
        fold_end_ordinal,
        initial_context_items,
        root_memory_item,
        runtime_spans,
        ROOT_ARCHIVE_COMPACT_ID,
    )
}

/// The memory id under which a root archive is rendered.
pub const ROOT_ARCHIVE_COMPACT_ID: &'static str = "__spine_root_archive_render_pi__";

/// The message of an inadmissible root archive prefix.
pub open spec fn archive_prefix_error_message(e: ArchivePrefixError) -> Seq<char> {
    match e {
        ArchivePrefixError::NotAdmissible { index, raw_cursor } => "spine root archive prefix is not admissible: item "@
            + dec(index as nat) + " does not match raw cursor "@ + dec(raw_cursor as nat) + " in the compact span ledger"@,
        ArchivePrefixError::RawCursorOverflow => "spine root archive prefix raw cursor overflowed"@,
        ArchivePrefixError::SpanMisaligned { index, cut, expected } =>
            "spine root archive prefix is not admissible: span at item "@ + dec(index as nat) + " starts at raw ordinal "@
            + dec(cut as nat) + ", expected "@ + dec(expected as nat),
        ArchivePrefixError::SpanEmpty { index, cut, fold_end } =>
            "spine root archive prefix is not admissible: span at item "@ + dec(index as nat) + " is empty or inverted ["@
            + dec(cut as nat) + ", "@ + dec(fold_end as nat) + ")"@,
    }
}

fn archive_prefix_error_text(e: &ArchivePrefixError) -> (r: String)
    ensures
        r@ == archive_prefix_error_message(*e),
{
    let mut m: Vec<char> = Vec::new();
    match e {
        ArchivePrefixError::NotAdmissible { index, raw_cursor } => {
            push_str(&mut m, "spine root archive prefix is not admissible: item ");
            push_u64(&mut m, *index as u64);
            push_str(&mut m, " does not match raw cursor ");
            push_u64(&mut m, *raw_cursor);
            push_str(&mut m, " in the compact span ledger");
        },
        ArchivePrefixError::RawCursorOverflow => {
            push_str(&mut m, "spine root archive prefix raw cursor overflowed");
        },
        ArchivePrefixError::SpanMisaligned { index, cut, expected } => {
            push_str(&mut m, "spine root archive prefix is not admissible: span at item ");
            push_u64(&mut m, *index as u64);
            push_str(&mut m, " starts at raw ordinal ");
            push_u64(&mut m, *cut);
            push_str(&mut m, ", expected ");
            push_u64(&mut m, *expected);
        },
        ArchivePrefixError::SpanEmpty { index, cut, fold_end } => {
            push_str(&mut m, "spine root archive prefix is not admissible: span at item ");
            push_u64(&mut m, *index as u64);
            push_str(&mut m, " is empty or inverted [");
            push_u64(&mut m, *cut);
            push_str(&mut m, ", ");
            push_u64(&mut m, *fold_end);
            push_str(&mut m, ")");
        },
    }
    string_of(&m)
}

/// Where a root archive's span starts, read from the host bridge projection:
/// the first installed span before the planned cut, else the raw ordinal at
/// the planned cut; `None` when that does not map.
pub open spec fn resolved_archive_cut(
    es: Seq<crate::host_bridge::EntryV>,
    stopped: bool,
    raw_len: u64,
    hlen: nat,
    planned_cut_index: nat,
) -> Option<(u64, nat)> {
    match crate::host_bridge::first_span_spec(es, planned_cut_index) {
        Some((start, index)) => Some((start, index)),
        None => match crate::host_bridge::raw_for_spec(es, stopped, raw_len, hlen, planned_cut_index) {
            Some(raw) => Some((raw, planned_cut_index)),
            None => None,
        },
    }
}

/// Resolves a root archive's cut through the host bridge projection and checks
/// that the fold does not end before it.
pub fn resolve_root_archive_cut(
    history: &Vec<ResponseItem>,
    planned_cut_index: usize,
    fold_end_ordinal: u64,
    runtime_spans: &Vec<InstalledCompactSpan>,
) -> (r: Result<(u64, usize), SpineError>)
    ensures
        match crate::host_bridge::walk(history@, runtime_spans@, 0, 0, 0) {
            None => r is Err,
            Some((es, raw_len, stopped)) => match resolved_archive_cut(
                es,
                stopped,
                raw_len,
                history@.len(),
                planned_cut_index as nat,
            ) {
                None => r is Err,
                Some((o, i)) => if fold_end_ordinal < o {
                    r is Err
                } else {
                    r == Ok::<(u64, usize), SpineError>((o, i as usize))
                },
            },
        },
{
    let projection = match crate::host_bridge::HostBridgeProjection::build(history, runtime_spans) {
        Ok(p) => p,
        Err(_) => {
            return Err(SpineError::Invariant(owned("spine root archive render(Pi) could not project the history")));
        },
    };
    let (archive_cut_ordinal, archive_cut_index) = match projection.first_span_in_prefix(planned_cut_index) {
        Some(c) => c,
        None => match projection.raw_for_effective_index(planned_cut_index) {
            Some(raw) => (raw, planned_cut_index),
            None => {
                let mut m = chars_of("spine root archive render(Pi) planned cut index ");
                push_u64(&mut m, planned_cut_index as u64);
                push_str(&mut m, " does not map to a raw ordinal");
                return Err(SpineError::Invariant(string_of(&m)));
            },
        },
    };
    if fold_end_ordinal < archive_cut_ordinal {
        let mut m = chars_of("spine root archive render(Pi) fold_end ordinal ");
        push_u64(&mut m, fold_end_ordinal);
        push_str(&mut m, " is before archive cut ordinal ");
        push_u64(&mut m, archive_cut_ordinal);
        return Err(SpineError::Invariant(string_of(&m)));
    }
    Ok((archive_cut_ordinal, archive_cut_index))
}


// ----------------------------------------------------------------------------
// Replacement histories from a planned cover
// ----------------------------------------------------------------------------
/// The replacement history of a suffix fold whose cover was already planned:
/// the memory item after the folded span's place, its notes after it (keyed
/// `suffix_note_<i>`), rendered over the history.
pub fn build_suffix_replacement_history_from_candidate_plan(
    old_history: &Vec<ResponseItem>,
    runtime_spans: &Vec<InstalledCompactSpan>,
    compact_id: &str,
    candidate_plan: &CandidateMemCover,
    memory_item: ResponseItem,
    note_items: Vec<ResponseItem>,
) -> (r: Result<Vec<ResponseItem>, SpineError>)
    ensures
        exists|kinds: Seq<Seq<char>>|
            #[trigger] key_order(kinds, "suffix_note_"@, note_items@.len())
                && match render_candidate_spec(
                old_history@,
                runtime_spans@,
                segments_view(candidate_plan.pi@),
                candidate_plan.artifacts@,
                compact_id@,
                memory_item,
                indexed_notes_spec("suffix_note_"@, note_items@),
                kinds,
                true,
            ) {
                Some(plan) => r matches Ok(v) && same_items(v@, plan_items(plan)),
                None => r is Err,
            },
{
    render_candidate_with_memory(
        old_history,
        runtime_spans,
        compact_id,
        &candidate_plan.pi,
        &candidate_plan.artifacts,
        memory_item,
        "suffix_note_",
        note_items,
        true,
    )
}

/// The replacement history of a root archive whose cover was already planned:
/// the initial context items as notes before the root memory (keyed
/// `initial_context_<i>`), the root memory item, rendered over the history.
pub fn build_root_archive_replacement_history_from_candidate_plan(
    history: &Vec<ResponseItem>,
    runtime_spans: &Vec<InstalledCompactSpan>,
    root_compact_id: &str,
    initial_context_items: Vec<ResponseItem>,
    root_memory_item: ResponseItem,
    candidate_plan: &CandidateMemCover,
) -> (r: Result<Vec<ResponseItem>, SpineError>)
    ensures
        exists|kinds: Seq<Seq<char>>|
            #[trigger] key_order(kinds, "initial_context_"@, initial_context_items@.len())
                && match render_candidate_spec(
                history@,
                runtime_spans@,
                segments_view(candidate_plan.pi@),
                candidate_plan.artifacts@,
                root_compact_id@,
                root_memory_item,
                indexed_notes_spec("initial_context_"@, initial_context_items@),
                kinds,
                false,
            ) {
                Some(plan) => r matches Ok(v) && same_items(v@, plan_items(plan)),
                None => r is Err,
            },
{
    render_candidate_with_memory(
        history,
        runtime_spans,
        root_compact_id,
        &candidate_plan.pi,
        &candidate_plan.artifacts,
        root_memory_item,
        "initial_context_",
        initial_context_items,
        false,
    )
}

} // verus!
