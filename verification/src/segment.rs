//! The canonical cover Π of a rollout: raw ordinals `[0, raw_len)` tiled by
//! raw runs and installed memories.
//!
//! Memories are installed in ledger order. A later memory whose span holds
//! earlier ones replaces them (a root archive folds the memories inside it);
//! any other overlap is an error. What no memory covers stays raw.
use crate::text::{chars_of, copy_string, dec, push_all, push_str, push_u64, str_eq, string_of};
use vstd::prelude::*;

verus! {

/// Raw ordinals `[start, end)`.
#[derive(Clone, Copy, Debug, PartialEq, Eq, Structural)]
pub struct RawSpan {
    pub start: u64,
    pub end: u64,
}

/// The text of a span, `[start,end)`.
pub open spec fn span_text(span: RawSpan) -> Seq<char> {
    seq!['['] + dec(span.start as nat) + seq![','] + dec(span.end as nat) + seq![')']
}

impl RawSpan {
    /// The span's text, `[start,end)`.
    pub fn to_string(&self) -> (r: String)
        ensures
            r@ == span_text(*self),
    {
        let mut v: Vec<char> = Vec::new();
        v.push('[');
        push_u64(&mut v, self.start);
        v.push(',');
        push_u64(&mut v, self.end);
        v.push(')');
        string_of(&v)
    }
}

/// One segment of a cover: a raw run, an installed memory, or a note that
/// covers no raw ordinal.
#[derive(Debug, PartialEq, Eq)]
pub enum Segment {
    Raw(RawSpan),
    Mem { compact_id: String },
    Note { kind: String },
}

/// A segment over plain values.
pub enum SegmentView {
    Raw(RawSpan),
    Mem(Seq<char>),
    Note(Seq<char>),
}

impl Segment {
    /// A note segment of kind `kind`.
    pub fn note(kind: String) -> (r: Self)
        ensures
            segment_view(r) == SegmentView::Note(kind@),
    {
        Segment::Note { kind }
    }
}

/// The plain value of a segment.
pub open spec fn segment_view(s: Segment) -> SegmentView {
    match s {
        Segment::Raw(span) => SegmentView::Raw(span),
        Segment::Mem { compact_id } => SegmentView::Mem(compact_id@),
        Segment::Note { kind } => SegmentView::Note(kind@),
    }
}

/// The plain values of a list of segments.
pub open spec fn segments_view(s: Seq<Segment>) -> Seq<SegmentView> {
    s.map_values(|x: Segment| segment_view(x))
}

// ----------------------------------------------------------------------------
// Artifacts
// ----------------------------------------------------------------------------
/// The span of each installed memory, by compact id. A later entry for the
/// same id replaces the earlier one.
#[derive(Debug)]
pub struct SegmentArtifacts {
    entries: Vec<(String, RawSpan)>,
}

/// The map that a list of entries stands for; later entries win.
pub open spec fn entries_map(e: Seq<(String, RawSpan)>) -> Map<Seq<char>, RawSpan>
    decreases e.len(),
{
    if e.len() == 0 {
        Map::empty()
    } else {
        entries_map(e.drop_last()).insert(e.last().0@, e.last().1)
    }
}

impl View for SegmentArtifacts {
    type V = Map<Seq<char>, RawSpan>;

    closed spec fn view(&self) -> Map<Seq<char>, RawSpan> {
        entries_map(self.entries@)
    }
}

impl SegmentArtifacts {
    pub fn new() -> (r: Self)
        ensures
            r@ == Map::<Seq<char>, RawSpan>::empty(),
    {
        let r = SegmentArtifacts { entries: Vec::new() };
        assert(r@ =~= Map::<Seq<char>, RawSpan>::empty());
        r
    }

    /// Records the span of `compact_id`, replacing an earlier one.
    pub fn insert(&mut self, compact_id: String, span: RawSpan)
        ensures
            final(self)@ == old(self)@.insert(compact_id@, span),
    {
        let ghost before = self.entries@;
        self.entries.push((compact_id, span));
        assert(self.entries@.drop_last() =~= before);
    }

    /// The span recorded for `compact_id`.
    pub fn get(&self, compact_id: &str) -> (r: Option<&RawSpan>)
        ensures
            match r {
                Some(span) => self@.contains_key(compact_id@) && self@[compact_id@] == *span,
                None => !self@.contains_key(compact_id@),
            },
    {
        let mut i = self.entries.len();
        proof {
            assert(self.entries@.take(i as int) =~= self.entries@);
            assert(self.entries@.skip(i as int) =~= Seq::<(String, RawSpan)>::empty());
            assert(entries_map(self.entries@.skip(i as int)) =~= Map::<Seq<char>, RawSpan>::empty());
            assert(entries_map(self.entries@).union_prefer_right(Map::<Seq<char>, RawSpan>::empty())
                =~= entries_map(self.entries@));
        }
        while i > 0
            invariant
                i <= self.entries.len(),
                entries_map(self.entries@) == entries_map(self.entries@.take(i as int)).union_prefer_right(
                    entries_map(self.entries@.skip(i as int)),
                ),
                !entries_map(self.entries@.skip(i as int)).contains_key(compact_id@),
            decreases i,
        {
            let ghost e = self.entries@;
            proof {
                lemma_entries_split(e, i - 1);
            }
            if str_eq(self.entries[i - 1].0.as_str(), compact_id) {
                proof {
                    assert(e.take(i as int).drop_last() =~= e.take(i - 1));
                }
                return Some(&self.entries[i - 1].1);
            }
            proof {
                assert(e.take(i as int).drop_last() =~= e.take(i - 1));
                lemma_entries_skip_back(e, i - 1);
            }
            i = i - 1;
        }
        proof {
            assert(self.entries@.take(0) =~= Seq::<(String, RawSpan)>::empty());
            assert(entries_map(self.entries@.take(0)) =~= Map::<Seq<char>, RawSpan>::empty());
        }
        None
    }
}

proof fn lemma_entries_split(e: Seq<(String, RawSpan)>, i: int)
    requires
        0 <= i < e.len(),
    ensures
        entries_map(e) == entries_map(e.take(i + 1)).union_prefer_right(entries_map(e.skip(i + 1))),
        entries_map(e.take(i + 1)) == entries_map(e.take(i)).insert(e[i].0@, e[i].1),
    decreases e.len(),
{
    assert(e.take(i + 1).drop_last() =~= e.take(i));
    lemma_entries_concat(e.take(i + 1), e.skip(i + 1));
    assert(e.take(i + 1) + e.skip(i + 1) =~= e);
}

proof fn lemma_entries_concat(a: Seq<(String, RawSpan)>, b: Seq<(String, RawSpan)>)
    ensures
        entries_map(a + b) == entries_map(a).union_prefer_right(entries_map(b)),
    decreases b.len(),
{
    if b.len() == 0 {
        assert(a + b =~= a);
        assert(entries_map(a).union_prefer_right(Map::empty()) =~= entries_map(a));
    } else {
        lemma_entries_concat(a, b.drop_last());
        assert((a + b).drop_last() =~= a + b.drop_last());
        assert(entries_map(a + b) =~= entries_map(a).union_prefer_right(entries_map(b)));
    }
}

proof fn lemma_entries_skip_back(e: Seq<(String, RawSpan)>, i: int)
    requires
        0 <= i < e.len(),
    ensures
        entries_map(e.skip(i)) == Map::<Seq<char>, RawSpan>::empty().insert(e[i].0@, e[i].1).union_prefer_right(
            entries_map(e.skip(i + 1)),
        ),
{
    lemma_entries_concat(seq![e[i]], e.skip(i + 1));
    assert(seq![e[i]] + e.skip(i + 1) =~= e.skip(i));
    assert(seq![e[i]].drop_last() =~= Seq::<(String, RawSpan)>::empty());
    assert(entries_map(Seq::<(String, RawSpan)>::empty()) =~= Map::<Seq<char>, RawSpan>::empty());
    assert(entries_map(seq![e[i]]) =~= Map::<Seq<char>, RawSpan>::empty().insert(e[i].0@, e[i].1));
}

// ----------------------------------------------------------------------------
// Errors
// ----------------------------------------------------------------------------
/// Why a cover cannot be built or does not hold.
#[derive(Debug, PartialEq, Eq)]
pub enum SegmentError {
    EmptySpan { compact_id: String, span: RawSpan },
    CoverGap { expected: u64, actual: u64 },
    CoverOverlap { expected: u64, actual: u64 },
    ReplacementEmpty { span: RawSpan },
    ReplacementCutsSpan { span: RawSpan },
    ReplacementMatchedNoCover { span: RawSpan },
    CanonicalMemPastRawLen { compact_id: String, span: RawSpan, raw_len: u64 },
    CanonicalMemOverlap {
        compact_id: String,
        span: RawSpan,
        other_compact_id: String,
        other_span: RawSpan,
    },
    MissingMemArtifact { compact_id: String },
    LiveStartInsideMem { live_start: u64, compact_id: String, span: RawSpan },
    BoundaryNotMapped { raw_ordinal: u64 },
    BoundaryRoundTrip { raw_ordinal: u64, effective_index: u64 },
}

fn push_span(v: &mut Vec<char>, span: RawSpan)
    ensures
        final(v)@ == old(v)@ + span_text(span),
{
    let t = span.to_string();
    push_str(v, t.as_str());
}

/// The message of a cover error.
pub open spec fn segment_error_text(e: SegmentError) -> Seq<char> {
    match e {
        SegmentError::EmptySpan { compact_id, span } => "memory "@ + compact_id@
            + " has empty span "@ + span_text(span),
        SegmentError::CoverGap { expected, actual } =>
            "cover gap: expected segment at raw ordinal "@ + dec(expected as nat) + ", found "@
            + dec(actual as nat),
        SegmentError::CoverOverlap { expected, actual } =>
            "cover overlap: expected segment at raw ordinal "@ + dec(expected as nat)
            + ", found "@ + dec(actual as nat),
        SegmentError::ReplacementEmpty { span } => "replacement span "@ + span_text(span)
            + " is empty"@,
        SegmentError::ReplacementCutsSpan { span } => "replacement span "@ + span_text(span)
            + " cuts a segment"@,
        SegmentError::ReplacementMatchedNoCover { span } => "replacement span "@ + span_text(
            span,
        ) + " matched no segment"@,
        SegmentError::CanonicalMemPastRawLen { compact_id, span, raw_len } => "memory "@
            + compact_id@ + " span "@ + span_text(span) + " ends past raw_len "@ + dec(
            raw_len as nat,
        ),
        SegmentError::CanonicalMemOverlap { compact_id, span, other_compact_id, other_span } =>
            "memory "@ + compact_id@ + " span "@ + span_text(span) + " overlaps memory "@
            + other_compact_id@ + " span "@ + span_text(other_span),
        SegmentError::MissingMemArtifact { compact_id } => "memory "@ + compact_id@
            + " has no span artifact"@,
        SegmentError::LiveStartInsideMem { live_start, compact_id, span } => "live start "@
            + dec(live_start as nat) + " falls inside memory "@ + compact_id@ + " span "@
            + span_text(span),
        SegmentError::BoundaryNotMapped { raw_ordinal } => "raw boundary "@ + dec(
            raw_ordinal as nat,
        ) + " is not mapped"@,
        SegmentError::BoundaryRoundTrip { raw_ordinal, effective_index } => "raw boundary "@
            + dec(raw_ordinal as nat) + " maps to effective index "@ + dec(
            effective_index as nat,
        ) + " which does not map back"@,
    }
}

impl SegmentError {
    /// The error's message.
    pub fn to_string(&self) -> (r: String)
        ensures
            r@ == segment_error_text(*self),
    {
        let mut v: Vec<char> = Vec::new();
        match self {
            SegmentError::EmptySpan { compact_id, span } => {
                push_str(&mut v, "memory ");
                push_str(&mut v, compact_id.as_str());
                push_str(&mut v, " has empty span ");
                push_span(&mut v, *span);
            },
            SegmentError::CoverGap { expected, actual } => {
                push_str(&mut v, "cover gap: expected segment at raw ordinal ");
                push_u64(&mut v, *expected);
                push_str(&mut v, ", found ");
                push_u64(&mut v, *actual);
            },
            SegmentError::CoverOverlap { expected, actual } => {
                push_str(&mut v, "cover overlap: expected segment at raw ordinal ");
                push_u64(&mut v, *expected);
                push_str(&mut v, ", found ");
                push_u64(&mut v, *actual);
            },
            SegmentError::ReplacementEmpty { span } => {
                push_str(&mut v, "replacement span ");
                push_span(&mut v, *span);
                push_str(&mut v, " is empty");
            },
            SegmentError::ReplacementCutsSpan { span } => {
                push_str(&mut v, "replacement span ");
                push_span(&mut v, *span);
                push_str(&mut v, " cuts a segment");
            },
            SegmentError::ReplacementMatchedNoCover { span } => {
                push_str(&mut v, "replacement span ");
                push_span(&mut v, *span);
                push_str(&mut v, " matched no segment");
            },
            SegmentError::CanonicalMemPastRawLen { compact_id, span, raw_len } => {
                push_str(&mut v, "memory ");
                push_str(&mut v, compact_id.as_str());
                push_str(&mut v, " span ");
                push_span(&mut v, *span);
                push_str(&mut v, " ends past raw_len ");
                push_u64(&mut v, *raw_len);
            },
            SegmentError::CanonicalMemOverlap { compact_id, span, other_compact_id, other_span } => {
                push_str(&mut v, "memory ");
                push_str(&mut v, compact_id.as_str());
                push_str(&mut v, " span ");
                push_span(&mut v, *span);
                push_str(&mut v, " overlaps memory ");
                push_str(&mut v, other_compact_id.as_str());
                push_str(&mut v, " span ");
                push_span(&mut v, *other_span);
            },
            SegmentError::MissingMemArtifact { compact_id } => {
                push_str(&mut v, "memory ");
                push_str(&mut v, compact_id.as_str());
                push_str(&mut v, " has no span artifact");
            },
            SegmentError::LiveStartInsideMem { live_start, compact_id, span } => {
                push_str(&mut v, "live start ");
                push_u64(&mut v, *live_start);
                push_str(&mut v, " falls inside memory ");
                push_str(&mut v, compact_id.as_str());
                push_str(&mut v, " span ");
                push_span(&mut v, *span);
            },
            SegmentError::BoundaryNotMapped { raw_ordinal } => {
                push_str(&mut v, "raw boundary ");
                push_u64(&mut v, *raw_ordinal);
                push_str(&mut v, " is not mapped");
            },
            SegmentError::BoundaryRoundTrip { raw_ordinal, effective_index } => {
                push_str(&mut v, "raw boundary ");
                push_u64(&mut v, *raw_ordinal);
                push_str(&mut v, " maps to effective index ");
                push_u64(&mut v, *effective_index);
                push_str(&mut v, " which does not map back");
            },
        }
        assert(v@ =~= segment_error_text(*self));
        string_of(&v)
    }
}

// ----------------------------------------------------------------------------
// Building the cover: specification
// ----------------------------------------------------------------------------
/// Why the installed memories do not form a cover.
pub enum CoverFailure {
    Missing(Seq<char>),
    Empty(Seq<char>, RawSpan),
    PastRawLen(Seq<char>, RawSpan),
    Overlap(Seq<char>, RawSpan, Seq<char>, RawSpan),
}

/// `inner` lies within `outer`.
pub open spec fn span_within(inner: RawSpan, outer: RawSpan) -> bool {
    outer.start <= inner.start && inner.end <= outer.end
}

/// The two spans share an ordinal.
pub open spec fn spans_overlap(a: RawSpan, b: RawSpan) -> bool {
    a.start < b.end && b.start < a.end
}

/// The memories of `ms` that `span` does not hold, in order; or the first of
/// them that overlaps `span`.
pub open spec fn outside_of(ms: Seq<(Seq<char>, RawSpan)>, span: RawSpan) -> Result<
    Seq<(Seq<char>, RawSpan)>,
    (Seq<char>, RawSpan),
>
    decreases ms.len(),
{
    if ms.len() == 0 {
        Ok(Seq::empty())
    } else {
        match outside_of(ms.drop_last(), span) {
            Err(m) => Err(m),
            Ok(rest) => {
                let m = ms.last();
                if span_within(m.1, span) {
                    Ok(rest)
                } else if spans_overlap(m.1, span) {
                    Err(m)
                } else {
                    Ok(rest.push(m))
                }
            },
        }
    }
}

/// Where a memory starting at `start` goes in a list sorted by start.
pub open spec fn insert_position(ms: Seq<(Seq<char>, RawSpan)>, start: u64) -> int
    decreases ms.len(),
{
    if ms.len() == 0 {
        0
    } else if ms[0].1.start < start {
        1 + insert_position(ms.drop_first(), start)
    } else {
        0
    }
}

/// Installs one memory into the sorted list of visible memories.
pub open spec fn install_mem(
    ms: Seq<(Seq<char>, RawSpan)>,
    id: Seq<char>,
    artifacts: Map<Seq<char>, RawSpan>,
    raw_len: u64,
) -> Result<Seq<(Seq<char>, RawSpan)>, CoverFailure> {
    if !artifacts.contains_key(id) {
        Err(CoverFailure::Missing(id))
    } else {
        let span = artifacts[id];
        if span.start >= span.end {
            Err(CoverFailure::Empty(id, span))
        } else if span.end > raw_len {
            Err(CoverFailure::PastRawLen(id, span))
        } else {
            match outside_of(ms, span) {
                Err(m) => Err(CoverFailure::Overlap(id, span, m.0, m.1)),
                Ok(rest) => {
                    let p = insert_position(rest, span.start);
                    Ok(rest.take(p) + seq![(id, span)] + rest.skip(p))
                },
            }
        }
    }
}

/// The visible memories after installing `ids` in order.
pub open spec fn installed_mems(
    ids: Seq<Seq<char>>,
    artifacts: Map<Seq<char>, RawSpan>,
    raw_len: u64,
) -> Result<Seq<(Seq<char>, RawSpan)>, CoverFailure>
    decreases ids.len(),
{
    if ids.len() == 0 {
        Ok(Seq::empty())
    } else {
        match installed_mems(ids.drop_last(), artifacts, raw_len) {
            Err(e) => Err(e),
            Ok(ms) => install_mem(ms, ids.last(), artifacts, raw_len),
        }
    }
}

/// The cover of `[cursor, raw_len)` by the sorted memories `ms`, raw runs filling
/// the gaps.
pub open spec fn cover_from(ms: Seq<(Seq<char>, RawSpan)>, cursor: u64, raw_len: u64) -> Seq<
    SegmentView,
>
    decreases ms.len(),
{
    if ms.len() == 0 {
        if cursor < raw_len {
            seq![SegmentView::Raw(RawSpan { start: cursor, end: raw_len })]
        } else {
            Seq::empty()
        }
    } else {
        let m = ms[0];
        let gap = if cursor < m.1.start {
            seq![SegmentView::Raw(RawSpan { start: cursor, end: m.1.start })]
        } else {
            Seq::empty()
        };
        gap + seq![SegmentView::Mem(m.0)] + cover_from(ms.drop_first(), m.1.end, raw_len)
    }
}

/// The canonical cover of `[0, raw_len)` by the memories `ids` name, or why
/// there is none.
pub open spec fn canonical_cover_spec(
    raw_len: u64,
    ids: Seq<Seq<char>>,
    artifacts: Map<Seq<char>, RawSpan>,
) -> Result<Seq<SegmentView>, CoverFailure> {
    match installed_mems(ids, artifacts, raw_len) {
        Ok(ms) => Ok(cover_from(ms, 0, raw_len)),
        Err(e) => Err(e),
    }
}

/// `e` is the error that reports `f`.
pub open spec fn reports(e: SegmentError, f: CoverFailure) -> bool {
    match f {
        CoverFailure::Missing(id) => e matches SegmentError::MissingMemArtifact { compact_id }
            && compact_id@ == id,
        CoverFailure::Empty(id, span) => e matches SegmentError::EmptySpan { compact_id, span: s }
            && compact_id@ == id && s == span,
        CoverFailure::PastRawLen(id, span) => e matches SegmentError::CanonicalMemPastRawLen {
            compact_id,
            span: s,
            raw_len: _,
        } && compact_id@ == id && s == span,
        CoverFailure::Overlap(id, span, other, other_span) => e matches
            SegmentError::CanonicalMemOverlap {
            compact_id,
            span: s,
            other_compact_id,
            other_span: os,
        } && compact_id@ == id && s == span && other_compact_id@ == other && os == other_span,
    }
}

/// The memory list is sorted by start, its spans non-empty, disjoint and
/// within `[0, raw_len)`.
pub open spec fn sorted_disjoint(ms: Seq<(Seq<char>, RawSpan)>, raw_len: u64) -> bool {
    &&& forall|i: int| 0 <= i < ms.len() ==> #[trigger] ms[i].1.start < ms[i].1.end && ms[i].1.end <= raw_len
    &&& forall|i: int, j: int| 0 <= i < j < ms.len() ==> #[trigger] ms[i].1.end <= #[trigger] ms[j].1.start
}

// ----------------------------------------------------------------------------
// Building the cover
// ----------------------------------------------------------------------------
/// The plain values of a memory list.
pub open spec fn mems_view(v: Seq<(String, RawSpan)>) -> Seq<(Seq<char>, RawSpan)> {
    v.map_values(|m: (String, RawSpan)| (m.0@, m.1))
}

/// The plain values of a list of compact ids.
pub open spec fn ids_view(v: Seq<String>) -> Seq<Seq<char>> {
    v.map_values(|s: String| s@)
}

proof fn lemma_outside_err_extends(ms: Seq<(Seq<char>, RawSpan)>, span: RawSpan, k: int)
    requires
        0 <= k <= ms.len(),
        outside_of(ms.take(k), span) is Err,
    ensures
        outside_of(ms, span) == outside_of(ms.take(k), span),
    decreases ms.len() - k,
{
    if k == ms.len() {
        assert(ms.take(k) =~= ms);
    } else {
        assert(ms.take(k + 1).drop_last() =~= ms.take(k));
        lemma_outside_err_extends(ms, span, k + 1);
    }
}

proof fn lemma_installed_err_extends(ids: Seq<Seq<char>>, a: Map<Seq<char>, RawSpan>, n: u64, k: int)
    requires
        0 <= k <= ids.len(),
        installed_mems(ids.take(k), a, n) is Err,
    ensures
        installed_mems(ids, a, n) == installed_mems(ids.take(k), a, n),
    decreases ids.len() - k,
{
    if k == ids.len() {
        assert(ids.take(k) =~= ids);
    } else {
        assert(ids.take(k + 1).drop_last() =~= ids.take(k));
        lemma_installed_err_extends(ids, a, n, k + 1);
    }
}

proof fn lemma_insert_position(ms: Seq<(Seq<char>, RawSpan)>, start: u64, p: int)
    requires
        0 <= p <= ms.len(),
        forall|i: int| 0 <= i < p ==> #[trigger] ms[i].1.start < start,
        p == ms.len() || ms[p].1.start >= start,
    ensures
        insert_position(ms, start) == p,
    decreases p,
{
    if p > 0 {
        let t = ms.drop_first();
        assert forall|i: int| 0 <= i < p - 1 implies #[trigger] t[i].1.start < start by {
            assert(t[i] == ms[i + 1]);
        }
        if p - 1 < t.len() {
            assert(t[p - 1] == ms[p]);
        }
        lemma_insert_position(t, start, p - 1);
    }
}

/// Installs one memory into the sorted list of visible memories.
fn install_step(
    mems: Vec<(String, RawSpan)>,
    id: &String,
    artifacts: &SegmentArtifacts,
    raw_len: u64,
) -> (r: Result<Vec<(String, RawSpan)>, SegmentError>)
    ensures
        match install_mem(mems_view(mems@), id@, artifacts@, raw_len) {
            Ok(ms) => r matches Ok(v) && mems_view(v@) == ms,
            Err(f) => r matches Err(e) && reports(e, f),
        },
{
    let span = match artifacts.get(id.as_str()) {
        None => {
            return Err(SegmentError::MissingMemArtifact { compact_id: copy_string(id) });
        },
        Some(s) => *s,
    };
    if span.start >= span.end {
        return Err(SegmentError::EmptySpan { compact_id: copy_string(id), span });
    }
    if span.end > raw_len {
        return Err(SegmentError::CanonicalMemPastRawLen { compact_id: copy_string(id), span, raw_len });
    }
    let ghost ms = mems_view(mems@);
    let mut rest: Vec<(String, RawSpan)> = Vec::new();
    let mut k: usize = 0;
    proof {
        assert(ms.take(0) =~= Seq::<(Seq<char>, RawSpan)>::empty());
        assert(mems_view(rest@) =~= Seq::<(Seq<char>, RawSpan)>::empty());
    }
    while k < mems.len()
        invariant
            k <= mems.len(),
            ms == mems_view(mems@),
            artifacts@.contains_key(id@),
            artifacts@[id@] == span,
            span.start < span.end <= raw_len,
            outside_of(ms.take(k as int), span) == Ok::<Seq<(Seq<char>, RawSpan)>, (Seq<char>, RawSpan)>(mems_view(rest@)),
        decreases mems.len() - k,
    {
        proof {
            assert(ms.take(k + 1).drop_last() =~= ms.take(k as int));
        }
        let m_start = mems[k].1.start;
        let m_end = mems[k].1.end;
        if span.start <= m_start && m_end <= span.end {
            assert(ms.take(k + 1).last() == ms[k as int]);
        } else if m_start < span.end && span.start < m_end {
            proof {
                assert(ms.take(k + 1).last() == ms[k as int]);
                assert(ms[k as int] == (mems@[k as int].0@, mems@[k as int].1));
                assert(outside_of(ms.take(k + 1), span) == Err::<Seq<(Seq<char>, RawSpan)>, (Seq<char>, RawSpan)>(ms[k as int]));
                lemma_outside_err_extends(ms, span, k + 1);
            }
            return Err(
                SegmentError::CanonicalMemOverlap {
                    compact_id: copy_string(id),
                    span,
                    other_compact_id: copy_string(&mems[k].0),
                    other_span: mems[k].1,
                },
            );
        } else {
            let ghost before = rest@;
            rest.push((copy_string(&mems[k].0), mems[k].1));
            proof {
                assert(ms.take(k + 1).last() == ms[k as int]);
                assert(mems_view(rest@) =~= mems_view(before).push(ms[k as int]));
            }
        }
        k = k + 1;
    }
    proof {
        assert(ms.take(mems.len() as int) =~= ms);
    }
    let mut p: usize = 0;
    while p < rest.len() && rest[p].1.start < span.start
        invariant
            p <= rest.len(),
            forall|i: int| 0 <= i < p ==> #[trigger] rest@[i].1.start < span.start,
        decreases rest.len() - p,
    {
        p = p + 1;
    }
    let ghost rv = mems_view(rest@);
    proof {
        assert forall|i: int| 0 <= i < p implies #[trigger] rv[i].1.start < span.start by {
            assert(rv[i].1 == rest@[i].1);
        }
        if p < rest.len() {
            assert(rv[p as int].1 == rest@[p as int].1);
        }
        lemma_insert_position(rv, span.start, p as int);
    }
    rest.insert(p, (copy_string(id), span));
    proof {
        assert(mems_view(rest@) =~= rv.take(p as int) + seq![(id@, span)] + rv.skip(p as int));
    }
    Ok(rest)
}

/// The canonical cover of raw ordinals `[0, raw_len)` by the memories that
/// `compact_ids` name, installed in that order.
pub fn canonical_cover(raw_len: u64, compact_ids: &Vec<String>, artifacts: &SegmentArtifacts) -> (r:
    Result<Vec<Segment>, SegmentError>)
    ensures
        match canonical_cover_spec(raw_len, ids_view(compact_ids@), artifacts@) {
            Ok(segs) => r matches Ok(v) && segments_view(v@) == segs,
            Err(f) => r matches Err(e) && reports(e, f),
        },
{
    let ghost ids = ids_view(compact_ids@);
    let mut mems: Vec<(String, RawSpan)> = Vec::new();
    let mut i: usize = 0;
    proof {
        assert(ids.take(0) =~= Seq::<Seq<char>>::empty());
        assert(mems_view(mems@) =~= Seq::<(Seq<char>, RawSpan)>::empty());
    }
    while i < compact_ids.len()
        invariant
            i <= compact_ids.len(),
            ids == ids_view(compact_ids@),
            installed_mems(ids.take(i as int), artifacts@, raw_len) == Ok::<Seq<(Seq<char>, RawSpan)>, CoverFailure>(mems_view(mems@)),
        decreases compact_ids.len() - i,
    {
        proof {
            assert(ids.take(i + 1).drop_last() =~= ids.take(i as int));
        }
        match install_step(mems, &compact_ids[i], artifacts, raw_len) {
            Err(e) => {
                proof {
                    lemma_installed_err_extends(ids, artifacts@, raw_len, i + 1);
                }
                return Err(e);
            },
            Ok(next) => {
                mems = next;
            },
        }
        i = i + 1;
    }
    proof {
        assert(ids.take(compact_ids.len() as int) =~= ids);
    }
    let ghost ms = mems_view(mems@);
    let mut out: Vec<Segment> = Vec::new();
    let mut cursor: u64 = 0;
    let mut k: usize = 0;
    proof {
        assert(ms.skip(0) =~= ms);
        assert(segments_view(out@) =~= Seq::<SegmentView>::empty());
    }
    while k < mems.len()
        invariant
            k <= mems.len(),
            ms == mems_view(mems@),
            segments_view(out@) + cover_from(ms.skip(k as int), cursor, raw_len) == cover_from(ms, 0, raw_len),
        decreases mems.len() - k,
    {
        let ghost before = out@;
        let start = mems[k].1.start;
        proof {
            assert(ms.skip(k as int)[0] == ms[k as int]);
            assert(ms.skip(k as int).drop_first() =~= ms.skip(k + 1));
        }
        if cursor < start {
            out.push(Segment::Raw(RawSpan { start: cursor, end: start }));
        }
        out.push(Segment::Mem { compact_id: copy_string(&mems[k].0) });
        proof {
            let gap = if cursor < start {
                seq![SegmentView::Raw(RawSpan { start: cursor, end: start })]
            } else {
                Seq::empty()
            };
            assert(segments_view(out@) =~= segments_view(before) + gap + seq![SegmentView::Mem(ms[k as int].0)]);
        }
        cursor = mems[k].1.end;
        k = k + 1;
    }
    let ghost before = out@;
    proof {
        assert(ms.skip(k as int).len() == 0);
    }
    if cursor < raw_len {
        out.push(Segment::Raw(RawSpan { start: cursor, end: raw_len }));
        assert(segments_view(out@) =~= segments_view(before) + seq![SegmentView::Raw(RawSpan { start: cursor, end: raw_len })]);
    } else {
        assert(segments_view(out@) =~= segments_view(before) + Seq::<SegmentView>::empty());
    }
    Ok(out)
}


// ----------------------------------------------------------------------------
// The cover tiles the rollout
// ----------------------------------------------------------------------------
/// The ordinals a segment stands for.
pub open spec fn segment_span(s: SegmentView, artifacts: Map<Seq<char>, RawSpan>) -> RawSpan {
    match s {
        SegmentView::Raw(span) => span,
        SegmentView::Mem(id) => artifacts[id],
        SegmentView::Note(_) => RawSpan { start: 0, end: 0 },
    }
}

/// `segs` tile `[from, to)`: each raw run and memory non-empty, each starting
/// where the previous one ended, each memory with a recorded span; notes
/// cover nothing.
pub open spec fn tiles(segs: Seq<SegmentView>, artifacts: Map<Seq<char>, RawSpan>, from: int, to: int) -> bool
    decreases segs.len(),
{
    if segs.len() == 0 {
        from == to
    } else if segs[0] is Note {
        tiles(segs.drop_first(), artifacts, from, to)
    } else {
        let span = segment_span(segs[0], artifacts);
        &&& (segs[0] matches SegmentView::Mem(id) ==> artifacts.contains_key(id))
        &&& span.start == from
        &&& span.start < span.end
        &&& tiles(segs.drop_first(), artifacts, span.end as int, to)
    }
}

/// No raw run directly follows another.
pub open spec fn no_adjacent_raw(segs: Seq<SegmentView>) -> bool {
    forall|i: int| 0 <= i < segs.len() - 1 ==> !(#[trigger] segs[i] is Raw && segs[i + 1] is Raw)
}

/// Every memory of the list has its recorded span.
pub open spec fn spans_recorded(ms: Seq<(Seq<char>, RawSpan)>, artifacts: Map<Seq<char>, RawSpan>) -> bool {
    forall|i: int| 0 <= i < ms.len() ==> artifacts.contains_key(#[trigger] ms[i].0) && artifacts[ms[i].0] == ms[i].1
}

proof fn lemma_outside_of_props(ms: Seq<(Seq<char>, RawSpan)>, span: RawSpan, n: u64, a: Map<Seq<char>, RawSpan>)
    requires
        sorted_disjoint(ms, n),
        spans_recorded(ms, a),
        outside_of(ms, span) is Ok,
    ensures
        ({
            let rest = outside_of(ms, span)->Ok_0;
            &&& sorted_disjoint(rest, n)
            &&& spans_recorded(rest, a)
            &&& forall|i: int| 0 <= i < rest.len() ==> !spans_overlap(#[trigger] rest[i].1, span)
            &&& forall|i: int| 0 <= i < rest.len() ==> ms.contains(#[trigger] rest[i])
        }),
    decreases ms.len(),
{
    if ms.len() > 0 {
        let init = ms.drop_last();
        assert(sorted_disjoint(init, n));
        assert(spans_recorded(init, a));
        lemma_outside_of_props(init, span, n, a);
        let r0 = outside_of(init, span)->Ok_0;
        let m = ms.last();
        let rest = outside_of(ms, span)->Ok_0;
        assert forall|i: int| 0 <= i < r0.len() implies ms.contains(#[trigger] r0[i]) by {
            let j = choose|j: int| 0 <= j < init.len() && init[j] == r0[i];
            assert(ms[j] == r0[i]);
        }
        if !span_within(m.1, span) && !spans_overlap(m.1, span) {
            assert(rest == r0.push(m));
            assert forall|i: int| 0 <= i < r0.len() implies #[trigger] r0[i].1.end <= m.1.start by {
                let j = choose|j: int| 0 <= j < init.len() && init[j] == r0[i];
                assert(ms[j] == init[j]);
                assert(ms[j].1.end <= ms[ms.len() - 1].1.start);
            }
            assert forall|i: int, j: int| 0 <= i < j < rest.len() implies #[trigger] rest[i].1.end
                <= #[trigger] rest[j].1.start by {
                if j == rest.len() - 1 {
                    assert(rest[j] == m);
                    assert(rest[i] == r0[i]);
                } else {
                    assert(rest[i] == r0[i] && rest[j] == r0[j]);
                }
            }
            assert forall|i: int| 0 <= i < rest.len() implies ms.contains(#[trigger] rest[i]) by {
                if i == rest.len() - 1 {
                    assert(ms[ms.len() - 1] == rest[i]);
                } else {
                    assert(rest[i] == r0[i]);
                }
            }
            assert(ms[ms.len() - 1] == m);
        }
    }
}

proof fn lemma_insert_position_props(ms: Seq<(Seq<char>, RawSpan)>, start: u64)
    ensures
        0 <= insert_position(ms, start) <= ms.len(),
        forall|i: int| 0 <= i < insert_position(ms, start) ==> #[trigger] ms[i].1.start < start,
        insert_position(ms, start) < ms.len() ==> ms[insert_position(ms, start)].1.start >= start,
    decreases ms.len(),
{
    if ms.len() > 0 && ms[0].1.start < start {
        let t = ms.drop_first();
        lemma_insert_position_props(t, start);
        assert forall|i: int| 0 <= i < insert_position(ms, start) implies #[trigger] ms[i].1.start < start by {
            if i > 0 {
                assert(ms[i] == t[i - 1]);
            }
        }
        if insert_position(ms, start) < ms.len() {
            assert(ms[insert_position(ms, start)] == t[insert_position(t, start)]);
        }
    }
}

proof fn lemma_install_keeps_sorted(
    ms: Seq<(Seq<char>, RawSpan)>,
    id: Seq<char>,
    a: Map<Seq<char>, RawSpan>,
    n: u64,
)
    requires
        sorted_disjoint(ms, n),
        spans_recorded(ms, a),
        install_mem(ms, id, a, n) is Ok,
    ensures
        sorted_disjoint(install_mem(ms, id, a, n)->Ok_0, n),
        spans_recorded(install_mem(ms, id, a, n)->Ok_0, a),
{
    let span = a[id];
    lemma_outside_of_props(ms, span, n, a);
    let rest = outside_of(ms, span)->Ok_0;
    let p = insert_position(rest, span.start);
    lemma_insert_position_props(rest, span.start);
    let out = install_mem(ms, id, a, n)->Ok_0;
    assert(out == rest.take(p) + seq![(id, span)] + rest.skip(p));
    assert(out.len() == rest.len() + 1);
    assert forall|i: int| 0 <= i < out.len() implies #[trigger] out[i] == (if i < p {
        rest[i]
    } else if i == p {
        (id, span)
    } else {
        rest[i - 1]
    }) by {}
    assert forall|i: int| 0 <= i < rest.len() implies (i < p ==> #[trigger] rest[i].1.end <= span.start)
        && (i >= p ==> span.end <= rest[i].1.start) by {
        if i >= p && p < rest.len() {
            if i > p {
                assert(rest[p].1.end <= rest[i].1.start);
            }
        }
        assert(!spans_overlap(rest[i].1, span));
    }
    assert forall|i: int, j: int| 0 <= i < j < out.len() implies #[trigger] out[i].1.end
        <= #[trigger] out[j].1.start by {
        if i < p && j < p {
            assert(out[i] == rest[i] && out[j] == rest[j]);
        } else if i < p && j == p {
            assert(out[i] == rest[i]);
        } else if i < p {
            assert(out[i] == rest[i] && out[j] == rest[j - 1]);
            assert(rest[i].1.end <= span.start);
        } else if i == p {
            assert(out[j] == rest[j - 1]);
        } else {
            assert(out[i] == rest[i - 1] && out[j] == rest[j - 1]);
        }
    }
    assert forall|i: int| 0 <= i < out.len() implies #[trigger] out[i].1.start < out[i].1.end && out[i].1.end <= n by {
        if i < p {
            assert(out[i] == rest[i]);
        } else if i > p {
            assert(out[i] == rest[i - 1]);
        }
    }
    assert forall|i: int| 0 <= i < out.len() implies a.contains_key(#[trigger] out[i].0) && a[out[i].0]
        == out[i].1 by {
        if i < p {
            assert(out[i] == rest[i]);
        } else if i > p {
            assert(out[i] == rest[i - 1]);
        }
    }
}

proof fn lemma_installed_sorted(ids: Seq<Seq<char>>, a: Map<Seq<char>, RawSpan>, n: u64)
    requires
        installed_mems(ids, a, n) is Ok,
    ensures
        sorted_disjoint(installed_mems(ids, a, n)->Ok_0, n),
        spans_recorded(installed_mems(ids, a, n)->Ok_0, a),
    decreases ids.len(),
{
    if ids.len() > 0 {
        lemma_installed_sorted(ids.drop_last(), a, n);
        lemma_install_keeps_sorted(installed_mems(ids.drop_last(), a, n)->Ok_0, ids.last(), a, n);
    }
}

proof fn lemma_tiles_concat(
    x: Seq<SegmentView>,
    y: Seq<SegmentView>,
    a: Map<Seq<char>, RawSpan>,
    from: int,
    mid: int,
    to: int,
)
    requires
        tiles(x, a, from, mid),
        tiles(y, a, mid, to),
    ensures
        tiles(x + y, a, from, to),
    decreases x.len(),
{
    if x.len() == 0 {
        assert(x + y =~= y);
    } else if x[0] is Note {
        lemma_tiles_concat(x.drop_first(), y, a, from, mid, to);
        assert((x + y).drop_first() =~= x.drop_first() + y);
        assert((x + y)[0] == x[0]);
    } else {
        let span = segment_span(x[0], a);
        lemma_tiles_concat(x.drop_first(), y, a, span.end as int, mid, to);
        assert((x + y).drop_first() =~= x.drop_first() + y);
        assert((x + y)[0] == x[0]);
    }
}

proof fn lemma_cover_from_tiles(ms: Seq<(Seq<char>, RawSpan)>, cursor: u64, n: u64, a: Map<Seq<char>, RawSpan>)
    requires
        sorted_disjoint(ms, n),
        spans_recorded(ms, a),
        ms.len() > 0 ==> cursor <= ms[0].1.start,
        cursor <= n,
    ensures
        tiles(cover_from(ms, cursor, n), a, cursor as int, n as int),
        no_adjacent_raw(cover_from(ms, cursor, n)),
        cover_from(ms, cursor, n).len() > 0 && cover_from(ms, cursor, n)[0] is Raw ==> (cover_from(ms, cursor, n).len() == 1 || cover_from(ms, cursor, n)[1] is Mem),
    decreases ms.len(),
{
    if ms.len() == 0 {
        if cursor < n {
            let c = cover_from(ms, cursor, n);
            assert(c.drop_first() =~= Seq::<SegmentView>::empty());
            reveal_with_fuel(tiles, 2);
        }
    } else {
        let m = ms[0];
        let t = ms.drop_first();
        assert(sorted_disjoint(t, n)) by {
            assert forall|i: int| 0 <= i < t.len() implies #[trigger] t[i].1.start < t[i].1.end && t[i].1.end <= n by {
                assert(t[i] == ms[i + 1]);
            }
            assert forall|i: int, j: int| 0 <= i < j < t.len() implies #[trigger] t[i].1.end <= #[trigger] t[j].1.start by {
                assert(t[i] == ms[i + 1] && t[j] == ms[j + 1]);
            }
        }
        assert(spans_recorded(t, a)) by {
            assert forall|i: int| 0 <= i < t.len() implies a.contains_key(#[trigger] t[i].0) && a[t[i].0] == t[i].1 by {
                assert(t[i] == ms[i + 1]);
            }
        }
        if t.len() > 0 {
            assert(t[0] == ms[1]);
            assert(ms[0].1.end <= ms[1].1.start);
        }
        assert(ms[0].1.start < ms[0].1.end && ms[0].1.end <= n);
        assert(a.contains_key(ms[0].0) && a[ms[0].0] == ms[0].1);
        lemma_cover_from_tiles(t, m.1.end, n, a);
        let rest = cover_from(t, m.1.end, n);
        let mem = seq![SegmentView::Mem(m.0)];
        assert(tiles(mem, a, m.1.start as int, m.1.end as int)) by {
            assert(mem.drop_first() =~= Seq::<SegmentView>::empty());
            reveal_with_fuel(tiles, 2);
        }
        let gap = if cursor < m.1.start {
            seq![SegmentView::Raw(RawSpan { start: cursor, end: m.1.start })]
        } else {
            Seq::empty()
        };
        assert(tiles(gap, a, cursor as int, m.1.start as int)) by {
            if cursor < m.1.start {
                assert(gap.drop_first() =~= Seq::<SegmentView>::empty());
                reveal_with_fuel(tiles, 2);
            }
        }
        lemma_tiles_concat(mem, rest, a, m.1.start as int, m.1.end as int, n as int);
        lemma_tiles_concat(gap, mem + rest, a, cursor as int, m.1.start as int, n as int);
        let c = cover_from(ms, cursor, n);
        assert(c =~= gap + (mem + rest));
        assert forall|i: int| 0 <= i < c.len() - 1 implies !(#[trigger] c[i] is Raw && c[i + 1] is Raw) by {
            let g = gap.len() as int;
            if i < g {
                assert(c[i + 1] == mem[0]);
            } else if i == g {
                assert(c[i] == mem[0]);
            } else {
                assert(c[i] == rest[i - g - 1]);
                assert(c[i + 1] == rest[i - g]);
            }
        }
    }
}

/// The canonical cover tiles the rollout: its segments are non-empty, each
/// starts where the one before ends, the first at ordinal 0 and the last
/// ending at `raw_len`; every memory has its recorded span, and no two raw
/// runs are adjacent.
pub proof fn lemma_canonical_cover_tiles(raw_len: u64, ids: Seq<Seq<char>>, artifacts: Map<Seq<char>, RawSpan>)
    requires
        canonical_cover_spec(raw_len, ids, artifacts) is Ok,
    ensures
        tiles(canonical_cover_spec(raw_len, ids, artifacts)->Ok_0, artifacts, 0, raw_len as int),
        no_adjacent_raw(canonical_cover_spec(raw_len, ids, artifacts)->Ok_0),
{
    lemma_installed_sorted(ids, artifacts, raw_len);
    let ms = installed_mems(ids, artifacts, raw_len)->Ok_0;
    lemma_cover_from_tiles(ms, 0, raw_len, artifacts);
}

// ----------------------------------------------------------------------------
// Live boundaries
// ----------------------------------------------------------------------------
/// Memory segment `seg` strictly holds raw ordinal `ls` inside its span.
pub open spec fn mem_holds_inside(seg: SegmentView, artifacts: Map<Seq<char>, RawSpan>, ls: u64) -> bool {
    seg matches SegmentView::Mem(id) && artifacts.contains_key(id) && artifacts[id].start < ls
        && ls < artifacts[id].end
}

/// Every memory of the cover has a span, and no live start falls strictly
/// inside one: future raw items can still begin at each live start.
pub open spec fn live_boundaries_ok(
    pi: Seq<SegmentView>,
    artifacts: Map<Seq<char>, RawSpan>,
    live_starts: Seq<u64>,
) -> bool {
    &&& forall|k: int| 0 <= k < pi.len() ==> (#[trigger] pi[k] matches SegmentView::Mem(id) ==> artifacts.contains_key(id))
    &&& forall|j: int, k: int|
        0 <= j < live_starts.len() && 0 <= k < pi.len() ==> !mem_holds_inside(#[trigger] pi[k], artifacts, #[trigger] live_starts[j])
}

/// Checks that every memory of the cover has a span and that no live start
/// falls strictly inside a memory.
pub fn validate_future_live_boundaries(
    pi: &Vec<Segment>,
    artifacts: &SegmentArtifacts,
    live_starts: &Vec<u64>,
) -> (r: Result<(), SegmentError>)
    ensures
        r is Ok <==> live_boundaries_ok(segments_view(pi@), artifacts@, live_starts@),
        r matches Err(SegmentError::MissingMemArtifact { compact_id }) ==> exists|k: int|
            0 <= k < pi@.len() && segment_view(#[trigger] pi@[k]) == SegmentView::Mem(compact_id@)
                && !artifacts@.contains_key(compact_id@),
        r matches Err(SegmentError::LiveStartInsideMem { live_start, compact_id, span }) ==> exists|
            j: int,
            k: int,
        |
            0 <= j < live_starts@.len() && 0 <= k < pi@.len() && #[trigger] live_starts@[j] == live_start
                && segment_view(#[trigger] pi@[k]) == SegmentView::Mem(compact_id@)
                && artifacts@.contains_key(compact_id@) && artifacts@[compact_id@] == span
                && span.start < live_start && live_start < span.end,
        r is Err ==> (r matches Err(SegmentError::MissingMemArtifact { .. }) || r matches Err(
            SegmentError::LiveStartInsideMem { .. },
        )),
{
    let ghost pv = segments_view(pi@);
    let mut k: usize = 0;
    while k < pi.len()
        invariant
            k <= pi.len(),
            pv == segments_view(pi@),
            forall|i: int| 0 <= i < k ==> (#[trigger] pv[i] matches SegmentView::Mem(id) ==> artifacts@.contains_key(id)),
        decreases pi.len() - k,
    {
        match &pi[k] {
            Segment::Mem { compact_id } => {
                if artifacts.get(compact_id.as_str()).is_none() {
                    assert(pv[k as int] == segment_view(pi@[k as int]));
                    return Err(SegmentError::MissingMemArtifact { compact_id: copy_string(compact_id) });
                }
            },
            _ => {},
        }
        k = k + 1;
    }
    let mut j: usize = 0;
    while j < live_starts.len()
        invariant
            j <= live_starts.len(),
            pv == segments_view(pi@),
            forall|i: int| 0 <= i < pi.len() ==> (#[trigger] pv[i] matches SegmentView::Mem(id) ==> artifacts@.contains_key(id)),
            forall|a: int, b: int|
                0 <= a < j && 0 <= b < pi.len() ==> !mem_holds_inside(#[trigger] pv[b], artifacts@, #[trigger] live_starts@[a]),
        decreases live_starts.len() - j,
    {
        let ls = live_starts[j];
        let mut k: usize = 0;
        while k < pi.len()
            invariant
                j < live_starts.len(),
                ls == live_starts@[j as int],
                k <= pi.len(),
                pv == segments_view(pi@),
                forall|b: int| 0 <= b < k ==> !mem_holds_inside(#[trigger] pv[b], artifacts@, ls),
            decreases pi.len() - k,
        {
            match &pi[k] {
                Segment::Mem { compact_id } => {
                    match artifacts.get(compact_id.as_str()) {
                        Some(span) => {
                            if span.start < ls && ls < span.end {
                                assert(pv[k as int] == segment_view(pi@[k as int]));
                                assert(mem_holds_inside(pv[k as int], artifacts@, live_starts@[j as int]));
                                return Err(
                                    SegmentError::LiveStartInsideMem {
                                        live_start: ls,
                                        compact_id: copy_string(compact_id),
                                        span: *span,
                                    },
                                );
                            }
                        },
                        None => {},
                    }
                },
                _ => {},
            }
            k = k + 1;
        }
        j = j + 1;
    }
    Ok(())
}

} // verus!
