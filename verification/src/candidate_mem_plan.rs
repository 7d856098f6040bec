//! Planning the cover Π that a candidate memory would give before it is
//! installed: the runtime's installed spans plus the candidate.
use crate::ids::{node_id_text, NodeId};
use crate::model::{op_name, op_name_spec, InstalledCompactSpan, SpineOperation};
use crate::segment::{
    canonical_cover, canonical_cover_spec, entries_map, ids_view, reports, segment_error_text,
    segments_view, span_text, RawSpan, Segment, SegmentArtifacts, SegmentError,
};
use crate::text::{chars_of, copy_string, push_all, push_str, string_of};
use vstd::prelude::*;

verus! {

/// A memory that a compaction proposes to install over raw span `span`.
#[derive(Debug, PartialEq, Eq)]
pub struct CandidateMem {
    pub compact_id: String,
    pub node_id: Option<NodeId>,
    pub op: Option<SpineOperation>,
    pub span: RawSpan,
}

/// How a candidate is named in errors.
pub open spec fn candidate_label(c: CandidateMem) -> Seq<char> {
    match (c.node_id, c.op) {
        (Some(node_id), Some(op)) => c.compact_id@ + " node "@ + node_id_text(node_id@) + " op "@
            + op_name_spec(op) + " span "@ + span_text(c.span),
        _ => c.compact_id@ + " span "@ + span_text(c.span),
    }
}

impl CandidateMem {
    /// A candidate for `node_id`, produced by `op`.
    pub fn new(compact_id: String, node_id: NodeId, op: SpineOperation, span: RawSpan) -> (r: Self)
        ensures
            r.compact_id@ == compact_id@,
            r.node_id == Some(node_id),
            r.op == Some(op),
            r.span == span,
    {
        CandidateMem { compact_id, node_id: Some(node_id), op: Some(op), span }
    }

    /// A candidate that names no node.
    pub fn anonymous(compact_id: String, span: RawSpan) -> (r: Self)
        ensures
            r.compact_id@ == compact_id@,
            r.node_id is None,
            r.op is None,
            r.span == span,
    {
        CandidateMem { compact_id, node_id: None, op: None, span }
    }

    /// `<compact_id> node <node> op <Op> span [s,e)`, or `<compact_id> span [s,e)`
    /// when the node or the operation is unknown.
    pub fn label(&self) -> (r: String)
        ensures
            r@ == candidate_label(*self),
    {
        let mut v = chars_of(self.compact_id.as_str());
        match (&self.node_id, self.op) {
            (Some(node_id), Some(op)) => {
                push_str(&mut v, " node ");
                let t = node_id.to_text();
                push_all(&mut v, &t);
                push_str(&mut v, " op ");
                let n = op_name(op);
                push_all(&mut v, &n);
            },
            _ => {},
        }
        push_str(&mut v, " span ");
        let s = self.span.to_string();
        push_str(&mut v, s.as_str());
        string_of(&v)
    }
}

/// The cover a candidate would give, with the spans it was built from.
#[derive(Debug)]
pub struct CandidateMemCover {
    pub pi: Vec<Segment>,
    pub artifacts: SegmentArtifacts,
}

/// Why a candidate cannot be installed.
#[derive(Debug, PartialEq, Eq)]
pub struct CandidateMemCoverError {
    pub candidate_label: String,
    pub source: SegmentError,
}

impl CandidateMemCoverError {
    /// `candidate Mem <label>: <reason>`.
    pub fn to_string(&self) -> (r: String)
        ensures
            r@ == "candidate Mem "@ + self.candidate_label@ + ": "@ + segment_error_text(self.source),
    {
        let mut v = chars_of("candidate Mem ");
        push_str(&mut v, self.candidate_label.as_str());
        push_str(&mut v, ": ");
        let ghost head = v@;
        let reason = self.source.to_string();
        push_str(&mut v, reason.as_str());
        assert(v@ == head + reason@);
        string_of(&v)
    }
}

/// The spans of the installed memories, by compact id (later entries win).
pub open spec fn runtime_artifacts(spans: Seq<InstalledCompactSpan>) -> Map<Seq<char>, RawSpan>
    decreases spans.len(),
{
    if spans.len() == 0 {
        Map::empty()
    } else {
        runtime_artifacts(spans.drop_last()).insert(
            spans.last().compact_id@,
            RawSpan { start: spans.last().cut_ordinal, end: spans.last().fold_end_ordinal },
        )
    }
}

/// The compact ids of the installed memories, in ledger order.
pub open spec fn runtime_ids(spans: Seq<InstalledCompactSpan>) -> Seq<Seq<char>> {
    spans.map_values(|s: InstalledCompactSpan| s.compact_id@)
}

/// The span artifacts of the installed memories: `[cut, fold_end)` by compact id.
pub fn artifacts_from_runtime_spans(runtime_spans: &Vec<InstalledCompactSpan>) -> (r: SegmentArtifacts)
    ensures
        r@ == runtime_artifacts(runtime_spans@),
{
    let mut r = SegmentArtifacts::new();
    let mut i: usize = 0;
    while i < runtime_spans.len()
        invariant
            i <= runtime_spans.len(),
            r@ == runtime_artifacts(runtime_spans@.take(i as int)),
        decreases runtime_spans.len() - i,
    {
        proof {
            assert(runtime_spans@.take(i + 1).drop_last() =~= runtime_spans@.take(i as int));
        }
        let s = &runtime_spans[i];
        r.insert(copy_string(&s.compact_id), RawSpan { start: s.cut_ordinal, end: s.fold_end_ordinal });
        i = i + 1;
    }
    proof {
        assert(runtime_spans@.take(runtime_spans.len() as int) =~= runtime_spans@);
    }
    r
}

/// The cover that installing `candidate` after the runtime's spans would give
/// over raw ordinals `[0, raw_len)`; a failure names the candidate.
pub fn plan_candidate_mem_cover(
    raw_len: u64,
    runtime_spans: &Vec<InstalledCompactSpan>,
    candidate: &CandidateMem,
) -> (r: Result<CandidateMemCover, CandidateMemCoverError>)
    ensures
        ({
            let artifacts = runtime_artifacts(runtime_spans@).insert(
                candidate.compact_id@,
                candidate.span,
            );
            let ids = runtime_ids(runtime_spans@).push(candidate.compact_id@);
            match canonical_cover_spec(raw_len, ids, artifacts) {
                Ok(segs) => r matches Ok(cover) && segments_view(cover.pi@) == segs
                    && cover.artifacts@ == artifacts,
                Err(f) => r matches Err(e) && e.candidate_label@ == candidate_label(*candidate)
                    && reports(e.source, f),
            }
        }),
{
    let mut artifacts = artifacts_from_runtime_spans(runtime_spans);
    artifacts.insert(copy_string(&candidate.compact_id), candidate.span);
    let mut compact_ids: Vec<String> = Vec::new();
    let mut i: usize = 0;
    while i < runtime_spans.len()
        invariant
            i <= runtime_spans.len(),
            ids_view(compact_ids@) == runtime_ids(runtime_spans@).take(i as int),
        decreases runtime_spans.len() - i,
    {
        let ghost before = compact_ids@;
        compact_ids.push(copy_string(&runtime_spans[i].compact_id));
        proof {
            assert(ids_view(compact_ids@) =~= ids_view(before).push(runtime_spans@[i as int].compact_id@));
            assert(runtime_ids(runtime_spans@).take(i + 1) =~= runtime_ids(runtime_spans@).take(i as int).push(runtime_spans@[i as int].compact_id@));
        }
        i = i + 1;
    }
    let ghost before = compact_ids@;
    compact_ids.push(copy_string(&candidate.compact_id));
    proof {
        assert(runtime_ids(runtime_spans@).take(runtime_spans.len() as int) =~= runtime_ids(runtime_spans@));
        assert(ids_view(compact_ids@) =~= ids_view(before).push(candidate.compact_id@));
        assert(ids_view(compact_ids@) =~= runtime_ids(runtime_spans@).push(candidate.compact_id@));
    }
    match canonical_cover(raw_len, &compact_ids, &artifacts) {
        Ok(pi) => Ok(CandidateMemCover { pi, artifacts }),
        Err(source) => Err(CandidateMemCoverError { candidate_label: candidate.label(), source }),
    }
}

} // verus!
