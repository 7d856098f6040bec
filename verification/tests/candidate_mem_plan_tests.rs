use spine::candidate_mem_plan::{plan_candidate_mem_cover, CandidateMem};
use spine::ids::NodeId;
use spine::model::{InstalledCompactSpan, SpineOperation};
use spine::segment::{RawSpan, Segment, SegmentError};

fn id(segments: &[u32]) -> NodeId {
    NodeId::from_segments(segments.to_vec())
}

fn installed_span(
    compact_id: &str,
    node_id: NodeId,
    op: SpineOperation,
    cut_ordinal: u64,
    fold_end_ordinal: u64,
) -> InstalledCompactSpan {
    InstalledCompactSpan {
        compact_id: compact_id.to_string(),
        node_id,
        op,
        cut_ordinal,
        fold_end_ordinal,
    }
}

#[test]
fn candidate_mem_cover_adds_candidate_to_runtime_artifacts() {
    let spans = vec![installed_span("compact-a", id(&[1]), SpineOperation::Close, 1, 4)];
    let candidate = CandidateMem::new(
        "compact-b".to_string(),
        id(&[2]),
        SpineOperation::Close,
        RawSpan { start: 5, end: 8 },
    );

    let cover = plan_candidate_mem_cover(9, &spans, &candidate).expect("cover");
    let (pi, artifacts) = (cover.pi, cover.artifacts);

    assert_eq!(artifacts.get("compact-a"), Some(&RawSpan { start: 1, end: 4 }));
    assert_eq!(artifacts.get("compact-b"), Some(&RawSpan { start: 5, end: 8 }));
    assert_eq!(
        pi,
        vec![
            Segment::Raw(RawSpan { start: 0, end: 1 }),
            Segment::Mem { compact_id: "compact-a".to_string() },
            Segment::Raw(RawSpan { start: 4, end: 5 }),
            Segment::Mem { compact_id: "compact-b".to_string() },
            Segment::Raw(RawSpan { start: 8, end: 9 }),
        ]
    );
}

#[test]
fn candidate_mem_cover_rejects_candidate_past_raw_len() {
    let candidate = CandidateMem::new(
        "compact-b".to_string(),
        id(&[2]),
        SpineOperation::Close,
        RawSpan { start: 5, end: 8 },
    );

    let err = plan_candidate_mem_cover(7, &Vec::new(), &candidate).expect_err("past raw_len");

    assert!(
        err.to_string().contains("compact-b node 2 op Close span [5,8)"),
        "error should identify the candidate: {}",
        err.to_string()
    );
}

#[test]
fn candidate_label_without_node_names_only_the_span() {
    let candidate = CandidateMem::anonymous("root-archive".to_string(), RawSpan { start: 0, end: 3 });
    assert_eq!(candidate.label(), "root-archive span [0,3)");
    let named = CandidateMem::new(
        "c".to_string(),
        id(&[1, 2]),
        SpineOperation::Next,
        RawSpan { start: 2, end: 4 },
    );
    assert_eq!(named.label(), "c node 1.2 op Next span [2,4)");
}

#[test]
fn candidate_overlapping_an_installed_span_is_rejected() {
    let spans = vec![installed_span("compact-a", id(&[1]), SpineOperation::Close, 1, 4)];
    let candidate = CandidateMem::new(
        "compact-b".to_string(),
        id(&[2]),
        SpineOperation::Close,
        RawSpan { start: 3, end: 6 },
    );
    let err = plan_candidate_mem_cover(9, &spans, &candidate).expect_err("overlap");
    assert_eq!(err.candidate_label, "compact-b node 2 op Close span [3,6)");
    assert!(matches!(err.source, SegmentError::CanonicalMemOverlap { .. }));
    assert!(err.to_string().starts_with("candidate Mem compact-b node 2 op Close span [3,6): "));
}

#[test]
fn candidate_with_empty_span_is_rejected() {
    let candidate = CandidateMem::anonymous("empty".to_string(), RawSpan { start: 2, end: 2 });
    let err = plan_candidate_mem_cover(5, &Vec::new(), &candidate).expect_err("empty span");
    assert_eq!(
        err.source,
        SegmentError::EmptySpan {
            compact_id: "empty".to_string(),
            span: RawSpan { start: 2, end: 2 }
        }
    );
    assert_eq!(err.to_string(), "candidate Mem empty span [2,2): memory empty has empty span [2,2)");
}

#[test]
fn candidate_covering_everything_leaves_no_raw_segment() {
    let candidate = CandidateMem::anonymous("all".to_string(), RawSpan { start: 0, end: 4 });
    let cover = plan_candidate_mem_cover(4, &Vec::new(), &candidate).expect("cover");
    assert_eq!(cover.pi, vec![Segment::Mem { compact_id: "all".to_string() }]);
}
