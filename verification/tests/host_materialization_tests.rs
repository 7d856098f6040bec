use spine::compact::{render_spine_handoff_item, render_spine_memory_item};
use spine::host_materialization::{
    insert_spine_host_note_segments, materialize_spine_host_history, validate_cover, NotePlacement,
    SpineHostMaterializationInput, SpineHostRawSource,
};
use spine::ids::NodeId;
use spine::items::{ContentItem, ResponseItem};
use spine::keyed::KeyedItems;
use spine::model::{InstalledCompactSpan, SpineError, SpineOperation};
use spine::segment::{RawSpan, Segment, SegmentArtifacts, SegmentError};

fn text_item(text: &str) -> ResponseItem {
    ResponseItem::Message {
        id: None,
        role: "assistant".to_string(),
        content: vec![ContentItem::OutputText { text: text.to_string() }],
        phase: None,
    }
}

fn user_item(text: &str) -> ResponseItem {
    ResponseItem::Message {
        id: None,
        role: "user".to_string(),
        content: vec![ContentItem::InputText { text: text.to_string() }],
        phase: None,
    }
}

fn mem(id: &str) -> Segment {
    Segment::Mem { compact_id: id.to_string() }
}

#[test]
fn materializes_direct_raw_mem_and_note_segments() {
    let raw_items = vec![user_item("raw zero"), user_item("folded into memory"), user_item("raw two")];
    let pi = vec![
        Segment::Raw(RawSpan { start: 0, end: 1 }),
        mem("compact-a"),
        Segment::Note { kind: "note-a".to_string() },
        Segment::Raw(RawSpan { start: 2, end: 3 }),
    ];
    let mut artifacts = SegmentArtifacts::new();
    artifacts.insert("compact-a".to_string(), RawSpan { start: 1, end: 2 });
    let mut mem_items = KeyedItems::new();
    mem_items.insert("compact-a".to_string(), text_item("memory a"));
    let mut note_items = KeyedItems::new();
    note_items.insert("note-a".to_string(), vec![text_item("note a")]);

    let rendered = materialize_spine_host_history(SpineHostMaterializationInput {
        pi: &pi,
        artifacts: &artifacts,
        raw_source: SpineHostRawSource::Direct(&raw_items),
        mem_items: &mem_items,
        note_items: &note_items,
    })
    .expect("materialize");
    let serialized = format!("{rendered:?}");

    assert_eq!(rendered.len(), 4);
    assert!(serialized.contains("raw zero"));
    assert!(serialized.contains("memory a"));
    assert!(serialized.contains("note a"));
    assert!(serialized.contains("raw two"));
    assert!(!serialized.contains("folded into memory"));
}

#[test]
fn materializes_host_bridge_raw_around_existing_mem_span() {
    let history = vec![
        user_item("raw zero"),
        render_spine_memory_item(&NodeId::from_segments(vec![1, 1]), SpineOperation::Close, "closed child", "child memory"),
        render_spine_handoff_item(&NodeId::from_segments(vec![1, 1]), &NodeId::from_segments(vec![1])),
        user_item("raw three"),
    ];
    let runtime_spans = vec![InstalledCompactSpan {
        compact_id: "compact-child".to_string(),
        node_id: NodeId::from_segments(vec![1, 1]),
        op: SpineOperation::Close,
        cut_ordinal: 1,
        fold_end_ordinal: 3,
    }];
    let pi = vec![Segment::Raw(RawSpan { start: 0, end: 1 }), mem("compact-new"), Segment::Raw(RawSpan { start: 3, end: 4 })];
    let mut artifacts = SegmentArtifacts::new();
    artifacts.insert("compact-new".to_string(), RawSpan { start: 1, end: 3 });
    let mut mem_items = KeyedItems::new();
    mem_items.insert("compact-new".to_string(), text_item("new memory"));
    let note_items: KeyedItems<Vec<ResponseItem>> = KeyedItems::new();

    let rendered = materialize_spine_host_history(SpineHostMaterializationInput {
        pi: &pi,
        artifacts: &artifacts,
        raw_source: SpineHostRawSource::HostBridge { history: &history, runtime_spans: &runtime_spans },
        mem_items: &mem_items,
        note_items: &note_items,
    })
    .expect("materialize");
    let serialized = format!("{rendered:?}");

    assert_eq!(rendered.len(), 3);
    assert!(serialized.contains("raw zero"));
    assert!(serialized.contains("new memory"));
    assert!(serialized.contains("raw three"));
    assert!(!serialized.contains("child memory"));
}

#[test]
fn rejects_pi_that_does_not_cover_raw_source() {
    let raw_items = vec![user_item("raw zero"), user_item("raw one")];
    let pi = vec![Segment::Raw(RawSpan { start: 0, end: 1 })];
    let artifacts = SegmentArtifacts::new();
    let mem_items: KeyedItems<ResponseItem> = KeyedItems::new();
    let note_items: KeyedItems<Vec<ResponseItem>> = KeyedItems::new();

    let error = materialize_spine_host_history(SpineHostMaterializationInput {
        pi: &pi,
        artifacts: &artifacts,
        raw_source: SpineHostRawSource::Direct(&raw_items),
        mem_items: &mem_items,
        note_items: &note_items,
    })
    .expect_err("incomplete Pi must not materialize host history");
    let SpineError::Invariant(message) = error else {
        panic!("unexpected error kind");
    };
    assert!(message.contains("Pi covers raw length 1, expected 2"));
}

#[test]
fn cover_check_reports_gaps_overlaps_and_missing_spans() {
    let artifacts = SegmentArtifacts::new();
    assert_eq!(validate_cover(&vec![Segment::Raw(RawSpan { start: 0, end: 2 })], &artifacts), Ok(2));
    assert_eq!(
        validate_cover(&vec![Segment::Raw(RawSpan { start: 1, end: 2 })], &artifacts),
        Err(SegmentError::CoverGap { expected: 0, actual: 1 })
    );
    assert_eq!(
        validate_cover(
            &vec![Segment::Raw(RawSpan { start: 0, end: 2 }), Segment::Raw(RawSpan { start: 1, end: 3 })],
            &artifacts
        ),
        Err(SegmentError::CoverOverlap { expected: 2, actual: 1 })
    );
    assert_eq!(
        validate_cover(&vec![mem("missing")], &artifacts),
        Err(SegmentError::MissingMemArtifact { compact_id: "missing".to_string() })
    );
}

#[test]
fn notes_are_placed_around_the_first_memory_only() {
    let pi = vec![Segment::Raw(RawSpan { start: 0, end: 1 }), mem("m"), mem("m")];
    let kinds = vec!["n0".to_string(), "n1".to_string()];
    let after = insert_spine_host_note_segments(
        vec![Segment::Raw(RawSpan { start: 0, end: 1 }), mem("m"), mem("m")],
        "m",
        kinds.clone(),
        NotePlacement::AfterMem,
    )
    .expect("after");
    assert_eq!(
        after,
        vec![
            Segment::Raw(RawSpan { start: 0, end: 1 }),
            mem("m"),
            Segment::Note { kind: "n0".to_string() },
            Segment::Note { kind: "n1".to_string() },
            mem("m"),
        ]
    );
    let before = insert_spine_host_note_segments(pi, "m", kinds.clone(), NotePlacement::BeforeMem).expect("before");
    assert_eq!(before[1], Segment::Note { kind: "n0".to_string() });
    assert!(insert_spine_host_note_segments(vec![mem("x")], "m", kinds, NotePlacement::AfterMem).is_err());
    assert_eq!(
        insert_spine_host_note_segments(vec![mem("x")], "m", Vec::new(), NotePlacement::AfterMem),
        Ok(vec![mem("x")])
    );
}
