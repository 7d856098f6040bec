use spine::context_materialization::{
    handoff_note_for_mem, materialize_spine_context, note_evidence_by_mem, note_items_for_mem, render_memory_items,
    surviving_installs, CommittedMemInstall, CommittedNoteEvidence, NodeRecord, SpineMaterializationInput,
};
use spine::host_materialization::NotePlacement;
use spine::ids::NodeId;
use spine::items::{ContentItem, ResponseItem};
use spine::keyed::KeyedItems;
use spine::model::{SpineError, SpineOperation};
use spine::segment::{RawSpan, Segment};

fn message(role: &str, text: &str) -> ResponseItem {
    ResponseItem::Message {
        id: None,
        role: role.to_string(),
        content: vec![if role == "assistant" {
            ContentItem::OutputText { text: text.to_string() }
        } else {
            ContentItem::InputText { text: text.to_string() }
        }],
        phase: None,
    }
}

fn install(compact_id: &str, node: &[u32], op: SpineOperation, cut: u64, end: u64) -> CommittedMemInstall {
    CommittedMemInstall {
        compact_id: compact_id.to_string(),
        node_id: NodeId::from_segments(node.to_vec()),
        op,
        cut_ordinal: cut,
        fold_end_ordinal: end,
        body_ref: format!("body:{compact_id}"),
    }
}

fn evidence(compact_id: &str, placement: NotePlacement, kind: &str, items: Vec<ResponseItem>) -> CommittedNoteEvidence {
    CommittedNoteEvidence { compact_id: compact_id.to_string(), placement, kind: kind.to_string(), items }
}

fn node(id: &[u32], parent: Option<&[u32]>, summary: Option<&str>) -> NodeRecord {
    NodeRecord {
        node_id: NodeId::from_segments(id.to_vec()),
        parent_id: parent.map(|p| NodeId::from_segments(p.to_vec())),
        summary: summary.map(str::to_string),
    }
}

fn rendered(history: &[ResponseItem]) -> String {
    format!("{history:?}")
}

#[test]
fn surviving_installs_keep_order_of_surviving_memories() {
    let installs = vec![
        install("a", &[1, 1], SpineOperation::Close, 0, 2),
        install("b", &[1, 2], SpineOperation::Close, 2, 4),
        install("c", &[1, 3], SpineOperation::Close, 4, 6),
    ];
    let survivors = surviving_installs(&installs, &vec!["c".to_string(), "a".to_string()]);
    let ids: Vec<&str> = survivors.iter().map(|i| i.compact_id.as_str()).collect();
    assert_eq!(ids, vec!["a", "c"]);
    assert_eq!(survivors[1].cut_ordinal, 4);
}

#[test]
fn materialize_suffix_compact_from_sidecar_without_replacement_history() {
    let raw_items = vec![
        message("user", "root prelude"),
        message("developer", "open call"),
        message("developer", "open output"),
        message("user", "child raw"),
        message("assistant", "child result"),
        message("developer", "close call"),
        message("developer", "close output"),
        message("assistant", "parent tail"),
    ];
    let installs = vec![install("compact-child", &[1, 1, 1], SpineOperation::Close, 3, 7)];
    let nodes = vec![node(&[1, 1, 1], Some(&[1, 1]), Some("child done")), node(&[1, 1], Some(&[1]), None)];
    let memory_items = render_memory_items(&installs, &vec!["\n\n## Auto Compact\n\nchild facts\n".to_string()], &nodes);
    let notes = note_evidence_by_mem(&Vec::new(), &vec!["compact-child".to_string()], &Vec::new()).expect("notes");
    let pi = vec![
        Segment::Raw(RawSpan { start: 0, end: 3 }),
        Segment::Mem { compact_id: "compact-child".to_string() },
        Segment::Raw(RawSpan { start: 7, end: 8 }),
    ];
    let materialized = materialize_spine_context(SpineMaterializationInput {
        pi: &pi,
        raw_items: &raw_items,
        installs: &installs,
        nodes: &nodes,
        memory_items: &memory_items,
        notes: &notes,
    })
    .expect("materialize");
    let text = rendered(&materialized.history);
    assert_eq!(materialized.history.len(), 6);
    assert!(text.contains("root prelude"));
    assert!(text.contains("Node: 1.1.1"));
    assert!(text.contains("Summary: child done"));
    assert!(text.contains("child facts"));
    assert!(text.contains("<spine_handoff>"));
    assert!(text.contains("parent tail"));
    assert!(!text.contains("child raw"));
    assert!(!text.contains("child result"));
}

#[test]
fn materialize_root_epoch_from_sidecar_without_replacement_history() {
    let raw_items = vec![message("user", "root raw one"), message("assistant", "root raw two"), message("user", "new epoch tail")];
    let installs = vec![install("compact-root", &[1], SpineOperation::Archive, 0, 2)];
    let nodes = vec![node(&[1], None, Some("Context compacted"))];
    let memory_items = render_memory_items(&installs, &vec!["\n\n## Auto Compact\n\nroot facts\n".to_string()], &nodes);
    let evidence = vec![evidence(
        "compact-root",
        NotePlacement::BeforeMem,
        "initial_context_0",
        vec![message("developer", "<spine_initial_context>structured initial context</spine_initial_context>")],
    )];
    let survivors = vec!["compact-root".to_string()];
    let notes = note_evidence_by_mem(&evidence, &survivors, &survivors).expect("notes");
    let pi = vec![Segment::Mem { compact_id: "compact-root".to_string() }, Segment::Raw(RawSpan { start: 2, end: 3 })];
    let materialized = materialize_spine_context(SpineMaterializationInput {
        pi: &pi,
        raw_items: &raw_items,
        installs: &installs,
        nodes: &nodes,
        memory_items: &memory_items,
        notes: &notes,
    })
    .expect("materialize");
    let text = rendered(&materialized.history);
    assert_eq!(materialized.history.len(), 3);
    assert!(format!("{:?}", materialized.history[0]).contains("structured initial context"));
    assert!(text.contains("Node: 1"));
    assert!(text.contains("root facts"));
    assert!(text.contains("new epoch tail"));
    assert!(!text.contains("<spine_handoff>"));
    assert!(!text.contains("root raw one"));
    assert!(!text.contains("root raw two"));
}

#[test]
fn root_epoch_without_note_evidence_is_rejected() {
    let survivors = vec!["compact-root".to_string()];
    let err = note_evidence_by_mem(&Vec::new(), &survivors, &survivors).expect_err("missing evidence");
    assert_eq!(
        err,
        SpineError::Invariant("Spine materialization missing Note evidence for root compact compact-root".to_string())
    );
}

#[test]
fn empty_note_evidence_of_surviving_memory_is_invalid() {
    let evidence = vec![evidence("m1", NotePlacement::AfterMem, "k", Vec::new())];
    let err = note_evidence_by_mem(&evidence, &vec!["m1".to_string()], &Vec::new()).expect_err("empty evidence");
    assert_eq!(err, SpineError::Invariant("Spine materialization invalid Note evidence m1/k".to_string()));
    let ok = note_evidence_by_mem(&evidence, &vec!["other".to_string()], &Vec::new()).expect("not surviving");
    assert!(note_items_for_mem(&ok, "m1", NotePlacement::AfterMem).is_none());
}

#[test]
fn note_evidence_for_one_memory_is_concatenated_in_order() {
    let evidence = vec![
        evidence("m1", NotePlacement::BeforeMem, "a", vec![message("developer", "first")]),
        evidence("m2", NotePlacement::BeforeMem, "b", vec![message("developer", "other")]),
        evidence("m1", NotePlacement::BeforeMem, "c", vec![message("developer", "second")]),
        evidence("m1", NotePlacement::AfterMem, "d", vec![message("developer", "after")]),
    ];
    let notes = note_evidence_by_mem(&evidence, &vec!["m1".to_string()], &Vec::new()).expect("notes");
    let before = note_items_for_mem(&notes, "m1", NotePlacement::BeforeMem).expect("before notes");
    assert_eq!(before, vec![message("developer", "first"), message("developer", "second")]);
    let after = note_items_for_mem(&notes, "m1", NotePlacement::AfterMem).expect("after notes");
    assert_eq!(after, vec![message("developer", "after")]);
    assert!(note_items_for_mem(&notes, "m2", NotePlacement::BeforeMem).is_none());
}

#[test]
fn handoff_only_after_close_with_parent() {
    let nodes = vec![node(&[1, 2], Some(&[1]), None), node(&[1], None, None)];
    let close = install("c", &[1, 2], SpineOperation::Close, 0, 1);
    let item = handoff_note_for_mem(&nodes, Some(&close)).expect("handoff");
    assert!(format!("{item:?}").contains("Spine transition completed: 1.2 -> 1"));
    let archive = install("r", &[1, 2], SpineOperation::Archive, 0, 1);
    assert!(handoff_note_for_mem(&nodes, Some(&archive)).is_none());
    let root_close = install("x", &[1], SpineOperation::Close, 0, 1);
    assert!(handoff_note_for_mem(&nodes, Some(&root_close)).is_none());
    assert!(handoff_note_for_mem(&nodes, None).is_none());
}

#[test]
fn note_segment_and_missing_memory_fail() {
    let raw_items = vec![message("user", "x")];
    let notes = note_evidence_by_mem(&Vec::new(), &Vec::new(), &Vec::new()).expect("notes");
    let memory_items: KeyedItems<ResponseItem> = KeyedItems::new();
    let pi = vec![Segment::Note { kind: "k".to_string() }];
    let err = materialize_spine_context(SpineMaterializationInput {
        pi: &pi,
        raw_items: &raw_items,
        installs: &Vec::new(),
        nodes: &Vec::new(),
        memory_items: &memory_items,
        notes: &notes,
    })
    .expect_err("note");
    assert_eq!(
        err,
        SpineError::Invariant("Spine materialization cannot render Note(k) without structured note evidence".to_string())
    );
    let pi = vec![Segment::Mem { compact_id: "gone".to_string() }];
    let err = materialize_spine_context(SpineMaterializationInput {
        pi: &pi,
        raw_items: &raw_items,
        installs: &Vec::new(),
        nodes: &Vec::new(),
        memory_items: &memory_items,
        notes: &notes,
    })
    .expect_err("missing memory");
    assert_eq!(err, SpineError::Invariant("Spine materialization missing rendered Mem item for gone".to_string()));
    let pi = vec![Segment::Raw(RawSpan { start: 0, end: 2 })];
    let err = materialize_spine_context(SpineMaterializationInput {
        pi: &pi,
        raw_items: &raw_items,
        installs: &Vec::new(),
        nodes: &Vec::new(),
        memory_items: &memory_items,
        notes: &notes,
    })
    .expect_err("outside");
    assert_eq!(
        err,
        SpineError::Invariant("Spine materialization Raw [0,2) is outside effective raw item length 1".to_string())
    );
}

#[test]
fn materialize_root_epoch_with_empty_context_note_replays_memory() {
    let raw_items = vec![message("user", "root raw one"), message("assistant", "root raw two")];
    let installs = vec![install("compact-root", &[1], SpineOperation::Archive, 0, 2)];
    let nodes = vec![node(&[1], None, Some("Context compacted"))];
    let memory_items = render_memory_items(&installs, &vec!["\n\n## Auto Compact\n\nroot facts\n".to_string()], &nodes);
    let evidence = vec![evidence(
        "compact-root",
        NotePlacement::BeforeMem,
        "initial_context_empty",
        vec![message("developer", r#"<spine_initial_context_empty runtime_generated="true" />"#)],
    )];
    let survivors = vec!["compact-root".to_string()];
    let notes = note_evidence_by_mem(&evidence, &survivors, &survivors).expect("notes");
    let pi = vec![Segment::Mem { compact_id: "compact-root".to_string() }];
    let materialized = materialize_spine_context(SpineMaterializationInput {
        pi: &pi,
        raw_items: &raw_items,
        installs: &installs,
        nodes: &nodes,
        memory_items: &memory_items,
        notes: &notes,
    })
    .expect("materialize");
    let text = rendered(&materialized.history);
    assert!(text.contains("spine_initial_context_empty"));
    assert!(text.contains("Node: 1"));
    assert!(text.contains("root facts"));
    assert!(!text.contains("root raw one"));
    assert!(!text.contains("root raw two"));
}
