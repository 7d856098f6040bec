use spine::candidate_mem_plan::{plan_candidate_mem_cover, CandidateMem};
use spine::compact::render_spine_memory_item;
use spine::replacement::{
    build_root_archive_replacement_history_from_candidate_plan, build_suffix_replacement_history_from_candidate_plan,
};
use spine::segment::RawSpan;
use spine::debug_audit::SpineCompactBoundary;
use spine::ids::NodeId;
use spine::items::{ContentItem, ResponseItem};
use spine::model::{InstalledCompactSpan, SpineOperation};
use spine::replacement::{
    archive_cut, build_root_archive_replacement_history, build_suffix_replacement_history,
    build_suffix_replacement_history_from_pi, indexed_note_kinds, ArchivePrefixError,
};

fn id(segments: &[u32]) -> NodeId {
    NodeId::from_segments(segments.to_vec())
}

fn text_item(text: &str) -> ResponseItem {
    ResponseItem::Message {
        id: None,
        role: "assistant".to_string(),
        content: vec![ContentItem::OutputText { text: text.to_string() }],
        phase: None,
    }
}

fn boundary(cut: u64, fold_end: u64) -> SpineCompactBoundary {
    SpineCompactBoundary {
        op: SpineOperation::Next,
        node_id: id(&[1, 2]),
        scope_node_id: None,
        cut_ordinal: cut,
        fold_end_ordinal: fold_end,
        transition_summary: "done".to_string(),
        compact_instruction: None,
    }
}

#[test]
fn replacement_history_splices_prefix_ir_and_tail() {
    let old_history = vec![text_item("a"), text_item("b"), text_item("c"), text_item("d")];
    let ir_item = text_item("<spine_ir id=\"spine-ir:1:1-3:next\">leaf</spine_ir>");
    let replacement = build_suffix_replacement_history(&old_history, 1, 3, vec![ir_item]);

    assert_eq!(replacement.len(), 3);
    assert_eq!(replacement[0], old_history[0]);
    assert_eq!(replacement[2], old_history[3]);
    assert!(matches!(replacement[1], ResponseItem::Message { .. }));
}

#[test]
fn suffix_render_places_memory_and_notes_over_the_folded_span() {
    let history = vec![text_item("raw 0"), text_item("raw 1"), text_item("raw 2"), text_item("raw 3")];
    let memory = render_spine_memory_item(&id(&[1, 2]), SpineOperation::Next, "s", "facts");
    let note = text_item("handoff note");
    let rendered = build_suffix_replacement_history_from_pi(
        &history,
        &Vec::new(),
        "compact-new",
        &boundary(1, 3),
        memory.clone(),
        vec![note.clone()],
    )
    .expect("render");
    assert_eq!(rendered, vec![text_item("raw 0"), memory, note, text_item("raw 3")]);
}

#[test]
fn suffix_render_orders_notes_by_key_text() {
    let history = vec![text_item("raw 0"), text_item("raw 1")];
    let memory = text_item("memory");
    let notes: Vec<ResponseItem> = (0..11).map(|i| text_item(&format!("note {i}"))).collect();
    let rendered = build_suffix_replacement_history_from_pi(
        &history,
        &Vec::new(),
        "compact-new",
        &boundary(0, 2),
        memory.clone(),
        notes,
    )
    .expect("render");
    let order: Vec<ResponseItem> =
        [0, 1, 10, 2, 3, 4, 5, 6, 7, 8, 9].iter().map(|i| text_item(&format!("note {i}"))).collect();
    let mut expected = vec![memory];
    expected.extend(order);
    assert_eq!(rendered, expected);
    assert_eq!(indexed_note_kinds("k", 3), vec!["k0".to_string(), "k1".to_string(), "k2".to_string()]);
}

#[test]
fn suffix_render_fails_when_the_new_span_leaves_the_history() {
    let history = vec![text_item("raw 0")];
    let result = build_suffix_replacement_history_from_pi(
        &history,
        &Vec::new(),
        "compact-new",
        &boundary(0, 5),
        text_item("memory"),
        Vec::new(),
    );
    assert!(result.is_err());
}

#[test]
fn root_archive_folds_prior_memory_and_puts_initial_context_first() {
    let prior = render_spine_memory_item(&id(&[1]), SpineOperation::Archive, "first epoch", "facts");
    let history = vec![text_item("prelude"), prior, text_item("raw 3")];
    let spans = vec![InstalledCompactSpan {
        compact_id: "compact-1".to_string(),
        node_id: id(&[1]),
        op: SpineOperation::Archive,
        cut_ordinal: 1,
        fold_end_ordinal: 3,
    }];
    let root_memory = render_spine_memory_item(&id(&[2]), SpineOperation::Archive, "second epoch", "facts");
    let context = text_item("fresh initial context");
    let archive = build_root_archive_replacement_history(
        &history,
        3,
        4,
        vec![context.clone()],
        root_memory.clone(),
        &spans,
    )
    .expect("root archive");
    assert_eq!(archive.archive_cut_ordinal, 1);
    assert_eq!(archive.archive_cut_index, 1);
    assert_eq!(archive.replacement_history, vec![text_item("prelude"), context, root_memory]);
}

#[test]
fn archive_cut_without_spans_is_the_prefix_end() {
    let history = vec![text_item("a"), text_item("b"), text_item("c")];
    assert_eq!(archive_cut(&history, 2, &Vec::new()), Ok((2, 2)));
    let unmatched = vec![text_item("a"), render_spine_memory_item(&id(&[1]), SpineOperation::Close, "s", "b")];
    assert_eq!(
        archive_cut(&unmatched, 2, &Vec::new()),
        Err(ArchivePrefixError::NotAdmissible { index: 1, raw_cursor: 1 })
    );
}

#[test]
fn root_archive_rejects_fold_end_before_cut() {
    let history = vec![text_item("a"), text_item("b"), text_item("c")];
    let result = build_root_archive_replacement_history(&history, 3, 1, Vec::new(), text_item("m"), &Vec::new());
    assert!(result.is_err());
}

#[test]
fn resolve_root_archive_cut_uses_first_span_else_planned_cut() {
    let prior = render_spine_memory_item(&id(&[1]), SpineOperation::Archive, "first epoch", "facts");
    let history = vec![text_item("prelude"), prior, text_item("raw 3")];
    let spans = vec![InstalledCompactSpan {
        compact_id: "compact-1".to_string(),
        node_id: id(&[1]),
        op: SpineOperation::Archive,
        cut_ordinal: 1,
        fold_end_ordinal: 3,
    }];
    assert_eq!(spine::replacement::resolve_root_archive_cut(&history, 3, 4, &spans), Ok((1, 1)));
    assert_eq!(spine::replacement::resolve_root_archive_cut(&history, 1, 4, &spans), Ok((1, 1)));
    assert!(spine::replacement::resolve_root_archive_cut(&history, 3, 0, &spans).is_err());
}

#[test]
fn planned_cover_renders_like_the_fold_it_plans() {
    let history = vec![text_item("raw 0"), text_item("raw 1"), text_item("raw 2"), text_item("raw 3")];
    let memory = render_spine_memory_item(&id(&[1, 2]), SpineOperation::Next, "s", "facts");
    let note = text_item("handoff note");
    let candidate = CandidateMem::anonymous("compact-new".to_string(), RawSpan { start: 1, end: 3 });
    let cover = plan_candidate_mem_cover(4, &Vec::new(), &candidate).expect("cover");
    let rendered = build_suffix_replacement_history_from_candidate_plan(
        &history,
        &Vec::new(),
        "compact-new",
        &cover,
        memory.clone(),
        vec![note.clone()],
    )
    .expect("render");
    assert_eq!(rendered, vec![text_item("raw 0"), memory.clone(), note.clone(), text_item("raw 3")]);

    let context = text_item("initial context");
    let root = build_root_archive_replacement_history_from_candidate_plan(
        &history,
        &Vec::new(),
        "compact-new",
        vec![context.clone()],
        memory.clone(),
        &cover,
    )
    .expect("root render");
    assert_eq!(root, vec![text_item("raw 0"), context, memory, text_item("raw 3")]);

    let missing = build_suffix_replacement_history_from_candidate_plan(
        &history,
        &Vec::new(),
        "other-id",
        &cover,
        text_item("m"),
        vec![note],
    );
    assert!(missing.is_err());
}

fn span(compact_id: &str, node: &[u32], op: SpineOperation, cut: u64, fold_end: u64) -> InstalledCompactSpan {
    InstalledCompactSpan { compact_id: compact_id.to_string(), node_id: id(node), op, cut_ordinal: cut, fold_end_ordinal: fold_end }
}

fn texts(items: &[ResponseItem]) -> String {
    items
        .iter()
        .map(|item| match item {
            ResponseItem::Message { content, .. } => content
                .iter()
                .map(|c| match c {
                    ContentItem::InputText { text } | ContentItem::OutputText { text } => text.clone(),
                    _ => String::new(),
                })
                .collect::<Vec<_>>()
                .join("\n"),
            _ => String::new(),
        })
        .collect::<Vec<_>>()
        .join("\n")
}

#[test]
fn root_archive_replacement_must_not_emit_discontinuous_memory_spans() {
    // Raw ordinals: 0, 1, memory [2, 10), 10, memory [11, 25), 25, then the live tail at 26.
    let history = vec![
        text_item("raw 0"),
        text_item("raw 1"),
        render_spine_memory_item(&id(&[1, 1, 1]), SpineOperation::Next, "first", "first facts"),
        text_item("raw gap 10"),
        render_spine_memory_item(&id(&[1, 1, 2]), SpineOperation::Next, "second", "second facts"),
        text_item("raw gap 25"),
        text_item("future live raw 26"),
    ];
    let root_memory = render_spine_memory_item(&id(&[1]), SpineOperation::Archive, "root", "root facts");
    let spans = vec![
        span("compact-1", &[1, 1, 1], SpineOperation::Next, 2, 10),
        span("compact-2", &[1, 1, 2], SpineOperation::Next, 11, 25),
    ];
    let replacement = build_root_archive_replacement_history(&history, 6, 26, Vec::new(), root_memory, &spans)
        .expect("build root archive replacement");

    assert_eq!(replacement.archive_cut_ordinal, 2);
    assert_eq!(replacement.archive_cut_index, 2);
    let rendered = texts(&replacement.replacement_history);
    assert!(rendered.contains("Node: 1"));
    assert!(!rendered.contains("Node: 1.1.1"));
    assert!(!rendered.contains("Node: 1.1.2"));

    let spans_after_install = vec![span("compact-root", &[1], SpineOperation::Archive, 2, 26)];
    spine::host_bridge::validate_spine_replacement_history_admissible(
        &replacement.replacement_history,
        &spans_after_install,
        &vec![2, 26],
    )
    .expect("root archive replacement should be mappable");
    assert_eq!(
        spine::suffix_fold::effective_index_for_raw_ordinal_with_spans(
            &replacement.replacement_history,
            26,
            &spans_after_install,
        ),
        Some(replacement.replacement_history.len() - 1)
    );
}
