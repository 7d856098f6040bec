use spine::compact::{parse_markdown_spine_memory_metadata, render_spine_ir_item};
use spine::host_bridge::SpineMemoryMetadata;
use spine::ids::NodeId;
use spine::items::{ContentItem, ResponseItem};
use spine::model::SpineOperation;
use spine::suffix_fold::{
    compact_output_from_response, compact_stream_retry, effective_index_for_raw_ordinal, plan_suffix_fold,
    prepare_spine_compact_plan, reconnecting_notice, render_auto_compact_memory, CompactMarkdownError,
    CompactPlanError, CompactStreamStep, SpineCompactInput,
};
use spine::debug_audit::SpineCompactBoundary;

fn text_item(text: &str) -> ResponseItem {
    ResponseItem::Message {
        id: None,
        role: "assistant".to_string(),
        content: vec![ContentItem::OutputText { text: text.to_string() }],
        phase: None,
    }
}

fn input() -> SpineCompactInput {
    SpineCompactInput {
        op: SpineOperation::Close,
        node_id: NodeId::from_segments(vec![1, 2]),
        cut_ordinal: 3,
        fold_end_ordinal: 9,
        spine_tree: "1.2: Current".to_string(),
        prefix_items: Vec::new(),
        suffix_items: Vec::new(),
        transition_summary: "child done".to_string(),
        compact_instruction: None,
        rollout_path: "/tmp/sessions/rollout.jsonl".to_string(),
        raw_mirror_path: "/tmp/spine/raw.jsonl".to_string(),
        sidecar_root: "/tmp/spine".to_string(),
    }
}

#[test]
fn spine_ir_item_carries_tag_summary_and_memory() {
    let item = render_spine_ir_item(
        &NodeId::from_segments(vec![1, 2]),
        SpineOperation::Close,
        "child done",
        "/tmp/spine",
        "/tmp/spine/nodes/1/2/memory.md",
        "facts",
        4,
        7,
    );
    let expected = ResponseItem::Message {
        id: Some("spine-ir:1.2:4-7:close".to_string()),
        role: "assistant".to_string(),
        content: vec![ContentItem::OutputText {
            text: "<spine_ir id=\"spine-ir:1.2:4-7:close\" node=\"1.2\" op=\"close\" runtime_generated=\"true\" fold_start=\"4\" fold_end=\"7\">\nSummary: child done\nBase: /tmp/spine\nMemory path: /tmp/spine/nodes/1/2/memory.md\n\n<memory>\nfacts\n</memory>\n</spine_ir>".to_string(),
        }],
        phase: None,
    };
    assert_eq!(item, expected);
}

#[test]
fn plan_without_spans_maps_raw_ordinals_directly() {
    let history: Vec<ResponseItem> = (0..5).map(|i| text_item(&format!("item {i}"))).collect();
    assert_eq!(effective_index_for_raw_ordinal(&history, 2), Some(2));
    assert_eq!(effective_index_for_raw_ordinal(&history, 5), Some(5));
    assert_eq!(effective_index_for_raw_ordinal(&history, 6), None);
    let plan = plan_suffix_fold(&history, 1, 3, input(), "nodes/1/2/memory.md").expect("plan");
    assert_eq!(plan.cut_index, 1);
    assert_eq!(plan.fold_end_index, 3);
    assert_eq!(plan.input.suffix_items, history[1..3].to_vec());
    assert_eq!(plan.replacement_tail, history[3..].to_vec());
    assert_eq!(
        plan_suffix_fold(&history, 2, 2, input(), "m").expect_err("empty fold"),
        CompactPlanError::EmptyFold
    );
}

#[test]
fn prepared_plan_records_relative_rollout_and_adjusted_boundary() {
    let history: Vec<ResponseItem> = (0..6).map(|i| text_item(&format!("item {i}"))).collect();
    let boundary = SpineCompactBoundary {
        op: SpineOperation::Close,
        node_id: NodeId::from_segments(vec![1, 2]),
        scope_node_id: Some(NodeId::from_segments(vec![1])),
        cut_ordinal: 2,
        fold_end_ordinal: 5,
        transition_summary: "child done".to_string(),
        compact_instruction: Some("keep tests".to_string()),
    };
    let prepared = prepare_spine_compact_plan(
        &boundary,
        &history,
        "/tmp/sessions/rollout.jsonl".to_string(),
        "tree".to_string(),
        "/tmp/spine/raw.jsonl".to_string(),
        "/tmp/spine".to_string(),
        Vec::new(),
        "nodes/1/2/memory.md",
    )
    .expect("prepare");
    assert_eq!(prepared.compact_index_rollout_path, "../rollout.jsonl");
    assert_eq!(prepared.effective_boundary, boundary);
    assert_eq!(prepared.plan.input.compact_instruction.as_deref(), Some("keep tests"));
    assert_eq!(prepared.plan.input.spine_tree, "tree");
    assert_eq!(prepared.plan.cut_index, 2);
    assert_eq!(prepared.plan.fold_end_index, 5);
}

#[test]
fn auto_compact_memory_lists_sources_then_body_and_summary() {
    let text = render_auto_compact_memory(&input(), "body text", "nodes/1/2/trajs.md");
    assert_eq!(
        text,
        "\n\n## Auto Compact\n\nBase: /tmp/spine\nFold: response ordinals [3, 9)\nNode trajs: nodes/1/2/trajs.md\nRaw mirror: raw.jsonl\nRollout: /tmp/sessions/rollout.jsonl\n\nbody text\n\n## Node Summary\n\nchild done\n"
    );
}

#[test]
fn compact_output_trims_response_and_names_the_fold() {
    let output = compact_output_from_response(&input(), "  \n# Facts\nx\n\n", "t").expect("output");
    assert_eq!(output.compacted_body, "# Facts\nx");
    assert_eq!(output.compact_message, "Spine compacted 1.2 [3, 9)");
    assert!(output.memory_markdown.contains("\n\n# Facts\nx\n\n## Node Summary"));
    assert_eq!(compact_output_from_response(&input(), " \n ", "t"), Err(CompactMarkdownError::Empty));
    assert_eq!(
        compact_output_from_response(&input(), "<memory>x</memory>", "t"),
        Err(CompactMarkdownError::XmlWrapper)
    );
}

#[test]
fn compact_stream_retries_until_the_limit() {
    assert_eq!(compact_stream_retry(0, 2, true), CompactStreamStep::Retry { retries: 1 });
    assert_eq!(compact_stream_retry(1, 2, true), CompactStreamStep::Retry { retries: 2 });
    assert_eq!(compact_stream_retry(2, 2, true), CompactStreamStep::Fail);
    assert_eq!(compact_stream_retry(0, 2, false), CompactStreamStep::Fail);
    assert_eq!(reconnecting_notice(1, 5), "Reconnecting... 1/5");
}

#[test]
fn markdown_memory_header_gives_node_and_operation() {
    assert_eq!(
        parse_markdown_spine_memory_metadata("## Spine Memory\n\nNode: 1.2\nOperation: next\nSummary: visible\n\nfacts"),
        Some(SpineMemoryMetadata { node_id: NodeId::from_segments(vec![1, 2]), op: SpineOperation::Next })
    );
    assert_eq!(parse_markdown_spine_memory_metadata("# Spine Memory\nNode: 1\nOperation: next"), None);
    assert_eq!(parse_markdown_spine_memory_metadata("## Spine Memory\nNode: 1.0\nOperation: next"), None);
    assert_eq!(parse_markdown_spine_memory_metadata("## Spine Memory\nNode: 1\nOperation: later"), None);
    assert_eq!(
        parse_markdown_spine_memory_metadata("## Spine Memory\nNode: 3\n1\n2\n3\n4\n5\n6\n7\nOperation: close"),
        None
    );
    assert_eq!(
        parse_markdown_spine_memory_metadata("## Spine Memory\nNode: 3\n1\n2\n3\n4\n5\n6\nOperation: close"),
        Some(SpineMemoryMetadata { node_id: NodeId::from_segments(vec![3]), op: SpineOperation::Close })
    );
}
