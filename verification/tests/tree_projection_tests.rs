use spine::ids::NodeId;
use spine::prompt::{
    pressure_prompt_signal, status_prompt_signal, SpinePressureContextWindow, SpinePressureOpenNode,
    SpineTreePressureView,
};
use spine::tree_projection::{
    OpenNodeContextProjection, SpineNodeContextProblem, SpineTreeSnapshot, SpineTreeSnapshotNode,
};

fn open_node(provider_input_tokens: Option<i64>) -> OpenNodeContextProjection {
    OpenNodeContextProjection {
        node_id: NodeId::root_epoch(1),
        provider_input_tokens,
        baseline_source: None,
        problem: None,
    }
}

#[test]
fn context_state_reports_context_delta() {
    assert_eq!(open_node(Some(10)).context_state(Some(15)), (Some(5), None));
}

#[test]
fn context_state_reports_missing_inputs() {
    assert_eq!(
        open_node(Some(10)).context_state(None),
        (None, Some(SpineNodeContextProblem::MissingCurrentUsage))
    );
    assert_eq!(
        open_node(None).context_state(Some(15)),
        (None, Some(SpineNodeContextProblem::MissingOpenContextBaseline))
    );
}

#[test]
fn context_state_reports_coordinate_mismatch() {
    assert_eq!(
        open_node(Some(20)).context_state(Some(15)),
        (None, Some(SpineNodeContextProblem::CoordinateMismatch))
    );
}

#[test]
fn context_state_keeps_a_known_problem() {
    let mut node = open_node(Some(10));
    node.problem = Some(SpineNodeContextProblem::CoordinateMismatch);
    assert_eq!(node.context_state(Some(50)), (None, Some(SpineNodeContextProblem::CoordinateMismatch)));
}

fn snapshot_node(id: &str, parent: Option<&str>, summary: Option<&str>) -> SpineTreeSnapshotNode {
    SpineTreeSnapshotNode {
        node_id: id.to_string(),
        parent_id: parent.map(str::to_string),
        summary: summary.map(str::to_string),
    }
}

#[test]
fn status_signal_reads_cursor_parent_and_context() {
    let snapshot = SpineTreeSnapshot {
        active_node_id: "1.2".to_string(),
        nodes: vec![snapshot_node("1", None, Some("root")), snapshot_node("1.2", Some("1"), Some("child work"))],
    };
    let open = vec![OpenNodeContextProjection {
        node_id: NodeId::from_segments(vec![1, 2]),
        provider_input_tokens: Some(1000),
        baseline_source: None,
        problem: None,
    }];
    let signal = status_prompt_signal(&snapshot, &open, Some(4000), Some(77)).expect("signal");
    assert_eq!(signal.cursor, "1.2");
    assert_eq!(signal.node_summary.as_deref(), Some("child work"));
    assert_eq!(signal.parent.as_deref(), Some("1"));
    assert_eq!(signal.parent_summary.as_deref(), Some("root"));
    assert_eq!(signal.cursor_node_context_tokens, Some(3000));
    assert_eq!(signal.context_left_tokens, Some(77));

    let signal = status_prompt_signal(&snapshot, &open, Some(0), None).expect("signal");
    assert_eq!(signal.cursor_node_context_tokens, None);
}

fn pressure_view(summary: Option<&str>, tokens: Option<i64>, window: Option<SpinePressureContextWindow>) -> SpineTreePressureView {
    SpineTreePressureView {
        active_node_id: "1.3".to_string(),
        active_node_summary: None,
        open_nodes: vec![SpinePressureOpenNode {
            node_id: NodeId::from_segments(vec![1, 3]),
            summary: summary.map(str::to_string),
            current_node_context_tokens: tokens,
        }],
        context_window: window,
    }
}

#[test]
fn pressure_signal_bands_only_closable_nodes() {
    let view = pressure_view(Some("fix parser"), Some(80_000), None);
    let signal = pressure_prompt_signal(&view, 90_000, Some(100_000), true);
    assert_eq!(signal.node_id, "1.3");
    assert_eq!(signal.node_summary.as_deref(), Some("fix parser"));
    assert_eq!(signal.boundary_hint_band, Some(75_000));
    assert_eq!(signal.context_tokens, Some(90_000));
    assert_eq!(signal.model_context_window, Some(100_000));
    assert!(signal.emit_context_warning_80);

    let root = pressure_view(Some("  root "), Some(80_000), None);
    assert_eq!(pressure_prompt_signal(&root, 90_000, Some(100_000), true).boundary_hint_band, None);
    let plan = pressure_prompt_signal(&view, 90_000, Some(100_000), false);
    assert_eq!(plan.boundary_hint_band, None);
    assert!(!plan.mode_allows_spine_close);
}

#[test]
fn pressure_signal_prefers_reported_context_window() {
    let view = pressure_view(
        Some("x"),
        Some(10),
        Some(SpinePressureContextWindow { context_tokens: 70_000, model_context_window: None }),
    );
    let signal = pressure_prompt_signal(&view, 95_000, Some(100_000), true);
    assert_eq!(signal.context_tokens, Some(70_000));
    assert_eq!(signal.model_context_window, Some(100_000));
    assert!(!signal.emit_context_warning_80);
    assert_eq!(signal.boundary_hint_band, None);
    let none = pressure_prompt_signal(&pressure_view(None, None, None), 0, None, true);
    assert_eq!(none.context_tokens, None);
    assert!(!none.emit_context_warning_80);
}
