use spine::prompt::{
    context_window_at_or_above_80, escape_xml_attribute, format_optional_summary_attribute,
    format_spine_pressure_prompt_overlay, format_spine_status_prompt_overlay,
    format_spine_trim_targets_prompt_overlay, pressure_band, saturating_mul_i64,
    SpineCurrentTrimTarget, SpinePressurePromptSignal, SpinePressurePromptState,
    SpineStatusPromptSignal,
};

const CLOSE_GUIDANCE: &str = "\nBefore broadening the work, check whether the current node can be closed with useful continuation memory.\nIf it can, close it and continue in a sibling if needed; only close/next compacts history and reduces future prompt context.\nIf the current thought is still unfinished, continue in this node; do not open another child unless it is a strictly narrower blocker, because opening by itself does not reduce context.";
const PLAN_GUIDANCE: &str = "\nPrioritize summarizing the current decision before broadening the investigation.\nAvoid expanding scope while mutating Spine operations are unavailable in Plan mode.";

#[test]
fn pressure_band_uses_50k_then_25k_steps() {
    assert_eq!(pressure_band(49_999), None);
    assert_eq!(pressure_band(50_000), Some(50_000));
    assert_eq!(pressure_band(74_999), Some(50_000));
    assert_eq!(pressure_band(75_000), Some(75_000));
}

#[test]
fn context_warning_ratio_uses_multiplication_threshold() {
    assert!(!context_window_at_or_above_80(799, 1_000));
    assert!(context_window_at_or_above_80(800, 1_000));
    assert!(context_window_at_or_above_80(207_000, 258_000));
    assert!(!context_window_at_or_above_80(0, 1_000));
    assert!(!context_window_at_or_above_80(1_000, 0));
}

#[test]
fn trim_targets_overlay_includes_guidance_and_escaped_current_targets() {
    let targets = vec![
        SpineCurrentTrimTarget {
            trim_id: "trim_104".to_string(),
            original_visible_size: 24_404,
            visible_body: "Exit code: 0\nOutput with <xml> & \"quotes\"".to_string(),
        },
        SpineCurrentTrimTarget {
            trim_id: "trim_105".to_string(),
            original_visible_size: 5_278,
            visible_body: "/home/ghabi/.codex path".to_string(),
        },
    ];

    assert_eq!(
        format_spine_trim_targets_prompt_overlay(&targets).as_deref(),
        Some(
            "At natural Spine boundaries, close/next with compact continuation memory, or open a child for a narrower blocker. For the latest tool outputs listed below, trim irrelevant noisy content now, or slice to keep only needed evidence; preserve any facts needed for continuation before trimming.\n<current_trim_targets>\n0 id=\"trim_104\" bytes=\"24404\" head=\"Exit code: 0 Output with &lt;xml&gt; &amp; &quot;quotes&quot;\"\n1 id=\"trim_105\" bytes=\"5278\" head=\"/home/ghabi/.codex path\"\n</current_trim_targets>"
        )
    );
}

#[test]
fn state_deduplicates_boundary_and_context_warning_per_node() {
    let mut state = SpinePressurePromptState::default();
    let mut first = SpinePressurePromptSignal {
        node_id: "1.1".to_string(),
        node_summary: None,
        cursor_node_context_tokens: Some(50_000),
        boundary_hint_band: Some(50_000),
        context_tokens: Some(80_000),
        model_context_window: Some(100_000),
        emit_context_warning_80: true,
        mode_allows_spine_close: true,
    };
    let first_emission = state.prepare_emission(&mut first);
    assert!(!first_emission.is_empty());
    assert_eq!(first.boundary_hint_band, Some(50_000));
    assert!(first.emit_context_warning_80);
    state.mark_sent(first_emission);

    let mut duplicate = first.clone();
    assert!(state.prepare_emission(&mut duplicate).is_empty());
    assert_eq!(duplicate.boundary_hint_band, None);
    assert!(!duplicate.emit_context_warning_80);

    let mut next_band = first.clone();
    next_band.boundary_hint_band = Some(75_000);
    next_band.emit_context_warning_80 = true;
    assert!(!state.prepare_emission(&mut next_band).is_empty());
    assert_eq!(next_band.boundary_hint_band, Some(75_000));
    assert!(!next_band.emit_context_warning_80);
}

#[test]
fn plan_mode_context_warning_does_not_instruct_close() {
    let signal = SpinePressurePromptSignal {
        node_id: "1.1".to_string(),
        node_summary: None,
        cursor_node_context_tokens: None,
        boundary_hint_band: None,
        context_tokens: Some(80_000),
        model_context_window: Some(100_000),
        emit_context_warning_80: true,
        mode_allows_spine_close: false,
    };
    let text = format_spine_pressure_prompt_overlay(&signal).expect("warning");
    assert!(text.contains("Spine context warning"));
    assert!(!text.contains("spine.close"));
}

#[test]
fn pressure_band_of_largest_count_does_not_overflow() {
    let expected = 50_000 + ((i64::MAX - 50_000) / 25_000) * 25_000;
    assert_eq!(pressure_band(i64::MAX), Some(expected));
    assert_eq!(pressure_band(-1), None);
}

#[test]
fn saturating_multiplication_clamps_to_the_i64_range() {
    assert_eq!(saturating_mul_i64(7, 6), 42);
    assert_eq!(saturating_mul_i64(i64::MAX, 100), i64::MAX);
    assert_eq!(saturating_mul_i64(i64::MIN, 2), i64::MIN);
    assert!(context_window_at_or_above_80(i64::MAX, i64::MAX));
}

#[test]
fn xml_attribute_escaping_replaces_the_four_special_characters() {
    assert_eq!(escape_xml_attribute("a&b<c>\"d\"'e"), "a&amp;b&lt;c&gt;&quot;d&quot;'e");
    assert_eq!(escape_xml_attribute(""), "");
}

#[test]
fn optional_summary_attribute_is_trimmed_escaped_or_none() {
    assert_eq!(format_optional_summary_attribute(Some("  fix <bug> ")), "fix &lt;bug&gt;");
    assert_eq!(format_optional_summary_attribute(Some(" \n\t")), "none");
    assert_eq!(format_optional_summary_attribute(None), "none");
}

#[test]
fn xml_attribute_escaping_round_trips_and_leaves_no_markup() {
    let input = "a<b>&\"c&amp;";
    let escaped = escape_xml_attribute(input);
    assert_eq!(escaped, "a&lt;b&gt;&amp;&quot;c&amp;amp;");
    assert!(!escaped.contains('<') && !escaped.contains('>') && !escaped.contains('"'));
    let back = escaped
        .replace("&quot;", "\"")
        .replace("&gt;", ">")
        .replace("&lt;", "<")
        .replace("&amp;", "&");
    assert_eq!(back, input);
    assert_eq!(escape_xml_attribute("plain text"), "plain text");
    let summary = format_optional_summary_attribute(Some(" \"quoted\" "));
    assert_eq!(summary, "&quot;quoted&quot;");
    assert!(!summary.is_empty());
}

#[test]
fn status_overlay_lists_cursor_parent_and_token_counts() {
    let signal = SpineStatusPromptSignal {
        cursor: "1.2".to_string(),
        node_summary: Some("  fix <bug> ".to_string()),
        parent: Some("1".to_string()),
        parent_summary: None,
        cursor_node_context_tokens: Some(1_200),
        context_left_tokens: None,
    };
    assert_eq!(
        format_spine_status_prompt_overlay(&signal),
        "<spine_status cursor=\"1.2\" summary=\"fix &lt;bug&gt;\" parent=\"1\" parent_summary=\"none\" cursor_context=\"1.20K\" context_left=\"unavailable\" />"
    );
}

#[test]
fn pressure_overlay_joins_boundary_hint_and_warning() {
    let signal = SpinePressurePromptSignal {
        node_id: "1.1".to_string(),
        node_summary: Some(" scope ".to_string()),
        cursor_node_context_tokens: Some(50_000),
        boundary_hint_band: Some(50_000),
        context_tokens: Some(80_000),
        model_context_window: Some(100_000),
        emit_context_warning_80: true,
        mode_allows_spine_close: true,
    };
    let expected = format!(
        "Spine node context hint: current cursor node 1.1 \"scope\" is using ~50.0K context tokens; overall context window is ~80.0K / 100K.{CLOSE_GUIDANCE}\n\nSpine context warning: current prompt uses ~80.0K / 100K context tokens (~80%).{CLOSE_GUIDANCE}"
    );
    assert_eq!(format_spine_pressure_prompt_overlay(&signal), Some(expected));
}

#[test]
fn pressure_overlay_in_plan_mode_has_plan_guidance_only() {
    let signal = SpinePressurePromptSignal {
        node_id: "1.1".to_string(),
        node_summary: None,
        cursor_node_context_tokens: Some(60_000),
        boundary_hint_band: Some(50_000),
        context_tokens: Some(90_000),
        model_context_window: Some(100_000),
        emit_context_warning_80: true,
        mode_allows_spine_close: false,
    };
    let expected = format!(
        "Spine context warning: current prompt uses ~90.0K / 100K context tokens (~90%).{PLAN_GUIDANCE}"
    );
    assert_eq!(format_spine_pressure_prompt_overlay(&signal), Some(expected));
}

#[test]
fn pressure_overlay_is_absent_without_hint_or_warning() {
    let signal = SpinePressurePromptSignal {
        node_id: "1".to_string(),
        node_summary: None,
        cursor_node_context_tokens: None,
        boundary_hint_band: None,
        context_tokens: None,
        model_context_window: None,
        emit_context_warning_80: false,
        mode_allows_spine_close: true,
    };
    assert_eq!(format_spine_pressure_prompt_overlay(&signal), None);
}

#[test]
fn trim_targets_overlay_keeps_eight_targets_and_shortens_long_heads() {
    assert_eq!(format_spine_trim_targets_prompt_overlay(&Vec::new()), None);
    let long_body = "x".repeat(85);
    let mut targets = Vec::new();
    for i in 0..10u64 {
        targets.push(SpineCurrentTrimTarget {
            trim_id: format!("t{i}"),
            original_visible_size: i,
            visible_body: if i == 0 { long_body.clone() } else { "  a \n b ".to_string() },
        });
    }
    let text = format_spine_trim_targets_prompt_overlay(&targets).expect("overlay");
    let head = format!("{}...", "x".repeat(80));
    assert!(text.contains(&format!("0 id=\"t0\" bytes=\"0\" head=\"{head}\"")));
    assert!(text.contains("7 id=\"t7\" bytes=\"7\" head=\"a b\""));
    assert!(!text.contains("id=\"t8\""));
    assert!(text.ends_with("\n</current_trim_targets>"));
}

#[test]
fn pressure_hints_are_not_repeated_after_being_sent() {
    let mut state = SpinePressurePromptState::default();
    let mut signal = SpinePressurePromptSignal {
        node_id: "2".to_string(),
        node_summary: None,
        cursor_node_context_tokens: Some(75_000),
        boundary_hint_band: Some(75_000),
        context_tokens: Some(95_000),
        model_context_window: Some(100_000),
        emit_context_warning_80: true,
        mode_allows_spine_close: true,
    };
    let original = signal.clone();
    let emission = state.prepare_emission(&mut signal);
    state.mark_sent(emission);
    let mut again = original.clone();
    assert!(state.prepare_emission(&mut again).is_empty());
    let mut other_node = original;
    other_node.node_id = "3".to_string();
    let emission = state.prepare_emission(&mut other_node);
    assert!(!emission.is_empty());
    assert_eq!(other_node.boundary_hint_band, Some(75_000));
    assert!(other_node.emit_context_warning_80);
}
