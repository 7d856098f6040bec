use spine::model::SpineError;
use spine::toolcall_prepare::{
    grouped_output_record_error, single_output_record_error, validate_grouped_output_raw_ordinals,
    SingleOutputObservation, SingleOutputRecording, SingleOutputStep, SpineCompletedToolCallOutputAnchor,
};

#[test]
fn grouped_raw_ordinals_need_a_present_ordinal_within_the_trace() {
    assert_eq!(
        validate_grouped_output_raw_ordinals(&vec![None, None], 3),
        Err(SpineError::InvalidEvent("grouped Spine toolcall output missing raw ordinal".to_string()))
    );
    assert_eq!(
        validate_grouped_output_raw_ordinals(&vec![None, Some(5), Some(1)], 3),
        Err(SpineError::InvalidEvent(
            "grouped Spine toolcall output raw ordinal 5 exceeds raw trace length 3".to_string()
        ))
    );
    assert_eq!(validate_grouped_output_raw_ordinals(&vec![None, Some(3)], 3), Ok(()));
    assert_eq!(validate_grouped_output_raw_ordinals(&vec![Some(0), Some(9)], 0), Ok(()));
}

#[test]
fn single_output_already_in_history_is_anchored_at_its_last_position() {
    let mut state = SingleOutputRecording::new();
    let step = state
        .step(SingleOutputObservation::Plan { raw_len: 7, history_len: 12, history_ends_with_output: true })
        .expect("step");
    assert_eq!(step, SingleOutputStep::Anchor { raw_ordinal: 6, full_history_index: 11, already_recorded: true });
    assert!(!state.recorded_inside_reduce);
}

#[test]
fn single_output_is_recorded_once_then_anchored_after_the_trace() {
    let mut state = SingleOutputRecording::new();
    let first = state
        .step(SingleOutputObservation::Plan { raw_len: 4, history_len: 9, history_ends_with_output: false })
        .expect("first");
    assert_eq!(first, SingleOutputStep::RecordThenObserve);
    assert!(state.recorded_inside_reduce);
    let second = state
        .step(SingleOutputObservation::Plan { raw_len: 4, history_len: 10, history_ends_with_output: false })
        .expect("second");
    assert_eq!(second, SingleOutputStep::Anchor { raw_ordinal: 4, full_history_index: 10, already_recorded: false });
    let anchor = state.anchor(4, 8, false);
    assert_eq!(
        anchor,
        SpineCompletedToolCallOutputAnchor {
            raw_ordinals: vec![Some(4)],
            context_start: 8,
            already_recorded: false,
            recorded_inside_reduce: true,
        }
    );
}

#[test]
fn single_output_without_plan_is_skipped_and_empty_history_is_invariant_error() {
    let mut state = SingleOutputRecording::new();
    assert_eq!(state.step(SingleOutputObservation::NoPlan), Ok(SingleOutputStep::Skip));
    assert_eq!(
        state.step(SingleOutputObservation::Plan { raw_len: 2, history_len: 0, history_ends_with_output: true }),
        Err(SpineError::Invariant("recorded tool output history length underflow".to_string()))
    );
    let step = state
        .step(SingleOutputObservation::Plan { raw_len: 0, history_len: 3, history_ends_with_output: true })
        .expect("zero raw length");
    assert_eq!(step, SingleOutputStep::RecordThenObserve);
}

#[test]
fn record_errors_name_the_output_kind() {
    assert_eq!(
        single_output_record_error("call-1", true, "disk full"),
        SpineError::Operation(
            "failed to record Spine close-like raw output before commit for call_id=call-1: disk full".to_string()
        )
    );
    assert_eq!(
        single_output_record_error("call-2", false, "x"),
        SpineError::Operation("failed to record Spine tool output before commit for call_id=call-2: x".to_string())
    );
    assert_eq!(
        grouped_output_record_error("y"),
        SpineError::Operation("failed to record grouped Spine tool outputs before commit: y".to_string())
    );
}

#[test]
fn grouped_anchor_is_recorded_inside_reduce() {
    let anchor = SpineCompletedToolCallOutputAnchor::grouped(vec![Some(2), Some(3)], 4, 6).expect("anchor");
    assert_eq!(anchor.raw_ordinals, vec![Some(2), Some(3)]);
    assert_eq!(anchor.context_start, 6);
    assert!(anchor.already_recorded && anchor.recorded_inside_reduce);
    assert!(SpineCompletedToolCallOutputAnchor::grouped(vec![Some(9)], 4, 0).is_err());
}
