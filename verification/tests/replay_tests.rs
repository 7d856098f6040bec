use spine::model::SpineError;
use spine::replay::{replay_boundary_check, ReplayBoundaryCheck};

#[test]
fn resume_with_rollout_items_needs_the_sidecar() {
    assert_eq!(
        replay_boundary_check(false, false, &vec![false, true], true),
        Err(SpineError::InvalidStore("spine_jit resume requires Spine sidecar".to_string()))
    );
    assert_eq!(
        replay_boundary_check(false, true, &vec![], true),
        Err(SpineError::InvalidStore("spine_jit resume requires Spine sidecar".to_string()))
    );
    assert_eq!(
        replay_boundary_check(false, false, &vec![false, false], false),
        Ok(ReplayBoundaryCheck::NoRolloutCompactBoundaries)
    );
}

#[test]
fn replacement_history_resume_needs_its_base_boundary() {
    assert_eq!(
        replay_boundary_check(true, true, &vec![true], false),
        Err(SpineError::InvalidStore(
            "spine_jit resume used replacement_history without rollout compact boundary proof".to_string()
        ))
    );
    assert_eq!(
        replay_boundary_check(true, true, &vec![true], true),
        Ok(ReplayBoundaryCheck::RolloutCompactBoundaries)
    );
    assert_eq!(
        replay_boundary_check(true, false, &vec![true], false),
        Ok(ReplayBoundaryCheck::NoRolloutCompactBoundaries)
    );
}
