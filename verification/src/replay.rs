//! The checks that decide whether a session may resume from its rollout
//! with a prepared Spine replay, and which boundary validation follows.
use crate::model::SpineError;
use crate::text::owned;
use vstd::prelude::*;

verus! {

/// Which validation of the rollout's compact boundaries a replay needs.
#[derive(Clone, Copy, Debug, PartialEq, Eq, Structural)]
pub enum ReplayBoundaryCheck {
    /// The history was rebuilt from a replacement history: the base boundary
    /// and every later compact boundary of the rollout must be proved.
    RolloutCompactBoundaries,
    /// The history was replayed item by item: the rollout must hold no
    /// compact boundary.
    NoRolloutCompactBoundaries,
}

/// Some raw item of the rollout survived.
pub open spec fn any_live(raw_live: Seq<bool>) -> bool {
    exists|i: int| 0 <= i < raw_live.len() && raw_live[i]
}

/// Decides, once the replay runtime is prepared, whether the resume may go on
/// and which boundary validation it needs. A resume that has rollout items or
/// used a replacement history needs the Spine sidecar; one that used a
/// replacement history also needs the proof of its base compact boundary.
pub fn replay_boundary_check(
    has_runtime: bool,
    used_replacement_history: bool,
    raw_live: &Vec<bool>,
    has_base_boundary: bool,
) -> (r: Result<ReplayBoundaryCheck, SpineError>)
    ensures
        !has_runtime && (used_replacement_history || any_live(raw_live@)) ==> (r matches Err(
            SpineError::InvalidStore(m),
        ) && m@ == "spine_jit resume requires Spine sidecar"@),
        (has_runtime || !(used_replacement_history || any_live(raw_live@))) ==> if !used_replacement_history {
            r == Ok::<ReplayBoundaryCheck, SpineError>(ReplayBoundaryCheck::NoRolloutCompactBoundaries)
        } else if !has_base_boundary {
            r matches Err(SpineError::InvalidStore(m))
                && m@ == "spine_jit resume used replacement_history without rollout compact boundary proof"@
        } else {
            r == Ok::<ReplayBoundaryCheck, SpineError>(ReplayBoundaryCheck::RolloutCompactBoundaries)
        },
{
    let mut any = false;
    let mut i: usize = 0;
    while i < raw_live.len()
        invariant
            i <= raw_live.len(),
            any <==> exists|j: int| 0 <= j < i && raw_live@[j],
        decreases raw_live.len() - i,
    {
        if raw_live[i] {
            any = true;
        }
        i = i + 1;
    }
    if !has_runtime && (used_replacement_history || any) {
        return Err(SpineError::InvalidStore(owned("spine_jit resume requires Spine sidecar")));
    }
    if used_replacement_history {
        if !has_base_boundary {
            return Err(
                SpineError::InvalidStore(
                    owned("spine_jit resume used replacement_history without rollout compact boundary proof"),
                ),
            );
        }
        Ok(ReplayBoundaryCheck::RolloutCompactBoundaries)
    } else {
        Ok(ReplayBoundaryCheck::NoRolloutCompactBoundaries)
    }
}

} // verus!
