//! Runtime debug audits: checks of the Spine invariants at the boundaries
//! where the runtime hands state to the host, each failure naming the
//! invariant it breaks.
use crate::host_bridge::{
    effective_index_for_raw_ordinal_with_spans, raw_ordinal_for_effective_index_with_spans,
    round_trips, validate_spine_replacement_history_admissible, walk,
};
use crate::ids::NodeId;
use crate::items::ResponseItem;
use crate::model::{op_name, InstalledCompactSpan, SpineOperation};
use crate::segment::{
    live_boundaries_ok, segments_view, validate_future_live_boundaries, Segment, SegmentArtifacts,
    SegmentError,
};
use crate::text::{chars_of, copy_string, dec, has_prefix, owned, push_all, push_str, push_u64, starts_with, string_of};
use vstd::prelude::*;

verus! {

pub const INV_SEGMENT_COVER: &'static str = "I1 cover(Pi) ordered/gap-free/non-overlap";

pub const INV_RAW_BOUNDARY: &'static str = "I2 f/g round-trip at legal boundaries";

pub const INV_LIVE_BOUNDARY: &'static str = "I3 no future live raw_start inside Mem interior";

pub const INV_MEM_EVIDENCE: &'static str = "I6 every committed Mem has span metadata and body";

pub const INV_PROJECTION: &'static str = "I8 rollback/fork restrict raw_len, events, Mem artifacts, and cost together";

pub const INV_RENDER_BRIDGE: &'static str = "I10 render(Pi) output-only host-valid replacement_history";

pub const INV_STOP_BOUNDARY: &'static str = "I13 native non-Spine compact is Stop/read-only";

pub const INV_FEATURE_OFF: &'static str = "I14 Spine feature-off host behavior unchanged";

pub const INV_COST_BUDGET: &'static str = "I15 Cost(Pi) <= Budget before prompt/checkpoint exposure";

/// Where in the runtime an audit runs.
#[derive(Clone, Copy, Debug, PartialEq, Eq, Structural)]
pub enum RuntimeDebugBoundary {
    StartupResume,
    BeforeCompact,
    BeforeCheckpointInstall,
    AfterCompactInstall,
    RollbackProjection,
    ForkSeed,
    FeatureOff,
    BridgeRender,
}

/// The label of an audit boundary.
pub open spec fn boundary_label(b: RuntimeDebugBoundary) -> &'static str {
    match b {
        RuntimeDebugBoundary::StartupResume => "startup/resume",
        RuntimeDebugBoundary::BeforeCompact => "before compact",
        RuntimeDebugBoundary::BeforeCheckpointInstall => "before checkpoint install",
        RuntimeDebugBoundary::AfterCompactInstall => "after compact install",
        RuntimeDebugBoundary::RollbackProjection => "rollback projection",
        RuntimeDebugBoundary::ForkSeed => "fork seed",
        RuntimeDebugBoundary::FeatureOff => "feature off",
        RuntimeDebugBoundary::BridgeRender => "bridge render",
    }
}

impl RuntimeDebugBoundary {
    /// The boundary's label, as messages print it.
    pub fn label(self) -> (r: &'static str)
        ensures
            r == boundary_label(self),
    {
        match self {
            RuntimeDebugBoundary::StartupResume => "startup/resume",
            RuntimeDebugBoundary::BeforeCompact => "before compact",
            RuntimeDebugBoundary::BeforeCheckpointInstall => "before checkpoint install",
            RuntimeDebugBoundary::AfterCompactInstall => "after compact install",
            RuntimeDebugBoundary::RollbackProjection => "rollback projection",
            RuntimeDebugBoundary::ForkSeed => "fork seed",
            RuntimeDebugBoundary::FeatureOff => "feature off",
            RuntimeDebugBoundary::BridgeRender => "bridge render",
        }
    }
}

/// A failed audit: where, which invariant, on what, and why.
#[derive(Debug, PartialEq, Eq)]
pub struct RuntimeDebugAuditError {
    pub boundary: RuntimeDebugBoundary,
    pub invariant: &'static str,
    pub locator: String,
    pub detail: String,
}

impl RuntimeDebugAuditError {
    /// The invariant that the audit found broken.
    pub fn broken_invariant(&self) -> (r: &'static str)
        ensures
            r == self.invariant,
    {
        self.invariant
    }

    /// A failed audit.
    pub fn failed(
        boundary: RuntimeDebugBoundary,
        broken: &'static str,
        locator: String,
        detail: String,
    ) -> (r: Self)
        ensures
            r.boundary == boundary,
            r.invariant == broken,
            r.locator@ == locator@,
            r.detail@ == detail@,
    {
        RuntimeDebugAuditError { boundary, invariant: broken, locator, detail }
    }

    /// `runtime_debug_checks <boundary> audit failed (<invariant>): <locator>: <detail>`.
    pub fn to_string(&self) -> (r: String)
        ensures
            r@ == "runtime_debug_checks "@ + boundary_label(self.boundary)@ + " audit failed ("@
                + self.invariant@ + "): "@ + self.locator@ + ": "@ + self.detail@,
    {
        let mut v = chars_of("runtime_debug_checks ");
        push_str(&mut v, self.boundary.label());
        push_str(&mut v, " audit failed (");
        push_str(&mut v, self.invariant);
        push_str(&mut v, "): ");
        push_str(&mut v, self.locator.as_str());
        push_str(&mut v, ": ");
        push_str(&mut v, self.detail.as_str());
        string_of(&v)
    }
}

/// The invariant that a cover error breaks.
pub open spec fn segment_error_invariant(e: SegmentError) -> &'static str {
    match e {
        SegmentError::MissingMemArtifact { .. } => INV_MEM_EVIDENCE,
        SegmentError::LiveStartInsideMem { .. } => INV_LIVE_BOUNDARY,
        SegmentError::BoundaryNotMapped { .. } | SegmentError::BoundaryRoundTrip { .. } => INV_RAW_BOUNDARY,
        _ => INV_SEGMENT_COVER,
    }
}

/// The invariant that a cover error breaks.
pub fn invariant_for_segment_error(error: &SegmentError) -> (r: &'static str)
    ensures
        r == segment_error_invariant(*error),
{
    match error {
        SegmentError::EmptySpan { .. }
        | SegmentError::CoverGap { .. }
        | SegmentError::CoverOverlap { .. }
        | SegmentError::ReplacementEmpty { .. }
        | SegmentError::ReplacementCutsSpan { .. }
        | SegmentError::ReplacementMatchedNoCover { .. }
        | SegmentError::CanonicalMemPastRawLen { .. }
        | SegmentError::CanonicalMemOverlap { .. } => INV_SEGMENT_COVER,
        SegmentError::MissingMemArtifact { .. } => INV_MEM_EVIDENCE,
        SegmentError::LiveStartInsideMem { .. } => INV_LIVE_BOUNDARY,
        SegmentError::BoundaryNotMapped { .. } | SegmentError::BoundaryRoundTrip { .. } => {
            INV_RAW_BOUNDARY
        },
    }
}

/// Why projecting the cover Π failed.
#[derive(Debug, PartialEq, Eq)]
pub enum ProjectError {
    ProjectCoverGap { detail: String },
    ProjectCoverOverlap { detail: String },
    ProjectLiveStartInsideMem { detail: String },
    ProjectMissingMemInstall { detail: String },
    ProjectMissingMemoryBody { detail: String },
    ProjectForkEvidenceIncomplete { detail: String },
    ProjectStopBoundary { detail: String },
    ProjectBudgetExceeded { detail: String },
}

/// The invariant that a projection error breaks.
pub open spec fn project_error_invariant(e: ProjectError) -> &'static str {
    match e {
        ProjectError::ProjectCoverGap { .. } | ProjectError::ProjectCoverOverlap { .. } => INV_SEGMENT_COVER,
        ProjectError::ProjectLiveStartInsideMem { .. } => INV_LIVE_BOUNDARY,
        ProjectError::ProjectMissingMemInstall { .. } | ProjectError::ProjectMissingMemoryBody { .. } => INV_MEM_EVIDENCE,
        ProjectError::ProjectForkEvidenceIncomplete { .. } => INV_PROJECTION,
        ProjectError::ProjectStopBoundary { .. } => INV_STOP_BOUNDARY,
        ProjectError::ProjectBudgetExceeded { .. } => INV_COST_BUDGET,
    }
}

/// The invariant that a projection error breaks.
pub fn invariant_for_project_error(error: &ProjectError) -> (r: &'static str)
    ensures
        r == project_error_invariant(*error),
{
    match error {
        ProjectError::ProjectCoverGap { .. } | ProjectError::ProjectCoverOverlap { .. } => {
            INV_SEGMENT_COVER
        },
        ProjectError::ProjectLiveStartInsideMem { .. } => INV_LIVE_BOUNDARY,
        ProjectError::ProjectMissingMemInstall { .. }
        | ProjectError::ProjectMissingMemoryBody { .. } => INV_MEM_EVIDENCE,
        ProjectError::ProjectForkEvidenceIncomplete { .. } => INV_PROJECTION,
        ProjectError::ProjectStopBoundary { .. } => INV_STOP_BOUNDARY,
        ProjectError::ProjectBudgetExceeded { .. } => INV_COST_BUDGET,
    }
}

/// A failed audit at `boundary` for invariant `broken` on `locator`.
pub open spec fn audit_failed_with(
    r: Result<(), RuntimeDebugAuditError>,
    boundary: RuntimeDebugBoundary,
    broken: &'static str,
    locator: Seq<char>,
) -> bool {
    r matches Err(e) && e.boundary == boundary && e.invariant == broken && e.locator@ == locator
}

/// Audits a cover: every memory has a span and no live start falls inside one.
pub fn audit_segment_cover(
    boundary: RuntimeDebugBoundary,
    pi: &Vec<Segment>,
    artifacts: &SegmentArtifacts,
    live_starts: &Vec<u64>,
    locator: String,
) -> (r: Result<(), RuntimeDebugAuditError>)
    ensures
        r is Ok <==> live_boundaries_ok(segments_view(pi@), artifacts@, live_starts@),
        r is Err ==> exists|e: SegmentError|
            (e is MissingMemArtifact || e is LiveStartInsideMem) && audit_failed_with(
                r,
                boundary,
                segment_error_invariant(e),
                locator@,
            ) && (r matches Err(a) && a.detail@ == crate::segment::segment_error_text(e)),
{
    match validate_future_live_boundaries(pi, artifacts, live_starts) {
        Ok(()) => Ok(()),
        Err(err) => {
            let broken = invariant_for_segment_error(&err);
            let detail = err.to_string();
            Err(RuntimeDebugAuditError::failed(boundary, broken, locator, detail))
        },
    }
}

/// Where a compaction was asked for: the operation and node, the node whose
/// scope it compacts, the raw range and the transition's texts.
#[derive(Clone, Debug, PartialEq, Eq)]
pub struct SpineCompactBoundary {
    pub op: SpineOperation,
    pub node_id: NodeId,
    pub scope_node_id: Option<NodeId>,
    pub cut_ordinal: u64,
    pub fold_end_ordinal: u64,
    pub transition_summary: String,
    pub compact_instruction: Option<String>,
}

/// ` for node <node> op <Op>`.
fn push_node_op(v: &mut Vec<char>, node_id: &NodeId, op: SpineOperation)
    ensures
        final(v)@ == old(v)@ + " for node "@ + crate::ids::node_id_text(node_id@) + " op "@
            + crate::model::op_name_spec(op),
{
    push_str(v, " for node ");
    let t = node_id.to_text();
    push_all(v, &t);
    push_str(v, " op ");
    let n = op_name(op);
    push_all(v, &n);
}

/// The plan's raw boundaries are ordered and each round-trips through the
/// model-visible history.
pub open spec fn plan_boundaries_ok(
    history: Seq<ResponseItem>,
    spans: Seq<InstalledCompactSpan>,
    hlen: nat,
    cut: u64,
    fold_end: u64,
) -> bool {
    cut <= fold_end && match walk(history, spans, 0, 0, 0) {
        Some((es, raw_len, stopped)) => round_trips(es, stopped, raw_len, hlen, cut) && round_trips(
            es,
            stopped,
            raw_len,
            hlen,
            fold_end,
        ),
        None => false,
    }
}

/// Checks one raw boundary of a compact plan.
fn audit_raw_boundary(
    history: &Vec<ResponseItem>,
    runtime_spans: &Vec<InstalledCompactSpan>,
    boundary: &SpineCompactBoundary,
    raw_boundary: u64,
    locator: &String,
) -> (r: Result<(), RuntimeDebugAuditError>)
    ensures
        r is Ok <==> match walk(history@, runtime_spans@, 0, 0, 0) {
            Some((es, raw_len, stopped)) => round_trips(es, stopped, raw_len, history.len() as nat, raw_boundary),
            None => false,
        },
        r is Err ==> audit_failed_with(r, RuntimeDebugBoundary::BeforeCompact, INV_RAW_BOUNDARY, locator@),
{
    let index = match effective_index_for_raw_ordinal_with_spans(history, raw_boundary, runtime_spans) {
        Some(i) => i,
        None => {
            let mut v = chars_of("raw boundary ");
            push_u64(&mut v, raw_boundary);
            push_node_op(&mut v, &boundary.node_id, boundary.op);
            push_str(&mut v, " does not map to an effective history index");
            return Err(
                RuntimeDebugAuditError::failed(
                    RuntimeDebugBoundary::BeforeCompact,
                    INV_RAW_BOUNDARY,
                    copy_string(locator),
                    string_of(&v),
                ),
            );
        },
    };
    let round_trip = match raw_ordinal_for_effective_index_with_spans(history, index, runtime_spans) {
        Some(r) => r,
        None => {
            let mut v = chars_of("effective index ");
            push_u64(&mut v, index as u64);
            push_str(&mut v, " for raw boundary ");
            push_u64(&mut v, raw_boundary);
            push_str(&mut v, " does not map back to a raw ordinal");
            return Err(
                RuntimeDebugAuditError::failed(
                    RuntimeDebugBoundary::BeforeCompact,
                    INV_RAW_BOUNDARY,
                    copy_string(locator),
                    string_of(&v),
                ),
            );
        },
    };
    if round_trip != raw_boundary {
        let mut v = chars_of("raw boundary ");
        push_u64(&mut v, raw_boundary);
        push_str(&mut v, " maps to effective index ");
        push_u64(&mut v, index as u64);
        push_str(&mut v, ", which maps back to ");
        push_u64(&mut v, round_trip);
        return Err(
            RuntimeDebugAuditError::failed(
                RuntimeDebugBoundary::BeforeCompact,
                INV_RAW_BOUNDARY,
                copy_string(locator),
                string_of(&v),
            ),
        );
    }
    Ok(())
}

/// Audits a compact plan before it runs: cut before fold end, and both raw
/// boundaries map to history indices that map back to them.
pub fn audit_compact_plan_boundaries(
    history: &Vec<ResponseItem>,
    runtime_spans: &Vec<InstalledCompactSpan>,
    boundary: &SpineCompactBoundary,
    locator: String,
) -> (r: Result<(), RuntimeDebugAuditError>)
    ensures
        r is Ok <==> plan_boundaries_ok(
            history@,
            runtime_spans@,
            history.len() as nat,
            boundary.cut_ordinal,
            boundary.fold_end_ordinal,
        ),
        r is Err ==> audit_failed_with(r, RuntimeDebugBoundary::BeforeCompact, INV_RAW_BOUNDARY, locator@),
        boundary.cut_ordinal > boundary.fold_end_ordinal ==> (r matches Err(e) && e.detail@ == "cut ordinal "@ + dec(
            boundary.cut_ordinal as nat,
        ) + " is after fold_end ordinal "@ + dec(boundary.fold_end_ordinal as nat) + " for node "@
            + crate::ids::node_id_text(boundary.node_id@) + " op "@ + crate::model::op_name_spec(boundary.op)),
{
    if boundary.cut_ordinal > boundary.fold_end_ordinal {
        let mut v = chars_of("cut ordinal ");
        push_u64(&mut v, boundary.cut_ordinal);
        push_str(&mut v, " is after fold_end ordinal ");
        push_u64(&mut v, boundary.fold_end_ordinal);
        push_node_op(&mut v, &boundary.node_id, boundary.op);
        return Err(
            RuntimeDebugAuditError::failed(
                RuntimeDebugBoundary::BeforeCompact,
                INV_RAW_BOUNDARY,
                locator,
                string_of(&v),
            ),
        );
    }
    audit_raw_boundary(history, runtime_spans, boundary, boundary.cut_ordinal, &locator)?;
    audit_raw_boundary(history, runtime_spans, boundary, boundary.fold_end_ordinal, &locator)
}

/// Audits a compact checkpoint: the replacement history must project and
/// every required raw ordinal must round-trip.
pub fn audit_compact_checkpoint(
    boundary: RuntimeDebugBoundary,
    replacement_history: &Vec<ResponseItem>,
    spans_after_install: &Vec<InstalledCompactSpan>,
    required_raw_ordinals: &Vec<u64>,
    locator: String,
) -> (r: Result<(), RuntimeDebugAuditError>)
    ensures
        r is Ok <==> match walk(replacement_history@, spans_after_install@, 0, 0, 0) {
            Some((es, raw_len, stopped)) => forall|j: int|
                0 <= j < required_raw_ordinals@.len() ==> #[trigger] round_trips(
                    es,
                    stopped,
                    raw_len,
                    replacement_history.len() as nat,
                    required_raw_ordinals@[j],
                ),
            None => false,
        },
        r is Err ==> audit_failed_with(r, boundary, INV_RENDER_BRIDGE, locator@),
        r matches Err(e) ==> e.detail@ == "spine replacement history is not admissible"@,
{
    match validate_spine_replacement_history_admissible(
        replacement_history,
        spans_after_install,
        required_raw_ordinals,
    ) {
        Ok(()) => Ok(()),
        Err(_) => Err(
            RuntimeDebugAuditError::failed(
                boundary,
                INV_RENDER_BRIDGE,
                locator,
                owned("spine replacement history is not admissible"),
            ),
        ),
    }
}

/// What a projection epoch records.
#[derive(Debug, PartialEq, Eq)]
pub struct ProjectionEpochMetadata {
    pub effective_raw_len: u64,
    pub processed_rollout_hash: String,
    pub surviving_turn_ids_hash: String,
    pub state_hash: String,
}

/// The epoch records the expected raw length and sha256-addressed hashes.
pub open spec fn projection_epoch_ok(expected_effective_raw_len: u64, epoch: ProjectionEpochMetadata) -> bool {
    &&& epoch.effective_raw_len == expected_effective_raw_len
    &&& has_prefix(epoch.processed_rollout_hash@, "sha256:"@)
    &&& has_prefix(epoch.surviving_turn_ids_hash@, "sha256:"@)
    &&& has_prefix(epoch.state_hash@, "sha256:"@)
}

/// Fails unless `value` is sha256-addressed.
fn audit_sha256_field(
    boundary: RuntimeDebugBoundary,
    field: &str,
    value: &String,
    locator: &String,
) -> (r: Result<(), RuntimeDebugAuditError>)
    ensures
        r is Ok <==> has_prefix(value@, "sha256:"@),
        r is Err ==> audit_failed_with(r, boundary, INV_PROJECTION, locator@),
        r matches Err(e) ==> e.detail@ == "projection epoch "@ + field@ + " is not sha256-addressed: "@ + value@,
{
    let v = chars_of(value.as_str());
    let prefix = chars_of("sha256:");
    if starts_with(&v, &prefix) {
        return Ok(());
    }
    let mut d = chars_of("projection epoch ");
    push_str(&mut d, field);
    push_str(&mut d, " is not sha256-addressed: ");
    push_all(&mut d, &v);
    Err(RuntimeDebugAuditError::failed(boundary, INV_PROJECTION, copy_string(locator), string_of(&d)))
}

/// Audits a projection epoch: the expected raw length, and hashes that are
/// sha256-addressed.
pub fn audit_projection_epoch(
    boundary: RuntimeDebugBoundary,
    expected_effective_raw_len: u64,
    epoch: &ProjectionEpochMetadata,
    locator: String,
) -> (r: Result<(), RuntimeDebugAuditError>)
    ensures
        r is Ok <==> projection_epoch_ok(expected_effective_raw_len, *epoch),
        r is Err ==> audit_failed_with(r, boundary, INV_PROJECTION, locator@),
        r matches Err(e) ==> e.detail@ == if epoch.effective_raw_len != expected_effective_raw_len {
            "projection epoch effective_raw_len "@ + dec(epoch.effective_raw_len as nat) + " does not match expected "@
                + dec(expected_effective_raw_len as nat)
        } else if !has_prefix(epoch.processed_rollout_hash@, "sha256:"@) {
            "projection epoch "@ + "processed_rollout_hash"@ + " is not sha256-addressed: "@ + epoch.processed_rollout_hash@
        } else if !has_prefix(epoch.surviving_turn_ids_hash@, "sha256:"@) {
            "projection epoch "@ + "surviving_turn_ids_hash"@ + " is not sha256-addressed: "@ + epoch.surviving_turn_ids_hash@
        } else {
            "projection epoch "@ + "state_hash"@ + " is not sha256-addressed: "@ + epoch.state_hash@
        },
{
    if epoch.effective_raw_len != expected_effective_raw_len {
        let mut v = chars_of("projection epoch effective_raw_len ");
        push_u64(&mut v, epoch.effective_raw_len);
        push_str(&mut v, " does not match expected ");
        push_u64(&mut v, expected_effective_raw_len);
        return Err(RuntimeDebugAuditError::failed(boundary, INV_PROJECTION, locator, string_of(&v)));
    }
    audit_sha256_field(boundary, "processed_rollout_hash", &epoch.processed_rollout_hash, &locator)?;
    audit_sha256_field(boundary, "surviving_turn_ids_hash", &epoch.surviving_turn_ids_hash, &locator)?;
    audit_sha256_field(boundary, "state_hash", &epoch.state_hash, &locator)
}

/// Audits that the Spine runtime is not active while the feature is off.
pub fn audit_feature_off_boundary(spine_runtime_active: bool, locator: String) -> (r: Result<
    (),
    RuntimeDebugAuditError,
>)
    ensures
        r is Ok <==> !spine_runtime_active,
        r is Err ==> audit_failed_with(r, RuntimeDebugBoundary::FeatureOff, INV_FEATURE_OFF, locator@),
        r matches Err(e) ==> e.detail@ == "Spine runtime is active while the feature is off"@,
{
    proof {
        reveal_strlit("Spine runtime is active while the feature is off");
    }
    if !spine_runtime_active {
        return Ok(());
    }
    Err(
        RuntimeDebugAuditError::failed(
            RuntimeDebugBoundary::FeatureOff,
            INV_FEATURE_OFF,
            locator,
            owned("Spine runtime is active while the feature is off"),
        ),
    )
}

} // verus!
