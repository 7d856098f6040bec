//! Fast-fail checks that a memory install must pass before it commits.
use crate::mem_install::{section_id_text, MemoryBodyError};
use crate::text::{all_ws, is_blank, owned};
use vstd::prelude::*;

verus! {

/// Why the runtime refuses a memory install.
#[derive(Debug, PartialEq, Eq)]
pub enum RuntimeFastFailError {
    MemInstallMissingStarted { compact_id: String },
    MemInstallDuplicateCompactId { compact_id: String },
    MemInstallCheckpointBeforeCommit { compact_id: String, terminal: &'static str },
    MemInstallInvalidTerminalAfterCommit { compact_id: String, terminal: &'static str },
    MemInstallSpanMismatch { compact_id: String },
    MemInstallMissingProjectionRef { compact_id: String },
    MemInstallMissingSourceRolloutRef { compact_id: String },
    MemInstallSourceRolloutMismatch { compact_id: String },
    MemInstallMalformedBodyRef { compact_id: String, memory_section_id: String, storage_ref: String },
    MemInstallMissingBody { compact_id: String, section_id: String },
    MemInstallBodyHashMismatch {
        compact_id: String,
        section_id: String,
        expected: String,
        actual: String,
    },
    MemInstallBodyStorageMismatch {
        compact_id: String,
        section_id: String,
        expected: String,
        actual: String,
    },
    MemInstallUnsupportedSchema { compact_id: String, schema_version: u32 },
    MemInstallCommittedSeqMismatch { compact_id: String, expected: u64, actual: u64 },
}

/// The outcome of the metadata check, as a kind: `0` passes, `1` a blank
/// projection ref, `2` a blank source rollout ref, `3` a rollout that does not
/// match the started span.
pub open spec fn metadata_failure(
    projection_ref: Seq<char>,
    source_rollout_ref: Seq<char>,
    source_rollout_matches_started: bool,
) -> int {
    if all_ws(projection_ref) {
        1
    } else if all_ws(source_rollout_ref) {
        2
    } else if !source_rollout_matches_started {
        3
    } else {
        0
    }
}

/// `r` is the metadata check's answer for failure kind `kind` (see `metadata_failure`).
pub open spec fn metadata_outcome(
    r: Result<(), RuntimeFastFailError>,
    kind: int,
    compact_id: Seq<char>,
) -> bool {
    match r {
        Ok(_) => kind == 0,
        Err(RuntimeFastFailError::MemInstallMissingProjectionRef { compact_id: c }) => kind == 1
            && c@ == compact_id,
        Err(RuntimeFastFailError::MemInstallMissingSourceRolloutRef { compact_id: c }) => kind
            == 2 && c@ == compact_id,
        Err(RuntimeFastFailError::MemInstallSourceRolloutMismatch { compact_id: c }) => kind == 3
            && c@ == compact_id,
        _ => false,
    }
}

/// Checks the metadata of a memory install: both refs present (not blank) and
/// the source rollout that of the started span.
pub fn validate_mem_install_metadata(
    compact_id: &str,
    projection_ref: &str,
    source_rollout_ref: &str,
    source_rollout_matches_started: bool,
) -> (r: Result<(), RuntimeFastFailError>)
    ensures
        metadata_outcome(
            r,
            metadata_failure(projection_ref@, source_rollout_ref@, source_rollout_matches_started),
            compact_id@,
        ),
        r is Ok <==> !all_ws(projection_ref@) && !all_ws(source_rollout_ref@) && source_rollout_matches_started,
        !all_ws(projection_ref@) && !all_ws(source_rollout_ref@) && !source_rollout_matches_started ==> (r matches Err(
            RuntimeFastFailError::MemInstallSourceRolloutMismatch { compact_id: c },
        ) && c@ == compact_id@),
{
    if is_blank(projection_ref) {
        return Err(
            RuntimeFastFailError::MemInstallMissingProjectionRef { compact_id: owned(compact_id) },
        );
    }
    if is_blank(source_rollout_ref) {
        return Err(
            RuntimeFastFailError::MemInstallMissingSourceRolloutRef {
                compact_id: owned(compact_id),
            },
        );
    }
    if !source_rollout_matches_started {
        return Err(
            RuntimeFastFailError::MemInstallSourceRolloutMismatch { compact_id: owned(compact_id) },
        );
    }
    Ok(())
}

/// Checks a memory install before it commits: no second commit of the same
/// compact id, no host checkpoint exposed before it, a started span to
/// install into, then the metadata (in that order).
pub fn validate_mem_install_pre_commit(
    compact_id: &str,
    has_started: bool,
    duplicate_commit: bool,
    terminal_before_commit: Option<&'static str>,
    projection_ref: &str,
    source_rollout_ref: &str,
    source_rollout_matches_started: bool,
) -> (r: Result<(), RuntimeFastFailError>)
    ensures
        duplicate_commit ==> (r matches Err(
            RuntimeFastFailError::MemInstallDuplicateCompactId { compact_id: c },
        ) && c@ == compact_id@),
        !duplicate_commit && terminal_before_commit is Some ==> (r matches Err(
            RuntimeFastFailError::MemInstallCheckpointBeforeCommit { compact_id: c, terminal: t },
        ) && c@ == compact_id@ && t == terminal_before_commit->0),
        !duplicate_commit && terminal_before_commit is None && !has_started ==> (r matches Err(
            RuntimeFastFailError::MemInstallMissingStarted { compact_id: c },
        ) && c@ == compact_id@),
        !duplicate_commit && terminal_before_commit is None && has_started ==> metadata_outcome(
            r,
            metadata_failure(projection_ref@, source_rollout_ref@, source_rollout_matches_started),
            compact_id@,
        ),
        r is Ok <==> !duplicate_commit && terminal_before_commit is None && has_started && !all_ws(projection_ref@)
            && !all_ws(source_rollout_ref@) && source_rollout_matches_started,
{
    if duplicate_commit {
        return Err(
            RuntimeFastFailError::MemInstallDuplicateCompactId { compact_id: owned(compact_id) },
        );
    }
    if let Some(terminal) = terminal_before_commit {
        return Err(
            RuntimeFastFailError::MemInstallCheckpointBeforeCommit {
                compact_id: owned(compact_id),
                terminal,
            },
        );
    }
    if !has_started {
        return Err(RuntimeFastFailError::MemInstallMissingStarted { compact_id: owned(compact_id) });
    }
    validate_mem_install_metadata(
        compact_id,
        projection_ref,
        source_rollout_ref,
        source_rollout_matches_started,
    )
}

/// The fast-fail error that a memory body error becomes for an install.
pub fn mem_install_body_error(compact_id: &str, error: MemoryBodyError) -> (r:
    RuntimeFastFailError)
    ensures
        match error {
            MemoryBodyError::MalformedSectionId { memory_section_id, storage_ref } => r matches
                RuntimeFastFailError::MemInstallMalformedBodyRef {
                compact_id: c,
                memory_section_id: m,
                storage_ref: s,
            } && c@ == compact_id@ && m == memory_section_id && s == storage_ref,
            MemoryBodyError::MissingSection { section_id } => r matches
                RuntimeFastFailError::MemInstallMissingBody { compact_id: c, section_id: s }
                && c@ == compact_id@ && s@ == section_id_text(
                section_id.storage_ref@,
                section_id.section_index as nat,
            ),
            MemoryBodyError::StorageMismatch { section_id, expected, actual } => r matches
                RuntimeFastFailError::MemInstallBodyStorageMismatch {
                compact_id: c,
                section_id: s,
                expected: e,
                actual: a,
            } && c@ == compact_id@ && s@ == section_id_text(
                section_id.storage_ref@,
                section_id.section_index as nat,
            ) && e == expected && a == actual,
            MemoryBodyError::BodyHashMismatch { section_id, expected, actual } => r matches
                RuntimeFastFailError::MemInstallBodyHashMismatch {
                compact_id: c,
                section_id: s,
                expected: e,
                actual: a,
            } && c@ == compact_id@ && s@ == section_id_text(
                section_id.storage_ref@,
                section_id.section_index as nat,
            ) && e == expected && a == actual,
        },
{
    match error {
        MemoryBodyError::MalformedSectionId { memory_section_id, storage_ref } => {
            RuntimeFastFailError::MemInstallMalformedBodyRef {
                compact_id: owned(compact_id),
                memory_section_id,
                storage_ref,
            }
        },
        MemoryBodyError::MissingSection { section_id } => {
            RuntimeFastFailError::MemInstallMissingBody {
                compact_id: owned(compact_id),
                section_id: section_id.to_string(),
            }
        },
        MemoryBodyError::StorageMismatch { section_id, expected, actual } => {
            RuntimeFastFailError::MemInstallBodyStorageMismatch {
                compact_id: owned(compact_id),
                section_id: section_id.to_string(),
                expected,
                actual,
            }
        },
        MemoryBodyError::BodyHashMismatch { section_id, expected, actual } => {
            RuntimeFastFailError::MemInstallBodyHashMismatch {
                compact_id: owned(compact_id),
                section_id: section_id.to_string(),
                expected,
                actual,
            }
        },
    }
}


/// The metadata check passes exactly when both refs are present and the source
/// rollout is the started one; with both refs present, a rollout that is not
/// the started one is refused as a mismatch, for the compact id asked about.
pub proof fn lemma_mem_install_metadata_accepts_exactly(
    compact_id: Seq<char>,
    projection_ref: Seq<char>,
    source_rollout_ref: Seq<char>,
    source_rollout_matches_started: bool,
    r: Result<(), RuntimeFastFailError>,
)
    requires
        metadata_outcome(r, metadata_failure(projection_ref, source_rollout_ref, source_rollout_matches_started), compact_id),
    ensures
        r is Ok <==> !all_ws(projection_ref) && !all_ws(source_rollout_ref) && source_rollout_matches_started,
        all_ws(projection_ref) ==> (r matches Err(RuntimeFastFailError::MemInstallMissingProjectionRef { compact_id: c })
            && c@ == compact_id),
        !all_ws(projection_ref) && all_ws(source_rollout_ref) ==> (r matches Err(
            RuntimeFastFailError::MemInstallMissingSourceRolloutRef { compact_id: c },
        ) && c@ == compact_id),
        !all_ws(projection_ref) && !all_ws(source_rollout_ref) && !source_rollout_matches_started ==> (r matches Err(
            RuntimeFastFailError::MemInstallSourceRolloutMismatch { compact_id: c },
        ) && c@ == compact_id),
{
}

} // verus!
