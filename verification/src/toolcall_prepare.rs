//! Anchoring a completed tool call's output before the commit: where its
//! output stands in the raw trace and in the mutable context, recording it
//! first when the host has not.
use crate::model::SpineError;
use crate::text::{chars_of, dec, owned, push_str, push_u64, string_of};
use vstd::prelude::*;

verus! {

/// Where a completed tool call's output stands: its raw ordinals, the context
/// index of its first item, whether it was already recorded, and whether it
/// was recorded here, inside the commit's reduction.
#[derive(Debug, PartialEq, Eq)]
pub struct SpineCompletedToolCallOutputAnchor {
    pub raw_ordinals: Vec<Option<u64>>,
    pub context_start: usize,
    pub already_recorded: bool,
    pub recorded_inside_reduce: bool,
}

/// The first raw ordinal that is present.
pub open spec fn first_present(ordinals: Seq<Option<u64>>) -> Option<u64>
    decreases ordinals.len(),
{
    if ordinals.len() == 0 {
        None
    } else {
        match ordinals[0] {
            Some(o) => Some(o),
            None => first_present(ordinals.drop_first()),
        }
    }
}

/// `e` is an invalid-event error with message `m`.
pub open spec fn invalid_event(e: SpineError, m: Seq<char>) -> bool {
    e matches SpineError::InvalidEvent(s) && s@ == m
}

fn first_present_of(ordinals: &Vec<Option<u64>>) -> (r: Option<u64>)
    ensures
        r == first_present(ordinals@),
{
    let mut i: usize = 0;
    proof {
        assert(ordinals@.skip(0) =~= ordinals@);
    }
    while i < ordinals.len()
        invariant
            i <= ordinals.len(),
            first_present(ordinals@) == first_present(ordinals@.skip(i as int)),
        decreases ordinals.len() - i,
    {
        proof {
            assert(ordinals@.skip(i as int).drop_first() =~= ordinals@.skip(i + 1));
        }
        if let Some(o) = ordinals[i] {
            return Some(o);
        }
        i = i + 1;
    }
    None
}

/// Checks the raw ordinals of a grouped output: one must be present, and the
/// first present one must fit and not exceed the raw trace.
pub fn validate_grouped_output_raw_ordinals(output_raw_ordinals: &Vec<Option<u64>>, raw_items_len: usize) -> (r: Result<
    (),
    SpineError,
>)
    ensures
        match first_present(output_raw_ordinals@) {
            None => r matches Err(e) && invalid_event(e, "grouped Spine toolcall output missing raw ordinal"@),
            Some(o) => if o > usize::MAX {
                r matches Err(e) && invalid_event(e, "raw ordinal overflow"@)
            } else if o > raw_items_len {
                r matches Err(e) && invalid_event(
                    e,
                    "grouped Spine toolcall output raw ordinal "@ + dec(o as nat) + " exceeds raw trace length "@ + dec(
                        raw_items_len as nat,
                    ),
                )
            } else {
                r is Ok
            },
        },
{
    proof {
        reveal_strlit("grouped Spine toolcall output missing raw ordinal");
        reveal_strlit("raw ordinal overflow");
    }
    let first = first_present_of(output_raw_ordinals);
    let first_raw_ordinal = match first {
        Some(o) => o,
        None => {
            return Err(SpineError::InvalidEvent(owned("grouped Spine toolcall output missing raw ordinal")));
        },
    };
    if first_raw_ordinal > usize::MAX as u64 {
        return Err(SpineError::InvalidEvent(owned("raw ordinal overflow")));
    }
    if first_raw_ordinal as usize > raw_items_len {
        let mut m = chars_of("grouped Spine toolcall output raw ordinal ");
        push_u64(&mut m, first_raw_ordinal);
        push_str(&mut m, " exceeds raw trace length ");
        push_u64(&mut m, raw_items_len as u64);
        return Err(SpineError::InvalidEvent(string_of(&m)));
    }
    Ok(())
}


// ----------------------------------------------------------------------------
// A single output
// ----------------------------------------------------------------------------
/// What one round of anchoring a single tool output observed.
#[derive(Clone, Copy, Debug, PartialEq, Eq, Structural)]
pub enum SingleOutputObservation {
    /// There is no recording plan for the call: nothing is anchored.
    NoPlan,
    /// A recording plan counting `raw_len` raw items, and the host history's
    /// length and whether its last item is the output.
    Plan { raw_len: u64, history_len: usize, history_ends_with_output: bool },
}

/// What to do next.
#[derive(Clone, Copy, Debug, PartialEq, Eq, Structural)]
pub enum SingleOutputStep {
    /// Nothing to anchor.
    Skip,
    /// Record the output into the host history (keeping the history as it was
    /// before), then observe again.
    RecordThenObserve,
    /// The output stands at raw ordinal `raw_ordinal` and at index
    /// `full_history_index` of the host history.
    Anchor { raw_ordinal: u64, full_history_index: usize, already_recorded: bool },
}

/// Whether this commit has recorded the output itself.
#[derive(Clone, Copy, Debug, PartialEq, Eq, Structural)]
pub struct SingleOutputRecording {
    pub recorded_inside_reduce: bool,
}

/// One round: with no plan nothing is anchored; an output the history already
/// ends with (and that the raw trace counts) is anchored at the last raw
/// ordinal and history index; an output this commit recorded is anchored after
/// the trace and the history; otherwise it is recorded first. `None` when the
/// history claims to end with the output but is empty.
pub open spec fn single_output_next(recorded: bool, obs: SingleOutputObservation) -> (bool, Option<SingleOutputStep>) {
    match obs {
        SingleOutputObservation::NoPlan => (recorded, Some(SingleOutputStep::Skip)),
        SingleOutputObservation::Plan { raw_len, history_len, history_ends_with_output } => {
            if history_ends_with_output && raw_len > 0 {
                if history_len == 0 {
                    (recorded, None)
                } else {
                    (
                        recorded,
                        Some(
                            SingleOutputStep::Anchor {
                                raw_ordinal: (raw_len - 1) as u64,
                                full_history_index: (history_len - 1) as usize,
                                already_recorded: true,
                            },
                        ),
                    )
                }
            } else if recorded {
                (
                    recorded,
                    Some(
                        SingleOutputStep::Anchor {
                            raw_ordinal: raw_len,
                            full_history_index: history_len,
                            already_recorded: false,
                        },
                    ),
                )
            } else {
                (true, Some(SingleOutputStep::RecordThenObserve))
            }
        },
    }
}

impl SingleOutputRecording {
    /// Nothing recorded yet.
    pub fn new() -> (r: Self)
        ensures
            !r.recorded_inside_reduce,
    {
        SingleOutputRecording { recorded_inside_reduce: false }
    }

    /// Decides one round from what it observed.
    pub fn step(&mut self, observation: SingleOutputObservation) -> (r: Result<SingleOutputStep, SpineError>)
        ensures
            final(self).recorded_inside_reduce == single_output_next(old(self).recorded_inside_reduce, observation).0,
            match single_output_next(old(self).recorded_inside_reduce, observation).1 {
                Some(step) => r == Ok::<SingleOutputStep, SpineError>(step),
                None => r matches Err(SpineError::Invariant(m)) && m@ == "recorded tool output history length underflow"@,
            },
    {
        proof {
            reveal_strlit("recorded tool output history length underflow");
        }
        match observation {
            SingleOutputObservation::NoPlan => Ok(SingleOutputStep::Skip),
            SingleOutputObservation::Plan { raw_len, history_len, history_ends_with_output } => {
                if history_ends_with_output && raw_len > 0 {
                    if history_len == 0 {
                        return Err(SpineError::Invariant(owned("recorded tool output history length underflow")));
                    }
                    Ok(
                        SingleOutputStep::Anchor {
                            raw_ordinal: raw_len - 1,
                            full_history_index: history_len - 1,
                            already_recorded: true,
                        },
                    )
                } else if self.recorded_inside_reduce {
                    Ok(
                        SingleOutputStep::Anchor {
                            raw_ordinal: raw_len,
                            full_history_index: history_len,
                            already_recorded: false,
                        },
                    )
                } else {
                    self.recorded_inside_reduce = true;
                    Ok(SingleOutputStep::RecordThenObserve)
                }
            },
        }
    }

    /// The anchor of the output at `raw_ordinal`, whose first item stands at
    /// context index `context_start`.
    pub fn anchor(&self, raw_ordinal: u64, context_start: usize, already_recorded: bool) -> (r:
        SpineCompletedToolCallOutputAnchor)
        ensures
            r.raw_ordinals@ == seq![Some(raw_ordinal)],
            r.context_start == context_start,
            r.already_recorded == already_recorded,
            r.recorded_inside_reduce == self.recorded_inside_reduce,
    {
        let mut raw_ordinals: Vec<Option<u64>> = Vec::new();
        raw_ordinals.push(Some(raw_ordinal));
        SpineCompletedToolCallOutputAnchor {
            raw_ordinals,
            context_start,
            already_recorded,
            recorded_inside_reduce: self.recorded_inside_reduce,
        }
    }
}

/// Anchoring a single output records it at most once: after a round that
/// records it, no round records it again.
pub proof fn lemma_single_output_recorded_at_most_once(
    recorded: bool,
    first: SingleOutputObservation,
    second: SingleOutputObservation,
)
    requires
        single_output_next(recorded, first).1 == Some(SingleOutputStep::RecordThenObserve),
    ensures
        single_output_next(single_output_next(recorded, first).0, second).1 != Some(SingleOutputStep::RecordThenObserve),
        single_output_next(single_output_next(recorded, first).0, second).0,
{
}

/// The error for a failed record of a single output: a close-like raw output
/// when the plan records it before the reduction, else a tool output.
pub fn single_output_record_error(call_id: &str, prerecord_output_before_reduce: bool, err: &str) -> (r: SpineError)
    ensures
        r matches SpineError::Operation(m) && m@ == "failed to record Spine "@ + (if prerecord_output_before_reduce {
            "close-like raw output"@
        } else {
            "tool output"@
        }) + " before commit for call_id="@ + call_id@ + ": "@ + err@,
{
    let mut m = chars_of("failed to record Spine ");
    if prerecord_output_before_reduce {
        push_str(&mut m, "close-like raw output");
    } else {
        push_str(&mut m, "tool output");
    }
    push_str(&mut m, " before commit for call_id=");
    push_str(&mut m, call_id);
    push_str(&mut m, ": ");
    push_str(&mut m, err);
    SpineError::Operation(string_of(&m))
}

// ----------------------------------------------------------------------------
// A grouped output
// ----------------------------------------------------------------------------
/// The error for a failed record of grouped outputs.
pub fn grouped_output_record_error(err: &str) -> (r: SpineError)
    ensures
        r matches SpineError::Operation(m) && m@ == "failed to record grouped Spine tool outputs before commit: "@ + err@,
{
    let mut m = chars_of("failed to record grouped Spine tool outputs before commit: ");
    push_str(&mut m, err);
    SpineError::Operation(string_of(&m))
}

impl SpineCompletedToolCallOutputAnchor {
    /// The anchor of grouped outputs recorded inside the commit's reduction,
    /// after their raw ordinals were checked against the raw trace.
    pub fn grouped(raw_ordinals: Vec<Option<u64>>, raw_items_len: usize, context_start: usize) -> (r: Result<
        Self,
        SpineError,
    >)
        ensures
            r is Ok <==> validate_grouped_ok(raw_ordinals@, raw_items_len),
            r matches Ok(a) ==> a.raw_ordinals@ == raw_ordinals@ && a.context_start == context_start && a.already_recorded
                && a.recorded_inside_reduce,
    {
        validate_grouped_output_raw_ordinals(&raw_ordinals, raw_items_len)?;
        Ok(SpineCompletedToolCallOutputAnchor { raw_ordinals, context_start, already_recorded: true, recorded_inside_reduce: true })
    }
}

/// The raw ordinals of a grouped output pass the check.
pub open spec fn validate_grouped_ok(ordinals: Seq<Option<u64>>, raw_items_len: usize) -> bool {
    match first_present(ordinals) {
        Some(o) => o <= raw_items_len,
        None => false,
    }
}

} // verus!
