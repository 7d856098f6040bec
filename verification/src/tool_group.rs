//! How a turn handles the tool calls that the Spine defers: which calls run
//! natively, when a deferred group drains, how a group is committed, and what
//! an in-flight tool output is recorded as.
use crate::text::{chars_of, copy_string, push_str, string_of};
use vstd::prelude::*;

verus! {

/// How the host will run a tool call.
#[derive(Clone, Copy, Debug, PartialEq, Eq, Structural)]
pub enum ToolPayloadKind {
    Function,
    Custom,
    ToolSearch,
}

/// The name of a tool, within its namespace.
#[derive(Debug, PartialEq, Eq)]
pub struct ToolName {
    pub namespace: Option<String>,
    pub name: String,
}

/// A tool call as the Spine sees it. `parser_control` records whether the
/// tool (by namespace and name) is a Spine parser control (`open`, `close`,
/// `next`), as the host's tool registry classifies it.
#[derive(Debug, PartialEq, Eq)]
pub struct ToolCall {
    pub tool_name: ToolName,
    pub call_id: String,
    pub payload: ToolPayloadKind,
    pub parser_control: bool,
}

/// A copy of a tool call.
pub fn copy_tool_call(call: &ToolCall) -> (r: ToolCall)
    ensures
        r.tool_name.name@ == call.tool_name.name@,
        r.tool_name.namespace is Some <==> call.tool_name.namespace is Some,
        call.tool_name.namespace is Some ==> r.tool_name.namespace->0@ == call.tool_name.namespace->0@,
        r.call_id@ == call.call_id@,
        r.payload == call.payload,
        r.parser_control == call.parser_control,
{
    ToolCall {
        tool_name: ToolName {
            namespace: match &call.tool_name.namespace {
                Some(n) => Some(copy_string(n)),
                None => None,
            },
            name: copy_string(&call.tool_name.name),
        },
        call_id: copy_string(&call.call_id),
        payload: call.payload,
        parser_control: call.parser_control,
    }
}

/// Whether a call is a Spine parser control.
pub fn is_spine_parser_control_tool_call(call: &ToolCall) -> (r: bool)
    ensures
        r == call.parser_control,
{
    call.parser_control
}

// ----------------------------------------------------------------------------
// Feature-gated decisions
// ----------------------------------------------------------------------------
/// What an in-flight tool output is recorded as.
#[derive(Clone, Copy, Debug, PartialEq, Eq, Structural)]
pub enum InFlightSpineToolOutputPlan {
    RecordSpineToolOutput,
    RecordControlOverlayOnly,
    RecordOrdinaryToolOutput { apply_trim_projection: bool },
}

/// What an in-flight tool output is recorded as: a Spine tool output while the
/// just-in-time Spine runs; otherwise only in the control overlay when it
/// answers an overlay request, else an ordinary output (trimmed when trim is on).
pub fn in_flight_spine_tool_output_plan_for_enabled(
    spine_jit_enabled: bool,
    spine_trim_enabled: bool,
    matches_control_overlay: bool,
) -> (r: InFlightSpineToolOutputPlan)
    ensures
        r == (if spine_jit_enabled {
            InFlightSpineToolOutputPlan::RecordSpineToolOutput
        } else if matches_control_overlay {
            InFlightSpineToolOutputPlan::RecordControlOverlayOnly
        } else {
            InFlightSpineToolOutputPlan::RecordOrdinaryToolOutput { apply_trim_projection: spine_trim_enabled }
        }),
{
    if spine_jit_enabled {
        return InFlightSpineToolOutputPlan::RecordSpineToolOutput;
    }
    if matches_control_overlay {
        return InFlightSpineToolOutputPlan::RecordControlOverlayOnly;
    }
    InFlightSpineToolOutputPlan::RecordOrdinaryToolOutput { apply_trim_projection: spine_trim_enabled }
}

/// Whether the pending deferred calls drain now: only with the Spine on, no
/// new deferred call this step, and some pending.
pub fn should_drain_pending_deferred_spine_tool_calls_for_enabled<F>(
    enabled: bool,
    deferred_tool_calls: &Vec<DeferredSpineToolCall<F>>,
    has_new_deferred_tool_call: bool,
) -> (r: bool)
    ensures
        r == (enabled && !has_new_deferred_tool_call && deferred_tool_calls@.len() > 0),
{
    enabled && !has_new_deferred_tool_call && deferred_tool_calls.len() > 0
}

/// The Spine features a session runs with.
#[derive(Clone, Copy, Debug, PartialEq, Eq, Structural)]
pub struct SpineFeatures {
    pub spine_jit: bool,
    pub spine_trim: bool,
}

impl SpineFeatures {
    /// What an in-flight tool output is recorded as under these features.
    pub fn in_flight_spine_tool_output_plan(&self, matches_control_overlay: bool) -> (r: InFlightSpineToolOutputPlan)
        ensures
            r == (if self.spine_jit {
                InFlightSpineToolOutputPlan::RecordSpineToolOutput
            } else if matches_control_overlay {
                InFlightSpineToolOutputPlan::RecordControlOverlayOnly
            } else {
                InFlightSpineToolOutputPlan::RecordOrdinaryToolOutput { apply_trim_projection: self.spine_trim }
            }),
    {
        in_flight_spine_tool_output_plan_for_enabled(self.spine_jit, self.spine_trim, matches_control_overlay)
    }

    /// Whether the pending deferred calls drain now under these features.
    pub fn should_drain_pending_deferred_spine_tool_calls<F>(
        &self,
        deferred_tool_calls: &Vec<DeferredSpineToolCall<F>>,
        has_new_deferred_tool_call: bool,
    ) -> (r: bool)
        ensures
            r == (self.spine_jit && !has_new_deferred_tool_call && deferred_tool_calls@.len() > 0),
    {
        should_drain_pending_deferred_spine_tool_calls_for_enabled(
            self.spine_jit,
            deferred_tool_calls,
            has_new_deferred_tool_call,
        )
    }
}

// ----------------------------------------------------------------------------
// Deferred calls and groups
// ----------------------------------------------------------------------------
/// A deferred tool call and, if it already runs, its in-flight handle `F`.
pub struct DeferredSpineToolCall<F> {
    pub call: ToolCall,
    pub in_flight: Option<F>,
}

impl<F> DeferredSpineToolCall<F> {
    pub fn new(call: ToolCall, in_flight: Option<F>) -> (r: Self)
        ensures
            r.call == call,
            r.in_flight == in_flight,
    {
        DeferredSpineToolCall { call, in_flight }
    }

    /// The deferred call.
    pub fn tool_call(&self) -> (r: &ToolCall)
        ensures
            *r == self.call,
    {
        &self.call
    }

    /// The in-flight handle, started by `spawn` on a copy of the call when it
    /// has not started yet.
    pub fn take_or_spawn_in_flight(&mut self, spawn: impl FnOnce(ToolCall) -> F) -> (r: F)
        requires
            forall|c: ToolCall| #[trigger] spawn.requires((c,)),
        ensures
            final(self).call == old(self).call,
            final(self).in_flight is None,
            old(self).in_flight matches Some(f) ==> r == f,
            old(self).in_flight is None ==> exists|c: ToolCall| c.call_id@ == old(self).call.call_id@
                && c.parser_control == old(self).call.parser_control && #[trigger] spawn.ensures((c,), r),
    {
        match self.in_flight.take() {
            Some(f) => f,
            None => {
                let c = copy_tool_call(&self.call);
                let ghost cc = c;
                let r = spawn(c);
                assert(spawn.ensures((cc,), r));
                r
            },
        }
    }
}

/// A group of deferred calls that drains together.
pub enum DeferredToolGroup<F> {
    Normal(Vec<DeferredSpineToolCall<F>>),
    ConflictingControls { group: Vec<DeferredSpineToolCall<F>>, message: String },
}

/// The number of parser-control calls among deferred calls.
pub open spec fn control_count<F>(calls: Seq<DeferredSpineToolCall<F>>) -> nat
    decreases calls.len(),
{
    if calls.len() == 0 {
        0
    } else {
        control_count(calls.drop_last()) + if calls.last().call.parser_control {
            1nat
        } else {
            0nat
        }
    }
}

/// `name (call_id)` for each parser-control call, in order, joined by `, `.
pub open spec fn control_names(calls: Seq<ToolCall>) -> Seq<char>
    decreases calls.len(),
{
    if calls.len() == 0 {
        Seq::empty()
    } else {
        let prev = control_names(calls.drop_last());
        let c = calls.last();
        if !c.parser_control {
            prev
        } else {
            let entry = c.tool_name.name@ + " ("@ + c.call_id@ + ")"@;
            if prev.len() == 0 {
                entry
            } else {
                prev + ", "@ + entry
            }
        }
    }
}

/// The parser-control calls that conflict, as a rejection lists them:
/// `name (call_id)` for each, in order, joined by `, `.
pub fn conflicting_spine_control_rejection_reason_for_calls(calls: &Vec<ToolCall>) -> (r: String)
    ensures
        r@ == control_names(calls@),
{
    let mut v: Vec<char> = Vec::new();
    let mut i: usize = 0;
    while i < calls.len()
        invariant
            i <= calls.len(),
            v@ == control_names(calls@.take(i as int)),
        decreases calls.len() - i,
    {
        proof {
            assert(calls@.take(i + 1).drop_last() =~= calls@.take(i as int));
        }
        let c = &calls[i];
        if c.parser_control {
            if v.len() > 0 {
                push_str(&mut v, ", ");
            }
            push_str(&mut v, c.tool_name.name.as_str());
            push_str(&mut v, " (");
            push_str(&mut v, c.call_id.as_str());
            push_str(&mut v, ")");
        }
        proof {
            let e = c.tool_name.name@ + " ("@ + c.call_id@ + ")"@;
            let prev = control_names(calls@.take(i as int));
            if c.parser_control {
                if prev.len() == 0 {
                    assert(v@ =~= e);
                } else {
                    assert(v@ =~= prev + ", "@ + e);
                }
            }
        }
        i = i + 1;
    }
    assert(calls@.take(i as int) =~= calls@);
    string_of(&v)
}

/// The calls of deferred calls, in order.
pub open spec fn group_calls<F>(group: Seq<DeferredSpineToolCall<F>>) -> Seq<ToolCall> {
    group.map_values(|d: DeferredSpineToolCall<F>| d.call)
}

/// Takes all pending deferred calls as one group: a normal group with at most
/// one parser control, else a group of conflicting controls with the list of
/// them; `None` when nothing is pending.
pub fn take_deferred_spine_tool_group<F>(deferred_tool_calls: &mut Vec<DeferredSpineToolCall<F>>) -> (r: Option<
    DeferredToolGroup<F>,
>)
    ensures
        old(deferred_tool_calls)@.len() == 0 ==> r is None && final(deferred_tool_calls)@ == old(deferred_tool_calls)@,
        old(deferred_tool_calls)@.len() > 0 ==> final(deferred_tool_calls)@.len() == 0,
        old(deferred_tool_calls)@.len() > 0 && control_count(old(deferred_tool_calls)@) <= 1 ==> (r matches Some(
            DeferredToolGroup::Normal(g),
        ) && g@ == old(deferred_tool_calls)@),
        old(deferred_tool_calls)@.len() > 0 && control_count(old(deferred_tool_calls)@) > 1 ==> (r matches Some(
            DeferredToolGroup::ConflictingControls { group, message },
        ) && group@ == old(deferred_tool_calls)@ && message@ == control_names(group_calls(group@))),
        (exists|i: int, j: int|
            0 <= i < j < old(deferred_tool_calls)@.len() && (#[trigger] old(deferred_tool_calls)@[i]).call.parser_control
                && (#[trigger] old(deferred_tool_calls)@[j]).call.parser_control) ==> (r matches Some(
            DeferredToolGroup::ConflictingControls { .. },
        )),
{
    proof {
        lemma_control_count_counts_calls(deferred_tool_calls@);
    }
    if deferred_tool_calls.len() == 0 {
        return None;
    }
    let ghost all = deferred_tool_calls@;
    let mut count: usize = 0;
    let mut controls: Vec<ToolCall> = Vec::new();
    let mut i: usize = 0;
    while i < deferred_tool_calls.len()
        invariant
            deferred_tool_calls@ == all,
            i <= all.len(),
            count == control_count(all.take(i as int)),
            count <= i,
            control_names(controls@) == control_names(group_calls(all.take(i as int))),
        decreases all.len() - i,
    {
        proof {
            assert(all.take(i + 1).drop_last() =~= all.take(i as int));
            assert(group_calls(all.take(i + 1)).drop_last() =~= group_calls(all.take(i as int)));
        }
        if deferred_tool_calls[i].call.parser_control {
            count = count + 1;
            let ghost before = controls@;
            controls.push(copy_tool_call(&deferred_tool_calls[i].call));
            proof {
                assert(controls@.drop_last() =~= before);
                lemma_control_names_copy(before, controls@.last(), group_calls(all.take(i as int)), all[i as int].call);
            }
        } else {
            proof {
                lemma_control_names_skip(group_calls(all.take(i as int)), all[i as int].call);
            }
        }
        i = i + 1;
    }
    proof {
        assert(all.take(i as int) =~= all);
    }
    let mut group: Vec<DeferredSpineToolCall<F>> = Vec::new();
    std::mem::swap(&mut group, deferred_tool_calls);
    if count <= 1 {
        Some(DeferredToolGroup::Normal(group))
    } else {
        let message = conflicting_spine_control_rejection_reason_for_calls(&controls);
        Some(DeferredToolGroup::ConflictingControls { group, message })
    }
}

proof fn lemma_control_names_skip(prev: Seq<ToolCall>, c: ToolCall)
    requires
        !c.parser_control,
    ensures
        control_names(prev.push(c)) == control_names(prev),
{
    assert(prev.push(c).drop_last() =~= prev);
}

proof fn lemma_control_names_copy(a: Seq<ToolCall>, x: ToolCall, b: Seq<ToolCall>, y: ToolCall)
    requires
        control_names(a) == control_names(b),
        x.parser_control && y.parser_control,
        x.tool_name.name@ == y.tool_name.name@,
        x.call_id@ == y.call_id@,
    ensures
        control_names(a.push(x)) == control_names(b.push(y)),
{
    assert(a.push(x).drop_last() =~= a);
    assert(b.push(y).drop_last() =~= b);
}

/// How a deferred request is started.
#[derive(Clone, Copy, Debug, PartialEq, Eq, Structural)]
pub struct DeferredSpineToolRequestPlan {
    pub records_control_overlay: bool,
    pub starts_native_tool: bool,
}

impl DeferredSpineToolRequestPlan {
    /// Whether the host runs the tool itself.
    pub fn starts_native_tool(&self) -> (r: bool)
        ensures
            r == self.starts_native_tool,
    {
        self.starts_native_tool
    }

    /// Whether the request is recorded in the control overlay.
    pub fn records_control_overlay_for_test(&self) -> (r: bool)
        ensures
            r == self.records_control_overlay,
    {
        self.records_control_overlay
    }
}

/// A parser-control request is recorded in the overlay; any other runs natively.
pub fn deferred_spine_tool_request_plan(call: &ToolCall) -> (r: DeferredSpineToolRequestPlan)
    ensures
        r.records_control_overlay == call.parser_control,
        r.starts_native_tool == !call.parser_control,
{
    let is_control = is_spine_parser_control_tool_call(call);
    DeferredSpineToolRequestPlan { records_control_overlay: is_control, starts_native_tool: !is_control }
}

/// The plan of a request (the same as `deferred_spine_tool_request_plan`).
pub fn deferred_spine_tool_request_plan_for_test(call: &ToolCall) -> (r: DeferredSpineToolRequestPlan)
    ensures
        r.records_control_overlay == call.parser_control,
        r.starts_native_tool == !call.parser_control,
{
    deferred_spine_tool_request_plan(call)
}

/// Why a grouped Spine tool call cannot be committed.
#[derive(Debug, PartialEq, Eq)]
pub enum SpineToolcallTurnError {
    Terminal(String),
}

/// How a drained group is recorded: under the call id of its parser control
/// (or of its first call), covering all its calls.
#[derive(Debug, PartialEq, Eq)]
pub struct DeferredToolGroupCommit {
    pub commit_call_id: String,
    pub tool_call_ids: Vec<String>,
}

impl DeferredToolGroupCommit {
    /// The commit call id and the tool call ids, as the host records them.
    pub fn host_recording_input(&self) -> (r: (&String, &Vec<String>))
        ensures
            r.0 == self.commit_call_id,
            r.1 == self.tool_call_ids,
    {
        (&self.commit_call_id, &self.tool_call_ids)
    }
}

/// The position of the first parser control of a group, if any.
pub open spec fn first_control<F>(group: Seq<DeferredSpineToolCall<F>>) -> Option<int>
    decreases group.len(),
{
    if group.len() == 0 {
        None
    } else {
        match first_control(group.drop_last()) {
            Some(i) => Some(i),
            None => if group.last().call.parser_control {
                Some(group.len() - 1)
            } else {
                None
            },
        }
    }
}

/// The commit of a drained group; an error for an empty group.
pub fn deferred_spine_tool_group_commit<F>(group: &Vec<DeferredSpineToolCall<F>>) -> (r: Result<
    DeferredToolGroupCommit,
    SpineToolcallTurnError,
>)
    ensures
        group@.len() == 0 ==> (r matches Err(SpineToolcallTurnError::Terminal(m)) && m@ == "grouped Spine toolcall missing tool call"@),
        group@.len() > 0 ==> (r matches Ok(c) && c.commit_call_id@ == (match first_control(group@) {
            Some(i) => group@[i].call.call_id@,
            None => group@[0].call.call_id@,
        }) && c.tool_call_ids@.len() == group@.len() && forall|k: int|
            0 <= k < group@.len() ==> #[trigger] c.tool_call_ids@[k]@ == group@[k].call.call_id@),
{
    if group.len() == 0 {
        return Err(SpineToolcallTurnError::Terminal(crate::text::owned("grouped Spine toolcall missing tool call")));
    }
    let mut commit_index: Option<usize> = None;
    let mut tool_call_ids: Vec<String> = Vec::new();
    let mut i: usize = 0;
    while i < group.len()
        invariant
            i <= group.len(),
            tool_call_ids@.len() == i,
            forall|k: int| 0 <= k < i ==> #[trigger] tool_call_ids@[k]@ == group@[k].call.call_id@,
            match commit_index {
                Some(j) => first_control(group@.take(i as int)) == Some(j as int) && j < i,
                None => first_control(group@.take(i as int)) is None,
            },
        decreases group.len() - i,
    {
        proof {
            assert(group@.take(i + 1).drop_last() =~= group@.take(i as int));
        }
        if commit_index.is_none() && group[i].call.parser_control {
            commit_index = Some(i);
        }
        tool_call_ids.push(copy_string(&group[i].call.call_id));
        i = i + 1;
    }
    proof {
        assert(group@.take(i as int) =~= group@);
    }
    let commit_call_id = match commit_index {
        Some(j) => copy_string(&group[j].call.call_id),
        None => copy_string(&group[0].call.call_id),
    };
    Ok(DeferredToolGroupCommit { commit_call_id, tool_call_ids })
}


/// Counting parser controls: an empty group has none, and adding a call adds
/// one exactly when that call is a parser control.
pub proof fn lemma_control_count_push<F>(calls: Seq<DeferredSpineToolCall<F>>, c: DeferredSpineToolCall<F>)
    ensures
        control_count(Seq::<DeferredSpineToolCall<F>>::empty()) == 0,
        control_count(calls.push(c)) == control_count(calls) + if c.call.parser_control {
            1nat
        } else {
            0nat
        },
{
    assert(calls.push(c).drop_last() =~= calls);
}

/// A group holds at least one parser control exactly when some call in it is
/// one, and at least two exactly when two different calls in it are: so two
/// Spine transitions in one group always make it a group of conflicting
/// controls.
pub proof fn lemma_control_count_counts_calls<F>(calls: Seq<DeferredSpineToolCall<F>>)
    ensures
        control_count(calls) >= 1 <==> exists|i: int| 0 <= i < calls.len() && (#[trigger] calls[i]).call.parser_control,
        control_count(calls) >= 2 <==> exists|i: int, j: int|
            0 <= i < j < calls.len() && (#[trigger] calls[i]).call.parser_control && (#[trigger] calls[j]).call.parser_control,
    decreases calls.len(),
{
    if calls.len() > 0 {
        let p = calls.drop_last();
        let n = calls.len() - 1;
        lemma_control_count_counts_calls(p);
        assert forall|i: int| 0 <= i < p.len() implies p[i] == calls[i] by {}
        if exists|i: int| 0 <= i < p.len() && (#[trigger] p[i]).call.parser_control {
            let i = choose|i: int| 0 <= i < p.len() && (#[trigger] p[i]).call.parser_control;
            assert(calls[i].call.parser_control);
        }
        if exists|i: int| 0 <= i < calls.len() && (#[trigger] calls[i]).call.parser_control {
            let i = choose|i: int| 0 <= i < calls.len() && (#[trigger] calls[i]).call.parser_control;
            if i < n {
                assert(p[i].call.parser_control);
            }
        }
        if exists|i: int, j: int|
            0 <= i < j < p.len() && (#[trigger] p[i]).call.parser_control && (#[trigger] p[j]).call.parser_control {
            let (i, j) = choose|i: int, j: int|
                0 <= i < j < p.len() && (#[trigger] p[i]).call.parser_control && (#[trigger] p[j]).call.parser_control;
            assert(calls[i].call.parser_control && calls[j].call.parser_control);
        }
        if exists|i: int, j: int|
            0 <= i < j < calls.len() && (#[trigger] calls[i]).call.parser_control && (#[trigger] calls[j]).call.parser_control {
            let (i, j) = choose|i: int, j: int|
                0 <= i < j < calls.len() && (#[trigger] calls[i]).call.parser_control && (#[trigger] calls[j]).call.parser_control;
            if j < n {
                assert(p[i].call.parser_control && p[j].call.parser_control);
            } else {
                assert(p[i].call.parser_control);
            }
        }
        if calls.last().call.parser_control && control_count(p) >= 1 {
            let i = choose|i: int| 0 <= i < p.len() && (#[trigger] p[i]).call.parser_control;
            assert(calls[i].call.parser_control && calls[n].call.parser_control);
        }
    }
}

} // verus!
