//! What the tree snapshot shows of open nodes: how much context each has added
//! since it opened, or why that cannot be told.
use crate::ids::{node_id_text, NodeId};
use crate::model::ContextBaselineSource;
use vstd::prelude::*;

verus! {

/// Why a node's context size cannot be told.
#[derive(Clone, Copy, Debug, PartialEq, Eq, Structural)]
pub enum SpineNodeContextProblem {
    CoordinateMismatch,
    MissingCurrentUsage,
    MissingOpenContextBaseline,
}

/// An open node with the provider input tokens at its open.
#[derive(Clone, Debug, PartialEq, Eq)]
pub struct OpenNodeContextProjection {
    pub node_id: NodeId,
    pub provider_input_tokens: Option<i64>,
    pub baseline_source: Option<ContextBaselineSource>,
    pub problem: Option<SpineNodeContextProblem>,
}

/// The context a node added since it opened: the current provider input
/// tokens less those at its open; a known problem, a missing current usage, a
/// missing baseline, or a negative difference make it unknown.
pub open spec fn context_state_spec(
    problem: Option<SpineNodeContextProblem>,
    provider_input_tokens: Option<i64>,
    current: Option<i64>,
) -> (Option<i64>, Option<SpineNodeContextProblem>) {
    match problem {
        Some(p) => (None, Some(p)),
        None => match (current, provider_input_tokens) {
            (Some(c), Some(o)) => if c - o >= 0 {
                (Some((c - o) as i64), None)
            } else {
                (None, Some(SpineNodeContextProblem::CoordinateMismatch))
            },
            (None, _) => (None, Some(SpineNodeContextProblem::MissingCurrentUsage)),
            (Some(_), None) => (None, Some(SpineNodeContextProblem::MissingOpenContextBaseline)),
        },
    }
}

/// The difference fits in `i64` (the subtraction does not overflow).
pub open spec fn context_delta_fits(provider_input_tokens: Option<i64>, current: Option<i64>) -> bool {
    match (current, provider_input_tokens) {
        (Some(c), Some(o)) => i64::MIN <= c - o <= i64::MAX,
        _ => true,
    }
}

impl OpenNodeContextProjection {
    /// The context this node added since it opened, or why it is unknown.
    pub fn context_state(&self, current_provider_input_tokens: Option<i64>) -> (r: (
        Option<i64>,
        Option<SpineNodeContextProblem>,
    ))
        requires
            self.problem is None ==> context_delta_fits(self.provider_input_tokens, current_provider_input_tokens),
        ensures
            r == context_state_spec(self.problem, self.provider_input_tokens, current_provider_input_tokens),
    {
        if let Some(problem) = self.problem {
            return (None, Some(problem));
        }
        match (current_provider_input_tokens, self.provider_input_tokens) {
            (Some(current), Some(open_context_tokens)) => {
                let tokens = current - open_context_tokens;
                if tokens >= 0 {
                    (Some(tokens), None)
                } else {
                    (None, Some(SpineNodeContextProblem::CoordinateMismatch))
                }
            },
            (None, _) => (None, Some(SpineNodeContextProblem::MissingCurrentUsage)),
            (Some(_), None) => (None, Some(SpineNodeContextProblem::MissingOpenContextBaseline)),
        }
    }
}


/// A node of the tree snapshot the host shows.
#[derive(Clone, Debug, PartialEq, Eq)]
pub struct SpineTreeSnapshotNode {
    pub node_id: String,
    pub parent_id: Option<String>,
    pub summary: Option<String>,
}

/// The tree snapshot the host shows: its nodes and the cursor.
#[derive(Clone, Debug, PartialEq, Eq)]
pub struct SpineTreeSnapshot {
    pub active_node_id: String,
    pub nodes: Vec<SpineTreeSnapshotNode>,
}

/// The first snapshot node with id `id`.
pub open spec fn snapshot_node(nodes: Seq<SpineTreeSnapshotNode>, id: Seq<char>) -> Option<SpineTreeSnapshotNode>
    decreases nodes.len(),
{
    if nodes.len() == 0 {
        None
    } else if nodes[0].node_id@ == id {
        Some(nodes[0])
    } else {
        snapshot_node(nodes.drop_first(), id)
    }
}

/// The first snapshot node with id `id`.
pub fn find_snapshot_node<'a>(nodes: &'a Vec<SpineTreeSnapshotNode>, id: &str) -> (r: Option<&'a SpineTreeSnapshotNode>)
    ensures
        match snapshot_node(nodes@, id@) {
            Some(n) => r matches Some(m) && *m == n,
            None => r is None,
        },
{
    let mut i: usize = 0;
    proof {
        assert(nodes@.skip(0) =~= nodes@);
    }
    while i < nodes.len()
        invariant
            i <= nodes.len(),
            snapshot_node(nodes@, id@) == snapshot_node(nodes@.skip(i as int), id@),
        decreases nodes.len() - i,
    {
        proof {
            assert(nodes@.skip(i as int).drop_first() =~= nodes@.skip(i + 1));
        }
        if crate::text::str_eq(nodes[i].node_id.as_str(), id) {
            return Some(&nodes[i]);
        }
        i = i + 1;
    }
    None
}

/// The first open node whose id reads `id`.
pub open spec fn open_node_for(nodes: Seq<OpenNodeContextProjection>, id: Seq<char>) -> Option<OpenNodeContextProjection>
    decreases nodes.len(),
{
    if nodes.len() == 0 {
        None
    } else if node_id_text(nodes[0].node_id@) == id {
        Some(nodes[0])
    } else {
        open_node_for(nodes.drop_first(), id)
    }
}

/// The first open node whose id reads `id`.
pub fn find_open_node<'a>(nodes: &'a Vec<OpenNodeContextProjection>, id: &str) -> (r: Option<&'a OpenNodeContextProjection>)
    ensures
        match open_node_for(nodes@, id@) {
            Some(n) => r matches Some(m) && *m == n,
            None => r is None,
        },
{
    let mut i: usize = 0;
    proof {
        assert(nodes@.skip(0) =~= nodes@);
    }
    while i < nodes.len()
        invariant
            i <= nodes.len(),
            open_node_for(nodes@, id@) == open_node_for(nodes@.skip(i as int), id@),
        decreases nodes.len() - i,
    {
        proof {
            assert(nodes@.skip(i as int).drop_first() =~= nodes@.skip(i + 1));
        }
        let text = nodes[i].node_id.to_string();
        if crate::text::str_eq(text.as_str(), id) {
            return Some(&nodes[i]);
        }
        i = i + 1;
    }
    None
}

} // verus!
