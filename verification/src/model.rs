//! The Spine data model shared by the parsers, the planners and the renderers.
use crate::ids::NodeId;
use vstd::prelude::*;

verus! {

/// Errors of the Spine runtime.
#[derive(Clone, Debug, PartialEq, Eq)]
pub enum SpineError {
    InvalidEvent(String),
    Invariant(String),
    InvalidStore(String),
    Operation(String),
}

/// A Spine tree operation.
#[derive(Clone, Copy, Debug, PartialEq, Eq, Hash, Structural)]
pub enum SpineOperation {
    Open,
    Next,
    Close,
    Archive,
}

/// The lower-case label of an operation (`open`, `next`, `close`, `archive`).
pub open spec fn op_label_spec(op: SpineOperation) -> Seq<char> {
    match op {
        SpineOperation::Open => seq!['o', 'p', 'e', 'n'],
        SpineOperation::Next => seq!['n', 'e', 'x', 't'],
        SpineOperation::Close => seq!['c', 'l', 'o', 's', 'e'],
        SpineOperation::Archive => seq!['a', 'r', 'c', 'h', 'i', 'v', 'e'],
    }
}

/// The label of an operation as it appears in rendered memory.
pub fn op_label(op: SpineOperation) -> (r: Vec<char>)
    ensures
        r@ == op_label_spec(op),
{
    let mut r: Vec<char> = Vec::new();
    match op {
        SpineOperation::Open => {
            r.push('o');
            r.push('p');
            r.push('e');
            r.push('n');
        },
        SpineOperation::Next => {
            r.push('n');
            r.push('e');
            r.push('x');
            r.push('t');
        },
        SpineOperation::Close => {
            r.push('c');
            r.push('l');
            r.push('o');
            r.push('s');
            r.push('e');
        },
        SpineOperation::Archive => {
            r.push('a');
            r.push('r');
            r.push('c');
            r.push('h');
            r.push('i');
            r.push('v');
            r.push('e');
        },
    }
    assert(r@ =~= op_label_spec(op));
    r
}

/// The name of an operation as `Debug` prints it (`Open`, `Next`, `Close`, `Archive`).
pub open spec fn op_name_spec(op: SpineOperation) -> Seq<char> {
    match op {
        SpineOperation::Open => seq!['O', 'p', 'e', 'n'],
        SpineOperation::Next => seq!['N', 'e', 'x', 't'],
        SpineOperation::Close => seq!['C', 'l', 'o', 's', 'e'],
        SpineOperation::Archive => seq!['A', 'r', 'c', 'h', 'i', 'v', 'e'],
    }
}

/// The name of an operation as `Debug` prints it.
pub fn op_name(op: SpineOperation) -> (r: Vec<char>)
    ensures
        r@ == op_name_spec(op),
{
    let v = match op {
        SpineOperation::Open => vec!['O', 'p', 'e', 'n'],
        SpineOperation::Next => vec!['N', 'e', 'x', 't'],
        SpineOperation::Close => vec!['C', 'l', 'o', 's', 'e'],
        SpineOperation::Archive => vec!['A', 'r', 'c', 'h', 'i', 'v', 'e'],
    };
    assert(v@ =~= op_name_spec(op));
    v
}

/// A compact span installed in the runtime ledger: raw ordinals `[cut, fold_end)`
/// were folded into the memory of `node_id` by `op`.
#[derive(Clone, Debug, PartialEq, Eq)]
pub struct InstalledCompactSpan {
    pub compact_id: String,
    pub node_id: NodeId,
    pub op: SpineOperation,
    pub cut_ordinal: u64,
    pub fold_end_ordinal: u64,
}

/// A reference to a segment of the model-visible history.
#[derive(Clone, Debug, PartialEq, Eq)]
pub enum SegRef {
    ResponseItem { raw_ordinal: u64, context_index: usize },
    Memory { memory_id: String, body_path: String },
}

/// An event of the Spine ledger.
#[derive(Clone, Debug, PartialEq, Eq)]
pub enum SpineLedgerEvent {
    Msg { raw_ordinal: u64, context_index: u64, from_user: bool, user_anchor: Option<u64> },
}

/// A token fed to the Spine parser.
#[derive(Clone, Debug, PartialEq, Eq)]
pub enum SpineToken {
    Msg { seg: SegRef, from_user: bool, user_anchor: Option<u64> },
}

/// Where the context-token baseline of a node comes from.
#[derive(Clone, Copy, Debug, PartialEq, Eq, Structural)]
pub enum ContextBaselineSource {
    RootCompactHandoff,
}

/// What the tree records of an opened node.
#[derive(Debug, PartialEq, Eq)]
pub struct TreeMeta {
    pub id: NodeId,
    pub index: usize,
    pub summary: String,
    pub open_input_tokens: Option<i64>,
    pub open_context_tokens: Option<i64>,
    pub open_context_source: Option<ContextBaselineSource>,
    pub node_dir: String,
}

/// A compiled memory and the sources it was compiled from.
#[derive(Debug, PartialEq, Eq)]
pub struct MemoryRef {
    pub compact_id: String,
    pub node_id: NodeId,
    pub body_path: String,
    pub body_hash: String,
    pub source_raw_range: std::ops::Range<u64>,
    pub source_context_range: std::ops::Range<usize>,
    pub source_token_seq: std::ops::Range<u64>,
    pub open_input_tokens: Option<i64>,
    pub close_input_tokens: Option<i64>,
    pub open_context_tokens: Option<i64>,
    pub close_context_tokens: Option<i64>,
    pub closed_source_suffix_tokens: Option<i64>,
    pub closed_memory_context_tokens: Option<i64>,
    pub open_context_source: Option<ContextBaselineSource>,
    pub memory_output_tokens: Option<i64>,
}

/// A finished root epoch and its memory.
#[derive(Debug, PartialEq, Eq)]
pub struct RootEpoch {
    pub memory: MemoryRef,
}

/// The side of a tool call a segment holds.
#[derive(Clone, Copy, Debug, PartialEq, Eq, Structural)]
pub enum ToolCallSegmentKind {
    Request,
    Response,
}

/// One segment of a tool call.
#[derive(Debug, PartialEq, Eq)]
pub struct ToolCallSegment {
    pub kind: ToolCallSegmentKind,
    pub seg: SegRef,
}

/// A node of a finished Spine tree.
#[derive(Debug, PartialEq, Eq)]
pub enum SpineTreeNode {
    MsgAsLeafNode { msg: SegRef, from_user: bool },
    ToolCallAsLeafNode { segments: Vec<ToolCallSegment> },
    SpineTree {
        meta: TreeMeta,
        memory: MemoryRef,
        memory_path: String,
        trajs_path: String,
        children: Vec<SpineTreeNode>,
    },
}

/// A control symbol of the Spine parser.
#[derive(Debug, PartialEq, Eq)]
pub enum ControlSymbol {
    Init(TreeMeta),
    Open(TreeMeta),
    Close(MemoryRef),
    Compact(MemoryRef, NodeId, u64, u64),
    End,
}

/// A symbol on the Spine parse stack.
#[derive(Debug, PartialEq, Eq)]
pub enum Symbol {
    Control(ControlSymbol),
    SpineTreeNode(SpineTreeNode),
    SpineTreeNodes(Vec<SpineTreeNode>),
    RootEpoches(Vec<RootEpoch>),
}

} // verus!
