//! What a Spine checkpoint records of the parse stack: the tree metadata,
//! the memory references and the trajs files, in stack order (a finished
//! subtree in preorder).
use crate::ids::node_id_text;
use crate::model::{
    ContextBaselineSource, ControlSymbol, MemoryRef, RootEpoch, SegRef, SpineError, SpineTreeNode, Symbol,
    ToolCallSegment,
    TreeMeta,
};
use crate::text::{copy_string, dec, owned, push_all, push_str, push_u64, string_of};
use vstd::prelude::*;

verus! {

/// The tree metadata a checkpoint records for a node.
#[derive(Debug, PartialEq, Eq)]
pub struct CheckpointTreeMeta {
    pub id: String,
    pub index: usize,
    pub summary: String,
    pub open_input_tokens: Option<i64>,
    pub open_context_tokens: Option<i64>,
    pub open_context_source: Option<ContextBaselineSource>,
    pub node_dir: String,
}

/// The memory reference a checkpoint records.
#[derive(Debug, PartialEq, Eq)]
pub struct CheckpointMemoryRef {
    pub compact_id: String,
    pub node_id: String,
    pub body_path: String,
    pub body_hash: String,
    pub source_raw_start: u64,
    pub source_raw_end: u64,
    pub source_context_start: usize,
    pub source_context_end: usize,
    pub source_token_seq_start: u64,
    pub source_token_seq_end: u64,
    pub open_input_tokens: Option<i64>,
    pub close_input_tokens: Option<i64>,
    pub open_context_tokens: Option<i64>,
    pub close_context_tokens: Option<i64>,
    pub closed_source_suffix_tokens: Option<i64>,
    pub closed_memory_context_tokens: Option<i64>,
    pub open_context_source: Option<ContextBaselineSource>,
    pub memory_output_tokens: Option<i64>,
}

/// The trajs file a checkpoint records for a finished node.
#[derive(Debug, PartialEq, Eq)]
pub struct CheckpointTrajsRef {
    pub node_id: String,
    pub trajs_path: String,
}

/// Everything a checkpoint records of the parse stack.
#[derive(Debug, PartialEq, Eq)]
pub struct CheckpointRefs {
    pub tree_meta: Vec<CheckpointTreeMeta>,
    pub memory_refs: Vec<CheckpointMemoryRef>,
    pub trajs_refs: Vec<CheckpointTrajsRef>,
}

// ----------------------------------------------------------------------------
// Specification
// ----------------------------------------------------------------------------
/// `c` records tree metadata `m`.
pub open spec fn records_meta(c: CheckpointTreeMeta, m: TreeMeta) -> bool {
    &&& c.id@ == node_id_text(m.id@)
    &&& c.index == m.index
    &&& c.summary@ == m.summary@
    &&& c.open_input_tokens == m.open_input_tokens
    &&& c.open_context_tokens == m.open_context_tokens
    &&& c.open_context_source == m.open_context_source
    &&& c.node_dir@ == m.node_dir@
}

/// `c` records memory `m`.
pub open spec fn records_memory(c: CheckpointMemoryRef, m: MemoryRef) -> bool {
    &&& c.compact_id@ == m.compact_id@
    &&& c.node_id@ == node_id_text(m.node_id@)
    &&& c.body_path@ == m.body_path@
    &&& c.body_hash@ == m.body_hash@
    &&& c.source_raw_start == m.source_raw_range.start
    &&& c.source_raw_end == m.source_raw_range.end
    &&& c.source_context_start == m.source_context_range.start
    &&& c.source_context_end == m.source_context_range.end
    &&& c.source_token_seq_start == m.source_token_seq.start
    &&& c.source_token_seq_end == m.source_token_seq.end
    &&& c.open_input_tokens == m.open_input_tokens
    &&& c.close_input_tokens == m.close_input_tokens
    &&& c.open_context_tokens == m.open_context_tokens
    &&& c.close_context_tokens == m.close_context_tokens
    &&& c.closed_source_suffix_tokens == m.closed_source_suffix_tokens
    &&& c.closed_memory_context_tokens == m.closed_memory_context_tokens
    &&& c.open_context_source == m.open_context_source
    &&& c.memory_output_tokens == m.memory_output_tokens
}

/// `c` records the trajs file of finished node `n`.
pub open spec fn records_trajs(c: CheckpointTrajsRef, n: SpineTreeNode) -> bool {
    n is SpineTree && c.node_id@ == node_id_text((n->meta).id@) && c.trajs_path@ == (n->trajs_path)@
}

/// The finished subtrees under `node`, itself first, in preorder.
pub open spec fn finished_trees(node: SpineTreeNode) -> Seq<SpineTreeNode>
    decreases node,
{
    match node {
        SpineTreeNode::SpineTree { children, .. } => seq![node] + finished_trees_of(children@),
        _ => Seq::empty(),
    }
}

/// The finished subtrees of a list of nodes, in preorder.
pub open spec fn finished_trees_of(nodes: Seq<SpineTreeNode>) -> Seq<SpineTreeNode>
    decreases nodes,
{
    if nodes.len() == 0 {
        Seq::empty()
    } else {
        finished_trees_of(nodes.drop_last()) + finished_trees(nodes.last())
    }
}

/// The tree metadata a symbol contributes.
pub open spec fn symbol_metas(s: Symbol) -> Seq<TreeMeta> {
    match s {
        Symbol::Control(ControlSymbol::Init(m)) => seq![m],
        Symbol::Control(ControlSymbol::Open(m)) => seq![m],
        Symbol::SpineTreeNode(n) => finished_trees(n).map_values(|t: SpineTreeNode| t->meta),
        Symbol::SpineTreeNodes(ns) => finished_trees_of(ns@).map_values(|t: SpineTreeNode| t->meta),
        _ => Seq::empty(),
    }
}

/// The memories a symbol contributes.
pub open spec fn symbol_memories(s: Symbol) -> Seq<MemoryRef> {
    match s {
        Symbol::Control(ControlSymbol::Close(m)) => seq![m],
        Symbol::Control(ControlSymbol::Compact(m, _, _, _)) => seq![m],
        Symbol::SpineTreeNode(n) => finished_trees(n).map_values(|t: SpineTreeNode| t->memory),
        Symbol::SpineTreeNodes(ns) => finished_trees_of(ns@).map_values(|t: SpineTreeNode| t->memory),
        Symbol::RootEpoches(es) => es@.map_values(|e: RootEpoch| e.memory),
        _ => Seq::empty(),
    }
}

/// The finished nodes whose trajs files a symbol contributes.
pub open spec fn symbol_trees(s: Symbol) -> Seq<SpineTreeNode> {
    match s {
        Symbol::SpineTreeNode(n) => finished_trees(n),
        Symbol::SpineTreeNodes(ns) => finished_trees_of(ns@),
        _ => Seq::empty(),
    }
}

/// The tree metadata of a stack of symbols, in order.
pub open spec fn stack_metas(symbols: Seq<Symbol>) -> Seq<TreeMeta>
    decreases symbols.len(),
{
    if symbols.len() == 0 {
        Seq::empty()
    } else {
        stack_metas(symbols.drop_last()) + symbol_metas(symbols.last())
    }
}

/// The memories of a stack of symbols, in order.
pub open spec fn stack_memories(symbols: Seq<Symbol>) -> Seq<MemoryRef>
    decreases symbols.len(),
{
    if symbols.len() == 0 {
        Seq::empty()
    } else {
        stack_memories(symbols.drop_last()) + symbol_memories(symbols.last())
    }
}

/// The finished nodes of a stack of symbols, in order.
pub open spec fn stack_trees(symbols: Seq<Symbol>) -> Seq<SpineTreeNode>
    decreases symbols.len(),
{
    if symbols.len() == 0 {
        Seq::empty()
    } else {
        stack_trees(symbols.drop_last()) + symbol_trees(symbols.last())
    }
}

/// `cs` records the metadata `ms`, one for one.
pub open spec fn metas_recorded(cs: Seq<CheckpointTreeMeta>, ms: Seq<TreeMeta>) -> bool {
    cs.len() == ms.len() && forall|i: int| 0 <= i < cs.len() ==> records_meta(#[trigger] cs[i], ms[i])
}

/// `cs` records the memories `ms`, one for one.
pub open spec fn memories_recorded(cs: Seq<CheckpointMemoryRef>, ms: Seq<MemoryRef>) -> bool {
    cs.len() == ms.len() && forall|i: int| 0 <= i < cs.len() ==> records_memory(#[trigger] cs[i], ms[i])
}

/// `cs` records the trajs files of `ns`, one for one.
pub open spec fn trajs_recorded(cs: Seq<CheckpointTrajsRef>, ns: Seq<SpineTreeNode>) -> bool {
    cs.len() == ns.len() && forall|i: int| 0 <= i < cs.len() ==> records_trajs(#[trigger] cs[i], ns[i])
}

/// `after` is `before` with records of `metas`, `memories` and `trees` appended.
pub open spec fn refs_extended(
    before: CheckpointRefs,
    after: CheckpointRefs,
    metas: Seq<TreeMeta>,
    memories: Seq<MemoryRef>,
    trees: Seq<SpineTreeNode>,
) -> bool {
    let (a, b) = (before.tree_meta@, after.tree_meta@);
    let (c, d) = (before.memory_refs@, after.memory_refs@);
    let (e, f) = (before.trajs_refs@, after.trajs_refs@);
    &&& b.len() == a.len() + metas.len()
    &&& forall|i: int| 0 <= i < a.len() ==> #[trigger] b[i] == a[i]
    &&& forall|i: int| 0 <= i < metas.len() ==> records_meta(#[trigger] b[a.len() + i], metas[i])
    &&& d.len() == c.len() + memories.len()
    &&& forall|i: int| 0 <= i < c.len() ==> #[trigger] d[i] == c[i]
    &&& forall|i: int| 0 <= i < memories.len() ==> records_memory(#[trigger] d[c.len() + i], memories[i])
    &&& f.len() == e.len() + trees.len()
    &&& forall|i: int| 0 <= i < e.len() ==> #[trigger] f[i] == e[i]
    &&& forall|i: int| 0 <= i < trees.len() ==> records_trajs(#[trigger] f[e.len() + i], trees[i])
}

proof fn lemma_extended_trans(
    a: CheckpointRefs,
    b: CheckpointRefs,
    c: CheckpointRefs,
    m1: Seq<TreeMeta>,
    r1: Seq<MemoryRef>,
    t1: Seq<SpineTreeNode>,
    m2: Seq<TreeMeta>,
    r2: Seq<MemoryRef>,
    t2: Seq<SpineTreeNode>,
)
    requires
        refs_extended(a, b, m1, r1, t1),
        refs_extended(b, c, m2, r2, t2),
    ensures
        refs_extended(a, c, m1 + m2, r1 + r2, t1 + t2),
{
    let na = a.tree_meta@.len() as int;
    let nb = b.tree_meta@.len() as int;
    assert forall|i: int| 0 <= i < na implies #[trigger] c.tree_meta@[i] == a.tree_meta@[i] by {
        assert(c.tree_meta@[i] == b.tree_meta@[i]);
    }
    assert forall|i: int| 0 <= i < (m1 + m2).len() implies records_meta(#[trigger] c.tree_meta@[na + i], (m1 + m2)[i]) by {
        if i < m1.len() {
            assert(c.tree_meta@[na + i] == b.tree_meta@[na + i]);
        } else {
            assert(c.tree_meta@[nb + (i - m1.len())] == c.tree_meta@[na + i]);
        }
    }
    let ma = a.memory_refs@.len() as int;
    let mb = b.memory_refs@.len() as int;
    assert forall|i: int| 0 <= i < ma implies #[trigger] c.memory_refs@[i] == a.memory_refs@[i] by {
        assert(c.memory_refs@[i] == b.memory_refs@[i]);
    }
    assert forall|i: int| 0 <= i < (r1 + r2).len() implies records_memory(#[trigger] c.memory_refs@[ma + i], (r1 + r2)[i]) by {
        if i < r1.len() {
            assert(c.memory_refs@[ma + i] == b.memory_refs@[ma + i]);
        } else {
            assert(c.memory_refs@[mb + (i - r1.len())] == c.memory_refs@[ma + i]);
        }
    }
    let ta = a.trajs_refs@.len() as int;
    let tb = b.trajs_refs@.len() as int;
    assert forall|i: int| 0 <= i < ta implies #[trigger] c.trajs_refs@[i] == a.trajs_refs@[i] by {
        assert(c.trajs_refs@[i] == b.trajs_refs@[i]);
    }
    assert forall|i: int| 0 <= i < (t1 + t2).len() implies records_trajs(#[trigger] c.trajs_refs@[ta + i], (t1 + t2)[i]) by {
        if i < t1.len() {
            assert(c.trajs_refs@[ta + i] == b.trajs_refs@[ta + i]);
        } else {
            assert(c.trajs_refs@[tb + (i - t1.len())] == c.trajs_refs@[ta + i]);
        }
    }
}

proof fn lemma_extended_refl(a: CheckpointRefs)
    ensures
        refs_extended(a, a, Seq::empty(), Seq::empty(), Seq::empty()),
{
}

// ----------------------------------------------------------------------------
// Records
// ----------------------------------------------------------------------------
/// The checkpoint record of tree metadata.
pub fn checkpoint_tree_meta(meta: &TreeMeta) -> (r: CheckpointTreeMeta)
    ensures
        records_meta(r, *meta),
{
    CheckpointTreeMeta {
        id: meta.id.to_string(),
        index: meta.index,
        summary: copy_string(&meta.summary),
        open_input_tokens: meta.open_input_tokens,
        open_context_tokens: meta.open_context_tokens,
        open_context_source: meta.open_context_source,
        node_dir: copy_string(&meta.node_dir),
    }
}

/// The checkpoint record of a memory reference.
pub fn checkpoint_memory_ref(memory: &MemoryRef) -> (r: CheckpointMemoryRef)
    ensures
        records_memory(r, *memory),
        r.source_raw_start == memory.source_raw_range.start && r.source_raw_end == memory.source_raw_range.end,
        r.source_context_start == memory.source_context_range.start && r.source_context_end
            == memory.source_context_range.end,
        r.source_token_seq_start == memory.source_token_seq.start && r.source_token_seq_end
            == memory.source_token_seq.end,
{
    CheckpointMemoryRef {
        compact_id: copy_string(&memory.compact_id),
        node_id: memory.node_id.to_string(),
        body_path: copy_string(&memory.body_path),
        body_hash: copy_string(&memory.body_hash),
        source_raw_start: memory.source_raw_range.start,
        source_raw_end: memory.source_raw_range.end,
        source_context_start: memory.source_context_range.start,
        source_context_end: memory.source_context_range.end,
        source_token_seq_start: memory.source_token_seq.start,
        source_token_seq_end: memory.source_token_seq.end,
        open_input_tokens: memory.open_input_tokens,
        close_input_tokens: memory.close_input_tokens,
        open_context_tokens: memory.open_context_tokens,
        close_context_tokens: memory.close_context_tokens,
        closed_source_suffix_tokens: memory.closed_source_suffix_tokens,
        closed_memory_context_tokens: memory.closed_memory_context_tokens,
        open_context_source: memory.open_context_source,
        memory_output_tokens: memory.memory_output_tokens,
    }
}

fn push_meta(refs: &mut CheckpointRefs, meta: &TreeMeta)
    ensures
        refs_extended(*old(refs), *final(refs), seq![*meta], Seq::empty(), Seq::empty()),
{
    proof {
        lemma_extended_refl(*refs);
    }
    refs.tree_meta.push(checkpoint_tree_meta(meta));
}

fn push_memory(refs: &mut CheckpointRefs, memory: &MemoryRef)
    ensures
        refs_extended(*old(refs), *final(refs), Seq::empty(), seq![*memory], Seq::empty()),
{
    proof {
        lemma_extended_refl(*refs);
    }
    refs.memory_refs.push(checkpoint_memory_ref(memory));
}

/// Records a finished node and, in preorder, the finished nodes under it.
pub fn collect_checkpoint_node_refs(node: &SpineTreeNode, refs: &mut CheckpointRefs)
    ensures
        refs_extended(
            *old(refs),
            *final(refs),
            finished_trees(*node).map_values(|t: SpineTreeNode| t->meta),
            finished_trees(*node).map_values(|t: SpineTreeNode| t->memory),
            finished_trees(*node),
        ),
    decreases node,
{
    match node {
        SpineTreeNode::MsgAsLeafNode { .. } | SpineTreeNode::ToolCallAsLeafNode { .. } => {
            proof {
                lemma_extended_refl(*refs);
                assert(finished_trees(*node).map_values(|t: SpineTreeNode| t->meta) =~= Seq::<TreeMeta>::empty());
                assert(finished_trees(*node).map_values(|t: SpineTreeNode| t->memory) =~= Seq::<MemoryRef>::empty());
            }
        },
        SpineTreeNode::SpineTree { memory, meta, children, trajs_path, .. } => {
            let ghost start = *refs;
            push_meta(refs, meta);
            let ghost after_meta = *refs;
            push_memory(refs, memory);
            let ghost after_memory = *refs;
            refs.trajs_refs.push(CheckpointTrajsRef { node_id: meta.id.to_string(), trajs_path: copy_string(trajs_path) });
            proof {
                lemma_extended_trans(start, after_meta, after_memory, seq![*meta], Seq::empty(), Seq::empty(), Seq::empty(), seq![*memory], Seq::empty());
                let here = *refs;
                assert(refs_extended(after_memory, here, Seq::empty(), Seq::empty(), seq![*node])) by {
                    assert(here.trajs_refs@[after_memory.trajs_refs@.len() as int + 0] == here.trajs_refs@.last());
                }
                lemma_extended_trans(start, after_memory, here, seq![*meta], seq![*memory], Seq::empty(), Seq::empty(), Seq::empty(), seq![*node]);
            }
            let ghost before_children = *refs;
            let mut i: usize = 0;
            proof {
                lemma_extended_refl(*refs);
                assert(children@.take(0) =~= Seq::<SpineTreeNode>::empty());
                assert(finished_trees_of(children@.take(0)).map_values(|t: SpineTreeNode| t->meta) =~= Seq::<TreeMeta>::empty());
                assert(finished_trees_of(children@.take(0)).map_values(|t: SpineTreeNode| t->memory) =~= Seq::<MemoryRef>::empty());
            }
            while i < children.len()
                invariant
                    i <= children.len(),
                    node is SpineTree,
                    node->children == *children,
                    refs_extended(
                        before_children,
                        *refs,
                        finished_trees_of(children@.take(i as int)).map_values(|t: SpineTreeNode| t->meta),
                        finished_trees_of(children@.take(i as int)).map_values(|t: SpineTreeNode| t->memory),
                        finished_trees_of(children@.take(i as int)),
                    ),
                decreases children.len() - i,
            {
                let ghost before = *refs;
                proof {
                    assert(decreases_to!(*node => node->children));
                    assert(decreases_to!(node->children => children@));
                    assert(decreases_to!(children@ => children@[i as int]));
                }
                collect_checkpoint_node_refs(&children[i], refs);
                proof {
                    let prev = children@.take(i as int);
                    let next = children@.take(i + 1);
                    assert(next.drop_last() =~= prev);
                    assert(next.last() == children@[i as int]);
                    let c = children@[i as int];
                    lemma_extended_trans(
                        before_children,
                        before,
                        *refs,
                        finished_trees_of(prev).map_values(|t: SpineTreeNode| t->meta),
                        finished_trees_of(prev).map_values(|t: SpineTreeNode| t->memory),
                        finished_trees_of(prev),
                        finished_trees(c).map_values(|t: SpineTreeNode| t->meta),
                        finished_trees(c).map_values(|t: SpineTreeNode| t->memory),
                        finished_trees(c),
                    );
                    assert(finished_trees_of(next) == finished_trees_of(prev) + finished_trees(c));
                    assert(finished_trees_of(next).map_values(|t: SpineTreeNode| t->meta) =~= finished_trees_of(prev).map_values(|t: SpineTreeNode| t->meta) + finished_trees(c).map_values(|t: SpineTreeNode| t->meta));
                    assert(finished_trees_of(next).map_values(|t: SpineTreeNode| t->memory) =~= finished_trees_of(prev).map_values(|t: SpineTreeNode| t->memory) + finished_trees(c).map_values(|t: SpineTreeNode| t->memory));
                }
                i = i + 1;
            }
            proof {
                assert(children@.take(i as int) =~= children@);
                let all = finished_trees(*node);
                let sub = finished_trees_of(children@);
                assert(all == seq![*node] + sub);
                assert(node->meta == *meta && node->memory == *memory);
                lemma_extended_trans(
                    start,
                    before_children,
                    *refs,
                    seq![*meta] + Seq::empty(),
                    Seq::empty() + seq![*memory],
                    Seq::empty() + seq![*node],
                    sub.map_values(|t: SpineTreeNode| t->meta),
                    sub.map_values(|t: SpineTreeNode| t->memory),
                    sub,
                );
                assert(seq![*meta] + Seq::<TreeMeta>::empty() + sub.map_values(|t: SpineTreeNode| t->meta) =~= all.map_values(|t: SpineTreeNode| t->meta));
                assert(Seq::<MemoryRef>::empty() + seq![*memory] + sub.map_values(|t: SpineTreeNode| t->memory) =~= all.map_values(|t: SpineTreeNode| t->memory));
                assert(Seq::<SpineTreeNode>::empty() + seq![*node] + sub =~= all);
            }
        },
    }
}

/// Records the nodes of a list of finished nodes, in order.
fn collect_nodes_refs(nodes: &Vec<SpineTreeNode>, refs: &mut CheckpointRefs)
    ensures
        refs_extended(
            *old(refs),
            *final(refs),
            finished_trees_of(nodes@).map_values(|t: SpineTreeNode| t->meta),
            finished_trees_of(nodes@).map_values(|t: SpineTreeNode| t->memory),
            finished_trees_of(nodes@),
        ),
{
    let ghost start = *refs;
    let mut i: usize = 0;
    proof {
        lemma_extended_refl(*refs);
        assert(nodes@.take(0) =~= Seq::<SpineTreeNode>::empty());
        assert(finished_trees_of(nodes@.take(0)).map_values(|t: SpineTreeNode| t->meta) =~= Seq::<TreeMeta>::empty());
        assert(finished_trees_of(nodes@.take(0)).map_values(|t: SpineTreeNode| t->memory) =~= Seq::<MemoryRef>::empty());
    }
    while i < nodes.len()
        invariant
            i <= nodes.len(),
            refs_extended(
                start,
                *refs,
                finished_trees_of(nodes@.take(i as int)).map_values(|t: SpineTreeNode| t->meta),
                finished_trees_of(nodes@.take(i as int)).map_values(|t: SpineTreeNode| t->memory),
                finished_trees_of(nodes@.take(i as int)),
            ),
        decreases nodes.len() - i,
    {
        let ghost before = *refs;
        collect_checkpoint_node_refs(&nodes[i], refs);
        proof {
            let prev = nodes@.take(i as int);
            let next = nodes@.take(i + 1);
            assert(next.drop_last() =~= prev);
            let c = nodes@[i as int];
            lemma_extended_trans(
                start,
                before,
                *refs,
                finished_trees_of(prev).map_values(|t: SpineTreeNode| t->meta),
                finished_trees_of(prev).map_values(|t: SpineTreeNode| t->memory),
                finished_trees_of(prev),
                finished_trees(c).map_values(|t: SpineTreeNode| t->meta),
                finished_trees(c).map_values(|t: SpineTreeNode| t->memory),
                finished_trees(c),
            );
            assert(finished_trees_of(next) == finished_trees_of(prev) + finished_trees(c));
            assert(finished_trees_of(next).map_values(|t: SpineTreeNode| t->meta) =~= finished_trees_of(prev).map_values(|t: SpineTreeNode| t->meta) + finished_trees(c).map_values(|t: SpineTreeNode| t->meta));
            assert(finished_trees_of(next).map_values(|t: SpineTreeNode| t->memory) =~= finished_trees_of(prev).map_values(|t: SpineTreeNode| t->memory) + finished_trees(c).map_values(|t: SpineTreeNode| t->memory));
        }
        i = i + 1;
    }
    assert(nodes@.take(i as int) =~= nodes@);
}

/// Records the memories of finished root epochs, in order.
fn collect_root_epochs(epochs: &Vec<RootEpoch>, refs: &mut CheckpointRefs)
    ensures
        refs_extended(*old(refs), *final(refs), Seq::empty(), epochs@.map_values(|e: RootEpoch| e.memory), Seq::empty()),
{
    let ghost start = *refs;
    let mut i: usize = 0;
    proof {
        lemma_extended_refl(*refs);
        assert(epochs@.take(0).map_values(|e: RootEpoch| e.memory) =~= Seq::<MemoryRef>::empty());
    }
    while i < epochs.len()
        invariant
            i <= epochs.len(),
            refs_extended(start, *refs, Seq::empty(), epochs@.take(i as int).map_values(|e: RootEpoch| e.memory), Seq::empty()),
        decreases epochs.len() - i,
    {
        let ghost before = *refs;
        push_memory(refs, &epochs[i].memory);
        proof {
            lemma_extended_trans(
                start,
                before,
                *refs,
                Seq::empty(),
                epochs@.take(i as int).map_values(|e: RootEpoch| e.memory),
                Seq::empty(),
                Seq::empty(),
                seq![epochs@[i as int].memory],
                Seq::empty(),
            );
            assert(epochs@.take(i + 1).map_values(|e: RootEpoch| e.memory) =~= epochs@.take(i as int).map_values(|e: RootEpoch| e.memory) + seq![epochs@[i as int].memory]);
            assert(Seq::<TreeMeta>::empty() + Seq::<TreeMeta>::empty() =~= Seq::<TreeMeta>::empty());
            assert(Seq::<SpineTreeNode>::empty() + Seq::<SpineTreeNode>::empty() =~= Seq::<SpineTreeNode>::empty());
        }
        i = i + 1;
    }
    assert(epochs@.take(i as int) =~= epochs@);
}

/// Records what the symbols of a parse stack hold, appending to `refs`.
pub fn collect_checkpoint_refs_into(symbols: &Vec<Symbol>, refs: &mut CheckpointRefs)
    ensures
        refs_extended(*old(refs), *final(refs), stack_metas(symbols@), stack_memories(symbols@), stack_trees(symbols@)),
{
    let ghost start = *refs;
    let mut i: usize = 0;
    proof {
        lemma_extended_refl(*refs);
    }
    while i < symbols.len()
        invariant
            i <= symbols.len(),
            refs_extended(
                start,
                *refs,
                stack_metas(symbols@.take(i as int)),
                stack_memories(symbols@.take(i as int)),
                stack_trees(symbols@.take(i as int)),
            ),
        decreases symbols.len() - i,
    {
        let ghost before = *refs;
        let sym = &symbols[i];
        match sym {
            Symbol::Control(ControlSymbol::Init(meta)) => push_meta(refs, meta),
            Symbol::Control(ControlSymbol::Open(meta)) => push_meta(refs, meta),
            Symbol::Control(ControlSymbol::End) => {
                proof {
                    lemma_extended_refl(*refs);
                }
            },
            Symbol::Control(ControlSymbol::Close(memory)) => push_memory(refs, memory),
            Symbol::Control(ControlSymbol::Compact(memory, _, _, _)) => push_memory(refs, memory),
            Symbol::SpineTreeNode(node) => collect_checkpoint_node_refs(node, refs),
            Symbol::SpineTreeNodes(nodes) => collect_nodes_refs(nodes, refs),
            Symbol::RootEpoches(epochs) => collect_root_epochs(epochs, refs),
        }
        proof {
            let prev = symbols@.take(i as int);
            let next = symbols@.take(i + 1);
            assert(next.drop_last() =~= prev);
            assert(next.last() == *sym);
            lemma_extended_trans(
                start,
                before,
                *refs,
                stack_metas(prev),
                stack_memories(prev),
                stack_trees(prev),
                symbol_metas(*sym),
                symbol_memories(*sym),
                symbol_trees(*sym),
            );
        }
        i = i + 1;
    }
    assert(symbols@.take(i as int) =~= symbols@);
}

/// What a checkpoint records of a parse stack.
pub fn collect_checkpoint_refs(symbols: &Vec<Symbol>) -> (r: CheckpointRefs)
    ensures
        metas_recorded(r.tree_meta@, stack_metas(symbols@)),
        memories_recorded(r.memory_refs@, stack_memories(symbols@)),
        trajs_recorded(r.trajs_refs@, stack_trees(symbols@)),
        r.memory_refs@.len() == stack_memories(symbols@).len(),
        forall|i: int|
            0 <= i < r.memory_refs@.len() ==> {
                let (c, m) = (#[trigger] r.memory_refs@[i], stack_memories(symbols@)[i]);
                &&& c.source_raw_start == m.source_raw_range.start && c.source_raw_end == m.source_raw_range.end
                &&& c.source_context_start == m.source_context_range.start && c.source_context_end
                    == m.source_context_range.end
                &&& c.source_token_seq_start == m.source_token_seq.start && c.source_token_seq_end
                    == m.source_token_seq.end
            },
{
    let mut refs = CheckpointRefs { tree_meta: Vec::new(), memory_refs: Vec::new(), trajs_refs: Vec::new() };
    collect_checkpoint_refs_into(symbols, &mut refs);
    proof {
        assert forall|i: int| 0 <= i < refs.tree_meta@.len() implies records_meta(#[trigger] refs.tree_meta@[i], stack_metas(symbols@)[i]) by {
            assert(refs.tree_meta@[0 + i] == refs.tree_meta@[i]);
        }
        assert forall|i: int| 0 <= i < refs.memory_refs@.len() implies records_memory(#[trigger] refs.memory_refs@[i], stack_memories(symbols@)[i]) by {
            assert(refs.memory_refs@[0 + i] == refs.memory_refs@[i]);
        }
        assert forall|i: int| 0 <= i < refs.trajs_refs@.len() implies records_trajs(#[trigger] refs.trajs_refs@[i], stack_trees(symbols@)[i]) by {
            assert(refs.trajs_refs@[0 + i] == refs.trajs_refs@[i]);
        }
    }
    refs
}

// ----------------------------------------------------------------------------
// Symbol texts
// ----------------------------------------------------------------------------
/// Texts joined by `, `.
pub open spec fn join_texts(ts: Seq<Seq<char>>) -> Seq<char>
    decreases ts.len(),
{
    if ts.len() == 0 {
        Seq::empty()
    } else if ts.len() == 1 {
        ts[0]
    } else {
        join_texts(ts.drop_last()) + ", "@ + ts.last()
    }
}

/// The text of a segment reference: `raw <ordinal> @<context index>`, or
/// `mem <memory id>`.
pub open spec fn seg_text_spec(seg: SegRef) -> Seq<char> {
    match seg {
        SegRef::ResponseItem { raw_ordinal, context_index } => "raw "@ + dec(raw_ordinal as nat) + " @"@ + dec(
            context_index as nat,
        ),
        SegRef::Memory { memory_id, .. } => "mem "@ + memory_id@,
    }
}

/// The texts of a tool call's segments.
pub open spec fn segment_texts(segs: Seq<ToolCallSegment>) -> Seq<Seq<char>> {
    segs.map_values(|t: ToolCallSegment| seg_text_spec(t.seg))
}

/// The text of a node: a message leaf with its segment, a tool call with its
/// segments, a finished tree with its id, memory and number of children.
pub open spec fn node_text_spec(node: SpineTreeNode) -> Seq<char> {
    match node {
        SpineTreeNode::MsgAsLeafNode { msg, .. } => "Msg("@ + seg_text_spec(msg) + ")"@,
        SpineTreeNode::ToolCallAsLeafNode { segments } => "ToolCall("@ + join_texts(segment_texts(segments@)) + ")"@,
        SpineTreeNode::SpineTree { meta, memory, children, .. } => "Tree("@ + node_id_text(meta.id@) + ", "@
            + memory.compact_id@ + ", "@ + dec(children@.len()) + ")"@,
    }
}

/// The texts of a list of nodes.
pub open spec fn node_texts(nodes: Seq<SpineTreeNode>) -> Seq<Seq<char>> {
    nodes.map_values(|n: SpineTreeNode| node_text_spec(n))
}

/// The memory ids of root epochs.
pub open spec fn epoch_texts(epochs: Seq<RootEpoch>) -> Seq<Seq<char>> {
    epochs.map_values(|e: RootEpoch| e.memory.compact_id@)
}

/// The text a checkpoint records of a parse-stack symbol: the control symbol
/// with the node or memory it names, or the nodes and epochs it holds.
pub open spec fn symbol_text_spec(symbol: Symbol) -> Seq<char> {
    match symbol {
        Symbol::Control(ControlSymbol::Init(meta)) => "Init("@ + node_id_text(meta.id@) + ")"@,
        Symbol::Control(ControlSymbol::Open(meta)) => "Open("@ + node_id_text(meta.id@) + ")"@,
        Symbol::Control(ControlSymbol::Close(memory)) => "Close("@ + memory.compact_id@ + ")"@,
        Symbol::Control(ControlSymbol::Compact(memory, node, a, b)) => "Compact("@ + memory.compact_id@ + ", "@
            + node_id_text(node@) + ", "@ + dec(a as nat) + ", "@ + dec(b as nat) + ")"@,
        Symbol::Control(ControlSymbol::End) => "End"@,
        Symbol::SpineTreeNode(node) => "Node("@ + node_text_spec(node) + ")"@,
        Symbol::SpineTreeNodes(nodes) => "Nodes("@ + join_texts(node_texts(nodes@)) + ")"@,
        Symbol::RootEpoches(epochs) => "RootEpoches("@ + join_texts(epoch_texts(epochs@)) + ")"@,
    }
}

fn push_seg_text(v: &mut Vec<char>, seg: &SegRef)
    ensures
        final(v)@ == old(v)@ + seg_text_spec(*seg),
{
    match seg {
        SegRef::ResponseItem { raw_ordinal, context_index } => {
            push_str(v, "raw ");
            push_u64(v, *raw_ordinal);
            push_str(v, " @");
            push_u64(v, *context_index as u64);
        },
        SegRef::Memory { memory_id, .. } => {
            push_str(v, "mem ");
            push_str(v, memory_id.as_str());
        },
    }
}

proof fn lemma_join_step(ts: Seq<Seq<char>>, i: int)
    requires
        0 <= i < ts.len(),
    ensures
        join_texts(ts.take(i + 1)) == if i == 0 {
            ts[0]
        } else {
            join_texts(ts.take(i)) + ", "@ + ts[i]
        },
{
    let t = ts.take(i + 1);
    assert(t.drop_last() =~= ts.take(i));
    assert(t.last() == ts[i]);
    if i == 0 {
        assert(t.len() == 1);
    }
}

fn push_node_text(v: &mut Vec<char>, node: &SpineTreeNode)
    ensures
        final(v)@ == old(v)@ + node_text_spec(*node),
{
    match node {
        SpineTreeNode::MsgAsLeafNode { msg, .. } => {
            push_str(v, "Msg(");
            push_seg_text(v, msg);
            push_str(v, ")");
        },
        SpineTreeNode::ToolCallAsLeafNode { segments } => {
            push_str(v, "ToolCall(");
            let ghost start = v@;
            let ghost ts = segment_texts(segments@);
            let mut i: usize = 0;
            proof {
                assert(ts.take(0) =~= Seq::<Seq<char>>::empty());
                assert(v@ =~= start + join_texts(ts.take(0)));
            }
            while i < segments.len()
                invariant
                    i <= segments.len(),
                    ts == segment_texts(segments@),
                    v@ == start + join_texts(ts.take(i as int)),
                decreases segments.len() - i,
            {
                proof {
                    lemma_join_step(ts, i as int);
                }
                if i > 0 {
                    push_str(v, ", ");
                }
                push_seg_text(v, &segments[i].seg);
                i = i + 1;
            }
            proof {
                assert(ts.take(i as int) =~= ts);
            }
            push_str(v, ")");
        },
        SpineTreeNode::SpineTree { meta, memory, children, .. } => {
            push_str(v, "Tree(");
            let t = meta.id.to_text();
            push_all(v, &t);
            push_str(v, ", ");
            push_str(v, memory.compact_id.as_str());
            push_str(v, ", ");
            push_u64(v, children.len() as u64);
            push_str(v, ")");
        },
    }
}

/// The text a checkpoint records of a parse-stack symbol.
pub fn symbol_text(symbol: &Symbol) -> (r: String)
    ensures
        r@ == symbol_text_spec(*symbol),
{
    let mut v: Vec<char> = Vec::new();
    match symbol {
        Symbol::Control(ControlSymbol::Init(meta)) => {
            push_str(&mut v, "Init(");
            let t = meta.id.to_text();
            push_all(&mut v, &t);
            push_str(&mut v, ")");
        },
        Symbol::Control(ControlSymbol::Open(meta)) => {
            push_str(&mut v, "Open(");
            let t = meta.id.to_text();
            push_all(&mut v, &t);
            push_str(&mut v, ")");
        },
        Symbol::Control(ControlSymbol::Close(memory)) => {
            push_str(&mut v, "Close(");
            push_str(&mut v, memory.compact_id.as_str());
            push_str(&mut v, ")");
        },
        Symbol::Control(ControlSymbol::Compact(memory, node, a, b)) => {
            push_str(&mut v, "Compact(");
            push_str(&mut v, memory.compact_id.as_str());
            push_str(&mut v, ", ");
            let t = node.to_text();
            push_all(&mut v, &t);
            push_str(&mut v, ", ");
            push_u64(&mut v, *a);
            push_str(&mut v, ", ");
            push_u64(&mut v, *b);
            push_str(&mut v, ")");
        },
        Symbol::Control(ControlSymbol::End) => {
            push_str(&mut v, "End");
        },
        Symbol::SpineTreeNode(node) => {
            push_str(&mut v, "Node(");
            push_node_text(&mut v, node);
            push_str(&mut v, ")");
        },
        Symbol::SpineTreeNodes(nodes) => {
            push_str(&mut v, "Nodes(");
            let ghost start = v@;
            let ghost ts = node_texts(nodes@);
            let mut i: usize = 0;
            proof {
                assert(ts.take(0) =~= Seq::<Seq<char>>::empty());
                assert(v@ =~= start + join_texts(ts.take(0)));
            }
            while i < nodes.len()
                invariant
                    i <= nodes.len(),
                    ts == node_texts(nodes@),
                    v@ == start + join_texts(ts.take(i as int)),
                decreases nodes.len() - i,
            {
                proof {
                    lemma_join_step(ts, i as int);
                }
                if i > 0 {
                    push_str(&mut v, ", ");
                }
                push_node_text(&mut v, &nodes[i]);
                i = i + 1;
            }
            proof {
                assert(ts.take(i as int) =~= ts);
            }
            push_str(&mut v, ")");
        },
        Symbol::RootEpoches(epochs) => {
            push_str(&mut v, "RootEpoches(");
            let ghost start = v@;
            let ghost ts = epoch_texts(epochs@);
            let mut i: usize = 0;
            proof {
                assert(ts.take(0) =~= Seq::<Seq<char>>::empty());
                assert(v@ =~= start + join_texts(ts.take(0)));
            }
            while i < epochs.len()
                invariant
                    i <= epochs.len(),
                    ts == epoch_texts(epochs@),
                    v@ == start + join_texts(ts.take(i as int)),
                decreases epochs.len() - i,
            {
                proof {
                    lemma_join_step(ts, i as int);
                }
                if i > 0 {
                    push_str(&mut v, ", ");
                }
                push_str(&mut v, epochs[i].memory.compact_id.as_str());
                i = i + 1;
            }
            proof {
                assert(ts.take(i as int) =~= ts);
            }
            push_str(&mut v, ")");
        },
    }
    string_of(&v)
}

/// The text of each symbol of a parse stack, in order.
pub fn parse_stack_symbol_debug_strings(symbols: &Vec<Symbol>) -> (r: Vec<String>)
    ensures
        r@.len() == symbols@.len(),
        forall|i: int| 0 <= i < symbols@.len() ==> #[trigger] r@[i]@ == symbol_text_spec(symbols@[i]),
{
    let mut r: Vec<String> = Vec::new();
    let mut i: usize = 0;
    while i < symbols.len()
        invariant
            i <= symbols.len(),
            r@.len() == i,
            forall|k: int| 0 <= k < i ==> #[trigger] r@[k]@ == symbol_text_spec(symbols@[k]),
        decreases symbols.len() - i,
    {
        r.push(symbol_text(&symbols[i]));
        i = i + 1;
    }
    r
}

/// A checkpoint's raw ordinal as an index; an error when it does not fit.
pub fn checkpoint_raw_ordinal_usize(raw_ordinal: u64) -> (r: Result<usize, SpineError>)
    ensures
        raw_ordinal <= usize::MAX ==> r == Ok::<usize, SpineError>(raw_ordinal as usize),
        raw_ordinal > usize::MAX ==> (r matches Err(SpineError::InvalidEvent(m)) && m@ == "checkpoint raw ordinal overflow"@),
{
    if raw_ordinal > usize::MAX as u64 {
        return Err(SpineError::InvalidEvent(owned("checkpoint raw ordinal overflow")));
    }
    Ok(raw_ordinal as usize)
}


/// A checkpoint memory record keeps the memory's three ranges apart: its raw
/// range is the memory's raw range, its context range the memory's context
/// range and its token sequence the memory's token sequence, whatever the
/// others hold.
pub proof fn lemma_recorded_memory_keeps_its_ranges(c: CheckpointMemoryRef, m: MemoryRef)
    requires
        records_memory(c, m),
    ensures
        c.source_raw_start == m.source_raw_range.start,
        c.source_raw_end == m.source_raw_range.end,
        c.source_context_start == m.source_context_range.start,
        c.source_context_end == m.source_context_range.end,
        c.source_token_seq_start == m.source_token_seq.start,
        c.source_token_seq_end == m.source_token_seq.end,
        c.compact_id@ == m.compact_id@,
        c.body_hash@ == m.body_hash@,
{
}

} // verus!
