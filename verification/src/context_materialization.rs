//! Materializing the model-visible context of a rollout from its cover: raw
//! runs come from the effective raw items; each surviving memory comes with
//! its committed note evidence before and after it and, after a close, the
//! handoff to the parent node.
use crate::compact::{
    handoff_text, is_assistant_output, is_developer_input, memory_item_text, render_spine_handoff_item,
    render_spine_memory_item,
};
use crate::host_bridge::{memory_pair_text, SPINE_MEMORY_ID_PREFIX};
use crate::host_materialization::NotePlacement;
use crate::ids::NodeId;
use crate::items::{copy_item, same_item, same_items, ResponseItem};
use crate::keyed::KeyedItems;
use crate::model::{SpineError, SpineOperation};
use crate::segment::{segment_view, segments_view, RawSpan, Segment, SegmentView};
use crate::text::{chars_of, copy_string, push_str, str_eq, string_of};
use vstd::prelude::*;

verus! {

/// A memory install that the sidecar committed: the memory `compact_id` of
/// node `node_id`, folding raw ordinals `[cut_ordinal, fold_end_ordinal)`.
#[derive(Debug)]
pub struct CommittedMemInstall {
    pub compact_id: String,
    pub node_id: NodeId,
    pub op: SpineOperation,
    pub cut_ordinal: u64,
    pub fold_end_ordinal: u64,
    pub body_ref: String,
}

/// Note items that the sidecar committed for a memory, to stand before or
/// after it.
#[derive(Debug)]
pub struct CommittedNoteEvidence {
    pub compact_id: String,
    pub placement: NotePlacement,
    pub kind: String,
    pub items: Vec<ResponseItem>,
}

/// What the Spine state records of a node: its parent and its summary.
#[derive(Debug)]
pub struct NodeRecord {
    pub node_id: NodeId,
    pub parent_id: Option<NodeId>,
    pub summary: Option<String>,
}

// ----------------------------------------------------------------------------
// Lookups
// ----------------------------------------------------------------------------
/// `id` is one of `ids`.
pub open spec fn holds_text(ids: Seq<String>, id: Seq<char>) -> bool {
    exists|i: int| 0 <= i < ids.len() && ids[i]@ == id
}

fn holds_string(ids: &Vec<String>, id: &str) -> (r: bool)
    ensures
        r == holds_text(ids@, id@),
{
    let mut i: usize = 0;
    while i < ids.len()
        invariant
            i <= ids.len(),
            forall|k: int| 0 <= k < i ==> ids@[k]@ != id@,
        decreases ids.len() - i,
    {
        if str_eq(ids[i].as_str(), id) {
            return true;
        }
        i = i + 1;
    }
    false
}

/// The node record of `id`: the first one with that id.
pub open spec fn node_record(nodes: Seq<NodeRecord>, id: Seq<u32>) -> Option<NodeRecord>
    decreases nodes.len(),
{
    if nodes.len() == 0 {
        None
    } else if nodes[0].node_id@ == id {
        Some(nodes[0])
    } else {
        node_record(nodes.drop_first(), id)
    }
}

fn find_node<'a>(nodes: &'a Vec<NodeRecord>, id: &NodeId) -> (r: Option<&'a NodeRecord>)
    ensures
        match node_record(nodes@, id@) {
            Some(n) => r matches Some(m) && *m == n,
            None => r is None,
        },
{
    let mut i: usize = 0;
    proof {
        assert(nodes@.skip(0) =~= nodes@);
    }
    while i < nodes.len()
        invariant
            i <= nodes.len(),
            node_record(nodes@, id@) == node_record(nodes@.skip(i as int), id@),
        decreases nodes.len() - i,
    {
        proof {
            assert(nodes@.skip(i as int).drop_first() =~= nodes@.skip(i + 1));
        }
        if crate::host_bridge::node_id_eq(&nodes[i].node_id, id) {
            return Some(&nodes[i]);
        }
        i = i + 1;
    }
    None
}

/// The index of the last install of memory `id`: the one that a map by compact
/// id keeps.
pub open spec fn last_install_index(installs: Seq<CommittedMemInstall>, id: Seq<char>) -> Option<int>
    decreases installs.len(),
{
    if installs.len() == 0 {
        None
    } else if installs.last().compact_id@ == id {
        Some(installs.len() - 1)
    } else {
        last_install_index(installs.drop_last(), id)
    }
}

proof fn lemma_last_install_bounds(installs: Seq<CommittedMemInstall>, id: Seq<char>)
    ensures
        last_install_index(installs, id) matches Some(i) ==> 0 <= i < installs.len() && installs[i].compact_id@ == id,
    decreases installs.len(),
{
    if installs.len() > 0 {
        lemma_last_install_bounds(installs.drop_last(), id);
    }
}

fn find_last_install<'a>(installs: &'a Vec<CommittedMemInstall>, id: &str) -> (r: Option<&'a CommittedMemInstall>)
    ensures
        match last_install_index(installs@, id@) {
            Some(i) => r matches Some(m) && *m == installs@[i],
            None => r is None,
        },
{
    let mut i = installs.len();
    proof {
        assert(installs@.take(i as int) =~= installs@);
    }
    while i > 0
        invariant
            i <= installs.len(),
            last_install_index(installs@, id@) == last_install_index(installs@.take(i as int), id@),
        decreases i,
    {
        proof {
            assert(installs@.take(i as int).drop_last() =~= installs@.take(i - 1));
        }
        if str_eq(installs[i - 1].compact_id.as_str(), id) {
            return Some(&installs[i - 1]);
        }
        i = i - 1;
    }
    None
}

// ----------------------------------------------------------------------------
// Surviving installs
// ----------------------------------------------------------------------------
/// The installs whose memory survives, in order.
pub open spec fn surviving_of(installs: Seq<CommittedMemInstall>, surviving_ids: Seq<String>) -> Seq<CommittedMemInstall>
    decreases installs.len(),
{
    if installs.len() == 0 {
        Seq::empty()
    } else {
        let p = surviving_of(installs.drop_last(), surviving_ids);
        if holds_text(surviving_ids, installs.last().compact_id@) {
            p.push(installs.last())
        } else {
            p
        }
    }
}

/// Two installs record the same memory install.
pub open spec fn same_install(a: CommittedMemInstall, b: CommittedMemInstall) -> bool {
    &&& a.compact_id@ == b.compact_id@
    &&& a.node_id@ == b.node_id@
    &&& a.op == b.op
    &&& a.cut_ordinal == b.cut_ordinal
    &&& a.fold_end_ordinal == b.fold_end_ordinal
    &&& a.body_ref@ == b.body_ref@
}

fn copy_install(i: &CommittedMemInstall) -> (r: CommittedMemInstall)
    ensures
        same_install(r, *i),
{
    CommittedMemInstall {
        compact_id: copy_string(&i.compact_id),
        node_id: NodeId::from_segments(i.node_id.segments().clone()),
        op: i.op,
        cut_ordinal: i.cut_ordinal,
        fold_end_ordinal: i.fold_end_ordinal,
        body_ref: copy_string(&i.body_ref),
    }
}

/// The installs whose memory survives the projection, in order.
pub fn surviving_installs(installs: &Vec<CommittedMemInstall>, surviving_ids: &Vec<String>) -> (r: Vec<
    CommittedMemInstall,
>)
    ensures
        r@.len() == surviving_of(installs@, surviving_ids@).len(),
        forall|k: int| 0 <= k < r@.len() ==> same_install(#[trigger] r@[k], surviving_of(installs@, surviving_ids@)[k]),
{
    let mut r: Vec<CommittedMemInstall> = Vec::new();
    let mut i: usize = 0;
    while i < installs.len()
        invariant
            i <= installs.len(),
            r@.len() == surviving_of(installs@.take(i as int), surviving_ids@).len(),
            forall|k: int|
                0 <= k < r@.len() ==> same_install(#[trigger] r@[k], surviving_of(installs@.take(i as int), surviving_ids@)[k]),
        decreases installs.len() - i,
    {
        proof {
            assert(installs@.take(i + 1).drop_last() =~= installs@.take(i as int));
        }
        if holds_string(surviving_ids, installs[i].compact_id.as_str()) {
            r.push(copy_install(&installs[i]));
        }
        i = i + 1;
    }
    proof {
        assert(installs@.take(i as int) =~= installs@);
    }
    r
}

// ----------------------------------------------------------------------------
// Memory items and handoffs
// ----------------------------------------------------------------------------
/// The summary a memory item shows: the node's, else the compact id.
pub open spec fn install_summary(nodes: Seq<NodeRecord>, install: CommittedMemInstall) -> Seq<char> {
    match node_record(nodes, install.node_id@) {
        Some(n) => match n.summary {
            Some(s) => s@,
            None => install.compact_id@,
        },
        None => install.compact_id@,
    }
}

/// The memory item of install `i`, whose body is `body`.
pub open spec fn is_install_memory_item(
    item: ResponseItem,
    nodes: Seq<NodeRecord>,
    install: CommittedMemInstall,
    body: Seq<char>,
) -> bool {
    is_assistant_output(
        item,
        SPINE_MEMORY_ID_PREFIX@ + memory_pair_text(install.node_id@, install.op),
        memory_item_text(install.node_id@, install.op, install_summary(nodes, install), body),
    )
}

/// The memory item of each install, by compact id (the last install of an id
/// wins), given each install's verified body in order.
pub fn render_memory_items(installs: &Vec<CommittedMemInstall>, bodies: &Vec<String>, nodes: &Vec<NodeRecord>) -> (r:
    KeyedItems<ResponseItem>)
    requires
        bodies@.len() == installs@.len(),
    ensures
        forall|id: Seq<char>| #[trigger] r@.contains_key(id) <==> last_install_index(installs@, id) is Some,
        forall|id: Seq<char>|
            #[trigger] last_install_index(installs@, id) matches Some(i) ==> is_install_memory_item(
                r@[id],
                nodes@,
                installs@[i],
                bodies@[i]@,
            ),
{
    let mut items: KeyedItems<ResponseItem> = KeyedItems::new();
    let mut i: usize = 0;
    while i < installs.len()
        invariant
            i <= installs.len(),
            bodies@.len() == installs@.len(),
            forall|id: Seq<char>| #[trigger] items@.contains_key(id) <==> last_install_index(installs@.take(i as int), id) is Some,
            forall|id: Seq<char>|
                #[trigger] last_install_index(installs@.take(i as int), id) matches Some(j) ==> is_install_memory_item(
                    items@[id],
                    nodes@,
                    installs@[j],
                    bodies@[j]@,
                ),
        decreases installs.len() - i,
    {
        let install = &installs[i];
        let summary = match find_node(nodes, &install.node_id) {
            Some(n) => match &n.summary {
                Some(s) => copy_string(s),
                None => copy_string(&install.compact_id),
            },
            None => copy_string(&install.compact_id),
        };
        let item = render_spine_memory_item(&install.node_id, install.op, summary.as_str(), bodies[i].as_str());
        items.insert(copy_string(&install.compact_id), item);
        proof {
            let next = installs@.take(i + 1);
            assert(next.drop_last() =~= installs@.take(i as int));
            assert forall|id: Seq<char>| (#[trigger] last_install_index(next, id) matches Some(j) ==> is_install_memory_item(
                items@[id],
                nodes@,
                installs@[j],
                bodies@[j]@,
            )) by {
                lemma_last_install_bounds(installs@.take(i as int), id);
            }
        }
        i = i + 1;
    }
    proof {
        assert(installs@.take(i as int) =~= installs@);
    }
    items
}

/// The node a memory's close hands the turn to: for the last install of `id`,
/// when it closed its node and the node has a parent.
pub open spec fn handoff_spec(installs: Seq<CommittedMemInstall>, nodes: Seq<NodeRecord>, id: Seq<char>) -> Option<
    (Seq<u32>, Seq<u32>),
> {
    match last_install_index(installs, id) {
        Some(i) => if installs[i].op == SpineOperation::Close {
            match node_record(nodes, installs[i].node_id@) {
                Some(n) => match n.parent_id {
                    Some(p) => Some((installs[i].node_id@, p@)),
                    None => None,
                },
                None => None,
            }
        } else {
            None
        },
        None => None,
    }
}

/// The handoff note after a memory: present when its install closed a node
/// that has a parent.
pub fn handoff_note_for_mem(nodes: &Vec<NodeRecord>, install: Option<&CommittedMemInstall>) -> (r: Option<ResponseItem>)
    ensures
        match install {
            Some(i) => if i.op == SpineOperation::Close {
                match node_record(nodes@, i.node_id@) {
                    Some(n) => match n.parent_id {
                        Some(p) => r matches Some(item) && is_developer_input(item, handoff_text(i.node_id@, p@)),
                        None => r is None,
                    },
                    None => r is None,
                }
            } else {
                r is None
            },
            None => r is None,
        },
{
    let install = match install {
        Some(i) => i,
        None => {
            return None;
        },
    };
    if install.op != SpineOperation::Close {
        return None;
    }
    let node = match find_node(nodes, &install.node_id) {
        Some(n) => n,
        None => {
            return None;
        },
    };
    match &node.parent_id {
        Some(to_node) => Some(render_spine_handoff_item(&install.node_id, to_node)),
        None => None,
    }
}


// ----------------------------------------------------------------------------
// Note evidence
// ----------------------------------------------------------------------------
/// Note items by memory: those before it and those after it.
#[derive(Debug)]
pub struct NoteEvidenceByMem {
    pub before: KeyedItems<Vec<ResponseItem>>,
    pub after: KeyedItems<Vec<ResponseItem>>,
}

/// Evidence `e` is for surviving memory `id` at `placement`.
pub open spec fn note_matches(
    e: CommittedNoteEvidence,
    surviving_ids: Seq<String>,
    id: Seq<char>,
    placement: NotePlacement,
) -> bool {
    &&& holds_text(surviving_ids, e.compact_id@)
    &&& e.compact_id@ == id
    &&& e.placement == placement
}

/// The note items of surviving memory `id` at `placement`: the items of its
/// evidence, in order.
pub open spec fn notes_concat(
    evidence: Seq<CommittedNoteEvidence>,
    surviving_ids: Seq<String>,
    id: Seq<char>,
    placement: NotePlacement,
) -> Seq<ResponseItem>
    decreases evidence.len(),
{
    if evidence.len() == 0 {
        Seq::empty()
    } else {
        let prev = notes_concat(evidence.drop_last(), surviving_ids, id, placement);
        if note_matches(evidence.last(), surviving_ids, id, placement) {
            prev + evidence.last().items@
        } else {
            prev
        }
    }
}

/// Surviving memory `id` has evidence at `placement`.
pub open spec fn has_notes(
    evidence: Seq<CommittedNoteEvidence>,
    surviving_ids: Seq<String>,
    id: Seq<char>,
    placement: NotePlacement,
) -> bool {
    exists|i: int| 0 <= i < evidence.len() && note_matches(#[trigger] evidence[i], surviving_ids, id, placement)
}

/// Evidence for a surviving memory with no items.
pub open spec fn invalid_evidence(e: CommittedNoteEvidence, surviving_ids: Seq<String>) -> bool {
    holds_text(surviving_ids, e.compact_id@) && e.items@.len() == 0
}

/// A surviving root epoch memory without evidence before it.
pub open spec fn root_without_notes(
    evidence: Seq<CommittedNoteEvidence>,
    surviving_ids: Seq<String>,
    root_id: Seq<char>,
) -> bool {
    holds_text(surviving_ids, root_id) && !has_notes(evidence, surviving_ids, root_id, NotePlacement::BeforeMem)
}

/// `m` holds the notes of each surviving memory at `placement`.
pub open spec fn notes_grouped(
    m: Map<Seq<char>, Vec<ResponseItem>>,
    evidence: Seq<CommittedNoteEvidence>,
    surviving_ids: Seq<String>,
    placement: NotePlacement,
) -> bool {
    &&& forall|id: Seq<char>| #[trigger] m.contains_key(id) <==> has_notes(evidence, surviving_ids, id, placement)
    &&& forall|id: Seq<char>|
        #[trigger] m.contains_key(id) ==> same_items(m[id]@, notes_concat(evidence, surviving_ids, id, placement))
}

/// `e` is an invariant error with message `m`.
pub open spec fn invariant_error(e: SpineError, m: Seq<char>) -> bool {
    e matches SpineError::Invariant(s) && s@ == m
}

proof fn lemma_same_items_concat(a: Seq<ResponseItem>, b: Seq<ResponseItem>, c: Seq<ResponseItem>, d: Seq<ResponseItem>)
    requires
        same_items(a, b),
        same_items(c, d),
    ensures
        same_items(a + c, b + d),
{
    assert forall|i: int| 0 <= i < (a + c).len() implies same_item(#[trigger] (a + c)[i], (b + d)[i]) by {
        if i < a.len() {
            assert(same_item(a[i], b[i]));
        } else {
            assert(same_item(c[i - a.len()], d[i - a.len()]));
        }
    }
}

/// Appends `items` to the notes of `id`.
fn append_notes(map: &mut KeyedItems<Vec<ResponseItem>>, id: &String, items: &Vec<ResponseItem>)
    ensures
        forall|k: Seq<char>| #[trigger] final(map)@.contains_key(k) <==> old(map)@.contains_key(k) || k == id@,
        forall|k: Seq<char>| k != id@ && #[trigger] old(map)@.contains_key(k) ==> final(map)@[k] == old(map)@[k],
        same_items(
            final(map)@[id@]@,
            (if old(map)@.contains_key(id@) {
                old(map)@[id@]@
            } else {
                Seq::empty()
            }) + items@,
        ),
{
    let mut v: Vec<ResponseItem> = Vec::new();
    match map.get(id.as_str()) {
        Some(existing) => {
            crate::host_materialization::push_item_copies(&mut v, existing, 0, existing.len());
            proof {
                assert(existing@.subrange(0, existing@.len() as int) =~= existing@);
                assert(Seq::<ResponseItem>::empty() + existing@ =~= existing@);
            }
        },
        None => {},
    }
    let ghost mid = v@;
    crate::host_materialization::push_item_copies(&mut v, items, 0, items.len());
    proof {
        assert(items@.subrange(0, items@.len() as int) =~= items@);
        let prev = if old(map)@.contains_key(id@) {
            old(map)@[id@]@
        } else {
            Seq::<ResponseItem>::empty()
        };
        assert(same_items(mid, prev));
        assert forall|i: int| 0 <= i < v@.len() implies same_item(#[trigger] v@[i], (prev + items@)[i]) by {
            assert(same_item(v@[i], (mid + items@)[i]));
            if i < mid.len() {
                assert(v@[i] == mid[i]);
                assert(same_item(mid[i], prev[i]));
            }
        }
    }
    map.insert(copy_string(id), v);
}

proof fn lemma_notes_step(
    evidence: Seq<CommittedNoteEvidence>,
    surviving_ids: Seq<String>,
    i: int,
    id: Seq<char>,
    placement: NotePlacement,
)
    requires
        0 <= i < evidence.len(),
    ensures
        notes_concat(evidence.take(i + 1), surviving_ids, id, placement) == if note_matches(
            evidence[i],
            surviving_ids,
            id,
            placement,
        ) {
            notes_concat(evidence.take(i), surviving_ids, id, placement) + evidence[i].items@
        } else {
            notes_concat(evidence.take(i), surviving_ids, id, placement)
        },
        has_notes(evidence.take(i + 1), surviving_ids, id, placement) <==> has_notes(evidence.take(i), surviving_ids, id, placement)
            || note_matches(evidence[i], surviving_ids, id, placement),
{
    let t = evidence.take(i + 1);
    assert(t.drop_last() =~= evidence.take(i));
    assert(t.last() == evidence[i]);
    if has_notes(t, surviving_ids, id, placement) {
        let k = choose|k: int| 0 <= k < t.len() && note_matches(#[trigger] t[k], surviving_ids, id, placement);
        if k < i {
            assert(evidence.take(i)[k] == t[k]);
        }
    }
    if has_notes(evidence.take(i), surviving_ids, id, placement) {
        let k = choose|k: int|
            0 <= k < evidence.take(i).len() && note_matches(#[trigger] evidence.take(i)[k], surviving_ids, id, placement);
        assert(t[k] == evidence.take(i)[k]);
    }
    if note_matches(evidence[i], surviving_ids, id, placement) {
        assert(note_matches(t[i], surviving_ids, id, placement));
    }
}

/// Groups the note evidence of surviving memories by memory and placement,
/// items in order. Evidence with no items is invalid, and every surviving
/// root epoch memory must have evidence before it.
pub fn note_evidence_by_mem(
    evidence: &Vec<CommittedNoteEvidence>,
    surviving_ids: &Vec<String>,
    root_epoch_ids: &Vec<String>,
) -> (r: Result<NoteEvidenceByMem, SpineError>)
    ensures
        forall|i: int|
            0 <= i < evidence@.len() && invalid_evidence(#[trigger] evidence@[i], surviving_ids@) && (forall|k: int|
                0 <= k < i ==> !invalid_evidence(#[trigger] evidence@[k], surviving_ids@)) ==> (r matches Err(e)
                && invariant_error(
                e,
                "Spine materialization invalid Note evidence "@ + evidence@[i].compact_id@ + "/"@ + evidence@[i].kind@,
            )),
        forall|j: int|
            0 <= j < root_epoch_ids@.len() && (forall|i: int|
                0 <= i < evidence@.len() ==> !invalid_evidence(#[trigger] evidence@[i], surviving_ids@))
                && root_without_notes(evidence@, surviving_ids@, #[trigger] root_epoch_ids@[j]@) && (forall|k: int|
                0 <= k < j ==> !root_without_notes(evidence@, surviving_ids@, #[trigger] root_epoch_ids@[k]@)) ==> (r matches Err(e)
                && invariant_error(e, "Spine materialization missing Note evidence for root compact "@ + root_epoch_ids@[j]@)),
        r is Ok <==> (forall|i: int|
            0 <= i < evidence@.len() ==> !invalid_evidence(#[trigger] evidence@[i], surviving_ids@)) && (forall|j: int|
            0 <= j < root_epoch_ids@.len() ==> !root_without_notes(evidence@, surviving_ids@, #[trigger] root_epoch_ids@[j]@)),
        r matches Ok(n) ==> notes_grouped(n.before@, evidence@, surviving_ids@, NotePlacement::BeforeMem) && notes_grouped(
            n.after@,
            evidence@,
            surviving_ids@,
            NotePlacement::AfterMem,
        ),
{
    let mut before: KeyedItems<Vec<ResponseItem>> = KeyedItems::new();
    let mut after: KeyedItems<Vec<ResponseItem>> = KeyedItems::new();
    let mut i: usize = 0;
    proof {
        assert(evidence@.take(0) =~= Seq::<CommittedNoteEvidence>::empty());
    }
    while i < evidence.len()
        invariant
            i <= evidence.len(),
            forall|k: int| 0 <= k < i ==> !invalid_evidence(#[trigger] evidence@[k], surviving_ids@),
            notes_grouped(before@, evidence@.take(i as int), surviving_ids@, NotePlacement::BeforeMem),
            notes_grouped(after@, evidence@.take(i as int), surviving_ids@, NotePlacement::AfterMem),
        decreases evidence.len() - i,
    {
        let item = &evidence[i];
        if holds_string(surviving_ids, item.compact_id.as_str()) {
            if item.items.len() == 0 {
                let mut m = chars_of("Spine materialization invalid Note evidence ");
                push_str(&mut m, item.compact_id.as_str());
                push_str(&mut m, "/");
                push_str(&mut m, item.kind.as_str());
                return Err(SpineError::Invariant(string_of(&m)));
            }
            let ghost b0 = before@;
            let ghost a0 = after@;
            match item.placement {
                NotePlacement::BeforeMem => append_notes(&mut before, &item.compact_id, &item.items),
                NotePlacement::AfterMem => append_notes(&mut after, &item.compact_id, &item.items),
            }
            proof {
                assert forall|id: Seq<char>| #[trigger] before@.contains_key(id) <==> has_notes(
                    evidence@.take(i + 1),
                    surviving_ids@,
                    id,
                    NotePlacement::BeforeMem,
                ) by {
                    lemma_notes_step(evidence@, surviving_ids@, i as int, id, NotePlacement::BeforeMem);
                }
                assert forall|id: Seq<char>| #[trigger] before@.contains_key(id) implies same_items(
                    before@[id]@,
                    notes_concat(evidence@.take(i + 1), surviving_ids@, id, NotePlacement::BeforeMem),
                ) by {
                    lemma_notes_step(evidence@, surviving_ids@, i as int, id, NotePlacement::BeforeMem);
                    if note_matches(*item, surviving_ids@, id, NotePlacement::BeforeMem) {
                        let prev = if b0.contains_key(id) {
                            b0[id]@
                        } else {
                            Seq::<ResponseItem>::empty()
                        };
                        if b0.contains_key(id) {
                            assert(same_items(b0[id]@, notes_concat(evidence@.take(i as int), surviving_ids@, id, NotePlacement::BeforeMem)));
                        } else {
                            assert(!has_notes(evidence@.take(i as int), surviving_ids@, id, NotePlacement::BeforeMem));
                            lemma_no_notes_empty(evidence@.take(i as int), surviving_ids@, id, NotePlacement::BeforeMem);
                        }
                        lemma_same_items_concat(prev, notes_concat(evidence@.take(i as int), surviving_ids@, id, NotePlacement::BeforeMem), item.items@, item.items@);
                        crate::replacement::lemma_same_items_trans(before@[id]@, prev + item.items@, notes_concat(evidence@.take(i + 1), surviving_ids@, id, NotePlacement::BeforeMem));
                    }
                }
                assert forall|id: Seq<char>| #[trigger] after@.contains_key(id) <==> has_notes(
                    evidence@.take(i + 1),
                    surviving_ids@,
                    id,
                    NotePlacement::AfterMem,
                ) by {
                    lemma_notes_step(evidence@, surviving_ids@, i as int, id, NotePlacement::AfterMem);
                }
                assert forall|id: Seq<char>| #[trigger] after@.contains_key(id) implies same_items(
                    after@[id]@,
                    notes_concat(evidence@.take(i + 1), surviving_ids@, id, NotePlacement::AfterMem),
                ) by {
                    lemma_notes_step(evidence@, surviving_ids@, i as int, id, NotePlacement::AfterMem);
                    if note_matches(*item, surviving_ids@, id, NotePlacement::AfterMem) {
                        let prev = if a0.contains_key(id) {
                            a0[id]@
                        } else {
                            Seq::<ResponseItem>::empty()
                        };
                        if a0.contains_key(id) {
                            assert(same_items(a0[id]@, notes_concat(evidence@.take(i as int), surviving_ids@, id, NotePlacement::AfterMem)));
                        } else {
                            assert(!has_notes(evidence@.take(i as int), surviving_ids@, id, NotePlacement::AfterMem));
                            lemma_no_notes_empty(evidence@.take(i as int), surviving_ids@, id, NotePlacement::AfterMem);
                        }
                        lemma_same_items_concat(prev, notes_concat(evidence@.take(i as int), surviving_ids@, id, NotePlacement::AfterMem), item.items@, item.items@);
                        crate::replacement::lemma_same_items_trans(after@[id]@, prev + item.items@, notes_concat(evidence@.take(i + 1), surviving_ids@, id, NotePlacement::AfterMem));
                    }
                }
            }
        } else {
            proof {
                assert forall|id: Seq<char>| #[trigger] before@.contains_key(id) <==> has_notes(
                    evidence@.take(i + 1),
                    surviving_ids@,
                    id,
                    NotePlacement::BeforeMem,
                ) by {
                    lemma_notes_step(evidence@, surviving_ids@, i as int, id, NotePlacement::BeforeMem);
                }
                assert forall|id: Seq<char>| #[trigger] before@.contains_key(id) implies same_items(
                    before@[id]@,
                    notes_concat(evidence@.take(i + 1), surviving_ids@, id, NotePlacement::BeforeMem),
                ) by {
                    lemma_notes_step(evidence@, surviving_ids@, i as int, id, NotePlacement::BeforeMem);
                }
                assert forall|id: Seq<char>| #[trigger] after@.contains_key(id) <==> has_notes(
                    evidence@.take(i + 1),
                    surviving_ids@,
                    id,
                    NotePlacement::AfterMem,
                ) by {
                    lemma_notes_step(evidence@, surviving_ids@, i as int, id, NotePlacement::AfterMem);
                }
                assert forall|id: Seq<char>| #[trigger] after@.contains_key(id) implies same_items(
                    after@[id]@,
                    notes_concat(evidence@.take(i + 1), surviving_ids@, id, NotePlacement::AfterMem),
                ) by {
                    lemma_notes_step(evidence@, surviving_ids@, i as int, id, NotePlacement::AfterMem);
                }
            }
        }
        i = i + 1;
    }
    proof {
        assert(evidence@.take(i as int) =~= evidence@);
    }
    let mut j: usize = 0;
    while j < root_epoch_ids.len()
        invariant
            j <= root_epoch_ids.len(),
            i == evidence.len(),
            forall|k: int| 0 <= k < evidence@.len() ==> !invalid_evidence(#[trigger] evidence@[k], surviving_ids@),
            notes_grouped(before@, evidence@, surviving_ids@, NotePlacement::BeforeMem),
            notes_grouped(after@, evidence@, surviving_ids@, NotePlacement::AfterMem),
            forall|k: int| 0 <= k < j ==> !root_without_notes(evidence@, surviving_ids@, #[trigger] root_epoch_ids@[k]@),
        decreases root_epoch_ids.len() - j,
    {
        let root_id = &root_epoch_ids[j];
        if holds_string(surviving_ids, root_id.as_str()) && before.get(root_id.as_str()).is_none() {
            let mut m = chars_of("Spine materialization missing Note evidence for root compact ");
            push_str(&mut m, root_id.as_str());
            return Err(SpineError::Invariant(string_of(&m)));
        }
        j = j + 1;
    }
    Ok(NoteEvidenceByMem { before, after })
}

proof fn lemma_no_notes_empty(
    evidence: Seq<CommittedNoteEvidence>,
    surviving_ids: Seq<String>,
    id: Seq<char>,
    placement: NotePlacement,
)
    requires
        !has_notes(evidence, surviving_ids, id, placement),
    ensures
        notes_concat(evidence, surviving_ids, id, placement) == Seq::<ResponseItem>::empty(),
    decreases evidence.len(),
{
    if evidence.len() > 0 {
        assert(!has_notes(evidence.drop_last(), surviving_ids, id, placement)) by {
            if has_notes(evidence.drop_last(), surviving_ids, id, placement) {
                let k = choose|k: int|
                    0 <= k < evidence.drop_last().len() && note_matches(#[trigger] evidence.drop_last()[k], surviving_ids, id, placement);
                assert(evidence[k] == evidence.drop_last()[k]);
            }
        }
        lemma_no_notes_empty(evidence.drop_last(), surviving_ids, id, placement);
        assert(!note_matches(evidence[evidence.len() - 1], surviving_ids, id, placement));
    }
}

/// The note items of memory `compact_id` at `placement`, if it has any.
pub fn note_items_for_mem(notes: &NoteEvidenceByMem, compact_id: &str, placement: NotePlacement) -> (r: Option<
    Vec<ResponseItem>,
>)
    ensures
        ({
            let m = match placement {
                NotePlacement::BeforeMem => notes.before@,
                NotePlacement::AfterMem => notes.after@,
            };
            &&& r is Some <==> m.contains_key(compact_id@)
            &&& r matches Some(v) ==> same_items(v@, m[compact_id@]@)
        }),
{
    let found = match placement {
        NotePlacement::BeforeMem => notes.before.get(compact_id),
        NotePlacement::AfterMem => notes.after.get(compact_id),
    };
    match found {
        Some(items) => {
            let mut v: Vec<ResponseItem> = Vec::new();
            crate::host_materialization::push_item_copies(&mut v, items, 0, items.len());
            proof {
                assert(items@.subrange(0, items@.len() as int) =~= items@);
                assert(Seq::<ResponseItem>::empty() + items@ =~= items@);
            }
            Some(v)
        },
        None => None,
    }
}


// ----------------------------------------------------------------------------
// Rendering the cover
// ----------------------------------------------------------------------------
/// What a cover is rendered from: the effective raw items, the surviving
/// memory installs, the Spine state's node records, the rendered memory item
/// of each surviving memory, and the grouped note evidence.
pub struct SpineMaterializationInput<'a> {
    pub pi: &'a Vec<Segment>,
    pub raw_items: &'a Vec<ResponseItem>,
    pub installs: &'a Vec<CommittedMemInstall>,
    pub nodes: &'a Vec<NodeRecord>,
    pub memory_items: &'a KeyedItems<ResponseItem>,
    pub notes: &'a NoteEvidenceByMem,
}

/// The materialized model-visible history.
#[derive(Debug)]
pub struct SpineMaterialization {
    pub history: Vec<ResponseItem>,
}

/// Expected items: an item to copy, or (with `Some`) the handoff from one node
/// to another.
pub open spec fn exact_all(items: Seq<ResponseItem>) -> Seq<(ResponseItem, Option<(Seq<u32>, Seq<u32>)>)> {
    items.map_values(|i: ResponseItem| (i, None::<(Seq<u32>, Seq<u32>)>))
}

/// `o` is the expected item `e`.
pub open spec fn item_fits(o: ResponseItem, e: (ResponseItem, Option<(Seq<u32>, Seq<u32>)>)) -> bool {
    match e.1 {
        Some((from, to)) => is_developer_input(o, handoff_text(from, to)),
        None => same_item(o, e.0),
    }
}

/// `out` is the expected items `exp`, one for one.
pub open spec fn items_fit(out: Seq<ResponseItem>, exp: Seq<(ResponseItem, Option<(Seq<u32>, Seq<u32>)>)>) -> bool {
    out.len() == exp.len() && forall|i: int| 0 <= i < out.len() ==> item_fits(#[trigger] out[i], exp[i])
}

/// The items a memory renders to: its notes before it, its memory item, the
/// handoff when its install closed a node with a parent, its notes after it.
pub open spec fn mem_block(
    installs: Seq<CommittedMemInstall>,
    nodes: Seq<NodeRecord>,
    mems: Map<Seq<char>, ResponseItem>,
    before: Map<Seq<char>, Vec<ResponseItem>>,
    after: Map<Seq<char>, Vec<ResponseItem>>,
    id: Seq<char>,
) -> Seq<(ResponseItem, Option<(Seq<u32>, Seq<u32>)>)> {
    (if before.contains_key(id) {
        exact_all(before[id]@)
    } else {
        Seq::empty()
    }) + seq![(mems[id], None::<(Seq<u32>, Seq<u32>)>)] + (match handoff_spec(installs, nodes, id) {
        Some(h) => seq![(ResponseItem::Other, Some(h))],
        None => Seq::empty(),
    }) + (if after.contains_key(id) {
        exact_all(after[id]@)
    } else {
        Seq::empty()
    })
}

/// The items that segments `[0, k)` of a cover render to; `None` when a raw
/// run is outside the raw items, a memory has no rendered item, or a note has
/// no evidence to render from.
pub open spec fn context_prefix(
    pi: Seq<SegmentView>,
    raw: Seq<ResponseItem>,
    installs: Seq<CommittedMemInstall>,
    nodes: Seq<NodeRecord>,
    mems: Map<Seq<char>, ResponseItem>,
    before: Map<Seq<char>, Vec<ResponseItem>>,
    after: Map<Seq<char>, Vec<ResponseItem>>,
    k: nat,
) -> Option<Seq<(ResponseItem, Option<(Seq<u32>, Seq<u32>)>)>>
    decreases k,
{
    if k == 0 {
        Some(Seq::empty())
    } else if k > pi.len() {
        None
    } else {
        match context_prefix(pi, raw, installs, nodes, mems, before, after, (k - 1) as nat) {
            None => None,
            Some(acc) => match pi[k - 1] {
                SegmentView::Raw(span) => if span.start > usize::MAX || span.end > usize::MAX || span.end > raw.len()
                    || span.start > span.end {
                    None
                } else {
                    Some(acc + exact_all(raw.subrange(span.start as int, span.end as int)))
                },
                SegmentView::Mem(id) => if mems.contains_key(id) {
                    Some(acc + mem_block(installs, nodes, mems, before, after, id))
                } else {
                    None
                },
                SegmentView::Note(_) => None,
            },
        }
    }
}

proof fn lemma_context_none_extends(
    pi: Seq<SegmentView>,
    raw: Seq<ResponseItem>,
    installs: Seq<CommittedMemInstall>,
    nodes: Seq<NodeRecord>,
    mems: Map<Seq<char>, ResponseItem>,
    before: Map<Seq<char>, Vec<ResponseItem>>,
    after: Map<Seq<char>, Vec<ResponseItem>>,
    k: nat,
)
    requires
        k <= pi.len(),
        context_prefix(pi, raw, installs, nodes, mems, before, after, k) is None,
    ensures
        context_prefix(pi, raw, installs, nodes, mems, before, after, pi.len()) is None,
    decreases pi.len() - k,
{
    if k < pi.len() {
        lemma_context_none_extends(pi, raw, installs, nodes, mems, before, after, k + 1);
    }
}

proof fn lemma_fit_extend(
    before: Seq<ResponseItem>,
    acc: Seq<(ResponseItem, Option<(Seq<u32>, Seq<u32>)>)>,
    out: Seq<ResponseItem>,
    added: Seq<(ResponseItem, Option<(Seq<u32>, Seq<u32>)>)>,
)
    requires
        items_fit(before, acc),
        out.len() == before.len() + added.len(),
        forall|k: int| 0 <= k < before.len() ==> out[k] == before[k],
        forall|k: int| 0 <= k < added.len() ==> item_fits(#[trigger] out[before.len() + k], added[k]),
    ensures
        items_fit(out, acc + added),
{
    assert forall|i: int| 0 <= i < out.len() implies item_fits(#[trigger] out[i], (acc + added)[i]) by {
        if i < before.len() {
            assert(item_fits(before[i], acc[i]));
        } else {
            assert(item_fits(out[before.len() + (i - before.len())], added[i - before.len()]));
        }
    }
}

fn push_copies_fitting(out: &mut Vec<ResponseItem>, items: &Vec<ResponseItem>, Ghost(expected): Ghost<Seq<ResponseItem>>)
    requires
        same_items(items@, expected),
    ensures
        final(out)@.len() == old(out)@.len() + expected.len(),
        forall|k: int| 0 <= k < old(out)@.len() ==> #[trigger] final(out)@[k] == old(out)@[k],
        forall|k: int|
            0 <= k < expected.len() ==> item_fits(#[trigger] final(out)@[old(out)@.len() + k], exact_all(expected)[k]),
{
    crate::host_materialization::push_item_copies(out, items, 0, items.len());
    proof {
        assert(items@.subrange(0, items@.len() as int) =~= items@);
        assert forall|k: int| 0 <= k < expected.len() implies item_fits(
            #[trigger] final(out)@[old(out)@.len() + k],
            exact_all(expected)[k],
        ) by {
            assert(same_item(final(out)@[old(out)@.len() + k], (old(out)@ + items@)[old(out)@.len() + k]));
            assert(same_item(items@[k], expected[k]));
        }
    }
}

fn raw_span_error(head: &str, span: RawSpan, tail: &str) -> (r: SpineError)
    ensures
        invariant_error(r, head@ + crate::segment::span_text(span) + tail@),
{
    let mut m = chars_of(head);
    let t = span.to_string();
    push_str(&mut m, t.as_str());
    push_str(&mut m, tail);
    SpineError::Invariant(string_of(&m))
}

/// Renders the model-visible history of a cover: each raw run as the raw items
/// it covers, each memory as its note evidence, memory item and handoff. A note
/// segment cannot be rendered without structured evidence.
pub fn materialize_spine_context(input: SpineMaterializationInput) -> (r: Result<SpineMaterialization, SpineError>)
    ensures
        match context_prefix(
            segments_view(input.pi@),
            input.raw_items@,
            input.installs@,
            input.nodes@,
            input.memory_items@,
            input.notes.before@,
            input.notes.after@,
            input.pi@.len(),
        ) {
            Some(exp) => r matches Ok(m) && items_fit(m.history@, exp),
            None => r is Err,
        },
{
    let pi = input.pi;
    let raw_items = input.raw_items;
    let installs = input.installs;
    let nodes = input.nodes;
    let memory_items = input.memory_items;
    let notes = input.notes;
    let ghost pv = segments_view(pi@);
    let mut history: Vec<ResponseItem> = Vec::new();
    let mut k: usize = 0;
    while k < pi.len()
        invariant
            k <= pi.len(),
            pv == segments_view(pi@),
            pi == input.pi,
            raw_items == input.raw_items,
            installs == input.installs,
            nodes == input.nodes,
            memory_items == input.memory_items,
            notes == input.notes,
            context_prefix(pv, raw_items@, installs@, nodes@, memory_items@, notes.before@, notes.after@, k as nat) matches Some(
                acc,
            ) && items_fit(history@, acc),
        decreases pi.len() - k,
    {
        let ghost acc = context_prefix(
            pv,
            raw_items@,
            installs@,
            nodes@,
            memory_items@,
            notes.before@,
            notes.after@,
            k as nat,
        )->Some_0;
        let ghost h0 = history@;
        assert(pv[k as int] == segment_view(pi@[k as int]));
        match &pi[k] {
            Segment::Raw(span) => {
                if span.start > usize::MAX as u64 {
                    proof {
                        lemma_context_none_extends(pv, raw_items@, installs@, nodes@, memory_items@, notes.before@, notes.after@, (k + 1) as nat);
                    }
                    return Err(raw_span_error("Spine materialization raw start ", *span, " cannot fit usize"));
                }
                if span.end > usize::MAX as u64 {
                    proof {
                        lemma_context_none_extends(pv, raw_items@, installs@, nodes@, memory_items@, notes.before@, notes.after@, (k + 1) as nat);
                    }
                    return Err(raw_span_error("Spine materialization raw end ", *span, " cannot fit usize"));
                }
                let start = span.start as usize;
                let end = span.end as usize;
                if end > raw_items.len() || start > end {
                    proof {
                        lemma_context_none_extends(pv, raw_items@, installs@, nodes@, memory_items@, notes.before@, notes.after@, (k + 1) as nat);
                    }
                    let mut m = chars_of("Spine materialization Raw ");
                    let t = span.to_string();
                    push_str(&mut m, t.as_str());
                    push_str(&mut m, " is outside effective raw item length ");
                    crate::text::push_u64(&mut m, raw_items.len() as u64);
                    return Err(SpineError::Invariant(string_of(&m)));
                }
                crate::host_materialization::push_item_copies(&mut history, raw_items, start, end);
                proof {
                    let sub = raw_items@.subrange(start as int, end as int);
                    assert forall|j: int| 0 <= j < sub.len() implies item_fits(#[trigger] history@[h0.len() + j], exact_all(sub)[j]) by {
                        assert(same_item(history@[h0.len() + j], (h0 + sub)[h0.len() + j]));
                    }
                    lemma_fit_extend(h0, acc, history@, exact_all(sub));
                }
            },
            Segment::Mem { compact_id } => {
                let ghost id = compact_id@;
                let ghost nb = notes.before@;
                let ghost na = notes.after@;
                let before_notes = note_items_for_mem(notes, compact_id.as_str(), NotePlacement::BeforeMem);
                let ghost part1 = if nb.contains_key(id) {
                    exact_all(nb[id]@)
                } else {
                    Seq::empty()
                };
                match &before_notes {
                    Some(items) => {
                        push_copies_fitting(&mut history, items, Ghost(nb[id]@));
                    },
                    None => {},
                }
                proof {
                    lemma_fit_extend(h0, acc, history@, part1);
                }
                let ghost h1 = history@;
                let item = match memory_items.get(compact_id.as_str()) {
                    Some(item) => item,
                    None => {
                        proof {
                            lemma_context_none_extends(pv, raw_items@, installs@, nodes@, memory_items@, notes.before@, notes.after@, (k + 1) as nat);
                        }
                        let mut m = chars_of("Spine materialization missing rendered Mem item for ");
                        push_str(&mut m, compact_id.as_str());
                        return Err(SpineError::Invariant(string_of(&m)));
                    },
                };
                history.push(copy_item(item));
                let ghost part2 = seq![(memory_items@[id], None::<(Seq<u32>, Seq<u32>)>)];
                proof {
                    assert(item_fits(history@[h1.len() as int], part2[0]));
                    lemma_fit_extend(h1, acc + part1, history@, part2);
                }
                let ghost h2 = history@;
                let install = find_last_install(installs, compact_id.as_str());
                let handoff = handoff_note_for_mem(nodes, install);
                let ghost part3 = match handoff_spec(installs@, nodes@, id) {
                    Some(h) => seq![(ResponseItem::Other, Some(h))],
                    None => Seq::<(ResponseItem, Option<(Seq<u32>, Seq<u32>)>)>::empty(),
                };
                proof {
                    lemma_last_install_bounds(installs@, id);
                }
                match handoff {
                    Some(h) => {
                        history.push(h);
                        proof {
                            assert(item_fits(history@[h2.len() as int], part3[0]));
                        }
                    },
                    None => {},
                }
                proof {
                    lemma_fit_extend(h2, acc + part1 + part2, history@, part3);
                }
                let ghost h3 = history@;
                let after_notes = note_items_for_mem(notes, compact_id.as_str(), NotePlacement::AfterMem);
                let ghost part4 = if na.contains_key(id) {
                    exact_all(na[id]@)
                } else {
                    Seq::empty()
                };
                match &after_notes {
                    Some(items) => {
                        push_copies_fitting(&mut history, items, Ghost(na[id]@));
                    },
                    None => {},
                }
                proof {
                    lemma_fit_extend(h3, acc + part1 + part2 + part3, history@, part4);
                    assert(acc + part1 + part2 + part3 + part4 =~= acc + mem_block(installs@, nodes@, memory_items@, nb, na, id));
                }
            },
            Segment::Note { kind } => {
                proof {
                    lemma_context_none_extends(pv, raw_items@, installs@, nodes@, memory_items@, notes.before@, notes.after@, (k + 1) as nat);
                }
                let mut m = chars_of("Spine materialization cannot render Note(");
                push_str(&mut m, kind.as_str());
                push_str(&mut m, ") without structured note evidence");
                return Err(SpineError::Invariant(string_of(&m)));
            },
        }
        k = k + 1;
    }
    Ok(SpineMaterialization { history })
}

} // verus!
