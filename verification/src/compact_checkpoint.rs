//! The item references of a compact checkpoint and their uniqueness: every
//! replacement-history item is proved once, by a response item or by a memory.
use crate::checkpoint::{collect_checkpoint_refs, memories_recorded, records_memory, stack_memories, CheckpointMemoryRef};
use crate::io::{hash_raw_live, live_bits, sha1_hex, sha1_hex_of};
use crate::model::{MemoryRef, SegRef, SpineError, SpineTreeNode, Symbol, ToolCallSegment};
use crate::text::{chars_of, copy_string, dec, owned, push_str, push_u64, str_eq, string_of};
use std::collections::{BTreeMap, BTreeSet};
use vstd::prelude::*;

verus! {

broadcast use vstd::laws_cmp::group_laws_cmp;

/// A raw response item that a replacement-history item stands for.
#[derive(Debug, PartialEq, Eq)]
pub struct CompactCheckpointResponseItemRef {
    pub raw_ordinal: u64,
    pub context_index: usize,
    pub item_hash: String,
}

/// A memory that a replacement-history item stands for.
#[derive(Debug, PartialEq, Eq)]
pub struct CompactCheckpointMemoryItemRef {
    pub compact_id: String,
    pub context_index: usize,
    pub item_hash: String,
}

/// The first place where a key repeats: `(true, k)` when `xs[k]` occurs in
/// `xs[..k]`, else `(false, k)` when `ys[k]` occurs in `ys[..k]`; the first
/// key is checked first at each position.
pub open spec fn first_repeat<A, B>(xs: Seq<A>, ys: Seq<B>) -> Option<(bool, int)>
    decreases xs.len(),
{
    if xs.len() == 0 {
        None
    } else {
        let n = xs.len() - 1;
        match first_repeat(xs.drop_last(), ys.take(n)) {
            Some(e) => Some(e),
            None => if xs.drop_last().contains(xs[n]) {
                Some((true, n))
            } else if ys.take(n).contains(ys[n]) {
                Some((false, n))
            } else {
                None
            },
        }
    }
}

/// The raw ordinals of response item refs.
pub open spec fn ref_raw_ordinals(refs: Seq<CompactCheckpointResponseItemRef>) -> Seq<u64> {
    refs.map_values(|r: CompactCheckpointResponseItemRef| r.raw_ordinal)
}

/// The context indices of response item refs.
pub open spec fn ref_context_indices(refs: Seq<CompactCheckpointResponseItemRef>) -> Seq<usize> {
    refs.map_values(|r: CompactCheckpointResponseItemRef| r.context_index)
}

/// The compact ids of memory item refs.
pub open spec fn memory_ref_ids(refs: Seq<CompactCheckpointMemoryItemRef>) -> Seq<Seq<char>> {
    refs.map_values(|r: CompactCheckpointMemoryItemRef| r.compact_id@)
}

/// The context indices of memory item refs.
pub open spec fn memory_ref_context_indices(refs: Seq<CompactCheckpointMemoryItemRef>) -> Seq<usize> {
    refs.map_values(|r: CompactCheckpointMemoryItemRef| r.context_index)
}

/// `e` is an invalid-store error with message `m`.
pub open spec fn store_error(e: SpineError, m: Seq<char>) -> bool {
    e matches SpineError::InvalidStore(s) && s@ == m
}

proof fn lemma_first_repeat_step<A, B>(xs: Seq<A>, ys: Seq<B>, i: int)
    requires
        0 <= i < xs.len(),
        xs.len() == ys.len(),
    ensures
        first_repeat(xs.take(i + 1), ys.take(i + 1)) == match first_repeat(xs.take(i), ys.take(i)) {
            Some(e) => Some(e),
            None => if xs.take(i).contains(xs[i]) {
                Some((true, i))
            } else if ys.take(i).contains(ys[i]) {
                Some((false, i))
            } else {
                None
            },
        },
{
    assert(xs.take(i + 1).drop_last() =~= xs.take(i));
    assert(ys.take(i + 1).take(i) =~= ys.take(i));
}

/// Checks that no two response item refs share a raw ordinal or a context index.
pub fn validate_response_item_ref_uniqueness(refs: &Vec<CompactCheckpointResponseItemRef>) -> (r: Result<(), SpineError>)
    ensures
        match first_repeat(ref_raw_ordinals(refs@), ref_context_indices(refs@)) {
            None => r is Ok,
            Some((true, k)) => r matches Err(e) && store_error(e, "duplicate compact checkpoint response item raw ordinal "@
                + dec(refs@[k].raw_ordinal as nat)),
            Some((false, k)) => r matches Err(e) && store_error(e, "duplicate compact checkpoint response item context index "@
                + dec(refs@[k].context_index as nat)),
        },
{
    let ghost xs = ref_raw_ordinals(refs@);
    let ghost ys = ref_context_indices(refs@);
    let mut raw_ordinals: BTreeSet<u64> = BTreeSet::new();
    let mut context_indices: BTreeSet<usize> = BTreeSet::new();
    let mut i: usize = 0;
    proof {
        assert(xs.take(0) =~= Seq::<u64>::empty());
        assert(ys.take(0) =~= Seq::<usize>::empty());
    }
    while i < refs.len()
        invariant
            i <= refs.len(),
            xs == ref_raw_ordinals(refs@),
            ys == ref_context_indices(refs@),
            first_repeat(xs.take(i as int), ys.take(i as int)) is None,
            forall|k: u64| raw_ordinals@.contains(k) <==> xs.take(i as int).contains(k),
            forall|k: usize| context_indices@.contains(k) <==> ys.take(i as int).contains(k),
        decreases refs.len() - i,
    {
        proof {
            lemma_first_repeat_step(xs, ys, i as int);
        }
        let raw = refs[i].raw_ordinal;
        let ctx = refs[i].context_index;
        assert(xs[i as int] == raw && ys[i as int] == ctx);
        if !raw_ordinals.insert(raw) {
            proof {
                lemma_first_repeat_prefix(xs, ys, i + 1);
            }
            let mut m = chars_of("duplicate compact checkpoint response item raw ordinal ");
            push_u64(&mut m, raw);
            return Err(SpineError::InvalidStore(string_of(&m)));
        }
        if !context_indices.insert(ctx) {
            proof {
                lemma_first_repeat_prefix(xs, ys, i + 1);
            }
            let mut m = chars_of("duplicate compact checkpoint response item context index ");
            push_u64(&mut m, ctx as u64);
            return Err(SpineError::InvalidStore(string_of(&m)));
        }
        proof {
            assert(xs.take(i + 1) =~= xs.take(i as int).push(raw));
            assert(ys.take(i + 1) =~= ys.take(i as int).push(ctx));
        }
        i = i + 1;
    }
    proof {
        assert(xs.take(i as int) =~= xs);
        assert(ys.take(i as int) =~= ys);
    }
    Ok(())
}

proof fn lemma_first_repeat_prefix<A, B>(xs: Seq<A>, ys: Seq<B>, k: int)
    requires
        0 <= k <= xs.len(),
        xs.len() == ys.len(),
        first_repeat(xs.take(k), ys.take(k)) is Some,
    ensures
        first_repeat(xs, ys) == first_repeat(xs.take(k), ys.take(k)),
    decreases xs.len() - k,
{
    if k == xs.len() {
        assert(xs.take(k) =~= xs);
        assert(ys.take(k) =~= ys);
    } else {
        lemma_first_repeat_step(xs, ys, k);
        lemma_first_repeat_prefix(xs, ys, k + 1);
    }
}

/// Whether `ids` holds `id`.
fn holds_id(ids: &Vec<String>, id: &String) -> (r: bool)
    ensures
        r == ids@.map_values(|s: String| s@).contains(id@),
{
    let mut i: usize = 0;
    while i < ids.len()
        invariant
            i <= ids.len(),
            forall|j: int| 0 <= j < i ==> ids@[j]@ != id@,
        decreases ids.len() - i,
    {
        if str_eq(ids[i].as_str(), id.as_str()) {
            assert(ids@.map_values(|s: String| s@)[i as int] == id@);
            return true;
        }
        i = i + 1;
    }
    proof {
        let v = ids@.map_values(|s: String| s@);
        assert forall|j: int| 0 <= j < v.len() implies #[trigger] v[j] != id@ by {
            assert(v[j] == ids@[j]@);
        }
    }
    false
}

/// Checks that no two memory item refs share a compact id or a context index.
pub fn validate_memory_item_ref_uniqueness(refs: &Vec<CompactCheckpointMemoryItemRef>) -> (r: Result<(), SpineError>)
    ensures
        match first_repeat(memory_ref_ids(refs@), memory_ref_context_indices(refs@)) {
            None => r is Ok,
            Some((true, k)) => r matches Err(e) && store_error(e, "duplicate compact checkpoint memory item "@
                + refs@[k].compact_id@),
            Some((false, k)) => r matches Err(e) && store_error(e, "duplicate compact checkpoint memory item context index "@
                + dec(refs@[k].context_index as nat)),
        },
{
    let ghost xs = memory_ref_ids(refs@);
    let ghost ys = memory_ref_context_indices(refs@);
    let mut compact_ids: Vec<String> = Vec::new();
    let mut context_indices: BTreeSet<usize> = BTreeSet::new();
    let mut i: usize = 0;
    proof {
        assert(xs.take(0) =~= Seq::<Seq<char>>::empty());
        assert(ys.take(0) =~= Seq::<usize>::empty());
        assert(compact_ids@.map_values(|s: String| s@) =~= xs.take(0));
    }
    while i < refs.len()
        invariant
            i <= refs.len(),
            xs == memory_ref_ids(refs@),
            ys == memory_ref_context_indices(refs@),
            first_repeat(xs.take(i as int), ys.take(i as int)) is None,
            compact_ids@.map_values(|s: String| s@) == xs.take(i as int),
            forall|k: usize| context_indices@.contains(k) <==> ys.take(i as int).contains(k),
        decreases refs.len() - i,
    {
        proof {
            lemma_first_repeat_step(xs, ys, i as int);
        }
        let ctx = refs[i].context_index;
        assert(xs[i as int] == refs@[i as int].compact_id@ && ys[i as int] == ctx);
        if holds_id(&compact_ids, &refs[i].compact_id) {
            proof {
                lemma_first_repeat_prefix(xs, ys, i + 1);
            }
            let mut m = chars_of("duplicate compact checkpoint memory item ");
            push_str(&mut m, refs[i].compact_id.as_str());
            return Err(SpineError::InvalidStore(string_of(&m)));
        }
        let ghost before = compact_ids@;
        compact_ids.push(copy_string(&refs[i].compact_id));
        if !context_indices.insert(ctx) {
            proof {
                lemma_first_repeat_prefix(xs, ys, i + 1);
            }
            let mut m = chars_of("duplicate compact checkpoint memory item context index ");
            push_u64(&mut m, ctx as u64);
            return Err(SpineError::InvalidStore(string_of(&m)));
        }
        proof {
            assert(compact_ids@.map_values(|s: String| s@) =~= before.map_values(|s: String| s@).push(xs[i as int]));
            assert(xs.take(i + 1) =~= xs.take(i as int).push(xs[i as int]));
            assert(ys.take(i + 1) =~= ys.take(i as int).push(ctx));
        }
        i = i + 1;
    }
    proof {
        assert(xs.take(i as int) =~= xs);
        assert(ys.take(i as int) =~= ys);
    }
    Ok(())
}

/// Records that `kind` proves replacement-history item `context_index`; a
/// second proof for the same item is ambiguous (the map still takes the new
/// kind, as a map insert does).
pub fn insert_coverage(coverage: &mut BTreeMap<usize, &'static str>, context_index: usize, kind: &'static str) -> (r:
    Result<(), SpineError>)
    ensures
        final(coverage)@ == old(coverage)@.insert(context_index, kind),
        !old(coverage)@.contains_key(context_index) ==> r is Ok,
        old(coverage)@.contains_key(context_index) ==> (r matches Err(e) && store_error(e, "ambiguous compact checkpoint "@
            + old(coverage)@[context_index]@ + "/"@ + kind@ + " proof for replacement_history context index "@
            + dec(context_index as nat))),
{
    match coverage.insert(context_index, kind) {
        Some(existing) => {
            let mut m = chars_of("ambiguous compact checkpoint ");
            push_str(&mut m, existing);
            push_str(&mut m, "/");
            push_str(&mut m, kind);
            push_str(&mut m, " proof for replacement_history context index ");
            push_u64(&mut m, context_index as u64);
            Err(SpineError::InvalidStore(string_of(&m)))
        },
        None => Ok(()),
    }
}

// ----------------------------------------------------------------------------
// Item hashes
// ----------------------------------------------------------------------------
/// Encoded items joined by commas.
pub open spec fn join_commas(items: Seq<Seq<char>>) -> Seq<char>
    decreases items.len(),
{
    if items.len() == 0 {
        Seq::empty()
    } else if items.len() == 1 {
        items[0]
    } else {
        join_commas(items.drop_last()) + seq![','] + items.last()
    }
}

/// The compact JSON array of already-encoded items: `[a,b,c]`.
pub open spec fn json_array(items: Seq<Seq<char>>) -> Seq<char> {
    seq!['['] + join_commas(items) + seq![']']
}

/// The texts of some strings.
pub open spec fn texts(v: Seq<String>) -> Seq<Seq<char>> {
    v.map_values(|s: String| s@)
}

/// The hash of a list of items, given each item's JSON encoding: the SHA-1 of
/// the JSON array that holds them.
pub fn hash_encoded_items(encoded: &Vec<String>) -> (r: String)
    ensures
        r@ == sha1_hex(json_array(texts(encoded@))),
{
    let mut v: Vec<char> = Vec::new();
    v.push('[');
    let mut i: usize = 0;
    proof {
        assert(texts(encoded@).take(0) =~= Seq::<Seq<char>>::empty());
    }
    while i < encoded.len()
        invariant
            i <= encoded.len(),
            v@ == seq!['['] + join_commas(texts(encoded@).take(i as int)),
        decreases encoded.len() - i,
    {
        let ghost before = v@;
        if i > 0 {
            v.push(',');
        }
        let t = chars_of(encoded[i].as_str());
        crate::text::push_all(&mut v, &t);
        proof {
            let ts = texts(encoded@);
            assert(ts.take(i + 1).drop_last() =~= ts.take(i as int));
            assert(ts[i as int] == encoded@[i as int]@);
            if i == 0 {
                assert(ts.take(1).len() == 1);
                assert(join_commas(ts.take(1)) == ts[0]);
            }
            assert(v@ =~= seq!['['] + join_commas(ts.take(i + 1)));
        }
        i = i + 1;
    }
    v.push(']');
    proof {
        assert(texts(encoded@).take(i as int) =~= texts(encoded@));
        assert(v@ =~= json_array(texts(encoded@)));
    }
    sha1_hex_of(string_of(&v).as_str())
}

/// The hash of one item, given its JSON encoding.
pub open spec fn item_hash(encoded: Seq<char>) -> Seq<char> {
    sha1_hex(json_array(seq![encoded]))
}

/// The hash of one item, given its JSON encoding.
pub fn hash_encoded_item(encoded: &String) -> (r: String)
    ensures
        r@ == item_hash(encoded@),
{
    let mut one: Vec<String> = Vec::new();
    one.push(copy_string(encoded));
    proof {
        assert(texts(one@) =~= seq![encoded@]);
    }
    hash_encoded_items(&one)
}

// ----------------------------------------------------------------------------
// Validating a compact checkpoint's item proofs
// ----------------------------------------------------------------------------
/// What a sidecar records at a compaction: where it happened, hashes of the
/// raw liveness and of the model-visible history, and how each item of the
/// replacement history is proved.
#[derive(Debug)]
pub struct SpineCompactCheckpoint {
    pub version: u32,
    pub rollout_path: String,
    pub raw_boundary: u64,
    pub token_seq: u64,
    pub raw_live_hash: String,
    pub context_len: usize,
    pub h_ps_hash: String,
    pub replacement_history_hash: String,
    pub response_item_refs: Vec<CompactCheckpointResponseItemRef>,
    pub memory_item_refs: Vec<CompactCheckpointMemoryItemRef>,
    pub memory_refs: Vec<CheckpointMemoryRef>,
}

/// A response item ref proves its replacement item: its raw ordinal is before
/// the boundary and live, the raw item's hash is the recorded one, and the
/// replacement item at its context index hashes the same.
pub open spec fn response_ref_ok(
    boundary: u64,
    r: CompactCheckpointResponseItemRef,
    raw_live: Seq<bool>,
    raw_items: Seq<Option<String>>,
    repl: Seq<String>,
) -> bool {
    &&& r.raw_ordinal <= usize::MAX
    &&& boundary <= usize::MAX
    &&& r.raw_ordinal < boundary
    &&& r.raw_ordinal < raw_live.len() && raw_live[r.raw_ordinal as int]
    &&& r.raw_ordinal < raw_items.len() && raw_items[r.raw_ordinal as int] is Some
    &&& r.item_hash@ == item_hash(raw_items[r.raw_ordinal as int]->Some_0@)
    &&& r.context_index < repl.len()
    &&& item_hash(repl[r.context_index as int]@) == r.item_hash@
}

/// How many memory refs record compact id `id`.
pub open spec fn memory_ref_count(refs: Seq<CheckpointMemoryRef>, id: Seq<char>) -> nat
    decreases refs.len(),
{
    if refs.len() == 0 {
        0
    } else {
        memory_ref_count(refs.drop_last(), id) + if refs.last().compact_id@ == id {
            1nat
        } else {
            0nat
        }
    }
}

/// A memory item ref proves its replacement item: exactly one memory ref
/// records its compact id, and the replacement item at its context index has
/// the recorded hash.
pub open spec fn memory_ref_ok(memory_refs: Seq<CheckpointMemoryRef>, m: CompactCheckpointMemoryItemRef, repl: Seq<String>) -> bool {
    &&& memory_ref_count(memory_refs, m.compact_id@) == 1
    &&& m.context_index < repl.len()
    &&& m.item_hash@ == item_hash(repl[m.context_index as int]@)
}

/// The checkpoint proves the replacement history item by item: its length is
/// recorded, the refs are unique, every ref proves its item, no item is proved
/// twice and every item is proved.
pub open spec fn item_refs_valid(
    c: SpineCompactCheckpoint,
    raw_live: Seq<bool>,
    raw_items: Seq<Option<String>>,
    repl: Seq<String>,
) -> bool {
    let rs = c.response_item_refs@;
    let ms = c.memory_item_refs@;
    &&& c.context_len == repl.len()
    &&& first_repeat(ref_raw_ordinals(rs), ref_context_indices(rs)) is None
    &&& first_repeat(memory_ref_ids(ms), memory_ref_context_indices(ms)) is None
    &&& forall|i: int| 0 <= i < rs.len() ==> response_ref_ok(c.raw_boundary, #[trigger] rs[i], raw_live, raw_items, repl)
    &&& forall|j: int| 0 <= j < ms.len() ==> memory_ref_ok(c.memory_refs@, #[trigger] ms[j], repl)
    &&& forall|i: int, j: int|
        0 <= i < rs.len() && 0 <= j < ms.len() ==> #[trigger] rs[i].context_index != #[trigger] ms[j].context_index
    &&& forall|k: int| 0 <= k < repl.len() ==> #[trigger] proved_index(rs, ms, k)
}

/// Some ref proves replacement item `k`.
pub open spec fn proved_index(
    rs: Seq<CompactCheckpointResponseItemRef>,
    ms: Seq<CompactCheckpointMemoryItemRef>,
    k: int,
) -> bool {
    (exists|i: int| 0 <= i < rs.len() && rs[i].context_index == k) || (exists|j: int| 0 <= j < ms.len()
        && ms[j].context_index == k)
}

fn count_memory_refs(refs: &Vec<CheckpointMemoryRef>, id: &String) -> (r: usize)
    ensures
        r == memory_ref_count(refs@, id@),
{
    let mut n: usize = 0;
    let mut i: usize = 0;
    while i < refs.len()
        invariant
            i <= refs.len(),
            n == memory_ref_count(refs@.take(i as int), id@),
            n <= i,
        decreases refs.len() - i,
    {
        proof {
            assert(refs@.take(i + 1).drop_last() =~= refs@.take(i as int));
        }
        if str_eq(refs[i].compact_id.as_str(), id.as_str()) {
            n = n + 1;
        }
        i = i + 1;
    }
    assert(refs@.take(i as int) =~= refs@);
    n
}

fn invalid_store(head: &str, n: u64, tail: &str) -> (r: SpineError)
    ensures
        store_error(r, head@ + dec(n as nat) + tail@),
{
    let mut m = chars_of(head);
    push_u64(&mut m, n);
    push_str(&mut m, tail);
    SpineError::InvalidStore(string_of(&m))
}

fn invalid_store_two(head: &str, a: u64, mid: &str, b: u64) -> (r: SpineError)
    ensures
        store_error(r, head@ + dec(a as nat) + mid@ + dec(b as nat)),
{
    let mut m = chars_of(head);
    push_u64(&mut m, a);
    push_str(&mut m, mid);
    push_u64(&mut m, b);
    SpineError::InvalidStore(string_of(&m))
}

/// The error that the first failed check on response item ref `r` gives, in
/// the order the checks are made.
pub open spec fn response_ref_failure(
    boundary: u64,
    r: CompactCheckpointResponseItemRef,
    raw_live: Seq<bool>,
    raw_items: Seq<Option<String>>,
    repl: Seq<String>,
    e: SpineError,
) -> bool {
    let head = "compact checkpoint response item raw ordinal "@ + dec(r.raw_ordinal as nat);
    if r.raw_ordinal > usize::MAX {
        e matches SpineError::InvalidEvent(m) && m@ == "compact checkpoint raw ordinal overflow"@
    } else if boundary > usize::MAX {
        e matches SpineError::InvalidEvent(m) && m@ == "compact raw boundary overflow"@
    } else if r.raw_ordinal >= boundary {
        store_error(e, head + " exceeds raw boundary "@ + dec(boundary as nat))
    } else if !(r.raw_ordinal < raw_live.len() && raw_live[r.raw_ordinal as int]) {
        store_error(e, head + " is not live at raw boundary "@ + dec(boundary as nat))
    } else if !(r.raw_ordinal < raw_items.len() && raw_items[r.raw_ordinal as int] is Some) {
        store_error(e, head + " is missing from rollout"@)
    } else if r.item_hash@ != item_hash(raw_items[r.raw_ordinal as int]->Some_0@) {
        store_error(e, "compact checkpoint response item hash mismatch for raw ordinal "@ + dec(r.raw_ordinal as nat))
    } else if r.context_index >= repl.len() {
        store_error(e, "compact checkpoint response item context index "@ + dec(r.context_index as nat)
            + " exceeds replacement_history"@)
    } else {
        store_error(e, head + " does not match replacement_history context index "@ + dec(r.context_index as nat))
    }
}

/// The context indices that the response item refs prove.
pub open spec fn response_indices(rs: Seq<CompactCheckpointResponseItemRef>) -> Set<usize> {
    Set::new(|k: usize| exists|p: int| 0 <= p < rs.len() && rs[p].context_index == k)
}

/// What `validate_response_item_refs` returns once the length and the
/// uniqueness checks have passed: the error of the first response item ref
/// that fails, else that of the first memory item ref that fails, else that of
/// the first replacement item that nothing proves.
pub open spec fn validate_failure_after_uniqueness(
    c: SpineCompactCheckpoint,
    raw_live: Seq<bool>,
    raw_items: Seq<Option<String>>,
    repl: Seq<String>,
    r: Result<(), SpineError>,
) -> bool {
    let rs = c.response_item_refs@;
    let ms = c.memory_item_refs@;
    &&& forall|i: int|
        0 <= i < rs.len() && !response_ref_ok(c.raw_boundary, #[trigger] rs[i], raw_live, raw_items, repl)
        && (forall|p: int| 0 <= p < i ==> response_ref_ok(c.raw_boundary, rs[p], raw_live, raw_items, repl))
        ==> (r matches Err(e) && response_ref_failure(c.raw_boundary, rs[i], raw_live, raw_items, repl, e))
    &&& (forall|p: int| 0 <= p < rs.len() ==> response_ref_ok(c.raw_boundary, #[trigger] rs[p], raw_live, raw_items, repl))
        ==> {
        &&& forall|j: int|
            0 <= j < ms.len() && !#[trigger] memory_ref_clear(c.memory_refs@, ms, j, response_indices(rs), repl)
            && (forall|p: int| 0 <= p < j ==> memory_ref_clear(c.memory_refs@, ms, p, response_indices(rs), repl))
            ==> (r matches Err(e) && memory_ref_failure(c.memory_refs@, ms[j], repl,
                if response_indices(rs).contains(ms[j].context_index) { "response item"@ } else { "memory"@ }, e))
        &&& (forall|j: int| 0 <= j < ms.len() ==> #[trigger] memory_ref_clear(c.memory_refs@, ms, j, response_indices(rs), repl))
            ==> forall|k: int|
            0 <= k < repl.len() && !#[trigger] proved_index(rs, ms, k) && (forall|q: int| 0 <= q < k ==> proved_index(rs, ms, q))
            ==> (r matches Err(e) && store_error(e,
                "compact checkpoint missing response item or memory proof for replacement_history context index "@
                + dec(k as nat)))
    }
}

/// Checks one response item ref against the rollout and the replacement history.
fn check_response_item_ref(
    boundary: u64,
    reference: &CompactCheckpointResponseItemRef,
    raw_live: &Vec<bool>,
    raw_items: &Vec<Option<String>>,
    replacement_history: &Vec<String>,
) -> (r: Result<(), SpineError>)
    ensures
        r is Ok <==> response_ref_ok(boundary, *reference, raw_live@, raw_items@, replacement_history@),
        r matches Err(e) ==> response_ref_failure(boundary, *reference, raw_live@, raw_items@, replacement_history@, e),
{
    if reference.raw_ordinal > usize::MAX as u64 {
        return Err(SpineError::InvalidEvent(owned("compact checkpoint raw ordinal overflow")));
    }
    if boundary > usize::MAX as u64 {
        return Err(SpineError::InvalidEvent(owned("compact raw boundary overflow")));
    }
    let raw_index = reference.raw_ordinal as usize;
    if raw_index >= boundary as usize {
        return Err(invalid_store_two("compact checkpoint response item raw ordinal ", reference.raw_ordinal,
            " exceeds raw boundary ", boundary));
    }
    if raw_index >= raw_live.len() || !raw_live[raw_index] {
        return Err(invalid_store_two("compact checkpoint response item raw ordinal ", reference.raw_ordinal,
            " is not live at raw boundary ", boundary));
    }
    let raw_item = if raw_index < raw_items.len() {
        match &raw_items[raw_index] {
            Some(item) => item,
            None => {
                return Err(invalid_store("compact checkpoint response item raw ordinal ", reference.raw_ordinal,
                    " is missing from rollout"));
            },
        }
    } else {
        return Err(invalid_store("compact checkpoint response item raw ordinal ", reference.raw_ordinal,
            " is missing from rollout"));
    };
    let raw_hash = hash_encoded_item(raw_item);
    if !str_eq(reference.item_hash.as_str(), raw_hash.as_str()) {
        let e = invalid_store("compact checkpoint response item hash mismatch for raw ordinal ", reference.raw_ordinal, "");
        proof {
            reveal_strlit("");
            let m = "compact checkpoint response item hash mismatch for raw ordinal "@ + dec(reference.raw_ordinal as nat);
            assert(m + ""@ =~= m);
        }
        return Err(e);
    }
    if reference.context_index >= replacement_history.len() {
        return Err(invalid_store("compact checkpoint response item context index ", reference.context_index as u64,
            " exceeds replacement_history"));
    }
    let replacement_hash = hash_encoded_item(&replacement_history[reference.context_index]);
    if !str_eq(raw_hash.as_str(), replacement_hash.as_str()) {
        return Err(invalid_store_two("compact checkpoint response item raw ordinal ", reference.raw_ordinal,
            " does not match replacement_history context index ", reference.context_index as u64));
    }
    Ok(())
}

/// Checks each response item ref against the rollout and the replacement
/// history, then the memory item refs, then that every replacement item is
/// proved exactly once.
pub fn validate_response_item_refs(
    checkpoint: &SpineCompactCheckpoint,
    raw_live: &Vec<bool>,
    raw_items: &Vec<Option<String>>,
    replacement_history: &Vec<String>,
) -> (r: Result<(), SpineError>)
    ensures
        r is Ok <==> item_refs_valid(*checkpoint, raw_live@, raw_items@, replacement_history@),
        checkpoint.context_len != replacement_history@.len() ==> (r matches Err(e) && store_error(e,
            "spine compact checkpoint context length "@ + dec(checkpoint.context_len as nat)
                + " does not match replacement_history length "@ + dec(replacement_history@.len())
                + " at raw boundary "@ + dec(checkpoint.raw_boundary as nat))),
        checkpoint.context_len == replacement_history@.len() ==> match first_repeat(
            ref_raw_ordinals(checkpoint.response_item_refs@),
            ref_context_indices(checkpoint.response_item_refs@),
        ) {
            Some((true, k)) => r matches Err(e) && store_error(e, "duplicate compact checkpoint response item raw ordinal "@
                + dec(checkpoint.response_item_refs@[k].raw_ordinal as nat)),
            Some((false, k)) => r matches Err(e) && store_error(e, "duplicate compact checkpoint response item context index "@
                + dec(checkpoint.response_item_refs@[k].context_index as nat)),
            None => match first_repeat(
                memory_ref_ids(checkpoint.memory_item_refs@),
                memory_ref_context_indices(checkpoint.memory_item_refs@),
            ) {
                Some((true, k)) => r matches Err(e) && store_error(e, "duplicate compact checkpoint memory item "@
                    + checkpoint.memory_item_refs@[k].compact_id@),
                Some((false, k)) => r matches Err(e) && store_error(e, "duplicate compact checkpoint memory item context index "@
                    + dec(checkpoint.memory_item_refs@[k].context_index as nat)),
                None => validate_failure_after_uniqueness(*checkpoint, raw_live@, raw_items@, replacement_history@, r),
            },
        },
{
    let ghost rs = checkpoint.response_item_refs@;
    let ghost ms = checkpoint.memory_item_refs@;
    let ghost repl = replacement_history@;
    if checkpoint.context_len != replacement_history.len() {
        let mut m = chars_of("spine compact checkpoint context length ");
        push_u64(&mut m, checkpoint.context_len as u64);
        push_str(&mut m, " does not match replacement_history length ");
        push_u64(&mut m, replacement_history.len() as u64);
        push_str(&mut m, " at raw boundary ");
        push_u64(&mut m, checkpoint.raw_boundary);
        return Err(SpineError::InvalidStore(string_of(&m)));
    }
    validate_response_item_ref_uniqueness(&checkpoint.response_item_refs)?;
    validate_memory_item_ref_uniqueness(&checkpoint.memory_item_refs)?;
    let mut coverage: BTreeMap<usize, &'static str> = BTreeMap::new();
    let refs = &checkpoint.response_item_refs;
    let mut i: usize = 0;
    while i < refs.len()
        invariant
            i <= refs.len(),
            rs == refs@,
            rs == checkpoint.response_item_refs@,
            repl == replacement_history@,
            first_repeat(ref_raw_ordinals(rs), ref_context_indices(rs)) is None,
            first_repeat(memory_ref_ids(ms), memory_ref_context_indices(ms)) is None,
            ms == checkpoint.memory_item_refs@,
            checkpoint.context_len == repl.len(),
            forall|p: int| 0 <= p < i ==> response_ref_ok(checkpoint.raw_boundary, #[trigger] rs[p], raw_live@, raw_items@, repl),
            forall|k: usize| coverage@.contains_key(k) <==> exists|p: int| 0 <= p < i && rs[p].context_index == k,
            forall|k: usize| coverage@.contains_key(k) ==> (#[trigger] coverage@[k])@ == "response item"@,
        decreases refs.len() - i,
    {
        let reference = &refs[i];
        proof {
            if item_refs_valid(*checkpoint, raw_live@, raw_items@, repl) {
                lemma_valid_response_ref(*checkpoint, raw_live@, raw_items@, repl, i as int);
                assert(response_ref_ok(checkpoint.raw_boundary, rs[i as int], raw_live@, raw_items@, repl));
            }
        }
        match check_response_item_ref(checkpoint.raw_boundary, reference, raw_live, raw_items, replacement_history) {
            Ok(()) => {},
            Err(e) => {
                proof {
                    assert forall|j: int|
                        0 <= j < rs.len() && !response_ref_ok(checkpoint.raw_boundary, #[trigger] rs[j], raw_live@,
                            raw_items@, repl) && (forall|p: int| 0 <= p < j ==> response_ref_ok(checkpoint.raw_boundary,
                            rs[p], raw_live@, raw_items@, repl)) implies j == i by {
                        if j > i {
                            assert(response_ref_ok(checkpoint.raw_boundary, rs[i as int], raw_live@, raw_items@, repl));
                        }
                    }
                }
                return Err(e);
            },
        }
        let ghost before = coverage@;
        let inserted = insert_coverage(&mut coverage, reference.context_index, "response item");
        proof {
            if before.contains_key(reference.context_index) {
                let p = choose|p: int| 0 <= p < i && rs[p].context_index == reference.context_index;
                lemma_no_repeat_distinct(ref_raw_ordinals(rs), ref_context_indices(rs), p, i as int);
                assert(ref_context_indices(rs)[p] == ref_context_indices(rs)[i as int]);
            }
        }
        inserted?;
        proof {
            assert(response_ref_ok(checkpoint.raw_boundary, rs[i as int], raw_live@, raw_items@, repl));
            assert forall|k: usize| coverage@.contains_key(k) <==> exists|p: int| 0 <= p < i + 1 && rs[p].context_index == k by {
                if coverage@.contains_key(k) && k != reference.context_index {
                    assert(before.contains_key(k));
                }
                if exists|p: int| 0 <= p < i + 1 && rs[p].context_index == k {
                    let p = choose|p: int| 0 <= p < i + 1 && rs[p].context_index == k;
                    if p < i {
                        assert(before.contains_key(k));
                    }
                }
            }
        }
        i = i + 1;
    }
    let ghost resp_cov = coverage@;
    proof {
        assert(resp_cov.dom() =~= response_indices(rs));
    }
    let covered = cover_memory_item_refs(checkpoint, replacement_history, &mut coverage);
    match covered {
        Ok(()) => {},
        Err(e) => {
            proof {
                assert forall|j: int|
                    0 <= j < ms.len() && !#[trigger] memory_ref_clear(checkpoint.memory_refs@, ms, j, response_indices(rs), repl)
                    && (forall|p: int| 0 <= p < j ==> memory_ref_clear(checkpoint.memory_refs@, ms, p, response_indices(rs), repl))
                    implies (memory_ref_failure(checkpoint.memory_refs@, ms[j], repl,
                        if response_indices(rs).contains(ms[j].context_index) { "response item"@ } else { "memory"@ }, e)) by {
                    if resp_cov.contains_key(ms[j].context_index) {
                        assert(resp_cov[ms[j].context_index]@ == "response item"@);
                    }
                }
                if forall|j: int| 0 <= j < ms.len() ==> #[trigger] memory_ref_clear(checkpoint.memory_refs@, ms, j,
                    response_indices(rs), repl) {
                    assert forall|j: int| 0 <= j < ms.len() implies memory_ref_ok(checkpoint.memory_refs@, #[trigger] ms[j], repl)
                        && !resp_cov.contains_key(ms[j].context_index) by {
                        assert(memory_ref_clear(checkpoint.memory_refs@, ms, j, response_indices(rs), repl));
                    }
                    assert forall|a: int, b: int| 0 <= a < b < ms.len() implies ms[a].context_index != ms[b].context_index by {
                        assert(memory_ref_clear(checkpoint.memory_refs@, ms, b, response_indices(rs), repl));
                    }
                    assert(false);
                }
                if item_refs_valid(*checkpoint, raw_live@, raw_items@, repl) {
                    assert forall|j: int| 0 <= j < ms.len() implies memory_ref_ok(checkpoint.memory_refs@, #[trigger] ms[j], repl)
                        && !resp_cov.contains_key(ms[j].context_index) by {
                        if resp_cov.contains_key(ms[j].context_index) {
                            let p = choose|p: int| 0 <= p < rs.len() && rs[p].context_index == ms[j].context_index;
                            assert(rs[p].context_index != ms[j].context_index);
                        }
                    }
                    assert forall|a: int, b: int| 0 <= a < b < ms.len() implies ms[a].context_index != ms[b].context_index by {
                        lemma_no_repeat_distinct(memory_ref_ids(ms), memory_ref_context_indices(ms), a, b);
                        assert(memory_ref_context_indices(ms)[a] == ms[a].context_index);
                        assert(memory_ref_context_indices(ms)[b] == ms[b].context_index);
                    }
                }
            }
            return Err(e);
        },
    }
    proof {
        assert forall|j: int| 0 <= j < ms.len() implies #[trigger] memory_ref_clear(checkpoint.memory_refs@, ms, j,
            response_indices(rs), repl) by {
            assert forall|a: int| 0 <= a < j implies #[trigger] ms[a].context_index != ms[j].context_index by {}
        }
    }
    let mut k: usize = 0;
    while k < replacement_history.len()
        invariant
            k <= replacement_history.len(),
            forall|j: int| 0 <= j < ms.len() ==> #[trigger] memory_ref_clear(checkpoint.memory_refs@, ms, j,
                response_indices(rs), repl),
            rs == checkpoint.response_item_refs@,
            ms == checkpoint.memory_item_refs@,
            repl == replacement_history@,
            forall|q: usize| coverage@.contains_key(q) <==> (exists|p: int| 0 <= p < rs.len() && rs[p].context_index == q)
                || (exists|j: int| 0 <= j < ms.len() && ms[j].context_index == q),
            forall|q: int| 0 <= q < k ==> #[trigger] proved_index(rs, ms, q),
            first_repeat(ref_raw_ordinals(rs), ref_context_indices(rs)) is None,
            first_repeat(memory_ref_ids(ms), memory_ref_context_indices(ms)) is None,
            checkpoint.context_len == repl.len(),
            forall|p: int| 0 <= p < rs.len() ==> response_ref_ok(checkpoint.raw_boundary, #[trigger] rs[p], raw_live@, raw_items@, repl),
        decreases replacement_history.len() - k,
    {
        proof {
            if item_refs_valid(*checkpoint, raw_live@, raw_items@, repl) {
                assert(proved_index(rs, ms, k as int));
                if exists|p: int| 0 <= p < rs.len() && rs[p].context_index == k {
                } else {
                    assert(exists|jj: int| 0 <= jj < ms.len() && ms[jj].context_index == k);
                }
            }
        }
        if !coverage.contains_key(&k) {
            let e = invalid_store("compact checkpoint missing response item or memory proof for replacement_history context index ",
                k as u64, "");
            proof {
                reveal_strlit("");
                let m = "compact checkpoint missing response item or memory proof for replacement_history context index "@
                    + dec(k as nat);
                assert(m + ""@ =~= m);
                assert(!proved_index(rs, ms, k as int));
                assert forall|x: int|
                    0 <= x < repl.len() && !#[trigger] proved_index(rs, ms, x) && (forall|q: int| 0 <= q < x ==> proved_index(rs, ms, q))
                    implies x == k by {
                    if x > k {
                        assert(proved_index(rs, ms, k as int));
                    }
                }
            }
            return Err(e);
        }
        assert(proved_index(rs, ms, k as int));
        k = k + 1;
    }
    proof {
        assert forall|a: int, b: int|
            0 <= a < rs.len() && 0 <= b < ms.len() implies #[trigger] rs[a].context_index != #[trigger] ms[b].context_index by {
            if rs[a].context_index == ms[b].context_index {
                assert(resp_cov.contains_key(rs[a].context_index));
            }
        }
    }
    Ok(())
}

proof fn lemma_no_repeat_distinct<A, B>(xs: Seq<A>, ys: Seq<B>, p: int, q: int)
    requires
        xs.len() == ys.len(),
        0 <= p < q < xs.len(),
        first_repeat(xs, ys) is None,
    ensures
        xs[p] != xs[q],
        ys[p] != ys[q],
    decreases xs.len(),
{
    let n = xs.len() - 1;
    if q < n {
        assert(xs.drop_last()[p] == xs[p] && xs.drop_last()[q] == xs[q]);
        assert(ys.take(n)[p] == ys[p] && ys.take(n)[q] == ys[q]);
        lemma_no_repeat_distinct(xs.drop_last(), ys.take(n), p, q);
    } else {
        assert(xs.drop_last()[p] == xs[p]);
        assert(ys.take(n)[p] == ys[p]);
        if xs[p] == xs[q] {
            assert(xs.drop_last().contains(xs[n]));
        }
        if ys[p] == ys[q] {
            assert(ys.take(n).contains(ys[n]));
        }
    }
}

proof fn lemma_valid_response_ref(
    c: SpineCompactCheckpoint,
    raw_live: Seq<bool>,
    raw_items: Seq<Option<String>>,
    repl: Seq<String>,
    i: int,
)
    requires
        item_refs_valid(c, raw_live, raw_items, repl),
        0 <= i < c.response_item_refs@.len(),
    ensures
        response_ref_ok(c.raw_boundary, c.response_item_refs@[i], raw_live, raw_items, repl),
{
    let rs = c.response_item_refs@;
    assert(response_ref_ok(c.raw_boundary, rs[i], raw_live, raw_items, repl));
}

/// Memory item ref `j` passes every check against the refs before it and the
/// items already proved (`taken`).
pub open spec fn memory_ref_clear(
    memory_refs: Seq<CheckpointMemoryRef>,
    ms: Seq<CompactCheckpointMemoryItemRef>,
    j: int,
    taken: Set<usize>,
    repl: Seq<String>,
) -> bool {
    &&& memory_ref_ok(memory_refs, ms[j], repl)
    &&& !taken.contains(ms[j].context_index)
    &&& forall|a: int| 0 <= a < j ==> #[trigger] ms[a].context_index != ms[j].context_index
}

/// The error that the first failed check on memory item ref `m` gives, in the
/// order the checks are made; `existing` names what already proved its item.
pub open spec fn memory_ref_failure(
    memory_refs: Seq<CheckpointMemoryRef>,
    m: CompactCheckpointMemoryItemRef,
    repl: Seq<String>,
    existing: Seq<char>,
    e: SpineError,
) -> bool {
    if memory_ref_count(memory_refs, m.compact_id@) != 1 {
        store_error(e, "compact checkpoint memory item "@ + m.compact_id@ + " does not have exactly one MemoryRef"@)
    } else if m.context_index >= repl.len() {
        store_error(e, "compact checkpoint memory item context index "@ + dec(m.context_index as nat)
            + " exceeds replacement_history"@)
    } else if m.item_hash@ != item_hash(repl[m.context_index as int]@) {
        store_error(e, "compact checkpoint memory item "@ + m.compact_id@
            + " does not match replacement_history context index "@ + dec(m.context_index as nat))
    } else {
        store_error(e, "ambiguous compact checkpoint "@ + existing + "/"@ + "memory"@
            + " proof for replacement_history context index "@ + dec(m.context_index as nat))
    }
}

/// Checks one memory item ref against the memory refs and the replacement history.
fn check_memory_item_ref(
    memory_refs: &Vec<CheckpointMemoryRef>,
    reference: &CompactCheckpointMemoryItemRef,
    replacement_history: &Vec<String>,
) -> (r: Result<(), SpineError>)
    ensures
        r is Ok <==> memory_ref_ok(memory_refs@, *reference, replacement_history@),
        r matches Err(e) ==> memory_ref_failure(memory_refs@, *reference, replacement_history@, Seq::empty(), e),
{
    let count = count_memory_refs(memory_refs, &reference.compact_id);
    if count != 1 {
        let mut m = chars_of("compact checkpoint memory item ");
        push_str(&mut m, reference.compact_id.as_str());
        push_str(&mut m, " does not have exactly one MemoryRef");
        return Err(SpineError::InvalidStore(string_of(&m)));
    }
    if reference.context_index >= replacement_history.len() {
        return Err(invalid_store("compact checkpoint memory item context index ", reference.context_index as u64,
            " exceeds replacement_history"));
    }
    let h = hash_encoded_item(&replacement_history[reference.context_index]);
    if !str_eq(reference.item_hash.as_str(), h.as_str()) {
        let mut m = chars_of("compact checkpoint memory item ");
        push_str(&mut m, reference.compact_id.as_str());
        push_str(&mut m, " does not match replacement_history context index ");
        push_u64(&mut m, reference.context_index as u64);
        return Err(SpineError::InvalidStore(string_of(&m)));
    }
    Ok(())
}

proof fn lemma_first_unclear_memory_ref(
    mrefs: Seq<CheckpointMemoryRef>,
    ms: Seq<CompactCheckpointMemoryItemRef>,
    start: Set<usize>,
    repl: Seq<String>,
    j: int,
)
    requires
        0 <= j < ms.len(),
        !memory_ref_clear(mrefs, ms, j, start, repl),
        forall|p: int| 0 <= p < j ==> memory_ref_clear(mrefs, ms, p, start, repl),
    ensures
        forall|x: int|
            0 <= x < ms.len() && !#[trigger] memory_ref_clear(mrefs, ms, x, start, repl) && (forall|p: int|
                0 <= p < x ==> memory_ref_clear(mrefs, ms, p, start, repl)) ==> x == j,
{
    assert forall|x: int|
        0 <= x < ms.len() && !#[trigger] memory_ref_clear(mrefs, ms, x, start, repl) && (forall|p: int|
            0 <= p < x ==> memory_ref_clear(mrefs, ms, p, start, repl)) implies x == j by {
        if x > j {
            assert(memory_ref_clear(mrefs, ms, j, start, repl));
        }
        if x < j {
            assert(memory_ref_clear(mrefs, ms, x, start, repl));
        }
    }
}

/// Records the memory item refs in the coverage: each must have exactly one
/// memory ref and match its replacement item, and may not prove an item that
/// is already proved.
pub fn cover_memory_item_refs(
    checkpoint: &SpineCompactCheckpoint,
    replacement_history: &Vec<String>,
    coverage: &mut BTreeMap<usize, &'static str>,
) -> (r: Result<(), SpineError>)
    ensures
        r is Ok <==> ({
            let ms = checkpoint.memory_item_refs@;
            &&& forall|j: int| 0 <= j < ms.len() ==> memory_ref_ok(checkpoint.memory_refs@, #[trigger] ms[j], replacement_history@)
                && !old(coverage)@.contains_key(ms[j].context_index)
            &&& forall|a: int, b: int| 0 <= a < b < ms.len() ==> ms[a].context_index != ms[b].context_index
        }),
        r is Ok ==> forall|q: usize| #[trigger] final(coverage)@.contains_key(q) <==> old(coverage)@.contains_key(q)
            || exists|j: int| 0 <= j < checkpoint.memory_item_refs@.len() && checkpoint.memory_item_refs@[j].context_index == q,
        forall|j: int|
            0 <= j < checkpoint.memory_item_refs@.len()
            && !#[trigger] memory_ref_clear(checkpoint.memory_refs@, checkpoint.memory_item_refs@, j, old(coverage)@.dom(),
                replacement_history@)
            && (forall|p: int| 0 <= p < j ==> memory_ref_clear(checkpoint.memory_refs@, checkpoint.memory_item_refs@, p,
                old(coverage)@.dom(), replacement_history@))
            ==> (r matches Err(e) && memory_ref_failure(checkpoint.memory_refs@, checkpoint.memory_item_refs@[j],
                replacement_history@, if old(coverage)@.contains_key(checkpoint.memory_item_refs@[j].context_index) {
                    old(coverage)@[checkpoint.memory_item_refs@[j].context_index]@
                } else {
                    "memory"@
                }, e)),
{
    let ghost ms = checkpoint.memory_item_refs@;
    let ghost start = coverage@;
    let ghost mrefs = checkpoint.memory_refs@;
    let ghost repl = replacement_history@;
    let refs = &checkpoint.memory_item_refs;
    let mut j: usize = 0;
    while j < refs.len()
        invariant
            j <= refs.len(),
            ms == refs@,
            ms == checkpoint.memory_item_refs@,
            mrefs == checkpoint.memory_refs@,
            repl == replacement_history@,
            start == old(coverage)@,
            forall|p: int| 0 <= p < j ==> memory_ref_ok(checkpoint.memory_refs@, #[trigger] ms[p], replacement_history@)
                && !start.contains_key(ms[p].context_index),
            forall|a: int, b: int| 0 <= a < b < j ==> ms[a].context_index != ms[b].context_index,
            forall|q: usize| #[trigger] coverage@.contains_key(q) <==> start.contains_key(q) || exists|p: int| 0 <= p < j
                && ms[p].context_index == q,
            forall|q: usize| #[trigger] start.contains_key(q) ==> coverage@[q] == start[q],
            forall|q: usize| coverage@.contains_key(q) && !start.contains_key(q) ==> (#[trigger] coverage@[q])@ == "memory"@,
        decreases refs.len() - j,
    {
        let reference = &refs[j];
        proof {
            assert forall|p: int| 0 <= p < j implies memory_ref_clear(mrefs, ms, p, start.dom(), repl) by {
                assert forall|a: int| 0 <= a < p implies #[trigger] ms[a].context_index != ms[p].context_index by {}
            }
        }
        match check_memory_item_ref(&checkpoint.memory_refs, reference, replacement_history) {
            Ok(()) => {},
            Err(e) => {
                proof {
                    lemma_first_unclear_memory_ref(mrefs, ms, start.dom(), repl, j as int);
                }
                return Err(e);
            },
        }
        let ghost before = coverage@;
        let inserted = insert_coverage(coverage, reference.context_index, "memory");
        proof {
            if before.contains_key(reference.context_index) {
                if !start.contains_key(reference.context_index) {
                    let p = choose|p: int| 0 <= p < j && ms[p].context_index == reference.context_index;
                    assert(ms[p].context_index == ms[j as int].context_index);
                }
            }
        }
        match inserted {
            Ok(()) => {},
            Err(e) => {
                proof {
                    if !start.contains_key(reference.context_index) {
                        let p = choose|p: int| 0 <= p < j && ms[p].context_index == reference.context_index;
                        assert(ms[p].context_index == ms[j as int].context_index);
                        assert(!memory_ref_clear(mrefs, ms, j as int, start.dom(), repl));
                    }
                    lemma_first_unclear_memory_ref(mrefs, ms, start.dom(), repl, j as int);
                }
                return Err(e);
            },
        }
        proof {
            assert forall|q: usize| #[trigger] coverage@.contains_key(q) <==> start.contains_key(q) || exists|p: int| 0 <= p < j + 1
                && ms[p].context_index == q by {
                if coverage@.contains_key(q) && q != reference.context_index {
                    assert(before.contains_key(q));
                }
                if exists|p: int| 0 <= p < j + 1 && ms[p].context_index == q {
                    let p = choose|p: int| 0 <= p < j + 1 && ms[p].context_index == q;
                    if p < j {
                        assert(before.contains_key(q));
                    }
                }
            }
        }
        j = j + 1;
    }
    Ok(())
}


// ----------------------------------------------------------------------------
// Collecting the item proofs of a parse stack
// ----------------------------------------------------------------------------
/// The format version of the checkpoint sidecars that this library writes
/// and reads.
pub const CHECKPOINT_VERSION: u32 = 1;

/// A response item ref by its values.
pub open spec fn resp_views(refs: Seq<CompactCheckpointResponseItemRef>) -> Seq<(u64, usize, Seq<char>)> {
    refs.map_values(|r: CompactCheckpointResponseItemRef| (r.raw_ordinal, r.context_index, r.item_hash@))
}

/// A memory item ref by its values.
pub open spec fn mem_views(refs: Seq<CompactCheckpointMemoryItemRef>) -> Seq<(Seq<char>, usize, Seq<char>)> {
    refs.map_values(|r: CompactCheckpointMemoryItemRef| (r.compact_id@, r.context_index, r.item_hash@))
}

/// Where a walk over the visible items of a parse stack stands: the next
/// context index and the refs made so far; `None` once an item failed.
pub open spec fn walk_state(
    next: int,
    rs: Seq<CompactCheckpointResponseItemRef>,
    ms: Seq<CompactCheckpointMemoryItemRef>,
) -> Option<(int, Seq<(u64, usize, Seq<char>)>, Seq<(Seq<char>, usize, Seq<char>)>)> {
    Some((next, resp_views(rs), mem_views(ms)))
}

/// One visible response item: it must be a response item rendered at the
/// next context index, before the boundary, present in the rollout, and hash
/// like the context item there.
pub open spec fn resp_step(
    st: Option<(int, Seq<(u64, usize, Seq<char>)>, Seq<(Seq<char>, usize, Seq<char>)>)>,
    seg: SegRef,
    boundary: int,
    raw_items: Seq<Option<String>>,
    ctx: Seq<String>,
) -> Option<(int, Seq<(u64, usize, Seq<char>)>, Seq<(Seq<char>, usize, Seq<char>)>)> {
    match st {
        None => None,
        Some((k, rs, ms)) => match seg {
            SegRef::ResponseItem { raw_ordinal, context_index } => {
                if raw_ordinal <= usize::MAX && context_index == k && raw_ordinal < boundary && raw_ordinal
                    < raw_items.len() && raw_items[raw_ordinal as int] is Some && k < ctx.len() && item_hash(
                    raw_items[raw_ordinal as int]->Some_0@,
                ) == item_hash(ctx[k]@) {
                    Some(
                        (
                            k + 1,
                            rs.push((raw_ordinal, context_index, item_hash(raw_items[raw_ordinal as int]->Some_0@))),
                            ms,
                        ),
                    )
                } else {
                    None
                }
            },
            SegRef::Memory { .. } => None,
        },
    }
}

/// One visible memory: it stands at the next context index, which must exist.
pub open spec fn mem_step(
    st: Option<(int, Seq<(u64, usize, Seq<char>)>, Seq<(Seq<char>, usize, Seq<char>)>)>,
    id: Seq<char>,
    ctx: Seq<String>,
) -> Option<(int, Seq<(u64, usize, Seq<char>)>, Seq<(Seq<char>, usize, Seq<char>)>)> {
    match st {
        None => None,
        Some((k, rs, ms)) => if 0 <= k < ctx.len() {
            Some((k + 1, rs, ms.push((id, k as usize, item_hash(ctx[k]@)))))
        } else {
            None
        },
    }
}

/// The walk over the segments of a tool call, each a response item.
pub open spec fn segs_walk(
    st: Option<(int, Seq<(u64, usize, Seq<char>)>, Seq<(Seq<char>, usize, Seq<char>)>)>,
    segs: Seq<ToolCallSegment>,
    boundary: int,
    raw_items: Seq<Option<String>>,
    ctx: Seq<String>,
) -> Option<(int, Seq<(u64, usize, Seq<char>)>, Seq<(Seq<char>, usize, Seq<char>)>)>
    decreases segs.len(),
{
    if segs.len() == 0 {
        st
    } else {
        resp_step(segs_walk(st, segs.drop_last(), boundary, raw_items, ctx), segs.last().seg, boundary, raw_items, ctx)
    }
}

/// The walk over one node: a message leaf is its item (a response item or a
/// memory), a tool call its segments, a finished tree its memory.
pub open spec fn node_walk(
    st: Option<(int, Seq<(u64, usize, Seq<char>)>, Seq<(Seq<char>, usize, Seq<char>)>)>,
    node: SpineTreeNode,
    boundary: int,
    raw_items: Seq<Option<String>>,
    ctx: Seq<String>,
) -> Option<(int, Seq<(u64, usize, Seq<char>)>, Seq<(Seq<char>, usize, Seq<char>)>)> {
    match node {
        SpineTreeNode::MsgAsLeafNode { msg, .. } => match msg {
            SegRef::ResponseItem { .. } => resp_step(st, msg, boundary, raw_items, ctx),
            SegRef::Memory { memory_id, .. } => mem_step(st, memory_id@, ctx),
        },
        SpineTreeNode::SpineTree { memory, .. } => mem_step(st, memory.compact_id@, ctx),
        SpineTreeNode::ToolCallAsLeafNode { segments } => segs_walk(st, segments@, boundary, raw_items, ctx),
    }
}

/// The walk over a list of nodes, in order.
pub open spec fn nodes_walk(
    st: Option<(int, Seq<(u64, usize, Seq<char>)>, Seq<(Seq<char>, usize, Seq<char>)>)>,
    nodes: Seq<SpineTreeNode>,
    boundary: int,
    raw_items: Seq<Option<String>>,
    ctx: Seq<String>,
) -> Option<(int, Seq<(u64, usize, Seq<char>)>, Seq<(Seq<char>, usize, Seq<char>)>)>
    decreases nodes.len(),
{
    if nodes.len() == 0 {
        st
    } else {
        node_walk(nodes_walk(st, nodes.drop_last(), boundary, raw_items, ctx), nodes.last(), boundary, raw_items, ctx)
    }
}

/// The walk over one symbol: control symbols show nothing, root epochs show
/// the memory of the last one.
pub open spec fn symbol_walk(
    st: Option<(int, Seq<(u64, usize, Seq<char>)>, Seq<(Seq<char>, usize, Seq<char>)>)>,
    symbol: Symbol,
    boundary: int,
    raw_items: Seq<Option<String>>,
    ctx: Seq<String>,
) -> Option<(int, Seq<(u64, usize, Seq<char>)>, Seq<(Seq<char>, usize, Seq<char>)>)> {
    match symbol {
        Symbol::Control(_) => st,
        Symbol::SpineTreeNode(node) => node_walk(st, node, boundary, raw_items, ctx),
        Symbol::SpineTreeNodes(nodes) => nodes_walk(st, nodes@, boundary, raw_items, ctx),
        Symbol::RootEpoches(epochs) => if epochs@.len() > 0 {
            mem_step(st, epochs@.last().memory.compact_id@, ctx)
        } else {
            st
        },
    }
}

/// The walk over a parse stack, bottom first.
pub open spec fn stack_walk(
    st: Option<(int, Seq<(u64, usize, Seq<char>)>, Seq<(Seq<char>, usize, Seq<char>)>)>,
    symbols: Seq<Symbol>,
    boundary: int,
    raw_items: Seq<Option<String>>,
    ctx: Seq<String>,
) -> Option<(int, Seq<(u64, usize, Seq<char>)>, Seq<(Seq<char>, usize, Seq<char>)>)>
    decreases symbols.len(),
{
    if symbols.len() == 0 {
        st
    } else {
        symbol_walk(stack_walk(st, symbols.drop_last(), boundary, raw_items, ctx), symbols.last(), boundary, raw_items, ctx)
    }
}

/// The item refs of a parse stack: the walk from context index 0 must
/// succeed, cover the whole context, and give unique refs.
pub open spec fn visible_refs_outcome(
    symbols: Seq<Symbol>,
    boundary: int,
    raw_items: Seq<Option<String>>,
    ctx: Seq<String>,
) -> Option<(Seq<(u64, usize, Seq<char>)>, Seq<(Seq<char>, usize, Seq<char>)>)> {
    match stack_walk(Some((0, Seq::empty(), Seq::empty())), symbols, boundary, raw_items, ctx) {
        Some((k, rv, mv)) => if k == ctx.len() && first_repeat(
            rv.map_values(|t: (u64, usize, Seq<char>)| t.0),
            rv.map_values(|t: (u64, usize, Seq<char>)| t.1),
        ) is None && first_repeat(
            mv.map_values(|t: (Seq<char>, usize, Seq<char>)| t.0),
            mv.map_values(|t: (Seq<char>, usize, Seq<char>)| t.1),
        ) is None {
            Some((rv, mv))
        } else {
            None
        },
        None => None,
    }
}

fn collect_visible_response_item_ref(
    seg: &SegRef,
    raw_boundary: usize,
    raw_items: &Vec<Option<String>>,
    context: &Vec<String>,
    next_context_index: &mut usize,
    response_item_refs: &mut Vec<CompactCheckpointResponseItemRef>,
    memory_item_refs: &Vec<CompactCheckpointMemoryItemRef>,
) -> (r: Result<(), SpineError>)
    ensures
        match r {
            Ok(()) => resp_step(walk_state(*old(next_context_index) as int, old(response_item_refs)@, memory_item_refs@), *seg,
                raw_boundary as int, raw_items@, context@) == walk_state(*final(next_context_index) as int,
                final(response_item_refs)@, memory_item_refs@),
            Err(e) => resp_step(walk_state(*old(next_context_index) as int, old(response_item_refs)@, memory_item_refs@), *seg,
                raw_boundary as int, raw_items@, context@) is None && e is InvalidEvent,
        },
{
    let (raw_ordinal, context_index) = match seg {
        SegRef::ResponseItem { raw_ordinal, context_index } => (*raw_ordinal, *context_index),
        SegRef::Memory { .. } => {
            return Err(SpineError::InvalidEvent(owned("compact checkpoint expected response item SegRef")));
        },
    };
    if raw_ordinal > usize::MAX as u64 {
        return Err(SpineError::InvalidEvent(owned("compact checkpoint raw ordinal overflow")));
    }
    let raw_index = raw_ordinal as usize;
    if context_index != *next_context_index {
        let mut m = chars_of("compact checkpoint response item raw ordinal ");
        push_u64(&mut m, raw_ordinal);
        push_str(&mut m, " has context index ");
        push_u64(&mut m, context_index as u64);
        push_str(&mut m, " but renders at ");
        push_u64(&mut m, *next_context_index as u64);
        return Err(SpineError::InvalidEvent(string_of(&m)));
    }
    if raw_index >= raw_boundary {
        let mut m = chars_of("compact checkpoint response item raw ordinal ");
        push_u64(&mut m, raw_ordinal);
        push_str(&mut m, " is outside raw boundary ");
        push_u64(&mut m, raw_boundary as u64);
        return Err(SpineError::InvalidEvent(string_of(&m)));
    }
    let raw_item = if raw_index < raw_items.len() {
        match &raw_items[raw_index] {
            Some(item) => item,
            None => {
                return Err(invalid_event_at("compact checkpoint response item raw ordinal ", raw_ordinal, " is not live"));
            },
        }
    } else {
        return Err(invalid_event_at("compact checkpoint response item raw ordinal ", raw_ordinal, " is not live"));
    };
    if *next_context_index >= context.len() {
        return Err(invalid_event_at("compact checkpoint response item context index ", *next_context_index as u64,
            " exceeds h(PS)"));
    }
    let item_hash = hash_encoded_item(raw_item);
    let context_hash = hash_encoded_item(&context[*next_context_index]);
    if !str_eq(item_hash.as_str(), context_hash.as_str()) {
        let mut m = chars_of("compact checkpoint response item raw ordinal ");
        push_u64(&mut m, raw_ordinal);
        push_str(&mut m, " does not match h(PS) context index ");
        push_u64(&mut m, context_index as u64);
        return Err(SpineError::InvalidEvent(string_of(&m)));
    }
    response_item_refs.push(CompactCheckpointResponseItemRef { raw_ordinal, context_index, item_hash });
    *next_context_index = *next_context_index + 1;
    proof {
        assert(resp_views(final(response_item_refs)@) =~= resp_views(old(response_item_refs)@).push(
            (raw_ordinal, context_index, item_hash@),
        ));
    }
    Ok(())
}

fn invalid_event_at(head: &str, n: u64, tail: &str) -> (r: SpineError)
    ensures
        r matches SpineError::InvalidEvent(m) && m@ == head@ + dec(n as nat) + tail@,
{
    let mut m = chars_of(head);
    push_u64(&mut m, n);
    push_str(&mut m, tail);
    SpineError::InvalidEvent(string_of(&m))
}

fn collect_memory_item_ref(
    compact_id: &String,
    context: &Vec<String>,
    next_context_index: &mut usize,
    response_item_refs: &Vec<CompactCheckpointResponseItemRef>,
    refs: &mut Vec<CompactCheckpointMemoryItemRef>,
) -> (r: Result<(), SpineError>)
    ensures
        match r {
            Ok(()) => mem_step(walk_state(*old(next_context_index) as int, response_item_refs@, old(refs)@), compact_id@, context@)
                == walk_state(*final(next_context_index) as int, response_item_refs@, final(refs)@),
            Err(e) => mem_step(walk_state(*old(next_context_index) as int, response_item_refs@, old(refs)@), compact_id@, context@) is None
                && e is InvalidEvent,
        },
{
    if *next_context_index >= context.len() {
        return Err(invalid_event_at("compact checkpoint memory item context index ", *next_context_index as u64,
            " exceeds h(PS)"));
    }
    let item_hash = hash_encoded_item(&context[*next_context_index]);
    refs.push(CompactCheckpointMemoryItemRef {
        compact_id: copy_string(compact_id),
        context_index: *next_context_index,
        item_hash,
    });
    proof {
        assert(mem_views(final(refs)@) =~= mem_views(old(refs)@).push(
            (compact_id@, *old(next_context_index), item_hash@),
        ));
    }
    *next_context_index = *next_context_index + 1;
    Ok(())
}


proof fn lemma_segs_from_none(segs: Seq<ToolCallSegment>, boundary: int, raw_items: Seq<Option<String>>, ctx: Seq<String>)
    ensures
        segs_walk(None, segs, boundary, raw_items, ctx) is None,
    decreases segs.len(),
{
    if segs.len() > 0 {
        lemma_segs_from_none(segs.drop_last(), boundary, raw_items, ctx);
    }
}

proof fn lemma_node_from_none(node: SpineTreeNode, boundary: int, raw_items: Seq<Option<String>>, ctx: Seq<String>)
    ensures
        node_walk(None, node, boundary, raw_items, ctx) is None,
{
    if let SpineTreeNode::ToolCallAsLeafNode { segments } = node {
        lemma_segs_from_none(segments@, boundary, raw_items, ctx);
    }
}

proof fn lemma_nodes_from_none(nodes: Seq<SpineTreeNode>, boundary: int, raw_items: Seq<Option<String>>, ctx: Seq<String>)
    ensures
        nodes_walk(None, nodes, boundary, raw_items, ctx) is None,
    decreases nodes.len(),
{
    if nodes.len() > 0 {
        lemma_nodes_from_none(nodes.drop_last(), boundary, raw_items, ctx);
        lemma_node_from_none(nodes.last(), boundary, raw_items, ctx);
    }
}

proof fn lemma_symbol_from_none(symbol: Symbol, boundary: int, raw_items: Seq<Option<String>>, ctx: Seq<String>)
    ensures
        symbol_walk(None, symbol, boundary, raw_items, ctx) is None,
{
    match symbol {
        Symbol::SpineTreeNode(node) => lemma_node_from_none(node, boundary, raw_items, ctx),
        Symbol::SpineTreeNodes(nodes) => lemma_nodes_from_none(nodes@, boundary, raw_items, ctx),
        _ => {},
    }
}

proof fn lemma_segs_prefix_none(
    st: Option<(int, Seq<(u64, usize, Seq<char>)>, Seq<(Seq<char>, usize, Seq<char>)>)>,
    segs: Seq<ToolCallSegment>,
    j: int,
    boundary: int,
    raw_items: Seq<Option<String>>,
    ctx: Seq<String>,
)
    requires
        0 <= j <= segs.len(),
        segs_walk(st, segs.take(j), boundary, raw_items, ctx) is None,
    ensures
        segs_walk(st, segs, boundary, raw_items, ctx) is None,
    decreases segs.len() - j,
{
    if j < segs.len() {
        assert(segs.take(j + 1).drop_last() =~= segs.take(j));
        lemma_segs_prefix_none(st, segs, j + 1, boundary, raw_items, ctx);
    } else {
        assert(segs.take(j) =~= segs);
    }
}

proof fn lemma_nodes_prefix_none(
    st: Option<(int, Seq<(u64, usize, Seq<char>)>, Seq<(Seq<char>, usize, Seq<char>)>)>,
    nodes: Seq<SpineTreeNode>,
    j: int,
    boundary: int,
    raw_items: Seq<Option<String>>,
    ctx: Seq<String>,
)
    requires
        0 <= j <= nodes.len(),
        nodes_walk(st, nodes.take(j), boundary, raw_items, ctx) is None,
    ensures
        nodes_walk(st, nodes, boundary, raw_items, ctx) is None,
    decreases nodes.len() - j,
{
    if j < nodes.len() {
        assert(nodes.take(j + 1).drop_last() =~= nodes.take(j));
        lemma_node_from_none(nodes.take(j + 1).last(), boundary, raw_items, ctx);
        lemma_nodes_prefix_none(st, nodes, j + 1, boundary, raw_items, ctx);
    } else {
        assert(nodes.take(j) =~= nodes);
    }
}

proof fn lemma_stack_prefix_none(
    st: Option<(int, Seq<(u64, usize, Seq<char>)>, Seq<(Seq<char>, usize, Seq<char>)>)>,
    symbols: Seq<Symbol>,
    j: int,
    boundary: int,
    raw_items: Seq<Option<String>>,
    ctx: Seq<String>,
)
    requires
        0 <= j <= symbols.len(),
        stack_walk(st, symbols.take(j), boundary, raw_items, ctx) is None,
    ensures
        stack_walk(st, symbols, boundary, raw_items, ctx) is None,
    decreases symbols.len() - j,
{
    if j < symbols.len() {
        assert(symbols.take(j + 1).drop_last() =~= symbols.take(j));
        lemma_symbol_from_none(symbols.take(j + 1).last(), boundary, raw_items, ctx);
        lemma_stack_prefix_none(st, symbols, j + 1, boundary, raw_items, ctx);
    } else {
        assert(symbols.take(j) =~= symbols);
    }
}

fn collect_visible_item_refs_from_node(
    node: &SpineTreeNode,
    raw_boundary: usize,
    raw_items: &Vec<Option<String>>,
    context: &Vec<String>,
    next_context_index: &mut usize,
    response_item_refs: &mut Vec<CompactCheckpointResponseItemRef>,
    memory_item_refs: &mut Vec<CompactCheckpointMemoryItemRef>,
) -> (r: Result<(), SpineError>)
    ensures
        match r {
            Ok(()) => node_walk(walk_state(*old(next_context_index) as int, old(response_item_refs)@, old(memory_item_refs)@),
                *node, raw_boundary as int, raw_items@, context@) == walk_state(*final(next_context_index) as int,
                final(response_item_refs)@, final(memory_item_refs)@),
            Err(e) => node_walk(walk_state(*old(next_context_index) as int, old(response_item_refs)@, old(memory_item_refs)@),
                *node, raw_boundary as int, raw_items@, context@) is None && e is InvalidEvent,
        },
{
    match node {
        SpineTreeNode::MsgAsLeafNode { msg, .. } => match msg {
            SegRef::ResponseItem { .. } => collect_visible_response_item_ref(
                msg,
                raw_boundary,
                raw_items,
                context,
                next_context_index,
                response_item_refs,
                memory_item_refs,
            ),
            SegRef::Memory { memory_id, .. } => collect_memory_item_ref(
                memory_id,
                context,
                next_context_index,
                response_item_refs,
                memory_item_refs,
            ),
        },
        SpineTreeNode::SpineTree { memory, .. } => collect_memory_item_ref(
            &memory.compact_id,
            context,
            next_context_index,
            response_item_refs,
            memory_item_refs,
        ),
        SpineTreeNode::ToolCallAsLeafNode { segments } => {
            let ghost start = walk_state(*next_context_index as int, response_item_refs@, memory_item_refs@);
            let mut i: usize = 0;
            proof {
                assert(segments@.take(0) =~= Seq::<ToolCallSegment>::empty());
            }
            while i < segments.len()
                invariant
                    i <= segments.len(),
                    start == walk_state(*old(next_context_index) as int, old(response_item_refs)@, old(memory_item_refs)@),
                    node_walk(start, *node, raw_boundary as int, raw_items@, context@) == segs_walk(start, segments@,
                        raw_boundary as int, raw_items@, context@),
                    segs_walk(start, segments@.take(i as int), raw_boundary as int, raw_items@, context@) == walk_state(
                        *next_context_index as int,
                        response_item_refs@,
                        memory_item_refs@,
                    ),
                decreases segments.len() - i,
            {
                let step = collect_visible_response_item_ref(
                    &segments[i].seg,
                    raw_boundary,
                    raw_items,
                    context,
                    next_context_index,
                    response_item_refs,
                    memory_item_refs,
                );
                proof {
                    assert(segments@.take(i + 1).drop_last() =~= segments@.take(i as int));
                }
                match step {
                    Ok(()) => {},
                    Err(e) => {
                        proof {
                            lemma_segs_prefix_none(start, segments@, i + 1, raw_boundary as int, raw_items@, context@);
                        }
                        return Err(e);
                    },
                }
                i = i + 1;
            }
            proof {
                assert(segments@.take(i as int) =~= segments@);
            }
            Ok(())
        },
    }
}

fn collect_visible_item_refs_from_symbol(
    symbol: &Symbol,
    raw_boundary: usize,
    raw_items: &Vec<Option<String>>,
    context: &Vec<String>,
    next_context_index: &mut usize,
    response_item_refs: &mut Vec<CompactCheckpointResponseItemRef>,
    memory_item_refs: &mut Vec<CompactCheckpointMemoryItemRef>,
) -> (r: Result<(), SpineError>)
    ensures
        match r {
            Ok(()) => symbol_walk(walk_state(*old(next_context_index) as int, old(response_item_refs)@, old(memory_item_refs)@),
                *symbol, raw_boundary as int, raw_items@, context@) == walk_state(*final(next_context_index) as int,
                final(response_item_refs)@, final(memory_item_refs)@),
            Err(e) => symbol_walk(walk_state(*old(next_context_index) as int, old(response_item_refs)@, old(memory_item_refs)@),
                *symbol, raw_boundary as int, raw_items@, context@) is None && e is InvalidEvent,
        },
{
    match symbol {
        Symbol::Control(_) => Ok(()),
        Symbol::SpineTreeNode(node) => collect_visible_item_refs_from_node(
            node,
            raw_boundary,
            raw_items,
            context,
            next_context_index,
            response_item_refs,
            memory_item_refs,
        ),
        Symbol::SpineTreeNodes(nodes) => {
            let ghost start = walk_state(*next_context_index as int, response_item_refs@, memory_item_refs@);
            let mut i: usize = 0;
            proof {
                assert(nodes@.take(0) =~= Seq::<SpineTreeNode>::empty());
            }
            while i < nodes.len()
                invariant
                    i <= nodes.len(),
                    start == walk_state(*old(next_context_index) as int, old(response_item_refs)@, old(memory_item_refs)@),
                    symbol_walk(start, *symbol, raw_boundary as int, raw_items@, context@) == nodes_walk(start, nodes@,
                        raw_boundary as int, raw_items@, context@),
                    nodes_walk(start, nodes@.take(i as int), raw_boundary as int, raw_items@, context@) == walk_state(
                        *next_context_index as int,
                        response_item_refs@,
                        memory_item_refs@,
                    ),
                decreases nodes.len() - i,
            {
                let step = collect_visible_item_refs_from_node(
                    &nodes[i],
                    raw_boundary,
                    raw_items,
                    context,
                    next_context_index,
                    response_item_refs,
                    memory_item_refs,
                );
                proof {
                    assert(nodes@.take(i + 1).drop_last() =~= nodes@.take(i as int));
                }
                match step {
                    Ok(()) => {},
                    Err(e) => {
                        proof {
                            lemma_nodes_prefix_none(start, nodes@, i + 1, raw_boundary as int, raw_items@, context@);
                        }
                        return Err(e);
                    },
                }
                i = i + 1;
            }
            proof {
                assert(nodes@.take(i as int) =~= nodes@);
            }
            Ok(())
        },
        Symbol::RootEpoches(epochs) => {
            if epochs.len() > 0 {
                collect_memory_item_ref(
                    &epochs[epochs.len() - 1].memory.compact_id,
                    context,
                    next_context_index,
                    response_item_refs,
                    memory_item_refs,
                )
            } else {
                Ok(())
            }
        },
    }
}

/// The item refs that prove the model-visible context item by item: a
/// response item ref for each visible response item, a memory item ref for
/// each visible memory, in render order.
pub fn collect_visible_item_refs(
    symbols: &Vec<Symbol>,
    raw_boundary: usize,
    raw_items: &Vec<Option<String>>,
    context: &Vec<String>,
) -> (r: Result<(Vec<CompactCheckpointResponseItemRef>, Vec<CompactCheckpointMemoryItemRef>), SpineError>)
    ensures
        r is Ok <==> visible_refs_outcome(symbols@, raw_boundary as int, raw_items@, context@) is Some,
        r matches Ok((rs, ms)) ==> visible_refs_outcome(symbols@, raw_boundary as int, raw_items@, context@) == Some(
            (resp_views(rs@), mem_views(ms@)),
        ),
{
    let mut response_item_refs: Vec<CompactCheckpointResponseItemRef> = Vec::new();
    let mut memory_item_refs: Vec<CompactCheckpointMemoryItemRef> = Vec::new();
    let mut next_context_index: usize = 0;
    let ghost start = walk_state(0, response_item_refs@, memory_item_refs@);
    proof {
        assert(resp_views(response_item_refs@) =~= Seq::empty());
        assert(mem_views(memory_item_refs@) =~= Seq::empty());
        assert(symbols@.take(0) =~= Seq::<Symbol>::empty());
    }
    let mut i: usize = 0;
    while i < symbols.len()
        invariant
            i <= symbols.len(),
            start == Some((0int, Seq::<(u64, usize, Seq<char>)>::empty(), Seq::<(Seq<char>, usize, Seq<char>)>::empty())),
            stack_walk(start, symbols@.take(i as int), raw_boundary as int, raw_items@, context@) == walk_state(
                next_context_index as int,
                response_item_refs@,
                memory_item_refs@,
            ),
        decreases symbols.len() - i,
    {
        let step = collect_visible_item_refs_from_symbol(
            &symbols[i],
            raw_boundary,
            raw_items,
            context,
            &mut next_context_index,
            &mut response_item_refs,
            &mut memory_item_refs,
        );
        proof {
            assert(symbols@.take(i + 1).drop_last() =~= symbols@.take(i as int));
        }
        match step {
            Ok(()) => {},
            Err(e) => {
                proof {
                    lemma_stack_prefix_none(start, symbols@, i + 1, raw_boundary as int, raw_items@, context@);
                }
                return Err(e);
            },
        }
        i = i + 1;
    }
    proof {
        assert(symbols@.take(i as int) =~= symbols@);
        let rv = resp_views(response_item_refs@);
        let mv = mem_views(memory_item_refs@);
        assert(rv.map_values(|t: (u64, usize, Seq<char>)| t.0) =~= ref_raw_ordinals(response_item_refs@));
        assert(rv.map_values(|t: (u64, usize, Seq<char>)| t.1) =~= ref_context_indices(response_item_refs@));
        assert(mv.map_values(|t: (Seq<char>, usize, Seq<char>)| t.0) =~= memory_ref_ids(memory_item_refs@));
        assert(mv.map_values(|t: (Seq<char>, usize, Seq<char>)| t.1) =~= memory_ref_context_indices(memory_item_refs@));
    }
    if next_context_index != context.len() {
        let mut m = chars_of("compact checkpoint item refs covered ");
        push_u64(&mut m, next_context_index as u64);
        push_str(&mut m, " context items but h(PS) has ");
        push_u64(&mut m, context.len() as u64);
        return Err(SpineError::InvalidEvent(string_of(&m)));
    }
    validate_response_item_ref_uniqueness(&response_item_refs)?;
    validate_memory_item_ref_uniqueness(&memory_item_refs)?;
    Ok((response_item_refs, memory_item_refs))
}


/// A message that names a raw boundary: `head` and the boundary.
pub open spec fn at_boundary(head: Seq<char>, boundary: u64) -> Seq<char> {
    head + dec(boundary as nat)
}

/// The hash of a list of items by their encodings.
pub open spec fn items_hash(encoded: Seq<String>) -> Seq<char> {
    sha1_hex(json_array(texts(encoded)))
}


/// What a compact checkpoint built at `raw_boundary` records.
pub open spec fn built_checkpoint(
    c: SpineCompactCheckpoint,
    rollout_path: Seq<char>,
    raw_boundary: u64,
    token_seq: u64,
    raw_live: Seq<bool>,
    raw_items: Seq<Option<String>>,
    symbols: Seq<Symbol>,
    context: Seq<String>,
    replacement_history: Seq<String>,
) -> bool {
    &&& c.version == CHECKPOINT_VERSION
    &&& c.rollout_path@ == rollout_path
    &&& c.raw_boundary == raw_boundary
    &&& c.token_seq == token_seq
    &&& c.raw_live_hash@ == sha1_hex(live_bits(raw_live.take(raw_boundary as int)))
    &&& c.context_len == context.len()
    &&& c.h_ps_hash@ == items_hash(context)
    &&& c.replacement_history_hash@ == items_hash(replacement_history)
    &&& visible_refs_outcome(symbols, raw_boundary as int, raw_items, context) == Some(
        (resp_views(c.response_item_refs@), mem_views(c.memory_item_refs@)),
    )
    &&& memories_recorded(c.memory_refs@, stack_memories(symbols))
}

/// A compact checkpoint holds for a rollout and a replacement history.
pub open spec fn compact_checkpoint_valid(
    c: SpineCompactCheckpoint,
    rollout_path: Seq<char>,
    raw_live: Seq<bool>,
    raw_items: Seq<Option<String>>,
    replacement_history: Seq<String>,
) -> bool {
    &&& c.version == CHECKPOINT_VERSION
    &&& c.raw_boundary <= raw_live.len()
    &&& c.rollout_path@ == rollout_path
    &&& c.raw_live_hash@ == sha1_hex(live_bits(raw_live.take(c.raw_boundary as int)))
    &&& c.replacement_history_hash@ == items_hash(replacement_history)
    &&& c.h_ps_hash@ == items_hash(replacement_history)
    &&& item_refs_valid(c, raw_live, raw_items, replacement_history)
}

/// The hash that a compact checkpoint records of a replacement history.
pub fn compact_checkpoint_replacement_history_hash(replacement_history: &Vec<String>) -> (r: String)
    ensures
        r@ == items_hash(replacement_history@),
{
    hash_encoded_items(replacement_history)
}

/// Records a compaction at `raw_boundary`: the rollout, the hash of the raw
/// liveness before the boundary, the hashes of the model-visible context and
/// of the replacement history, the memories of the parse stack, and the item
/// refs that prove the context item by item.
pub fn build_compact_checkpoint(
    rollout_path: &str,
    raw_boundary: u64,
    token_seq: u64,
    raw_live: &Vec<bool>,
    raw_items: &Vec<Option<String>>,
    symbols: &Vec<Symbol>,
    context: &Vec<String>,
    replacement_history: &Vec<String>,
) -> (r: Result<SpineCompactCheckpoint, SpineError>)
    ensures
        r is Ok <==> raw_boundary <= usize::MAX && raw_boundary <= raw_live@.len() && visible_refs_outcome(
            symbols@,
            raw_boundary as int,
            raw_items@,
            context@,
        ) is Some,
        raw_boundary > usize::MAX ==> (r matches Err(SpineError::InvalidEvent(m)) && m@ == "compact raw boundary overflow"@),
        raw_boundary <= usize::MAX && raw_boundary > raw_live@.len() ==> (r matches Err(SpineError::InvalidEvent(m)) && m@
            == "compact raw boundary exceeds raw live length"@),
        r matches Ok(c) ==> built_checkpoint(
            c,
            rollout_path@,
            raw_boundary,
            token_seq,
            raw_live@,
            raw_items@,
            symbols@,
            context@,
            replacement_history@,
        ),
{
    proof {
        reveal_strlit("compact raw boundary overflow");
        reveal_strlit("compact raw boundary exceeds raw live length");
    }
    if raw_boundary > usize::MAX as u64 {
        return Err(SpineError::InvalidEvent(owned("compact raw boundary overflow")));
    }
    let end = raw_boundary as usize;
    if end > raw_live.len() {
        return Err(SpineError::InvalidEvent(owned("compact raw boundary exceeds raw live length")));
    }
    let checkpoint_refs = collect_checkpoint_refs(symbols);
    let (response_item_refs, memory_item_refs) = collect_visible_item_refs(symbols, end, raw_items, context)?;
    let live = vstd::slice::slice_subrange(raw_live.as_slice(), 0, end);
    proof {
        assert(live@ =~= raw_live@.take(raw_boundary as int));
    }
    Ok(SpineCompactCheckpoint {
        version: CHECKPOINT_VERSION,
        rollout_path: owned(rollout_path),
        raw_boundary,
        token_seq,
        raw_live_hash: hash_raw_live(live),
        context_len: context.len(),
        h_ps_hash: hash_encoded_items(context),
        replacement_history_hash: hash_encoded_items(replacement_history),
        response_item_refs,
        memory_item_refs,
        memory_refs: checkpoint_refs.memory_refs,
    })
}

/// Checks a compact checkpoint against the rollout and the replacement
/// history it was recorded for: the version, the raw boundary, the rollout,
/// the raw liveness hash, the replacement history hash (which must also be the
/// recorded context hash), and the item refs.
pub fn validate_compact_checkpoint(
    checkpoint: &SpineCompactCheckpoint,
    rollout_path: &str,
    raw_live: &Vec<bool>,
    raw_items: &Vec<Option<String>>,
    replacement_history: &Vec<String>,
) -> (r: Result<(), SpineError>)
    ensures
        r is Ok <==> compact_checkpoint_valid(*checkpoint, rollout_path@, raw_live@, raw_items@, replacement_history@),
        checkpoint.version != CHECKPOINT_VERSION ==> (r matches Err(e) && store_error(
            e,
            "unsupported spine compact checkpoint version "@ + dec(checkpoint.version as nat),
        )),
        checkpoint.version == CHECKPOINT_VERSION && checkpoint.raw_boundary > usize::MAX ==> (r matches Err(
            SpineError::InvalidEvent(m),
        ) && m@ == "compact raw boundary overflow"@),
        checkpoint.version == CHECKPOINT_VERSION && checkpoint.raw_boundary <= usize::MAX && checkpoint.raw_boundary
            > raw_live@.len() ==> (r matches Err(e) && store_error(
            e,
            at_boundary("spine compact checkpoint raw boundary exceeds rollout at "@, checkpoint.raw_boundary),
        )),
        checkpoint.version == CHECKPOINT_VERSION && checkpoint.raw_boundary <= raw_live@.len()
            && checkpoint.rollout_path@ != rollout_path@ ==> (r matches Err(e) && store_error(
            e,
            at_boundary("spine compact checkpoint rollout identity mismatch at raw boundary "@, checkpoint.raw_boundary),
        )),
{
    proof {
        reveal_strlit("compact raw boundary overflow");
        reveal_strlit("");
        assert(forall|t: Seq<char>| t + ""@ =~= t);
    }
    let live_len = raw_live.len();
    if checkpoint.version != CHECKPOINT_VERSION {
        return Err(invalid_store("unsupported spine compact checkpoint version ", checkpoint.version as u64, ""));
    }
    if checkpoint.raw_boundary > usize::MAX as u64 {
        return Err(SpineError::InvalidEvent(owned("compact raw boundary overflow")));
    }
    let end = checkpoint.raw_boundary as usize;
    if end > live_len {
        return Err(invalid_store("spine compact checkpoint raw boundary exceeds rollout at ", checkpoint.raw_boundary, ""));
    }
    if !str_eq(checkpoint.rollout_path.as_str(), rollout_path) {
        return Err(invalid_store("spine compact checkpoint rollout identity mismatch at raw boundary ",
            checkpoint.raw_boundary, ""));
    }
    let live = vstd::slice::slice_subrange(raw_live.as_slice(), 0, end);
    proof {
        assert(live@ =~= raw_live@.take(checkpoint.raw_boundary as int));
    }
    let live_hash = hash_raw_live(live);
    if !str_eq(checkpoint.raw_live_hash.as_str(), live_hash.as_str()) {
        return Err(invalid_store("spine compact checkpoint raw boundary hash mismatch at raw boundary ",
            checkpoint.raw_boundary, ""));
    }
    let replacement_history_hash = hash_encoded_items(replacement_history);
    if !str_eq(checkpoint.replacement_history_hash.as_str(), replacement_history_hash.as_str()) {
        return Err(invalid_store("spine_jit replacement_history does not match sidecar compact checkpoint at raw boundary ",
            checkpoint.raw_boundary, ""));
    }
    if !str_eq(checkpoint.h_ps_hash.as_str(), replacement_history_hash.as_str()) {
        return Err(invalid_store("spine compact checkpoint h(PS) hash mismatch at raw boundary ",
            checkpoint.raw_boundary, ""));
    }
    validate_response_item_refs(checkpoint, raw_live, raw_items, replacement_history)
}


// ----------------------------------------------------------------------------
// What is built validates
// ----------------------------------------------------------------------------
/// What holds of every state of a successful walk: the refs made so far prove
/// context items `0..k`, each exactly once, and agree with the rollout.
pub open spec fn walk_inv(
    st: (int, Seq<(u64, usize, Seq<char>)>, Seq<(Seq<char>, usize, Seq<char>)>),
    boundary: int,
    raw_items: Seq<Option<String>>,
    ctx: Seq<String>,
) -> bool {
    let (k, rv, mv) = st;
    &&& 0 <= k <= ctx.len() <= usize::MAX
    &&& forall|i: int|
        0 <= i < rv.len() ==> {
            let t = #[trigger] rv[i];
            &&& t.0 < boundary
            &&& t.0 < raw_items.len()
            &&& raw_items[t.0 as int] is Some
            &&& t.2 == item_hash(raw_items[t.0 as int]->Some_0@)
            &&& t.1 < k
            &&& item_hash(ctx[t.1 as int]@) == t.2
        }
    &&& forall|j: int|
        0 <= j < mv.len() ==> {
            let t = #[trigger] mv[j];
            &&& t.1 < k
            &&& t.2 == item_hash(ctx[t.1 as int]@)
        }
    &&& forall|i: int, j: int| 0 <= i < rv.len() && 0 <= j < mv.len() ==> #[trigger] rv[i].1 != #[trigger] mv[j].1
    &&& forall|q: int|
        0 <= q < k ==> #[trigger] covered_index(rv, mv, q)
}

/// Some ref proves context item `q`.
pub open spec fn covered_index(
    rv: Seq<(u64, usize, Seq<char>)>,
    mv: Seq<(Seq<char>, usize, Seq<char>)>,
    q: int,
) -> bool {
    (exists|i: int| 0 <= i < rv.len() && rv[i].1 == q) || (exists|j: int| 0 <= j < mv.len() && mv[j].1 == q)
}

proof fn lemma_resp_step_inv(
    st: Option<(int, Seq<(u64, usize, Seq<char>)>, Seq<(Seq<char>, usize, Seq<char>)>)>,
    seg: SegRef,
    boundary: int,
    raw_items: Seq<Option<String>>,
    ctx: Seq<String>,
)
    requires
        st is Some,
        walk_inv(st->0, boundary, raw_items, ctx),
        resp_step(st, seg, boundary, raw_items, ctx) is Some,
    ensures
        walk_inv(resp_step(st, seg, boundary, raw_items, ctx)->0, boundary, raw_items, ctx),
{
    let (k, rv, mv) = st->0;
    let (k2, rv2, mv2) = resp_step(st, seg, boundary, raw_items, ctx)->0;
    assert(k2 == k + 1 && mv2 == mv && rv2.len() == rv.len() + 1);
    assert forall|i: int| 0 <= i < rv.len() implies rv2[i] == rv[i] by {}
    assert forall|q: int| 0 <= q < k2 implies #[trigger] covered_index(rv2, mv2, q) by {
        if q < k {
            assert(covered_index(rv, mv, q));
            if exists|i: int| 0 <= i < rv.len() && rv[i].1 == q {
                let i = choose|i: int| 0 <= i < rv.len() && rv[i].1 == q;
                assert(rv2[i] == rv[i]);
            }
        } else {
            assert(rv2[rv.len() as int].1 == q);
        }
    }
}

proof fn lemma_mem_step_inv(
    st: Option<(int, Seq<(u64, usize, Seq<char>)>, Seq<(Seq<char>, usize, Seq<char>)>)>,
    id: Seq<char>,
    boundary: int,
    raw_items: Seq<Option<String>>,
    ctx: Seq<String>,
)
    requires
        st is Some,
        walk_inv(st->0, boundary, raw_items, ctx),
        mem_step(st, id, ctx) is Some,
    ensures
        walk_inv(mem_step(st, id, ctx)->0, boundary, raw_items, ctx),
{
    let (k, rv, mv) = st->0;
    let (k2, rv2, mv2) = mem_step(st, id, ctx)->0;
    assert(k2 == k + 1 && rv2 == rv && mv2.len() == mv.len() + 1);
    assert forall|j: int| 0 <= j < mv.len() implies mv2[j] == mv[j] by {}
    assert forall|q: int| 0 <= q < k2 implies #[trigger] covered_index(rv2, mv2, q) by {
        if q < k {
            assert(covered_index(rv, mv, q));
            if exists|j: int| 0 <= j < mv.len() && mv[j].1 == q {
                let j = choose|j: int| 0 <= j < mv.len() && mv[j].1 == q;
                assert(mv2[j] == mv[j]);
            }
        } else {
            assert(mv2[mv.len() as int].1 == q);
        }
    }
}

proof fn lemma_segs_inv(
    st: Option<(int, Seq<(u64, usize, Seq<char>)>, Seq<(Seq<char>, usize, Seq<char>)>)>,
    segs: Seq<ToolCallSegment>,
    boundary: int,
    raw_items: Seq<Option<String>>,
    ctx: Seq<String>,
)
    requires
        st is Some,
        walk_inv(st->0, boundary, raw_items, ctx),
        segs_walk(st, segs, boundary, raw_items, ctx) is Some,
    ensures
        walk_inv(segs_walk(st, segs, boundary, raw_items, ctx)->0, boundary, raw_items, ctx),
    decreases segs.len(),
{
    if segs.len() > 0 {
        let prev = segs_walk(st, segs.drop_last(), boundary, raw_items, ctx);
        if prev is None {
            assert(resp_step(prev, segs.last().seg, boundary, raw_items, ctx) is None);
        }
        lemma_segs_inv(st, segs.drop_last(), boundary, raw_items, ctx);
        lemma_resp_step_inv(prev, segs.last().seg, boundary, raw_items, ctx);
    }
}

proof fn lemma_node_inv(
    st: Option<(int, Seq<(u64, usize, Seq<char>)>, Seq<(Seq<char>, usize, Seq<char>)>)>,
    node: SpineTreeNode,
    boundary: int,
    raw_items: Seq<Option<String>>,
    ctx: Seq<String>,
)
    requires
        st is Some,
        walk_inv(st->0, boundary, raw_items, ctx),
        node_walk(st, node, boundary, raw_items, ctx) is Some,
    ensures
        walk_inv(node_walk(st, node, boundary, raw_items, ctx)->0, boundary, raw_items, ctx),
{
    match node {
        SpineTreeNode::MsgAsLeafNode { msg, .. } => match msg {
            SegRef::ResponseItem { .. } => lemma_resp_step_inv(st, msg, boundary, raw_items, ctx),
            SegRef::Memory { memory_id, .. } => lemma_mem_step_inv(st, memory_id@, boundary, raw_items, ctx),
        },
        SpineTreeNode::SpineTree { memory, .. } => lemma_mem_step_inv(st, memory.compact_id@, boundary, raw_items, ctx),
        SpineTreeNode::ToolCallAsLeafNode { segments } => lemma_segs_inv(st, segments@, boundary, raw_items, ctx),
    }
}

proof fn lemma_nodes_inv(
    st: Option<(int, Seq<(u64, usize, Seq<char>)>, Seq<(Seq<char>, usize, Seq<char>)>)>,
    nodes: Seq<SpineTreeNode>,
    boundary: int,
    raw_items: Seq<Option<String>>,
    ctx: Seq<String>,
)
    requires
        st is Some,
        walk_inv(st->0, boundary, raw_items, ctx),
        nodes_walk(st, nodes, boundary, raw_items, ctx) is Some,
    ensures
        walk_inv(nodes_walk(st, nodes, boundary, raw_items, ctx)->0, boundary, raw_items, ctx),
    decreases nodes.len(),
{
    if nodes.len() > 0 {
        let prev = nodes_walk(st, nodes.drop_last(), boundary, raw_items, ctx);
        if prev is None {
            lemma_node_from_none(nodes.last(), boundary, raw_items, ctx);
        }
        lemma_nodes_inv(st, nodes.drop_last(), boundary, raw_items, ctx);
        lemma_node_inv(prev, nodes.last(), boundary, raw_items, ctx);
    }
}

proof fn lemma_stack_inv(
    st: Option<(int, Seq<(u64, usize, Seq<char>)>, Seq<(Seq<char>, usize, Seq<char>)>)>,
    symbols: Seq<Symbol>,
    boundary: int,
    raw_items: Seq<Option<String>>,
    ctx: Seq<String>,
)
    requires
        st is Some,
        walk_inv(st->0, boundary, raw_items, ctx),
        stack_walk(st, symbols, boundary, raw_items, ctx) is Some,
    ensures
        walk_inv(stack_walk(st, symbols, boundary, raw_items, ctx)->0, boundary, raw_items, ctx),
    decreases symbols.len(),
{
    if symbols.len() > 0 {
        let prev = stack_walk(st, symbols.drop_last(), boundary, raw_items, ctx);
        if prev is None {
            lemma_symbol_from_none(symbols.last(), boundary, raw_items, ctx);
        }
        lemma_stack_inv(st, symbols.drop_last(), boundary, raw_items, ctx);
        match symbols.last() {
            Symbol::Control(_) => {},
            Symbol::SpineTreeNode(node) => lemma_node_inv(prev, node, boundary, raw_items, ctx),
            Symbol::SpineTreeNodes(nodes) => lemma_nodes_inv(prev, nodes@, boundary, raw_items, ctx),
            Symbol::RootEpoches(epochs) => {
                if epochs@.len() > 0 {
                    lemma_mem_step_inv(prev, epochs@.last().memory.compact_id@, boundary, raw_items, ctx);
                }
            },
        }
    }
}

/// How many memories of a list have compact id `id`.
pub open spec fn memory_id_count(ms: Seq<MemoryRef>, id: Seq<char>) -> nat
    decreases ms.len(),
{
    if ms.len() == 0 {
        0
    } else {
        memory_id_count(ms.drop_last(), id) + if ms.last().compact_id@ == id {
            1nat
        } else {
            0nat
        }
    }
}

proof fn lemma_recorded_count(cs: Seq<CheckpointMemoryRef>, ms: Seq<MemoryRef>, id: Seq<char>)
    requires
        memories_recorded(cs, ms),
    ensures
        memory_ref_count(cs, id) == memory_id_count(ms, id),
    decreases cs.len(),
{
    if cs.len() > 0 {
        let n = cs.len() - 1;
        assert(memories_recorded(cs.drop_last(), ms.drop_last())) by {
            assert forall|i: int| 0 <= i < cs.drop_last().len() implies records_memory(
                #[trigger] cs.drop_last()[i],
                ms.drop_last()[i],
            ) by {
                assert(records_memory(cs[i], ms[i]));
            }
        }
        lemma_recorded_count(cs.drop_last(), ms.drop_last(), id);
        assert(records_memory(cs[n], ms[n]));
    }
}

/// A compact checkpoint as it is built, with its context as the replacement
/// history, passes validation against the same rollout, liveness and raw
/// items, provided every response item it refers to is live and every memory
/// it shows has exactly one memory on the parse stack.
pub proof fn lemma_built_compact_checkpoint_validates(
    c: SpineCompactCheckpoint,
    rollout_path: Seq<char>,
    raw_boundary: u64,
    token_seq: u64,
    raw_live: Seq<bool>,
    raw_items: Seq<Option<String>>,
    symbols: Seq<Symbol>,
    context: Seq<String>,
)
    requires
        raw_boundary <= usize::MAX,
        raw_boundary <= raw_live.len(),
        built_checkpoint(c, rollout_path, raw_boundary, token_seq, raw_live, raw_items, symbols, context, context),
        forall|i: int| 0 <= i < c.response_item_refs@.len() ==> raw_live[#[trigger] c.response_item_refs@[i].raw_ordinal as int],
        forall|j: int|
            0 <= j < c.memory_item_refs@.len() ==> memory_id_count(stack_memories(symbols), #[trigger] c.memory_item_refs@[j].compact_id@)
                == 1,
    ensures
        compact_checkpoint_valid(c, rollout_path, raw_live, raw_items, context),
{
    let b = raw_boundary as int;
    let rs = c.response_item_refs@;
    let ms = c.memory_item_refs@;
    let rv = resp_views(rs);
    let mv = mem_views(ms);
    let start = Some((0int, Seq::<(u64, usize, Seq<char>)>::empty(), Seq::<(Seq<char>, usize, Seq<char>)>::empty()));
    let fin = stack_walk(start, symbols, b, raw_items, context);
    lemma_stack_inv(start, symbols, b, raw_items, context);
    let (k, frv, fmv) = fin->0;
    assert(frv == rv && fmv == mv && k == context.len());
    assert(rv.map_values(|t: (u64, usize, Seq<char>)| t.0) =~= ref_raw_ordinals(rs));
    assert(rv.map_values(|t: (u64, usize, Seq<char>)| t.1) =~= ref_context_indices(rs));
    assert(mv.map_values(|t: (Seq<char>, usize, Seq<char>)| t.0) =~= memory_ref_ids(ms));
    assert(mv.map_values(|t: (Seq<char>, usize, Seq<char>)| t.1) =~= memory_ref_context_indices(ms));
    assert forall|i: int| 0 <= i < rs.len() implies response_ref_ok(c.raw_boundary, #[trigger] rs[i], raw_live, raw_items, context) by {
        assert(rv[i] == (rs[i].raw_ordinal, rs[i].context_index, rs[i].item_hash@));
    }
    assert forall|j: int| 0 <= j < ms.len() implies memory_ref_ok(c.memory_refs@, #[trigger] ms[j], context) by {
        assert(mv[j] == (ms[j].compact_id@, ms[j].context_index, ms[j].item_hash@));
        lemma_recorded_count(c.memory_refs@, stack_memories(symbols), ms[j].compact_id@);
    }
    assert forall|i: int, j: int|
        0 <= i < rs.len() && 0 <= j < ms.len() implies #[trigger] rs[i].context_index != #[trigger] ms[j].context_index by {
        assert(rv[i].1 == rs[i].context_index);
        assert(mv[j].1 == ms[j].context_index);
    }
    assert forall|q: int| 0 <= q < context.len() implies #[trigger] proved_index(rs, ms, q) by {
        assert(covered_index(rv, mv, q));
        if exists|i: int| 0 <= i < rv.len() && rv[i].1 == q {
            let i = choose|i: int| 0 <= i < rv.len() && rv[i].1 == q;
            assert(rs[i].context_index == q);
        } else {
            let j = choose|j: int| 0 <= j < mv.len() && mv[j].1 == q;
            assert(ms[j].context_index == q);
        }
    }
}

} // verus!
