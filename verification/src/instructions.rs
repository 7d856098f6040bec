//! The Spine section of the model's base instructions.
use crate::text::{
    chars_of, contains, contains_seq, has_prefix, occurs_at, push_all, push_str, rfind,
    slice_chars, string_of,
};
use vstd::prelude::*;

verus! {

/// The just-in-time Spine instructions appended to the base instructions.
pub const SPINE_JIT_INSTRUCTIONS: &'static str = r#"<spine_view>
All work must be Spine-managed. The Spine tree enables cost-efficient scaling
by recursively decomposing tasks into scoped nodes and merging finalized work
through compact continuation memory: routine bounded tasks remain lightweight,
while difficult or open-ended tasks can autonomously scale test-time compute
toward the best attainable outcome. Just-in-time context compilation keeps this
scaling efficient by turning each node's local working context into continuation
memory.

Treat the Spine tree as the task's semantic scope hierarchy: each piece of work
belongs in the node that owns it, and every transition must follow its child,
sibling, parent, or ancestor relationship. Use `$spine-plan-seed` when
long-running work benefits from a durable plan.

Core workflow:

1. Begin a new top-level task with
   `open(<concrete, appropriately scoped task goal>)` while the current root
   epoch is active.
2. Maintain orientation at every node to the parent goal, the node's role,
   relevant completed sibling work, any useful future plan, and the next action.
3. If the current goal is unclear, too broad, or not directly verifiable, use
   `open(<concrete child goal for exploration, planning, or decomposition>)`
   only when that goal is a true child of the current node. Recurse until the
   next work belongs in a focused, specific, and verifiable leaf node.
4. Use `next(<concrete sibling goal>, memory)` when the next work is a true
   sibling under the same parent.
5. Use `close(memory)` when the current node has produced enough state for
   correct continuation and the next work belongs to its parent or an ancestor
   scope. Each `close` returns to the immediate parent.

Conventions:

* Use at most one Spine transition per assistant turn. Ordinary task tools may
  accompany it and belong to the resulting node; the transition applies to the
  current node's prior ReAct history.
* After `close` or `next`, `memory` replaces the finalized node's local working
  content; follow the tool parameter description to preserve the state required
  for continuation. Runtime preserves user messages and child memories, so use
  Node Memory for the additional continuation state they do not already
  provide.
* Root epochs are synthetic containers and cannot be closed.
* `<spine_status>` provides current-node orientation. `<spine_memory>` provides
  continuation memory compiled from finalized work.
* Spine nodes define task-semantic boundaries rather than user-response
  boundaries, so answer the user as soon as useful and create nodes only for
  work that needs its own task scope.

</spine_view>
"#;

/// Where an earlier copy of the Spine section starts inside the base instructions.
pub const SPINE_VIEW_START_MARKER: &'static str = "\n\n<spine_view>";

/// The trim section; empty until its wording is settled.
pub const SPINE_TRIM_INSTRUCTIONS: &'static str = "";

/// `s` holds no `"\n\n<s"` at position `i` or later.
pub open spec fn marker_free_from(s: Seq<char>, i: nat) -> bool
    decreases s.len() - i,
{
    if i + 4 > s.len() {
        true
    } else {
        !(s[i as int] == '\n' && s[(i + 1) as int] == '\n' && s[(i + 2) as int] == '<' && s[(i + 3) as int] == 's')
            && marker_free_from(s, i + 1)
    }
}


/// `\n\n<s` never occurs from position `i` on, so neither does the start marker.
proof fn lemma_marker_free_no_marker(s: Seq<char>, i: nat)
    requires
        marker_free_from(s, i),
    ensures
        forall|q: int| i <= q ==> !occurs_at(s, SPINE_VIEW_START_MARKER@, q),
    decreases s.len() - i,
{
    reveal_strlit("\n\n<spine_view>");
    if i + 4 <= s.len() {
        lemma_marker_free_no_marker(s, i + 1);
        assert forall|q: int| i <= q implies !occurs_at(s, SPINE_VIEW_START_MARKER@, q) by {
            if q == i && occurs_at(s, SPINE_VIEW_START_MARKER@, q) {
                let w = s.subrange(q, q + 14);
                assert(w[0] == s[q] && w[1] == s[q + 1] && w[2] == s[q + 2] && w[3] == s[q + 3]);
            }
        }
    }
}

/// The start marker never occurs in the Spine instructions, nor in `"\n\n"` and them
/// after the first position.
proof fn lemma_marker_only_at_join(b: Seq<char>)
    ensures
        ({
            let r = b + "\n\n"@ + SPINE_JIT_INSTRUCTIONS@;
            &&& occurs_at(r, SPINE_VIEW_START_MARKER@, b.len() as int)
            &&& forall|q: int| b.len() < q ==> !occurs_at(r, SPINE_VIEW_START_MARKER@, q)
        }),
        forall|q: int| !occurs_at(SPINE_JIT_INSTRUCTIONS@, SPINE_VIEW_START_MARKER@, q),
{
    reveal_strlit("\n\n<spine_view>");
    reveal_strlit("\n\n");
    reveal_strlit("<spine_view>");
    lemma_jit_shape();
    let j = SPINE_JIT_INSTRUCTIONS@;
    let m = SPINE_VIEW_START_MARKER@;
    lemma_marker_free_no_marker(j, 0);
    let r = b + "\n\n"@ + j;
    let n = b.len() as int;
    assert(r.subrange(n, n + 14) =~= m) by {
        assert forall|k: int| 0 <= k < 14 implies r.subrange(n, n + 14)[k] == m[k] by {
            if k >= 2 {
                assert(j.subrange(0, 12)[k - 2] == j[k - 2]);
            }
        }
    }
    assert forall|q: int| n < q implies !occurs_at(r, m, q) by {
        if occurs_at(r, m, q) {
            if q == n + 1 {
                assert(r.subrange(q, q + 14)[1] == r[n + 2]);
                assert(j.subrange(0, 12)[0] == j[0]);
            } else {
                assert(occurs_at(j, m, q - n - 2)) by {
                    assert(j.subrange(q - n - 2, q - n + 12) =~= r.subrange(q, q + 14));
                }
            }
        }
    }
}

// ----------------------------------------------------------------------------
// Specification
// ----------------------------------------------------------------------------
/// `i` is the last position where `pat` occurs in `s`.
pub open spec fn last_occurrence_at(s: Seq<char>, pat: Seq<char>, i: int) -> bool {
    occurs_at(s, pat, i) && forall|j: int| i < j ==> !occurs_at(s, pat, j)
}

/// The base instructions cut at the start of their last Spine section, if they hold one.
pub open spec fn without_spine_view(base: Seq<char>) -> Seq<char> {
    if contains_seq(base, SPINE_VIEW_START_MARKER@) {
        base.take(choose|i: int| last_occurrence_at(base, SPINE_VIEW_START_MARKER@, i))
    } else {
        base
    }
}

/// `section` joined to `base` after a blank line, unless it is empty or already there.
pub open spec fn with_section_spec(base: Seq<char>, section: Seq<char>) -> Seq<char> {
    if section.len() == 0 || contains_seq(base, section) {
        base
    } else if base.len() == 0 {
        section
    } else {
        base + "\n\n"@ + section
    }
}

/// The base instructions with the enabled Spine sections.
pub open spec fn append_spec(base: Seq<char>, jit: bool, trim: bool) -> Seq<char> {
    if !jit && (!trim || SPINE_TRIM_INSTRUCTIONS@.len() == 0) {
        base
    } else {
        let with_jit = if jit {
            with_section_spec(without_spine_view(base), SPINE_JIT_INSTRUCTIONS@)
        } else {
            base
        };
        if trim {
            with_section_spec(with_jit, SPINE_TRIM_INSTRUCTIONS@)
        } else {
            with_jit
        }
    }
}

proof fn lemma_last_occurrence_chosen(s: Seq<char>, pat: Seq<char>, i: int)
    requires
        last_occurrence_at(s, pat, i),
    ensures
        (choose|k: int| last_occurrence_at(s, pat, k)) == i,
{
    let c = choose|k: int| last_occurrence_at(s, pat, k);
    assert(last_occurrence_at(s, pat, c));
    if c < i {
        assert(!occurs_at(s, pat, i));
    } else if c > i {
        assert(!occurs_at(s, pat, c));
    }
}

// ----------------------------------------------------------------------------
// Executable
// ----------------------------------------------------------------------------
/// `section` joined to `base` after a blank line, unless it is empty or already there.
fn with_section(base: Vec<char>, section: &Vec<char>) -> (r: Vec<char>)
    ensures
        r@ == with_section_spec(base@, section@),
{
    if section.len() == 0 || contains(&base, section) {
        return base;
    }
    let mut r = base;
    if r.len() > 0 {
        push_str(&mut r, "\n\n");
    }
    push_all(&mut r, section);
    r
}

/// Appends the enabled Spine sections to the base instructions.
///
/// With the just-in-time section enabled, an earlier Spine section (from its
/// last start marker on) is cut off first, and the section is added after a
/// blank line unless the rest already holds it. The trim section is empty, so
/// enabling it alone leaves the instructions as they are.
pub fn append(base_instructions: String, spine_jit_enabled: bool, spine_trim_enabled: bool) -> (r:
    String)
    ensures
        r@ == append_spec(base_instructions@, spine_jit_enabled, spine_trim_enabled),
{
    let trim_segment = chars_of(SPINE_TRIM_INSTRUCTIONS);
    if !spine_jit_enabled && (!spine_trim_enabled || trim_segment.len() == 0) {
        return base_instructions;
    }
    let mut b = chars_of(base_instructions.as_str());
    if spine_jit_enabled {
        let marker = chars_of(SPINE_VIEW_START_MARKER);
        match rfind(&b, &marker) {
            Some(start) => {
                proof {
                    lemma_last_occurrence_chosen(b@, marker@, start as int);
                }
                b = slice_chars(&b, 0, start);
            },
            None => {},
        }
        let jit = chars_of(SPINE_JIT_INSTRUCTIONS);
        b = with_section(b, &jit);
    }
    if spine_trim_enabled {
        b = with_section(b, &trim_segment);
    }
    string_of(&b)
}

// ----------------------------------------------------------------------------
// Laws
// ----------------------------------------------------------------------------
/// With the just-in-time section off, the base instructions come back unchanged,
/// whatever the trim flag says.
pub proof fn lemma_feature_off_is_identity(base: Seq<char>, trim: bool)
    ensures
        append_spec(base, false, trim) == base,
{
    reveal_strlit("");
}

/// Appending the trim section alone is the identity, so doing it twice changes nothing.
pub proof fn lemma_trim_alone_idempotent(base: Seq<char>)
    ensures
        append_spec(append_spec(base, false, true), false, true) == append_spec(base, false, true),
        append_spec(base, false, true) == base,
{
    reveal_strlit("");
}

/// With the just-in-time section on, the result holds the Spine instructions and
/// starts with the base cut at its last earlier Spine section.
pub proof fn lemma_enabled_holds_instructions(base: Seq<char>, trim: bool)
    ensures
        contains_seq(append_spec(base, true, trim), SPINE_JIT_INSTRUCTIONS@),
        has_prefix(append_spec(base, true, trim), without_spine_view(base)),
{
    reveal_strlit("");
    let b = without_spine_view(base);
    let j = SPINE_JIT_INSTRUCTIONS@;
    let r = append_spec(base, true, trim);
    lemma_jit_shape();
    if contains_seq(b, j) {
        assert(r == b);
        assert(r.subrange(0, b.len() as int) =~= b);
    } else if b.len() == 0 {
        assert(occurs_at(r, j, 0)) by {
            assert(r.subrange(0, j.len() as int) =~= j);
        }
        assert(r.subrange(0, 0) =~= b);
    } else {
        reveal_strlit("\n\n");
        let n = b.len() + 2int;
        assert(occurs_at(r, j, n)) by {
            assert(r.subrange(n, n + j.len()) =~= j);
        }
        assert(r.subrange(0, b.len() as int) =~= b);
    }
}

/// Enabling the just-in-time section twice gives what enabling it once gives, unless
/// the cut base already holds the Spine instructions and still a start marker before
/// them.
pub proof fn lemma_enabled_is_idempotent(base: Seq<char>, trim: bool)
    requires
        !(contains_seq(without_spine_view(base), SPINE_JIT_INSTRUCTIONS@) && contains_seq(
            without_spine_view(base),
            SPINE_VIEW_START_MARKER@,
        )),
    ensures
        append_spec(append_spec(base, true, trim), true, trim) == append_spec(base, true, trim),
{
    reveal_strlit("");
    reveal_strlit("\n\n");
    let b = without_spine_view(base);
    let j = SPINE_JIT_INSTRUCTIONS@;
    let m = SPINE_VIEW_START_MARKER@;
    let r = append_spec(base, true, trim);
    lemma_marker_only_at_join(b);
    lemma_jit_shape();
    if contains_seq(b, j) {
        assert(r == b);
        assert(without_spine_view(r) == b);
    } else if b.len() == 0 {
        assert(r == j);
        assert(!contains_seq(j, m));
        assert(without_spine_view(r) == j);
        assert(occurs_at(j, j, 0)) by {
            assert(j.subrange(0, j.len() as int) =~= j);
        }
    } else {
        assert(r == b + "\n\n"@ + j);
        assert(last_occurrence_at(r, m, b.len() as int));
        lemma_last_occurrence_chosen(r, m, b.len() as int);
        assert(without_spine_view(r) =~= b);
    }
}

/// Enabling the just-in-time section twice gives what enabling it once gives
/// exactly when either the cut base does not hold both the Spine instructions
/// and a start marker, or enabling the section on that cut base leaves it as it
/// is.
pub proof fn lemma_enabled_idempotent_exactly(base: Seq<char>, trim: bool)
    ensures
        append_spec(append_spec(base, true, trim), true, trim) == append_spec(base, true, trim) <==> (!(contains_seq(
            without_spine_view(base),
            SPINE_JIT_INSTRUCTIONS@,
        ) && contains_seq(without_spine_view(base), SPINE_VIEW_START_MARKER@)) || append_spec(
            without_spine_view(base),
            true,
            trim,
        ) == without_spine_view(base)),
{
    reveal_strlit("");
    let b = without_spine_view(base);
    if contains_seq(b, SPINE_JIT_INSTRUCTIONS@) && contains_seq(b, SPINE_VIEW_START_MARKER@) {
        lemma_jit_shape();
        assert(append_spec(base, true, trim) == b);
    } else {
        lemma_enabled_is_idempotent(base, trim);
    }
}

#[verifier::spinoff_prover]
#[verifier::rlimit(100)]
proof fn lemma_jit_marker_free_from_1800()
    ensures
        marker_free_from(SPINE_JIT_INSTRUCTIONS@, 1800),
{
    reveal_strlit(r#"<spine_view>
All work must be Spine-managed. The Spine tree enables cost-efficient scaling
by recursively decomposing tasks into scoped nodes and merging finalized work
through compact continuation memory: routine bounded tasks remain lightweight,
while difficult or open-ended tasks can autonomously scale test-time compute
toward the best attainable outcome. Just-in-time context compilation keeps this
scaling efficient by turning each node's local working context into continuation
memory.

Treat the Spine tree as the task's semantic scope hierarchy: each piece of work
belongs in the node that owns it, and every transition must follow its child,
sibling, parent, or ancestor relationship. Use `$spine-plan-seed` when
long-running work benefits from a durable plan.

Core workflow:

1. Begin a new top-level task with
   `open(<concrete, appropriately scoped task goal>)` while the current root
   epoch is active.
2. Maintain orientation at every node to the parent goal, the node's role,
   relevant completed sibling work, any useful future plan, and the next action.
3. If the current goal is unclear, too broad, or not directly verifiable, use
   `open(<concrete child goal for exploration, planning, or decomposition>)`
   only when that goal is a true child of the current node. Recurse until the
   next work belongs in a focused, specific, and verifiable leaf node.
4. Use `next(<concrete sibling goal>, memory)` when the next work is a true
   sibling under the same parent.
5. Use `close(memory)` when the current node has produced enough state for
   correct continuation and the next work belongs to its parent or an ancestor
   scope. Each `close` returns to the immediate parent.

Conventions:

* Use at most one Spine transition per assistant turn. Ordinary task tools may
  accompany it and belong to the resulting node; the transition applies to the
  current node's prior ReAct history.
* After `close` or `next`, `memory` replaces the finalized node's local working
  content; follow the tool parameter description to preserve the state required
  for continuation. Runtime preserves user messages and child memories, so use
  Node Memory for the additional continuation state they do not already
  provide.
* Root epochs are synthetic containers and cannot be closed.
* `<spine_status>` provides current-node orientation. `<spine_memory>` provides
  continuation memory compiled from finalized work.
* Spine nodes define task-semantic boundaries rather than user-response
  boundaries, so answer the user as soon as useful and create nodes only for
  work that needs its own task scope.

</spine_view>
"#);
    assert(marker_free_from(SPINE_JIT_INSTRUCTIONS@, 2625)) by {
        reveal_with_fuel(marker_free_from, 30);
    }
    assert(marker_free_from(SPINE_JIT_INSTRUCTIONS@, 2600)) by {
        reveal_with_fuel(marker_free_from, 26);
    }
    assert(marker_free_from(SPINE_JIT_INSTRUCTIONS@, 2575)) by {
        reveal_with_fuel(marker_free_from, 26);
    }
    assert(marker_free_from(SPINE_JIT_INSTRUCTIONS@, 2550)) by {
        reveal_with_fuel(marker_free_from, 26);
    }
    assert(marker_free_from(SPINE_JIT_INSTRUCTIONS@, 2525)) by {
        reveal_with_fuel(marker_free_from, 26);
    }
    assert(marker_free_from(SPINE_JIT_INSTRUCTIONS@, 2500)) by {
        reveal_with_fuel(marker_free_from, 26);
    }
    assert(marker_free_from(SPINE_JIT_INSTRUCTIONS@, 2475)) by {
        reveal_with_fuel(marker_free_from, 26);
    }
    assert(marker_free_from(SPINE_JIT_INSTRUCTIONS@, 2450)) by {
        reveal_with_fuel(marker_free_from, 26);
    }
    assert(marker_free_from(SPINE_JIT_INSTRUCTIONS@, 2425)) by {
        reveal_with_fuel(marker_free_from, 26);
    }
    assert(marker_free_from(SPINE_JIT_INSTRUCTIONS@, 2400)) by {
        reveal_with_fuel(marker_free_from, 26);
    }
    assert(marker_free_from(SPINE_JIT_INSTRUCTIONS@, 2375)) by {
        reveal_with_fuel(marker_free_from, 26);
    }
    assert(marker_free_from(SPINE_JIT_INSTRUCTIONS@, 2350)) by {
        reveal_with_fuel(marker_free_from, 26);
    }
    assert(marker_free_from(SPINE_JIT_INSTRUCTIONS@, 2325)) by {
        reveal_with_fuel(marker_free_from, 26);
    }
    assert(marker_free_from(SPINE_JIT_INSTRUCTIONS@, 2300)) by {
        reveal_with_fuel(marker_free_from, 26);
    }
    assert(marker_free_from(SPINE_JIT_INSTRUCTIONS@, 2275)) by {
        reveal_with_fuel(marker_free_from, 26);
    }
    assert(marker_free_from(SPINE_JIT_INSTRUCTIONS@, 2250)) by {
        reveal_with_fuel(marker_free_from, 26);
    }
    assert(marker_free_from(SPINE_JIT_INSTRUCTIONS@, 2225)) by {
        reveal_with_fuel(marker_free_from, 26);
    }
    assert(marker_free_from(SPINE_JIT_INSTRUCTIONS@, 2200)) by {
        reveal_with_fuel(marker_free_from, 26);
    }
    assert(marker_free_from(SPINE_JIT_INSTRUCTIONS@, 2175)) by {
        reveal_with_fuel(marker_free_from, 26);
    }
    assert(marker_free_from(SPINE_JIT_INSTRUCTIONS@, 2150)) by {
        reveal_with_fuel(marker_free_from, 26);
    }
    assert(marker_free_from(SPINE_JIT_INSTRUCTIONS@, 2125)) by {
        reveal_with_fuel(marker_free_from, 26);
    }
    assert(marker_free_from(SPINE_JIT_INSTRUCTIONS@, 2100)) by {
        reveal_with_fuel(marker_free_from, 26);
    }
    assert(marker_free_from(SPINE_JIT_INSTRUCTIONS@, 2075)) by {
        reveal_with_fuel(marker_free_from, 26);
    }
    assert(marker_free_from(SPINE_JIT_INSTRUCTIONS@, 2050)) by {
        reveal_with_fuel(marker_free_from, 26);
    }
    assert(marker_free_from(SPINE_JIT_INSTRUCTIONS@, 2025)) by {
        reveal_with_fuel(marker_free_from, 26);
    }
    assert(marker_free_from(SPINE_JIT_INSTRUCTIONS@, 2000)) by {
        reveal_with_fuel(marker_free_from, 26);
    }
    assert(marker_free_from(SPINE_JIT_INSTRUCTIONS@, 1975)) by {
        reveal_with_fuel(marker_free_from, 26);
    }
    assert(marker_free_from(SPINE_JIT_INSTRUCTIONS@, 1950)) by {
        reveal_with_fuel(marker_free_from, 26);
    }
    assert(marker_free_from(SPINE_JIT_INSTRUCTIONS@, 1925)) by {
        reveal_with_fuel(marker_free_from, 26);
    }
    assert(marker_free_from(SPINE_JIT_INSTRUCTIONS@, 1900)) by {
        reveal_with_fuel(marker_free_from, 26);
    }
    assert(marker_free_from(SPINE_JIT_INSTRUCTIONS@, 1875)) by {
        reveal_with_fuel(marker_free_from, 26);
    }
    assert(marker_free_from(SPINE_JIT_INSTRUCTIONS@, 1850)) by {
        reveal_with_fuel(marker_free_from, 26);
    }
    assert(marker_free_from(SPINE_JIT_INSTRUCTIONS@, 1825)) by {
        reveal_with_fuel(marker_free_from, 26);
    }
    assert(marker_free_from(SPINE_JIT_INSTRUCTIONS@, 1800)) by {
        reveal_with_fuel(marker_free_from, 26);
    }
}

#[verifier::spinoff_prover]
#[verifier::rlimit(100)]
proof fn lemma_jit_marker_free_from_900()
    requires
        marker_free_from(SPINE_JIT_INSTRUCTIONS@, 1800),
    ensures
        marker_free_from(SPINE_JIT_INSTRUCTIONS@, 900),
{
    reveal_strlit(r#"<spine_view>
All work must be Spine-managed. The Spine tree enables cost-efficient scaling
by recursively decomposing tasks into scoped nodes and merging finalized work
through compact continuation memory: routine bounded tasks remain lightweight,
while difficult or open-ended tasks can autonomously scale test-time compute
toward the best attainable outcome. Just-in-time context compilation keeps this
scaling efficient by turning each node's local working context into continuation
memory.

Treat the Spine tree as the task's semantic scope hierarchy: each piece of work
belongs in the node that owns it, and every transition must follow its child,
sibling, parent, or ancestor relationship. Use `$spine-plan-seed` when
long-running work benefits from a durable plan.

Core workflow:

1. Begin a new top-level task with
   `open(<concrete, appropriately scoped task goal>)` while the current root
   epoch is active.
2. Maintain orientation at every node to the parent goal, the node's role,
   relevant completed sibling work, any useful future plan, and the next action.
3. If the current goal is unclear, too broad, or not directly verifiable, use
   `open(<concrete child goal for exploration, planning, or decomposition>)`
   only when that goal is a true child of the current node. Recurse until the
   next work belongs in a focused, specific, and verifiable leaf node.
4. Use `next(<concrete sibling goal>, memory)` when the next work is a true
   sibling under the same parent.
5. Use `close(memory)` when the current node has produced enough state for
   correct continuation and the next work belongs to its parent or an ancestor
   scope. Each `close` returns to the immediate parent.

Conventions:

* Use at most one Spine transition per assistant turn. Ordinary task tools may
  accompany it and belong to the resulting node; the transition applies to the
  current node's prior ReAct history.
* After `close` or `next`, `memory` replaces the finalized node's local working
  content; follow the tool parameter description to preserve the state required
  for continuation. Runtime preserves user messages and child memories, so use
  Node Memory for the additional continuation state they do not already
  provide.
* Root epochs are synthetic containers and cannot be closed.
* `<spine_status>` provides current-node orientation. `<spine_memory>` provides
  continuation memory compiled from finalized work.
* Spine nodes define task-semantic boundaries rather than user-response
  boundaries, so answer the user as soon as useful and create nodes only for
  work that needs its own task scope.

</spine_view>
"#);
    assert(marker_free_from(SPINE_JIT_INSTRUCTIONS@, 1775)) by {
        reveal_with_fuel(marker_free_from, 26);
    }
    assert(marker_free_from(SPINE_JIT_INSTRUCTIONS@, 1750)) by {
        reveal_with_fuel(marker_free_from, 26);
    }
    assert(marker_free_from(SPINE_JIT_INSTRUCTIONS@, 1725)) by {
        reveal_with_fuel(marker_free_from, 26);
    }
    assert(marker_free_from(SPINE_JIT_INSTRUCTIONS@, 1700)) by {
        reveal_with_fuel(marker_free_from, 26);
    }
    assert(marker_free_from(SPINE_JIT_INSTRUCTIONS@, 1675)) by {
        reveal_with_fuel(marker_free_from, 26);
    }
    assert(marker_free_from(SPINE_JIT_INSTRUCTIONS@, 1650)) by {
        reveal_with_fuel(marker_free_from, 26);
    }
    assert(marker_free_from(SPINE_JIT_INSTRUCTIONS@, 1625)) by {
        reveal_with_fuel(marker_free_from, 26);
    }
    assert(marker_free_from(SPINE_JIT_INSTRUCTIONS@, 1600)) by {
        reveal_with_fuel(marker_free_from, 26);
    }
    assert(marker_free_from(SPINE_JIT_INSTRUCTIONS@, 1575)) by {
        reveal_with_fuel(marker_free_from, 26);
    }
    assert(marker_free_from(SPINE_JIT_INSTRUCTIONS@, 1550)) by {
        reveal_with_fuel(marker_free_from, 26);
    }
    assert(marker_free_from(SPINE_JIT_INSTRUCTIONS@, 1525)) by {
        reveal_with_fuel(marker_free_from, 26);
    }
    assert(marker_free_from(SPINE_JIT_INSTRUCTIONS@, 1500)) by {
        reveal_with_fuel(marker_free_from, 26);
    }
    assert(marker_free_from(SPINE_JIT_INSTRUCTIONS@, 1475)) by {
        reveal_with_fuel(marker_free_from, 26);
    }
    assert(marker_free_from(SPINE_JIT_INSTRUCTIONS@, 1450)) by {
        reveal_with_fuel(marker_free_from, 26);
    }
    assert(marker_free_from(SPINE_JIT_INSTRUCTIONS@, 1425)) by {
        reveal_with_fuel(marker_free_from, 26);
    }
    assert(marker_free_from(SPINE_JIT_INSTRUCTIONS@, 1400)) by {
        reveal_with_fuel(marker_free_from, 26);
    }
    assert(marker_free_from(SPINE_JIT_INSTRUCTIONS@, 1375)) by {
        reveal_with_fuel(marker_free_from, 26);
    }
    assert(marker_free_from(SPINE_JIT_INSTRUCTIONS@, 1350)) by {
        reveal_with_fuel(marker_free_from, 26);
    }
    assert(marker_free_from(SPINE_JIT_INSTRUCTIONS@, 1325)) by {
        reveal_with_fuel(marker_free_from, 26);
    }
    assert(marker_free_from(SPINE_JIT_INSTRUCTIONS@, 1300)) by {
        reveal_with_fuel(marker_free_from, 26);
    }
    assert(marker_free_from(SPINE_JIT_INSTRUCTIONS@, 1275)) by {
        reveal_with_fuel(marker_free_from, 26);
    }
    assert(marker_free_from(SPINE_JIT_INSTRUCTIONS@, 1250)) by {
        reveal_with_fuel(marker_free_from, 26);
    }
    assert(marker_free_from(SPINE_JIT_INSTRUCTIONS@, 1225)) by {
        reveal_with_fuel(marker_free_from, 26);
    }
    assert(marker_free_from(SPINE_JIT_INSTRUCTIONS@, 1200)) by {
        reveal_with_fuel(marker_free_from, 26);
    }
    assert(marker_free_from(SPINE_JIT_INSTRUCTIONS@, 1175)) by {
        reveal_with_fuel(marker_free_from, 26);
    }
    assert(marker_free_from(SPINE_JIT_INSTRUCTIONS@, 1150)) by {
        reveal_with_fuel(marker_free_from, 26);
    }
    assert(marker_free_from(SPINE_JIT_INSTRUCTIONS@, 1125)) by {
        reveal_with_fuel(marker_free_from, 26);
    }
    assert(marker_free_from(SPINE_JIT_INSTRUCTIONS@, 1100)) by {
        reveal_with_fuel(marker_free_from, 26);
    }
    assert(marker_free_from(SPINE_JIT_INSTRUCTIONS@, 1075)) by {
        reveal_with_fuel(marker_free_from, 26);
    }
    assert(marker_free_from(SPINE_JIT_INSTRUCTIONS@, 1050)) by {
        reveal_with_fuel(marker_free_from, 26);
    }
    assert(marker_free_from(SPINE_JIT_INSTRUCTIONS@, 1025)) by {
        reveal_with_fuel(marker_free_from, 26);
    }
    assert(marker_free_from(SPINE_JIT_INSTRUCTIONS@, 1000)) by {
        reveal_with_fuel(marker_free_from, 26);
    }
    assert(marker_free_from(SPINE_JIT_INSTRUCTIONS@, 975)) by {
        reveal_with_fuel(marker_free_from, 26);
    }
    assert(marker_free_from(SPINE_JIT_INSTRUCTIONS@, 950)) by {
        reveal_with_fuel(marker_free_from, 26);
    }
    assert(marker_free_from(SPINE_JIT_INSTRUCTIONS@, 925)) by {
        reveal_with_fuel(marker_free_from, 26);
    }
    assert(marker_free_from(SPINE_JIT_INSTRUCTIONS@, 900)) by {
        reveal_with_fuel(marker_free_from, 26);
    }
}

#[verifier::spinoff_prover]
#[verifier::rlimit(100)]
proof fn lemma_jit_marker_free_from_0()
    requires
        marker_free_from(SPINE_JIT_INSTRUCTIONS@, 900),
    ensures
        marker_free_from(SPINE_JIT_INSTRUCTIONS@, 0),
        SPINE_JIT_INSTRUCTIONS@.len() >= 12,
        SPINE_JIT_INSTRUCTIONS@.subrange(0, 12) == "<spine_view>"@,
{
    reveal_strlit(r#"<spine_view>
All work must be Spine-managed. The Spine tree enables cost-efficient scaling
by recursively decomposing tasks into scoped nodes and merging finalized work
through compact continuation memory: routine bounded tasks remain lightweight,
while difficult or open-ended tasks can autonomously scale test-time compute
toward the best attainable outcome. Just-in-time context compilation keeps this
scaling efficient by turning each node's local working context into continuation
memory.

Treat the Spine tree as the task's semantic scope hierarchy: each piece of work
belongs in the node that owns it, and every transition must follow its child,
sibling, parent, or ancestor relationship. Use `$spine-plan-seed` when
long-running work benefits from a durable plan.

Core workflow:

1. Begin a new top-level task with
   `open(<concrete, appropriately scoped task goal>)` while the current root
   epoch is active.
2. Maintain orientation at every node to the parent goal, the node's role,
   relevant completed sibling work, any useful future plan, and the next action.
3. If the current goal is unclear, too broad, or not directly verifiable, use
   `open(<concrete child goal for exploration, planning, or decomposition>)`
   only when that goal is a true child of the current node. Recurse until the
   next work belongs in a focused, specific, and verifiable leaf node.
4. Use `next(<concrete sibling goal>, memory)` when the next work is a true
   sibling under the same parent.
5. Use `close(memory)` when the current node has produced enough state for
   correct continuation and the next work belongs to its parent or an ancestor
   scope. Each `close` returns to the immediate parent.

Conventions:

* Use at most one Spine transition per assistant turn. Ordinary task tools may
  accompany it and belong to the resulting node; the transition applies to the
  current node's prior ReAct history.
* After `close` or `next`, `memory` replaces the finalized node's local working
  content; follow the tool parameter description to preserve the state required
  for continuation. Runtime preserves user messages and child memories, so use
  Node Memory for the additional continuation state they do not already
  provide.
* Root epochs are synthetic containers and cannot be closed.
* `<spine_status>` provides current-node orientation. `<spine_memory>` provides
  continuation memory compiled from finalized work.
* Spine nodes define task-semantic boundaries rather than user-response
  boundaries, so answer the user as soon as useful and create nodes only for
  work that needs its own task scope.

</spine_view>
"#);
    reveal_strlit("<spine_view>");
    assert(SPINE_JIT_INSTRUCTIONS@.subrange(0, 12) =~= "<spine_view>"@);
    assert(marker_free_from(SPINE_JIT_INSTRUCTIONS@, 875)) by {
        reveal_with_fuel(marker_free_from, 26);
    }
    assert(marker_free_from(SPINE_JIT_INSTRUCTIONS@, 850)) by {
        reveal_with_fuel(marker_free_from, 26);
    }
    assert(marker_free_from(SPINE_JIT_INSTRUCTIONS@, 825)) by {
        reveal_with_fuel(marker_free_from, 26);
    }
    assert(marker_free_from(SPINE_JIT_INSTRUCTIONS@, 800)) by {
        reveal_with_fuel(marker_free_from, 26);
    }
    assert(marker_free_from(SPINE_JIT_INSTRUCTIONS@, 775)) by {
        reveal_with_fuel(marker_free_from, 26);
    }
    assert(marker_free_from(SPINE_JIT_INSTRUCTIONS@, 750)) by {
        reveal_with_fuel(marker_free_from, 26);
    }
    assert(marker_free_from(SPINE_JIT_INSTRUCTIONS@, 725)) by {
        reveal_with_fuel(marker_free_from, 26);
    }
    assert(marker_free_from(SPINE_JIT_INSTRUCTIONS@, 700)) by {
        reveal_with_fuel(marker_free_from, 26);
    }
    assert(marker_free_from(SPINE_JIT_INSTRUCTIONS@, 675)) by {
        reveal_with_fuel(marker_free_from, 26);
    }
    assert(marker_free_from(SPINE_JIT_INSTRUCTIONS@, 650)) by {
        reveal_with_fuel(marker_free_from, 26);
    }
    assert(marker_free_from(SPINE_JIT_INSTRUCTIONS@, 625)) by {
        reveal_with_fuel(marker_free_from, 26);
    }
    assert(marker_free_from(SPINE_JIT_INSTRUCTIONS@, 600)) by {
        reveal_with_fuel(marker_free_from, 26);
    }
    assert(marker_free_from(SPINE_JIT_INSTRUCTIONS@, 575)) by {
        reveal_with_fuel(marker_free_from, 26);
    }
    assert(marker_free_from(SPINE_JIT_INSTRUCTIONS@, 550)) by {
        reveal_with_fuel(marker_free_from, 26);
    }
    assert(marker_free_from(SPINE_JIT_INSTRUCTIONS@, 525)) by {
        reveal_with_fuel(marker_free_from, 26);
    }
    assert(marker_free_from(SPINE_JIT_INSTRUCTIONS@, 500)) by {
        reveal_with_fuel(marker_free_from, 26);
    }
    assert(marker_free_from(SPINE_JIT_INSTRUCTIONS@, 475)) by {
        reveal_with_fuel(marker_free_from, 26);
    }
    assert(marker_free_from(SPINE_JIT_INSTRUCTIONS@, 450)) by {
        reveal_with_fuel(marker_free_from, 26);
    }
    assert(marker_free_from(SPINE_JIT_INSTRUCTIONS@, 425)) by {
        reveal_with_fuel(marker_free_from, 26);
    }
    assert(marker_free_from(SPINE_JIT_INSTRUCTIONS@, 400)) by {
        reveal_with_fuel(marker_free_from, 26);
    }
    assert(marker_free_from(SPINE_JIT_INSTRUCTIONS@, 375)) by {
        reveal_with_fuel(marker_free_from, 26);
    }
    assert(marker_free_from(SPINE_JIT_INSTRUCTIONS@, 350)) by {
        reveal_with_fuel(marker_free_from, 26);
    }
    assert(marker_free_from(SPINE_JIT_INSTRUCTIONS@, 325)) by {
        reveal_with_fuel(marker_free_from, 26);
    }
    assert(marker_free_from(SPINE_JIT_INSTRUCTIONS@, 300)) by {
        reveal_with_fuel(marker_free_from, 26);
    }
    assert(marker_free_from(SPINE_JIT_INSTRUCTIONS@, 275)) by {
        reveal_with_fuel(marker_free_from, 26);
    }
    assert(marker_free_from(SPINE_JIT_INSTRUCTIONS@, 250)) by {
        reveal_with_fuel(marker_free_from, 26);
    }
    assert(marker_free_from(SPINE_JIT_INSTRUCTIONS@, 225)) by {
        reveal_with_fuel(marker_free_from, 26);
    }
    assert(marker_free_from(SPINE_JIT_INSTRUCTIONS@, 200)) by {
        reveal_with_fuel(marker_free_from, 26);
    }
    assert(marker_free_from(SPINE_JIT_INSTRUCTIONS@, 175)) by {
        reveal_with_fuel(marker_free_from, 26);
    }
    assert(marker_free_from(SPINE_JIT_INSTRUCTIONS@, 150)) by {
        reveal_with_fuel(marker_free_from, 26);
    }
    assert(marker_free_from(SPINE_JIT_INSTRUCTIONS@, 125)) by {
        reveal_with_fuel(marker_free_from, 26);
    }
    assert(marker_free_from(SPINE_JIT_INSTRUCTIONS@, 100)) by {
        reveal_with_fuel(marker_free_from, 26);
    }
    assert(marker_free_from(SPINE_JIT_INSTRUCTIONS@, 75)) by {
        reveal_with_fuel(marker_free_from, 26);
    }
    assert(marker_free_from(SPINE_JIT_INSTRUCTIONS@, 50)) by {
        reveal_with_fuel(marker_free_from, 26);
    }
    assert(marker_free_from(SPINE_JIT_INSTRUCTIONS@, 25)) by {
        reveal_with_fuel(marker_free_from, 26);
    }
    assert(marker_free_from(SPINE_JIT_INSTRUCTIONS@, 0)) by {
        reveal_with_fuel(marker_free_from, 26);
    }
}

/// The Spine instructions start with `<spine_view>` and hold no `"\n\n<s"`.
proof fn lemma_jit_shape()
    ensures
        marker_free_from(SPINE_JIT_INSTRUCTIONS@, 0),
        SPINE_JIT_INSTRUCTIONS@.len() >= 12,
        SPINE_JIT_INSTRUCTIONS@.subrange(0, 12) == "<spine_view>"@,
{
    lemma_jit_marker_free_from_1800();
    lemma_jit_marker_free_from_900();
    lemma_jit_marker_free_from_0();
}

} // verus!
