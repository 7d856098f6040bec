//! Generated memory sections of a node's `memory.md` and the references that
//! tie an installed memory to the exact body it was compiled from.
//!
//! A memory file holds free text followed by generated sections, each opened
//! by the generated-section marker. Section `k` is the `k`-th piece after the
//! first marker; its body is what the hash covers: for an "Auto Compact"
//! section the text between the metadata block and the node summary, so that
//! audit paths in the metadata may move without changing the hash.
use crate::io::{sha1_hex, sha1_hex_of};
use crate::text::{
    chars_of, copy_string, dec, eq_chars, find_from, first_occurrence, has_prefix, is_digit,
    lemma_dec_digits, occurs_at, parse_unsigned, parse_unsigned_chars, push_all, push_str,
    slice_chars, starts_with, str_eq, string_of, unsigned_digits,
};
use vstd::prelude::*;

verus! {

/// Opens every generated section of a memory file.
pub const GENERATED_MEMORY_SECTION_MARKER: &'static str = "\n\n<!-- spine:auto-compact-generated -->\n";

/// Heading of an Auto Compact section.
pub const AUTO_COMPACT_HEADING: &'static str = "## Auto Compact\n\n";

/// Where the node summary of an Auto Compact section starts.
pub const NODE_SUMMARY_HEADING: &'static str = "\n\n## Node Summary";

/// The body hash recorded for a memory body: `sha1:` and the hex digest.
pub open spec fn body_hash_spec(body: Seq<char>) -> Seq<char> {
    "sha1:"@ + sha1_hex(body)
}

/// The body hash recorded for a memory body.
pub fn memory_body_hash(body: &str) -> (r: String)
    ensures
        r@ == body_hash_spec(body@),
{
    let digest = sha1_hex_of(body);
    let mut v = chars_of("sha1:");
    push_str(&mut v, digest.as_str());
    string_of(&v)
}

// ----------------------------------------------------------------------------
// Section ids
// ----------------------------------------------------------------------------
/// One generated section of one memory file.
#[derive(Debug, PartialEq, Eq)]
pub struct MemorySectionId {
    pub storage_ref: String,
    pub section_index: usize,
}

/// The text of a section id: `<storage>#section-<index>`.
pub open spec fn section_id_text(storage: Seq<char>, index: nat) -> Seq<char> {
    storage + "#section-"@ + dec(index)
}

/// The index a section id names for `storage`, if it is well formed.
pub open spec fn parse_section_index(id: Seq<char>, storage: Seq<char>) -> Option<nat> {
    let prefix = storage + "#section-"@;
    if has_prefix(id, prefix) {
        parse_unsigned(id.skip(prefix.len() as int), usize::MAX as nat)
    } else {
        None
    }
}

/// Two section ids name the same section.
pub open spec fn same_section(a: MemorySectionId, b: MemorySectionId) -> bool {
    a.storage_ref@ == b.storage_ref@ && a.section_index == b.section_index
}

impl MemorySectionId {
    pub fn new(storage_ref: String, section_index: usize) -> (r: Self)
        ensures
            r.storage_ref@ == storage_ref@,
            r.section_index == section_index,
    {
        MemorySectionId { storage_ref, section_index }
    }

    /// A copy of the id.
    pub fn duplicate(&self) -> (r: Self)
        ensures
            same_section(r, *self),
    {
        MemorySectionId { storage_ref: copy_string(&self.storage_ref), section_index: self.section_index }
    }

    /// Reads `<storage_ref>#section-<index>`; any other text is malformed.
    pub fn parse(memory_section_id: &str, storage_ref: String) -> (r: Result<Self, MemoryBodyError>)
        ensures
            match parse_section_index(memory_section_id@, storage_ref@) {
                Some(n) => r matches Ok(id) && id.storage_ref@ == storage_ref@ && id.section_index
                    == n,
                None => r matches Err(MemoryBodyError::MalformedSectionId { memory_section_id: m, storage_ref: s })
                    && m@ == memory_section_id@ && s@ == storage_ref@,
            },
    {
        let id = chars_of(memory_section_id);
        let mut prefix = chars_of(storage_ref.as_str());
        push_str(&mut prefix, "#section-");
        if !starts_with(&id, &prefix) {
            return Err(
                MemoryBodyError::MalformedSectionId {
                    memory_section_id: string_of(&id),
                    storage_ref,
                },
            );
        }
        let rest = slice_chars(&id, prefix.len(), id.len());
        assert(rest@ =~= id@.skip(prefix@.len() as int));
        match parse_unsigned_chars(&rest, usize::MAX as u64) {
            Some(n) => Ok(MemorySectionId::new(storage_ref, n as usize)),
            None => Err(
                MemoryBodyError::MalformedSectionId {
                    memory_section_id: string_of(&id),
                    storage_ref,
                },
            ),
        }
    }

    /// The id's text, `<storage_ref>#section-<index>`.
    pub fn to_string(&self) -> (r: String)
        ensures
            r@ == section_id_text(self.storage_ref@, self.section_index as nat),
    {
        let mut v = chars_of(self.storage_ref.as_str());
        push_str(&mut v, "#section-");
        let digits = crate::text::u64_decimal(self.section_index as u64);
        push_all(&mut v, &digits);
        string_of(&v)
    }
}

// ----------------------------------------------------------------------------
// Sections and errors
// ----------------------------------------------------------------------------
/// What an installed memory records of the body it was compiled from.
#[derive(Debug, PartialEq, Eq)]
pub struct MemoryBodyRef {
    pub section_id: MemorySectionId,
    pub body_hash: String,
}

/// A generated section as read from a memory file.
#[derive(Debug, PartialEq, Eq)]
pub struct GeneratedMemorySection {
    pub section_id: MemorySectionId,
    pub payload: String,
    pub body: String,
    pub body_hash: String,
}

/// Why a memory body reference does not verify.
#[derive(Debug, PartialEq, Eq)]
pub enum MemoryBodyError {
    MalformedSectionId { memory_section_id: String, storage_ref: String },
    MissingSection { section_id: MemorySectionId },
    StorageMismatch { section_id: MemorySectionId, expected: String, actual: String },
    BodyHashMismatch { section_id: MemorySectionId, expected: String, actual: String },
}

impl GeneratedMemorySection {
    /// The reference an install records for this section.
    pub fn body_ref(&self) -> (r: MemoryBodyRef)
        ensures
            same_section(r.section_id, self.section_id),
            r.body_hash@ == self.body_hash@,
    {
        MemoryBodyRef {
            section_id: self.section_id.duplicate(),
            body_hash: copy_string(&self.body_hash),
        }
    }
}

// ----------------------------------------------------------------------------
// Splitting a memory file
// ----------------------------------------------------------------------------
/// `i` is the first position at or after `from` where `pat` occurs.
pub open spec fn next_occurrence_at(s: Seq<char>, pat: Seq<char>, from: int, i: int) -> bool {
    from <= i && occurs_at(s, pat, i) && forall|j: int| from <= j < i ==> !occurs_at(s, pat, j)
}

/// The pieces of `s[from..]` between the occurrences of `pat`, matched from the
/// left without overlap (`str::split`).
pub open spec fn split_from(s: Seq<char>, pat: Seq<char>, from: int) -> Seq<Seq<char>>
    decreases s.len() - from,
{
    if pat.len() == 0 || from < 0 || from > s.len() {
        seq![s.subrange(from, s.len() as int)]
    } else if exists|i: int| next_occurrence_at(s, pat, from, i) {
        let i = choose|i: int| next_occurrence_at(s, pat, from, i);
        seq![s.subrange(from, i)] + split_from(s, pat, i + pat.len())
    } else {
        seq![s.subrange(from, s.len() as int)]
    }
}

proof fn lemma_next_occurrence_chosen(s: Seq<char>, pat: Seq<char>, from: int, i: int)
    requires
        next_occurrence_at(s, pat, from, i),
    ensures
        (choose|k: int| next_occurrence_at(s, pat, from, k)) == i,
{
    let c = choose|k: int| next_occurrence_at(s, pat, from, k);
    assert(next_occurrence_at(s, pat, from, c));
    if c < i {
        assert(!occurs_at(s, pat, c));
    } else if c > i {
        assert(!occurs_at(s, pat, i));
    }
}

/// The pieces of `s` between the non-overlapping occurrences of `pat`.
pub(crate) fn split_chars(s: &Vec<char>, pat: &Vec<char>) -> (r: Vec<Vec<char>>)
    requires
        pat.len() > 0,
    ensures
        r@.len() == split_from(s@, pat@, 0).len(),
        forall|k: int| 0 <= k < r@.len() ==> #[trigger] r@[k]@ == split_from(s@, pat@, 0)[k],
{
    let mut r: Vec<Vec<char>> = Vec::new();
    let mut from: usize = 0;
    let ghost mut done: Seq<Seq<char>> = Seq::empty();
    loop
        invariant
            pat.len() > 0,
            from <= s.len(),
            r@.len() == done.len(),
            forall|k: int| 0 <= k < r@.len() ==> #[trigger] r@[k]@ == done[k],
            done + split_from(s@, pat@, from as int) == split_from(s@, pat@, 0),
        decreases s.len() - from,
    {
        match find_from(s, pat, from) {
            Some(i) => {
                proof {
                    assert(next_occurrence_at(s@, pat@, from as int, i as int));
                    lemma_next_occurrence_chosen(s@, pat@, from as int, i as int);
                }
                let piece = slice_chars(s, from, i);
                proof {
                    let rest = split_from(s@, pat@, i + pat.len());
                    assert(split_from(s@, pat@, from as int) == seq![piece@] + rest);
                    assert(done + split_from(s@, pat@, from as int) =~= done.push(piece@) + rest);
                    done = done.push(piece@);
                }
                r.push(piece);
                from = i + pat.len();
            },
            None => {
                let piece = slice_chars(s, from, s.len());
                proof {
                    assert(!exists|i: int| next_occurrence_at(s@, pat@, from as int, i));
                    assert(split_from(s@, pat@, from as int) == seq![piece@]);
                    assert(done + split_from(s@, pat@, from as int) =~= done.push(piece@));
                    done = done.push(piece@);
                }
                r.push(piece);
                return r;
            },
        }
    }
}

// ----------------------------------------------------------------------------
// The hashed body of a section
// ----------------------------------------------------------------------------
/// `s` without its leading newlines.
pub open spec fn strip_leading_newlines(s: Seq<char>) -> Seq<char>
    decreases s.len(),
{
    if s.len() > 0 && s[0] == '\n' {
        strip_leading_newlines(s.drop_first())
    } else {
        s
    }
}

/// `s` without its trailing newlines.
pub open spec fn strip_trailing_newlines(s: Seq<char>) -> Seq<char>
    decreases s.len(),
{
    if s.len() > 0 && s.last() == '\n' {
        strip_trailing_newlines(s.drop_last())
    } else {
        s
    }
}

/// The part of a section payload that its hash covers.
///
/// For `## Auto Compact` sections (after any leading newlines): what follows
/// the metadata block (up to the first blank line) and precedes the node
/// summary heading, without surrounding newlines. Any other payload is hashed
/// whole.
pub open spec fn memory_body_spec(payload: Seq<char>) -> Seq<char> {
    let p = strip_leading_newlines(payload);
    if !has_prefix(p, AUTO_COMPACT_HEADING@) {
        payload
    } else {
        let after_heading = p.skip(AUTO_COMPACT_HEADING@.len() as int);
        match first_occurrence(after_heading, "\n\n"@) {
            None => payload,
            Some(m) => {
                let rest = after_heading.skip(m + 2);
                let end = match first_occurrence(rest, NODE_SUMMARY_HEADING@) {
                    Some(e) => e,
                    None => rest.len() as int,
                };
                strip_trailing_newlines(strip_leading_newlines(rest.take(end)))
            },
        }
    }
}

/// The first position in `v` that is not a newline.
fn leading_newlines_end(v: &Vec<char>) -> (i: usize)
    ensures
        i <= v.len(),
        strip_leading_newlines(v@) == v@.skip(i as int),
{
    let mut i: usize = 0;
    assert(v@.skip(0) =~= v@);
    while i < v.len() && v[i] == '\n'
        invariant
            i <= v.len(),
            strip_leading_newlines(v@) == strip_leading_newlines(v@.skip(i as int)),
        decreases v.len() - i,
    {
        assert(v@.skip(i as int).drop_first() =~= v@.skip(i + 1));
        i = i + 1;
    }
    assert(i < v.len() ==> v@.skip(i as int)[0] == v@[i as int]);
    i
}

/// One past the last position in `v[..end]` that is not a newline.
fn trailing_newlines_start(v: &Vec<char>, start: usize, end: usize) -> (j: usize)
    requires
        start <= end <= v.len(),
    ensures
        start <= j <= end,
        strip_trailing_newlines(v@.subrange(start as int, end as int)) == v@.subrange(
            start as int,
            j as int,
        ),
{
    let mut j = end;
    assert(v@.subrange(start as int, j as int) =~= v@.subrange(start as int, end as int));
    while j > start && v[j - 1] == '\n'
        invariant
            start <= j <= end <= v.len(),
            strip_trailing_newlines(v@.subrange(start as int, end as int))
                == strip_trailing_newlines(v@.subrange(start as int, j as int)),
        decreases j,
    {
        assert(v@.subrange(start as int, j as int).drop_last() =~= v@.subrange(
            start as int,
            j - 1,
        ));
        j = j - 1;
    }
    assert(j > start ==> v@.subrange(start as int, j as int).last() == v@[j - 1]);
    j
}

/// The part of a section payload that its hash covers (see `memory_body_spec`).
pub fn memory_body_for_hash(section_payload: &str) -> (r: String)
    ensures
        r@ == memory_body_spec(section_payload@),
{
    let v = chars_of(section_payload);
    let lead = leading_newlines_end(&v);
    let p = slice_chars(&v, lead, v.len());
    let heading = chars_of(AUTO_COMPACT_HEADING);
    if !starts_with(&p, &heading) {
        return string_of(&v);
    }
    let after_heading = slice_chars(&p, heading.len(), p.len());
    assert(after_heading@ =~= p@.skip(heading@.len() as int));
    let blank = chars_of("\n\n");
    let found = crate::text::find(&after_heading, &blank);
    match found {
        None => string_of(&v),
        Some(m) => {
            proof {
                reveal_strlit("\n\n");
            }
            let rest = slice_chars(&after_heading, m + 2, after_heading.len());
            assert(rest@ =~= after_heading@.skip(m + 2));
            let summary = chars_of(NODE_SUMMARY_HEADING);
            let end = match crate::text::find(&rest, &summary) {
                Some(e) => e,
                None => rest.len(),
            };
            let body = slice_chars(&rest, 0, end);
            assert(body@ =~= rest@.take(end as int));
            let a = leading_newlines_end(&body);
            let b = trailing_newlines_start(&body, a, body.len());
            assert(body@.skip(a as int) =~= body@.subrange(a as int, body.len() as int));
            string_of(&slice_chars(&body, a, b))
        },
    }
}

// ----------------------------------------------------------------------------
// Reading sections
// ----------------------------------------------------------------------------
/// The payloads of the generated sections of a memory file, in order.
pub open spec fn section_payloads(memory: Seq<char>) -> Seq<Seq<char>> {
    split_from(memory, GENERATED_MEMORY_SECTION_MARKER@, 0).skip(1)
}

/// `section` is generated section `k` of `memory`, read for `storage`.
pub open spec fn is_generated_section(
    section: GeneratedMemorySection,
    storage: Seq<char>,
    memory: Seq<char>,
    k: int,
) -> bool {
    let payload = section_payloads(memory)[k];
    &&& section.section_id.storage_ref@ == storage
    &&& section.section_id.section_index == k
    &&& section.payload@ == payload
    &&& section.body@ == memory_body_spec(payload)
    &&& section.body_hash@ == body_hash_spec(memory_body_spec(payload))
}

/// Reads the generated sections of a memory file, indexed from 0 after the
/// free text that precedes the first marker.
pub fn parse_generated_memory_sections(storage_ref: String, memory: &str) -> (r: Vec<
    GeneratedMemorySection,
>)
    ensures
        r@.len() == section_payloads(memory@).len(),
        forall|k: int|
            0 <= k < r@.len() ==> is_generated_section(#[trigger] r@[k], storage_ref@, memory@, k),
{
    let text = chars_of(memory);
    let marker = chars_of(GENERATED_MEMORY_SECTION_MARKER);
    proof {
        reveal_strlit("\n\n<!-- spine:auto-compact-generated -->\n");
    }
    let pieces = split_chars(&text, &marker);
    let ghost payloads = section_payloads(memory@);
    let mut r: Vec<GeneratedMemorySection> = Vec::new();
    let mut k: usize = 1;
    while k < pieces.len()
        invariant
            1 <= k <= pieces.len() || pieces.len() == 0,
            pieces@.len() == split_from(text@, marker@, 0).len(),
            forall|j: int| 0 <= j < pieces@.len() ==> #[trigger] pieces@[j]@ == split_from(
                text@,
                marker@,
                0,
            )[j],
            text@ == memory@,
            marker@ == GENERATED_MEMORY_SECTION_MARKER@,
            payloads == section_payloads(memory@),
            r@.len() == k - 1,
            forall|j: int|
                0 <= j < r@.len() ==> is_generated_section(#[trigger] r@[j], storage_ref@, memory@, j),
        decreases pieces.len() - k,
    {
        let payload = string_of(&pieces[k]);
        assert(payload@ == payloads[k - 1]);
        let body = memory_body_for_hash(payload.as_str());
        let body_hash = memory_body_hash(body.as_str());
        let section = GeneratedMemorySection {
            section_id: MemorySectionId::new(copy_string(&storage_ref), k - 1),
            payload,
            body,
            body_hash,
        };
        r.push(section);
        k = k + 1;
    }
    proof {
        assert(split_from(text@, marker@, 0).len() >= 1);
    }
    r
}

// ----------------------------------------------------------------------------
// Verifying a body reference
// ----------------------------------------------------------------------------
/// A body reference verifies against a memory file: it names the right storage,
/// an existing section, and that section's hash.
pub open spec fn body_ref_verifies(
    storage: Seq<char>,
    memory: Seq<char>,
    ref_storage: Seq<char>,
    ref_index: int,
    ref_hash: Seq<char>,
) -> bool {
    &&& ref_storage == storage
    &&& 0 <= ref_index < section_payloads(memory).len()
    &&& ref_hash == body_hash_spec(memory_body_spec(section_payloads(memory)[ref_index]))
}

/// Finds the section that `body_ref` names in `memory` and checks its hash.
pub fn verify_memory_body_ref(storage_ref: &str, memory: &str, body_ref: &MemoryBodyRef) -> (r:
    Result<GeneratedMemorySection, MemoryBodyError>)
    ensures
        ({
            let id = body_ref.section_id;
            let k = id.section_index as int;
            let payloads = section_payloads(memory@);
            if id.storage_ref@ != storage_ref@ {
                r matches Err(MemoryBodyError::StorageMismatch { section_id, expected, actual })
                    && same_section(section_id, id) && expected@ == storage_ref@ && actual@
                    == id.storage_ref@
            } else if k >= payloads.len() {
                r matches Err(MemoryBodyError::MissingSection { section_id }) && same_section(
                    section_id,
                    id,
                )
            } else if body_ref.body_hash@ != body_hash_spec(memory_body_spec(payloads[k])) {
                r matches Err(MemoryBodyError::BodyHashMismatch { section_id, expected, actual })
                    && same_section(section_id, id) && expected@ == body_ref.body_hash@ && actual@
                    == body_hash_spec(memory_body_spec(payloads[k]))
            } else {
                r matches Ok(section) && is_generated_section(section, storage_ref@, memory@, k)
            }
        }),
        r is Ok <==> body_ref_verifies(
            storage_ref@,
            memory@,
            body_ref.section_id.storage_ref@,
            body_ref.section_id.section_index as int,
            body_ref.body_hash@,
        ),
{
    let id = &body_ref.section_id;
    if !str_eq(id.storage_ref.as_str(), storage_ref) {
        return Err(
            MemoryBodyError::StorageMismatch {
                section_id: id.duplicate(),
                expected: crate::text::owned(storage_ref),
                actual: copy_string(&id.storage_ref),
            },
        );
    }
    let mut sections = parse_generated_memory_sections(crate::text::owned(storage_ref), memory);
    if id.section_index >= sections.len() {
        return Err(MemoryBodyError::MissingSection { section_id: id.duplicate() });
    }
    let section = sections.remove(id.section_index);
    if !str_eq(section.body_hash.as_str(), body_ref.body_hash.as_str()) {
        return Err(
            MemoryBodyError::BodyHashMismatch {
                section_id: id.duplicate(),
                expected: copy_string(&body_ref.body_hash),
                actual: section.body_hash,
            },
        );
    }
    Ok(section)
}

// ----------------------------------------------------------------------------
// Laws
// ----------------------------------------------------------------------------
/// A section id's text reads back, for its own storage, to the same index.
pub proof fn lemma_section_id_round_trip(storage: Seq<char>, index: nat)
    requires
        index <= usize::MAX,
    ensures
        parse_section_index(section_id_text(storage, index), storage) == Some(index),
{
    let prefix = storage + "#section-"@;
    let text = section_id_text(storage, index);
    assert(text.subrange(0, prefix.len() as int) =~= prefix);
    assert(text.skip(prefix.len() as int) =~= dec(index));
    lemma_dec_digits(index);
    assert(is_digit(dec(index)[0]));
    assert(unsigned_digits(dec(index)) == dec(index));
}

/// The reference of every section read from a memory file verifies against
/// that file.
pub proof fn lemma_own_sections_verify(storage: Seq<char>, memory: Seq<char>, k: int)
    requires
        0 <= k < section_payloads(memory).len(),
    ensures
        body_ref_verifies(
            storage,
            memory,
            storage,
            k,
            body_hash_spec(memory_body_spec(section_payloads(memory)[k])),
        ),
{
}

} // verus!
