//! Hashing and path helpers of the Spine sidecar store.
use crate::model::SpineError;
use crate::text::{chars_of, contains_seq, has_prefix, owned, push_all, push_str, str_eq, string_of};
use vstd::prelude::*;

verus! {

// ----------------------------------------------------------------------------
// Outside call: SHA-1
// ----------------------------------------------------------------------------
/// The SHA-1 digest of the UTF-8 encoding of `data`, as lowercase hex.
pub uninterp spec fn sha1_hex(data: Seq<char>) -> Seq<char>;

/// A lowercase hexadecimal digit.
pub open spec fn is_lower_hex(c: char) -> bool {
    ('0' <= c && c <= '9') || ('a' <= c && c <= 'f')
}

/// Hashes the UTF-8 bytes of `data` with `sha1::Sha1` and writes the 20-byte
/// digest with `{:x}` (generic_array's `LowerHex`): 40 lowercase hex digits.
/// The digest itself is named (`sha1_hex`), not computed here.
#[verifier::external_body]
pub(crate) fn sha1_hex_of(data: &str) -> (r: String)
    ensures
        r@ == sha1_hex(data@),
        r@.len() == 40,
        forall|i: int| 0 <= i < r@.len() ==> is_lower_hex(#[trigger] r@[i]),
{
    let mut hasher = <sha1::Sha1 as sha1::Digest>::new();
    sha1::Digest::update(&mut hasher, data.as_bytes());
    format!("{:x}", sha1::Digest::finalize(hasher))
}

/// The liveness flags of raw ordinals as the text that is hashed: `1` for a
/// live ordinal, `0` for a dropped one.
pub open spec fn live_bits(raw_live: Seq<bool>) -> Seq<char> {
    raw_live.map_values(|b: bool| if b { '1' } else { '0' })
}

/// The hash of the liveness flags of raw ordinals.
pub fn hash_raw_live(raw_live: &[bool]) -> (r: String)
    ensures
        r@ == sha1_hex(live_bits(raw_live@)),
{
    let mut bits: Vec<char> = Vec::new();
    let mut i: usize = 0;
    while i < raw_live.len()
        invariant
            i <= raw_live.len(),
            bits@ == live_bits(raw_live@.take(i as int)),
        decreases raw_live.len() - i,
    {
        bits.push(if raw_live[i] { '1' } else { '0' });
        proof {
            assert(live_bits(raw_live@.take(i + 1)) =~= live_bits(raw_live@.take(i as int)).push(
                if raw_live@[i as int] { '1' } else { '0' },
            ));
        }
        i = i + 1;
    }
    proof {
        assert(raw_live@.take(raw_live.len() as int) =~= raw_live@);
    }
    let s = string_of(&bits);
    sha1_hex_of(s.as_str())
}

/// `n` live flags as the hashed text: `n` times `1`.
pub open spec fn ones(n: nat) -> Seq<char> {
    Seq::new(n, |i: int| '1')
}

/// The hash of `len` live raw ordinals.
pub fn hash_raw_live_prefix_all_true(len: usize) -> (r: String)
    ensures
        r@ == sha1_hex(ones(len as nat)),
{
    let mut bits: Vec<char> = Vec::new();
    let mut i: usize = 0;
    while i < len
        invariant
            i <= len,
            bits@ == ones(i as nat),
        decreases len - i,
    {
        bits.push('1');
        assert(bits@ =~= ones((i + 1) as nat));
        i = i + 1;
    }
    let s = string_of(&bits);
    sha1_hex_of(s.as_str())
}

/// Hashing `len` live flags one by one gives the hash of the all-live prefix.
pub proof fn lemma_all_live_hash(raw_live: Seq<bool>)
    requires
        forall|i: int| 0 <= i < raw_live.len() ==> raw_live[i],
    ensures
        sha1_hex(live_bits(raw_live)) == sha1_hex(ones(raw_live.len())),
{
    assert(live_bits(raw_live) =~= ones(raw_live.len()));
}

// ----------------------------------------------------------------------------
// Outside calls: std::path
// ----------------------------------------------------------------------------
/// The parent of a path (`std::path::Path::parent`), by the path's text;
/// `None` for a root or an empty path.
pub uninterp spec fn parent_of(path: Seq<char>) -> Option<Seq<char>>;

/// `std::path::Path::parent` of `path`, written back as a string: the name
/// `parent_of` of the path's text, a slice of the path from its start, so a
/// proper prefix of it; which prefix depends on the platform's separators, and
/// is not stated.
#[verifier::external_body]
fn path_parent_of(path: &str) -> (r: Option<String>)
    ensures
        match r {
            Some(p) => parent_of(path@) == Some(p@) && has_prefix(path@, p@) && p@.len() < path@.len(),
            None => parent_of(path@) is None,
        },
{
    match std::path::Path::new(path).parent() {
        Some(p) => Some(p.to_string_lossy().into_owned()),
        None => None,
    }
}

/// The file stem of a path (`std::path::Path::file_stem`), by the path's text.
pub uninterp spec fn file_stem_of(path: Seq<char>) -> Option<Seq<char>>;

/// `std::path::Path::file_stem` of `path`, written back as a string: the name
/// `file_stem_of` of the path's text, a slice of the path; which slice depends
/// on the platform, and is not stated.
#[verifier::external_body]
fn path_file_stem_of(path: &str) -> (r: Option<String>)
    ensures
        match r {
            Some(s) => file_stem_of(path@) == Some(s@) && contains_seq(path@, s@),
            None => file_stem_of(path@) is None,
        },
{
    match std::path::Path::new(path).file_stem() {
        Some(s) => Some(s.to_string_lossy().into_owned()),
        None => None,
    }
}

/// A path joined with a child path (`std::path::Path::join`), by the texts.
pub uninterp spec fn join_of(base: Seq<char>, child: Seq<char>) -> Seq<char>;

/// `std::path::Path::join` of `base` and `child`, written back as a string:
/// the name `join_of` of the two texts. Whether `child` is appended after a
/// separator, which separator, or whether it replaces `base` depends on the
/// platform and on `child`, and is not stated.
#[verifier::external_body]
pub(crate) fn path_join(base: &str, child: &str) -> (r: String)
    ensures
        r@ == join_of(base@, child@),
{
    std::path::Path::new(base).join(child).to_string_lossy().into_owned()
}

/// The rest of a path after a base path (`std::path::Path::strip_prefix`,
/// component-wise), by the paths' texts; `None` when `base` is not a prefix.
pub uninterp spec fn strip_prefix_of(path: Seq<char>, base: Seq<char>) -> Option<Seq<char>>;

/// `std::path::Path::strip_prefix` of `path` by `base` (component-wise),
/// written back as a string. The rest is the name `strip_prefix_of` of the two
/// texts, a slice of `path`; which slice depends on the platform, and is not
/// stated.
#[verifier::external_body]
pub(crate) fn path_strip_prefix(path: &str, base: &str) -> (r: Option<String>)
    ensures
        match r {
            Some(rest) => strip_prefix_of(path@, base@) == Some(rest@) && contains_seq(path@, rest@),
            None => strip_prefix_of(path@, base@) is None,
        },
{
    match std::path::Path::new(path).strip_prefix(base) {
        Ok(rest) => Some(rest.to_string_lossy().into_owned()),
        Err(_) => None,
    }
}

/// The final component of a path (`std::path::Path::file_name`), by the
/// path's text; `None` when the path ends in `..` or is empty or a root.
pub uninterp spec fn file_name_of(path: Seq<char>) -> Option<Seq<char>>;

/// `std::path::Path::file_name` of `path`, written back as a string. The
/// result is the name `file_name_of` of the path's text, a slice of the path;
/// which slice depends on the platform's separators and is not stated.
#[verifier::external_body]
pub(crate) fn path_file_name(path: &str) -> (r: Option<String>)
    ensures
        match r {
            Some(n) => file_name_of(path@) == Some(n@) && contains_seq(path@, n@),
            None => file_name_of(path@) is None,
        },
{
    std::path::Path::new(path).file_name().map(|n| n.to_string_lossy().into_owned())
}

/// `e` is an invalid-store error with message `m`.
pub open spec fn is_invalid_store(e: SpineError, m: Seq<char>) -> bool {
    e matches SpineError::InvalidStore(s) && s@ == m
}

/// The directory that holds a rollout; an error when the path has none.
pub fn rollout_parent(path: &str) -> (r: Result<String, SpineError>)
    ensures
        match parent_of(path@) {
            Some(p) => r matches Ok(q) && q@ == p,
            None => r matches Err(e) && is_invalid_store(e, "rollout path has no parent"@),
        },
        r matches Ok(p) ==> has_prefix(path@, p@) && p@.len() < path@.len(),
{
    proof {
        reveal_strlit("rollout path has no parent");
    }
    match path_parent_of(path) {
        Some(p) => Ok(p),
        None => Err(SpineError::InvalidStore(owned("rollout path has no parent"))),
    }
}

/// The file stem of a rollout; an error when the path has none.
pub fn rollout_stem(path: &str) -> (r: Result<String, SpineError>)
    ensures
        match file_stem_of(path@) {
            Some(t) => r matches Ok(s) && s@ == t,
            None => r matches Err(e) && is_invalid_store(e, "rollout path has no UTF-8 stem"@),
        },
        r matches Ok(s) ==> contains_seq(path@, s@),
{
    proof {
        reveal_strlit("rollout path has no UTF-8 stem");
    }
    match path_file_stem_of(path) {
        Some(s) => Ok(s),
        None => Err(SpineError::InvalidStore(owned("rollout path has no UTF-8 stem"))),
    }
}

/// The Spine locator file beside a rollout: `<parent>/<stem>.spine.json`.
pub fn locator_path(rollout_path: &str) -> (r: Result<String, SpineError>)
    ensures
        match (parent_of(rollout_path@), file_stem_of(rollout_path@)) {
            (Some(p), Some(t)) => r matches Ok(l) && l@ == join_of(p, t + ".spine.json"@),
            (None, _) => r matches Err(e) && is_invalid_store(e, "rollout path has no parent"@),
            (Some(_), None) => r matches Err(e) && is_invalid_store(e, "rollout path has no UTF-8 stem"@),
        },
{
    let parent = rollout_parent(rollout_path)?;
    let stem = rollout_stem(rollout_path)?;
    let mut name = chars_of(stem.as_str());
    push_str(&mut name, ".spine.json");
    let file = string_of(&name);
    Ok(path_join(parent.as_str(), file.as_str()))
}


/// Whether a file that may be written only once is written now: when none is
/// there it is (`Ok(true)`); when one with the same content is there nothing
/// is done (`Ok(false)`); when one with other content is there that is an
/// invalid store, named by `label` and the path.
pub fn write_once_decision(label: &str, path: &str, existing: Option<&str>, content: &str) -> (r: Result<bool, SpineError>)
    ensures
        match existing {
            None => r matches Ok(b) && b,
            Some(e) => if e@ == content@ {
                r matches Ok(b) && !b
            } else {
                r matches Err(err) && is_invalid_store(
                    err,
                    label@ + " file "@ + path@ + " already exists with different content"@,
                )
            },
        },
{
    match existing {
        None => Ok(true),
        Some(e) => {
            if str_eq(e, content) {
                Ok(false)
            } else {
                let mut m = chars_of(label);
                push_str(&mut m, " file ");
                push_str(&mut m, path);
                push_str(&mut m, " already exists with different content");
                Err(SpineError::InvalidStore(string_of(&m)))
            }
        },
    }
}

} // verus!
