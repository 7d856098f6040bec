//! The Spine archive: per-node `Memory.md` and `Trajs.md` files, rendered from
//! the finished tree and either written at once or staged for a later flush.
//!
//! Paths are strings; joining them is left to `std::path`. A staged archive
//! keeps the bodies of the memories being installed and the files it would
//! write, each path at most once.
use crate::ids::{node_id_text, NodeId};
use crate::io::{join_of, path_join, path_strip_prefix, sha1_hex, sha1_hex_of, strip_prefix_of};
use crate::model::{
    ContextBaselineSource, ControlSymbol, MemoryRef, SegRef, SpineError, SpineTreeNode, Symbol,
    ToolCallSegmentKind, TreeMeta,
};
use crate::text::{
    chars_of, copy_string, dec, dec_int, eq_chars, owned, push_all, push_i64, push_str, push_u64,
    str_eq, string_of,
};
use vstd::prelude::*;

verus! {

/// The directory of memory bodies under the archive root.
pub const BODY_DIR: &'static str = "bodies";

/// A file the archive would write.
#[derive(Debug, PartialEq, Eq)]
pub struct StagedArchiveWrite {
    pub path: String,
    pub content: String,
}

/// What a staged archive holds until it is flushed.
#[derive(Debug)]
pub struct ArchiveStaging {
    memory_bodies: Vec<(String, String)>,
    writes: Vec<StagedArchiveWrite>,
}

/// The archive of one rollout.
#[derive(Debug)]
pub struct SpineArchive {
    pub root: String,
    staging: Option<ArchiveStaging>,
}

/// The memory bodies of a staging, by memory id; later entries win.
pub open spec fn bodies_map(e: Seq<(String, String)>) -> Map<Seq<char>, Seq<char>>
    decreases e.len(),
{
    if e.len() == 0 {
        Map::empty()
    } else {
        bodies_map(e.drop_last()).insert(e.last().0@, e.last().1@)
    }
}

/// The plain value of a list of writes.
pub open spec fn writes_view(w: Seq<StagedArchiveWrite>) -> Seq<(Seq<char>, Seq<char>)> {
    w.map_values(|x: StagedArchiveWrite| (x.path@, x.content@))
}

/// No path occurs twice among the writes.
pub open spec fn paths_unique(w: Seq<(Seq<char>, Seq<char>)>) -> bool {
    forall|i: int, j: int| 0 <= i < j < w.len() ==> #[trigger] w[i].0 != #[trigger] w[j].0
}

impl SpineArchive {
    /// The archive root.
    pub closed spec fn root_view(&self) -> Seq<char> {
        self.root@
    }

    /// The archive root.
    pub fn root(&self) -> (r: &String)
        ensures
            r@ == self.root_view(),
    {
        &self.root
    }

    /// The archive stages its writes.
    pub closed spec fn is_staged(&self) -> bool {
        self.staging is Some
    }

    /// The staged memory bodies, by memory id.
    pub closed spec fn staged_bodies(&self) -> Map<Seq<char>, Seq<char>> {
        match self.staging {
            Some(s) => bodies_map(s.memory_bodies@),
            None => Map::empty(),
        }
    }

    /// The staged writes, as (path, content), in staging order.
    pub closed spec fn staged_files(&self) -> Seq<(Seq<char>, Seq<char>)> {
        match self.staging {
            Some(s) => writes_view(s.writes@),
            None => Seq::empty(),
        }
    }

    /// An archive that writes its files directly.
    pub fn new(root: String) -> (r: Self)
        ensures
            r.root_view() == root@,
            !r.is_staged(),
            r.staged_files().len() == 0,
            r.staged_bodies() == Map::<Seq<char>, Seq<char>>::empty(),
    {
        SpineArchive { root, staging: None }
    }

    /// An archive that stages its files, knowing the body of memory `memory_id`.
    pub fn staged_with_memory_body(root: String, memory_id: String, body: String) -> (r: Self)
        ensures
            r.root_view() == root@,
            r.is_staged(),
            r.staged_bodies() == Map::<Seq<char>, Seq<char>>::empty().insert(memory_id@, body@),
            r.staged_files().len() == 0,
    {
        let mut memory_bodies: Vec<(String, String)> = Vec::new();
        memory_bodies.push((memory_id, body));
        let r = SpineArchive {
            root,
            staging: Some(ArchiveStaging { memory_bodies, writes: Vec::new() }),
        };
        proof {
            assert(memory_bodies@.drop_last() =~= Seq::<(String, String)>::empty());
            assert(bodies_map(Seq::<(String, String)>::empty()) =~= Map::<Seq<char>, Seq<char>>::empty());
        }
        r
    }

    /// The directory of node `id`: `<root>/nodes/<id with dots as slashes>`.
    pub fn node_dir(&self, id: &NodeId) -> (r: String)
        ensures
            r@ == join_of(join_of(self.root_view(), "nodes"@), node_path_text(id@)),
    {
        let nodes = path_join(self.root.as_str(), "nodes");
        let component = node_path_component(id);
        path_join(nodes.as_str(), component.as_str())
    }

    /// A copy of the staged writes, in staging order; none for a direct archive.
    pub fn staged_writes(&self) -> (r: Vec<StagedArchiveWrite>)
        ensures
            writes_view(r@) == self.staged_files(),
    {
        match &self.staging {
            None => {
                let r: Vec<StagedArchiveWrite> = Vec::new();
                assert(writes_view(r@) =~= Seq::<(Seq<char>, Seq<char>)>::empty());
                r
            },
            Some(staging) => {
                let mut r: Vec<StagedArchiveWrite> = Vec::new();
                let mut i: usize = 0;
                while i < staging.writes.len()
                    invariant
                        i <= staging.writes.len(),
                        writes_view(r@) == writes_view(staging.writes@).take(i as int),
                    decreases staging.writes.len() - i,
                {
                    let w = &staging.writes[i];
                    let ghost before = r@;
                    r.push(StagedArchiveWrite { path: copy_string(&w.path), content: copy_string(&w.content) });
                    assert(writes_view(r@) =~= writes_view(before).push((w.path@, w.content@)));
                    assert(writes_view(r@) =~= writes_view(staging.writes@).take(i + 1));
                    i = i + 1;
                }
                assert(writes_view(staging.writes@).take(i as int) =~= writes_view(staging.writes@));
                r
            },
        }
    }

    /// The staged body of memory `memory_id`, if the archive stages and knows it.
    pub fn staged_memory_body(&self, memory_id: &str) -> (r: Option<String>)
        ensures
            match r {
                Some(b) => self.staged_bodies().contains_key(memory_id@) && self.staged_bodies()[memory_id@] == b@,
                None => !self.staged_bodies().contains_key(memory_id@),
            },
    {
        match &self.staging {
            None => None,
            Some(staging) => {
                let e = &staging.memory_bodies;
                let mut i = e.len();
                proof {
                    assert(e@.take(i as int) =~= e@);
                    assert(e@.skip(i as int) =~= Seq::<(String, String)>::empty());
                    assert(bodies_map(e@.skip(i as int)) =~= Map::<Seq<char>, Seq<char>>::empty());
                    assert(bodies_map(e@).union_prefer_right(Map::<Seq<char>, Seq<char>>::empty())
                        =~= bodies_map(e@));
                }
                while i > 0
                    invariant
                        i <= e.len(),
                        self.staged_bodies() == bodies_map(e@),
                        bodies_map(e@) == bodies_map(e@.take(i as int)).union_prefer_right(
                            bodies_map(e@.skip(i as int)),
                        ),
                        !bodies_map(e@.skip(i as int)).contains_key(memory_id@),
                    decreases i,
                {
                    proof {
                        lemma_bodies_split(e@, i - 1);
                        assert(e@.take(i as int).drop_last() =~= e@.take(i - 1));
                    }
                    if str_eq(e[i - 1].0.as_str(), memory_id) {
                        return Some(copy_string(&e[i - 1].1));
                    }
                    proof {
                        lemma_bodies_skip_back(e@, i - 1);
                    }
                    i = i - 1;
                }
                proof {
                    assert(e@.take(0) =~= Seq::<(String, String)>::empty());
                    assert(bodies_map(e@.take(0)) =~= Map::<Seq<char>, Seq<char>>::empty());
                }
                None
            },
        }
    }

    /// Stages `content` for `path`. Staging the same content for a staged path
    /// again changes nothing; other content for it is refused, as is staging on
    /// a direct archive.
    pub fn stage_archive_file(&mut self, path: String, content: String) -> (r: Result<(), SpineError>)
        requires
            paths_unique(old(self).staged_files()),
        ensures
            final(self).root_view() == old(self).root_view(),
            final(self).is_staged() == old(self).is_staged(),
            final(self).staged_bodies() == old(self).staged_bodies(),
            paths_unique(final(self).staged_files()),
            !old(self).is_staged() ==> (r matches Err(SpineError::Invariant(m)) && m@ == "cannot stage archive file on non-staged archive"@)
                && final(self).staged_files() == old(self).staged_files(),
            old(self).is_staged() ==> match staged_content(old(self).staged_files(), path@) {
                Some(existing) => final(self).staged_files() == old(self).staged_files() && (if existing == content@ {
                    r is Ok
                } else {
                    r matches Err(SpineError::InvalidStore(m)) && m@ == "staged archive file "@ + path@
                        + " already exists with different content"@
                }),
                None => r is Ok && final(self).staged_files() == old(self).staged_files().push((path@, content@)),
            },
    {
        let found = match &self.staging {
            None => {
                return Err(SpineError::Invariant(owned("cannot stage archive file on non-staged archive")));
            },
            Some(staging) => find_staged_write(&staging.writes, &path),
        };
        match found {
            Some(i) => {
                let existing = match &self.staging {
                    Some(staging) => str_eq(staging.writes[i].content.as_str(), content.as_str()),
                    None => false,
                };
                if existing {
                    return Ok(());
                }
                let mut m = chars_of("staged archive file ");
                push_str(&mut m, path.as_str());
                push_str(&mut m, " already exists with different content");
                Err(SpineError::InvalidStore(string_of(&m)))
            },
            None => {
                let ghost before = self.staged_files();
                proof {
                    lemma_staged_content_none(before, path@);
                }
                let ghost p = path@;
                let ghost c = content@;
                match &mut self.staging {
                    Some(staging) => {
                        staging.writes.push(StagedArchiveWrite { path, content });
                    },
                    None => {},
                }
                assert(self.staged_files() =~= before.push((p, c)));
                Ok(())
            },
        }
    }
}

/// The position of the staged write for `path`, if any.
fn find_staged_write(writes: &Vec<StagedArchiveWrite>, path: &String) -> (r: Option<usize>)
    requires
        paths_unique(writes_view(writes@)),
    ensures
        match r {
            Some(i) => i < writes@.len() && writes@[i as int].path@ == path@ && staged_content(writes_view(writes@), path@) == Some(writes@[i as int].content@),
            None => forall|j: int| 0 <= j < writes@.len() ==> #[trigger] writes_view(writes@)[j].0 != path@,
        },
{
    let ghost w = writes_view(writes@);
    let mut i: usize = 0;
    while i < writes.len()
        invariant
            i <= writes.len(),
            w == writes_view(writes@),
            paths_unique(w),
            forall|j: int| 0 <= j < i ==> #[trigger] w[j].0 != path@,
        decreases writes.len() - i,
    {
        if str_eq(writes[i].path.as_str(), path.as_str()) {
            proof {
                lemma_staged_content_at(w, path@, i as int);
            }
            return Some(i);
        }
        i = i + 1;
    }
    None
}


proof fn lemma_bodies_concat(a: Seq<(String, String)>, b: Seq<(String, String)>)
    ensures
        bodies_map(a + b) == bodies_map(a).union_prefer_right(bodies_map(b)),
    decreases b.len(),
{
    if b.len() == 0 {
        assert(a + b =~= a);
        assert(bodies_map(a).union_prefer_right(Map::empty()) =~= bodies_map(a));
    } else {
        lemma_bodies_concat(a, b.drop_last());
        assert((a + b).drop_last() =~= a + b.drop_last());
        assert(bodies_map(a + b) =~= bodies_map(a).union_prefer_right(bodies_map(b)));
    }
}

proof fn lemma_bodies_split(e: Seq<(String, String)>, i: int)
    requires
        0 <= i < e.len(),
    ensures
        bodies_map(e) == bodies_map(e.take(i + 1)).union_prefer_right(bodies_map(e.skip(i + 1))),
        bodies_map(e.take(i + 1)) == bodies_map(e.take(i)).insert(e[i].0@, e[i].1@),
{
    assert(e.take(i + 1).drop_last() =~= e.take(i));
    lemma_bodies_concat(e.take(i + 1), e.skip(i + 1));
    assert(e.take(i + 1) + e.skip(i + 1) =~= e);
}

proof fn lemma_bodies_skip_back(e: Seq<(String, String)>, i: int)
    requires
        0 <= i < e.len(),
    ensures
        bodies_map(e.skip(i)) == Map::<Seq<char>, Seq<char>>::empty().insert(e[i].0@, e[i].1@).union_prefer_right(
            bodies_map(e.skip(i + 1)),
        ),
{
    lemma_bodies_concat(seq![e[i]], e.skip(i + 1));
    assert(seq![e[i]] + e.skip(i + 1) =~= e.skip(i));
    assert(seq![e[i]].drop_last() =~= Seq::<(String, String)>::empty());
    assert(bodies_map(Seq::<(String, String)>::empty()) =~= Map::<Seq<char>, Seq<char>>::empty());
    assert(bodies_map(seq![e[i]]) =~= Map::<Seq<char>, Seq<char>>::empty().insert(e[i].0@, e[i].1@));
}

/// The content staged for `path`, if any.
pub open spec fn staged_content(w: Seq<(Seq<char>, Seq<char>)>, path: Seq<char>) -> Option<Seq<char>> {
    if exists|j: int| 0 <= j < w.len() && w[j].0 == path {
        Some(w[choose|j: int| 0 <= j < w.len() && w[j].0 == path].1)
    } else {
        None
    }
}

proof fn lemma_staged_content_at(w: Seq<(Seq<char>, Seq<char>)>, path: Seq<char>, i: int)
    requires
        paths_unique(w),
        0 <= i < w.len(),
        w[i].0 == path,
    ensures
        staged_content(w, path) == Some(w[i].1),
{
    let c = choose|j: int| 0 <= j < w.len() && w[j].0 == path;
    assert(0 <= c < w.len() && w[c].0 == path);
    if c != i {
        if c < i {
            assert(w[c].0 != w[i].0);
        } else {
            assert(w[i].0 != w[c].0);
        }
    }
}

proof fn lemma_staged_content_none(w: Seq<(Seq<char>, Seq<char>)>, path: Seq<char>)
    requires
        forall|j: int| 0 <= j < w.len() ==> #[trigger] w[j].0 != path,
        paths_unique(w),
    ensures
        staged_content(w, path) is None,
        forall|c: Seq<char>| paths_unique(#[trigger] w.push((path, c))),
{
    assert forall|c: Seq<char>| paths_unique(#[trigger] w.push((path, c))) by {
        let v = w.push((path, c));
        assert forall|i: int, j: int| 0 <= i < j < v.len() implies #[trigger] v[i].0 != #[trigger] v[j].0 by {
            if j == w.len() {
                assert(v[i] == w[i]);
            } else {
                assert(v[i] == w[i] && v[j] == w[j]);
            }
        }
    }
}

/// The path component of a node: its dotted id with dots as slashes.
pub open spec fn node_path_text(id: Seq<u32>) -> Seq<char> {
    node_id_text(id).map_values(|c: char| if c == '.' { '/' } else { c })
}

/// The path component of a node: its dotted id with dots as slashes.
pub fn node_path_component(id: &NodeId) -> (r: String)
    ensures
        r@ == node_path_text(id@),
{
    let t = id.to_text();
    let mut v: Vec<char> = Vec::new();
    let mut i: usize = 0;
    while i < t.len()
        invariant
            i <= t.len(),
            t@ == node_id_text(id@),
            v@ == node_path_text(id@).take(i as int),
        decreases t.len() - i,
    {
        v.push(if t[i] == '.' { '/' } else { t[i] });
        assert(v@ =~= node_path_text(id@).take(i + 1));
        i = i + 1;
    }
    assert(node_path_text(id@).take(i as int) =~= node_path_text(id@));
    string_of(&v)
}

/// `path` relative to the archive root; `path` itself when it is not under it.
pub fn archive_relative_path(archive: &SpineArchive, path: &str) -> (r: String)
    ensures
        r@ == match strip_prefix_of(path@, archive.root_view()) {
            Some(rest) => rest,
            None => path@,
        },
        r@ == path@ || crate::text::contains_seq(path@, r@),
{
    match path_strip_prefix(path, archive.root.as_str()) {
        Some(rest) => rest,
        None => owned(path),
    }
}

/// The symbol that opens the first node of the next root epoch after `memory`
/// archived root epoch `r`: node `r+1 . 1`, summary `root`.
pub fn next_root_open_symbol(
    archive: &SpineArchive,
    memory: &MemoryRef,
    next_open_index: usize,
    open_input_tokens: Option<i64>,
    open_context_tokens: Option<i64>,
) -> (r: Result<Symbol, SpineError>)
    ensures
        memory.node_id@.len() == 0 ==> (r matches Err(SpineError::InvalidEvent(m)) && m@ == "root memory node id is empty"@),
        memory.node_id@.len() > 0 ==> (r matches Ok(Symbol::Control(ControlSymbol::Open(meta)))
            && meta.id@ == seq![
                if memory.node_id@[0] == u32::MAX { u32::MAX } else { (memory.node_id@[0] + 1) as u32 },
                1u32,
            ] && meta.index == next_open_index && meta.summary@ == "root"@
            && meta.open_input_tokens == open_input_tokens && meta.open_context_tokens
            == open_context_tokens && meta.open_context_source == (if open_context_tokens is Some {
            Some(ContextBaselineSource::RootCompactHandoff)
        } else {
            None
        }) && meta.node_dir@ == join_of(join_of(archive.root_view(), "nodes"@), node_path_text(meta.id@))),
{
    if memory.node_id.0.len() == 0 {
        return Err(SpineError::InvalidEvent(owned("root memory node id is empty")));
    }
    let root_index = memory.node_id.0[0];
    let next_id = NodeId::root_epoch(root_index.saturating_add(1)).child(1);
    let node_dir = archive.node_dir(&next_id);
    let open_context_source = match open_context_tokens {
        Some(_) => Some(ContextBaselineSource::RootCompactHandoff),
        None => None,
    };
    Ok(
        Symbol::Control(
            ControlSymbol::Open(
                TreeMeta {
                    id: next_id,
                    index: next_open_index,
                    summary: owned("root"),
                    open_input_tokens,
                    open_context_tokens,
                    open_context_source,
                    node_dir,
                },
            ),
        ),
    )
}

/// The tree metadata of a node opened at context index `index`.
pub fn tree_meta(archive: &SpineArchive, id: NodeId, index: u64, summary: String) -> (r: Result<
    TreeMeta,
    SpineError,
>)
    ensures
        index > usize::MAX ==> (r matches Err(SpineError::InvalidEvent(m)) && m@ == "context index overflow"@),
        index <= usize::MAX ==> (r matches Ok(meta) && meta.id == id && meta.index == index
            && meta.summary@ == summary@ && meta.open_input_tokens is None
            && meta.open_context_tokens is None && meta.open_context_source is None
            && meta.node_dir@ == join_of(join_of(archive.root_view(), "nodes"@), node_path_text(id@))),
{
    tree_meta_with_token_baselines(archive, id, index, summary, None, None, None)
}

/// The tree metadata of a node opened at context index `index`, with its
/// token baselines.
pub fn tree_meta_with_token_baselines(
    archive: &SpineArchive,
    id: NodeId,
    index: u64,
    summary: String,
    open_input_tokens: Option<i64>,
    open_context_tokens: Option<i64>,
    open_context_source: Option<ContextBaselineSource>,
) -> (r: Result<TreeMeta, SpineError>)
    ensures
        index > usize::MAX ==> (r matches Err(SpineError::InvalidEvent(m)) && m@ == "context index overflow"@),
        index <= usize::MAX ==> (r matches Ok(meta) && meta.id == id && meta.index == index
            && meta.summary@ == summary@ && meta.open_input_tokens == open_input_tokens
            && meta.open_context_tokens == open_context_tokens && meta.open_context_source
            == open_context_source && meta.node_dir@ == join_of(
            join_of(archive.root_view(), "nodes"@),
            node_path_text(id@),
        )),
{
    if index > usize::MAX as u64 {
        return Err(SpineError::InvalidEvent(owned("context index overflow")));
    }
    let node_dir = archive.node_dir(&id);
    Ok(
        TreeMeta {
            node_dir,
            id,
            index: index as usize,
            summary,
            open_input_tokens,
            open_context_tokens,
            open_context_source,
        },
    )
}

/// The reference of a memory compiled into the archive; its body lives at
/// `<root>/bodies/<compact_id>.md`.
pub fn memory_ref(
    archive: &SpineArchive,
    compact_id: String,
    node_id: NodeId,
    body_hash: String,
    source_raw_range: std::ops::Range<u64>,
    source_context_range: std::ops::Range<usize>,
    source_token_seq: std::ops::Range<u64>,
    open_input_tokens: Option<i64>,
    close_input_tokens: Option<i64>,
    open_context_tokens: Option<i64>,
    close_context_tokens: Option<i64>,
    closed_source_suffix_tokens: Option<i64>,
    closed_memory_context_tokens: Option<i64>,
    open_context_source: Option<ContextBaselineSource>,
    memory_output_tokens: Option<i64>,
) -> (r: MemoryRef)
    ensures
        r.compact_id@ == compact_id@,
        r.node_id == node_id,
        r.body_hash@ == body_hash@,
        r.source_raw_range == source_raw_range,
        r.source_context_range == source_context_range,
        r.source_token_seq == source_token_seq,
        r.open_input_tokens == open_input_tokens,
        r.close_input_tokens == close_input_tokens,
        r.open_context_tokens == open_context_tokens,
        r.close_context_tokens == close_context_tokens,
        r.closed_source_suffix_tokens == closed_source_suffix_tokens,
        r.closed_memory_context_tokens == closed_memory_context_tokens,
        r.open_context_source == open_context_source,
        r.memory_output_tokens == memory_output_tokens,
        r.body_path@ == join_of(join_of(archive.root_view(), BODY_DIR@), compact_id@ + ".md"@),
{
    let bodies = path_join(archive.root.as_str(), BODY_DIR);
    let mut file = chars_of(compact_id.as_str());
    push_str(&mut file, ".md");
    let file = string_of(&file);
    let body_path = path_join(bodies.as_str(), file.as_str());
    MemoryRef {
        body_path,
        compact_id,
        node_id,
        body_hash,
        source_raw_range,
        source_context_range,
        source_token_seq,
        open_input_tokens,
        close_input_tokens,
        open_context_tokens,
        close_context_tokens,
        closed_source_suffix_tokens,
        closed_memory_context_tokens,
        open_context_source,
        memory_output_tokens,
    }
}

// ----------------------------------------------------------------------------
// Rendering
// ----------------------------------------------------------------------------
/// `<label>: <value>\n` for a present token count.
pub open spec fn opt_tokens_line(label: Seq<char>, v: Option<i64>) -> Seq<char> {
    match v {
        Some(t) => label + ": "@ + dec_int(t as int) + "\n"@,
        None => Seq::empty(),
    }
}

/// The name of a baseline source as `Debug` prints it.
pub open spec fn baseline_source_name(s: ContextBaselineSource) -> Seq<char> {
    match s {
        ContextBaselineSource::RootCompactHandoff => "RootCompactHandoff"@,
    }
}

/// `<label>: <value>\n`.
pub open spec fn field_line(label: Seq<char>, value: Seq<char>) -> Seq<char> {
    label + ": "@ + value + "\n"@
}

/// `<label>: [<start>..<end>)\n`.
pub open spec fn range_line(label: Seq<char>, start: nat, end: nat) -> Seq<char> {
    label + ": ["@ + dec(start) + ".."@ + dec(end) + ")\n"@
}

/// The header lines of a memory archive.
pub open spec fn memory_archive_header(m: MemoryRef) -> Seq<char> {
    "# Spine Memory Archive\n\n"@ + field_line("compact_id"@, m.compact_id@) + field_line(
        "node_id"@,
        node_id_text(m.node_id@),
    ) + field_line("body_path"@, m.body_path@) + field_line("body_hash"@, m.body_hash@) + range_line(
        "source_raw_range"@,
        m.source_raw_range.start as nat,
        m.source_raw_range.end as nat,
    ) + range_line(
        "source_context_range"@,
        m.source_context_range.start as nat,
        m.source_context_range.end as nat,
    ) + range_line("source_token_seq"@, m.source_token_seq.start as nat, m.source_token_seq.end as nat)
}

/// The memory records at least one token baseline.
pub open spec fn has_token_lines(m: MemoryRef) -> bool {
    m.open_input_tokens is Some || m.close_input_tokens is Some || m.open_context_tokens is Some
        || m.close_context_tokens is Some || m.closed_source_suffix_tokens is Some
        || m.closed_memory_context_tokens is Some || m.open_context_source is Some
        || m.memory_output_tokens is Some
}

/// The token-baseline lines of a memory archive, with a blank line after them
/// when there are any.
pub open spec fn memory_archive_tokens(m: MemoryRef) -> Seq<char> {
    token_lines(m) + (if has_token_lines(m) {
        "\n"@
    } else {
        Seq::empty()
    })
}

/// A memory archive file: header, token baselines, and the body, which ends
/// with a newline.
pub open spec fn memory_archive_text(m: MemoryRef, body: Seq<char>) -> Seq<char> {
    memory_archive_header(m) + memory_archive_tokens(m) + "## Body\n\n"@ + body + (if body.len() > 0
        && body.last() == '\n' {
        Seq::empty()
    } else {
        "\n"@
    })
}

/// A memory that records no token baseline is archived as its header lines,
/// then the body section: `# Spine Memory Archive`, a blank line, the
/// `compact_id`, `node_id`, `body_path` and `body_hash` lines, the three
/// `[start..end)` range lines, `## Body`, a blank line and the body, which ends
/// with a newline.
pub proof fn lemma_memory_archive_layout_without_tokens(m: MemoryRef, body: Seq<char>)
    requires
        !has_token_lines(m),
    ensures
        memory_archive_text(m, body) == "# Spine Memory Archive\n\ncompact_id: "@ + m.compact_id@ + "\nnode_id: "@
            + node_id_text(m.node_id@) + "\nbody_path: "@ + m.body_path@ + "\nbody_hash: "@ + m.body_hash@
            + "\nsource_raw_range: ["@ + dec(m.source_raw_range.start as nat) + ".."@ + dec(
            m.source_raw_range.end as nat,
        ) + ")\nsource_context_range: ["@ + dec(m.source_context_range.start as nat) + ".."@ + dec(
            m.source_context_range.end as nat,
        ) + ")\nsource_token_seq: ["@ + dec(m.source_token_seq.start as nat) + ".."@ + dec(
            m.source_token_seq.end as nat,
        ) + ")\n## Body\n\n"@ + body + (if body.len() > 0 && body.last() == '\n' {
            Seq::empty()
        } else {
            "\n"@
        }),
{
    let id = m.compact_id@;
    let node = node_id_text(m.node_id@);
    let path = m.body_path@;
    let hash = m.body_hash@;
    let tail = if body.len() > 0 && body.last() == '\n' {
        Seq::<char>::empty()
    } else {
        "\n"@
    };
    assert("# Spine Memory Archive\n\ncompact_id: "@ =~= "# Spine Memory Archive\n\n"@ + "compact_id"@ + ": "@) by {
        reveal_strlit("# Spine Memory Archive\n\ncompact_id: ");
        reveal_strlit("# Spine Memory Archive\n\n");
        reveal_strlit("compact_id");
        reveal_strlit(": ");
    }
    let a1 = "# Spine Memory Archive\n\ncompact_id: "@ + id;
    assert("# Spine Memory Archive\n\n"@ + field_line("compact_id"@, id) =~= a1 + "\n"@);
    assert("\nnode_id: "@ =~= "\n"@ + "node_id"@ + ": "@) by {
        reveal_strlit("\nnode_id: ");
        reveal_strlit("\n");
        reveal_strlit("node_id");
        reveal_strlit(": ");
    }
    lemma_field_step(a1, "node_id"@, node, "\nnode_id: "@);
    let a2 = a1 + "\nnode_id: "@ + node;
    assert("\nbody_path: "@ =~= "\n"@ + "body_path"@ + ": "@) by {
        reveal_strlit("\nbody_path: ");
        reveal_strlit("\n");
        reveal_strlit("body_path");
        reveal_strlit(": ");
    }
    lemma_field_step(a2, "body_path"@, path, "\nbody_path: "@);
    let a3 = a2 + "\nbody_path: "@ + path;
    assert("\nbody_hash: "@ =~= "\n"@ + "body_hash"@ + ": "@) by {
        reveal_strlit("\nbody_hash: ");
        reveal_strlit("\n");
        reveal_strlit("body_hash");
        reveal_strlit(": ");
    }
    lemma_field_step(a3, "body_hash"@, hash, "\nbody_hash: "@);
    let a4 = a3 + "\nbody_hash: "@ + hash;
    assert("\nsource_raw_range: ["@ =~= "\n"@ + "source_raw_range"@ + ": ["@) by {
        reveal_strlit("\nsource_raw_range: [");
        reveal_strlit("\n");
        reveal_strlit("source_raw_range");
        reveal_strlit(": [");
    }
    let (s1, e1) = (m.source_raw_range.start as nat, m.source_raw_range.end as nat);
    lemma_range_step(a4, "source_raw_range"@, s1, e1, "\n"@, "\nsource_raw_range: ["@);
    let a5 = a4 + "\nsource_raw_range: ["@ + dec(s1) + ".."@ + dec(e1);
    assert(")\nsource_context_range: ["@ =~= ")\n"@ + "source_context_range"@ + ": ["@) by {
        reveal_strlit(")\nsource_context_range: [");
        reveal_strlit(")\n");
        reveal_strlit("source_context_range");
        reveal_strlit(": [");
    }
    let (s2, e2) = (m.source_context_range.start as nat, m.source_context_range.end as nat);
    lemma_range_step(a5, "source_context_range"@, s2, e2, ")\n"@, ")\nsource_context_range: ["@);
    let a6 = a5 + ")\nsource_context_range: ["@ + dec(s2) + ".."@ + dec(e2);
    assert(")\nsource_token_seq: ["@ =~= ")\n"@ + "source_token_seq"@ + ": ["@) by {
        reveal_strlit(")\nsource_token_seq: [");
        reveal_strlit(")\n");
        reveal_strlit("source_token_seq");
        reveal_strlit(": [");
    }
    let (s3, e3) = (m.source_token_seq.start as nat, m.source_token_seq.end as nat);
    lemma_range_step(a6, "source_token_seq"@, s3, e3, ")\n"@, ")\nsource_token_seq: ["@);
    let a7 = a6 + ")\nsource_token_seq: ["@ + dec(s3) + ".."@ + dec(e3);
    assert(memory_archive_header(m) == a7 + ")\n"@);
    assert(token_lines(m) =~= Seq::<char>::empty());
    assert(memory_archive_tokens(m) =~= Seq::<char>::empty());
    assert(")\n## Body\n\n"@ =~= ")\n"@ + "## Body\n\n"@) by {
        reveal_strlit(")\n## Body\n\n");
        reveal_strlit(")\n");
        reveal_strlit("## Body\n\n");
    }
    assert((a7 + ")\n"@) + Seq::<char>::empty() + "## Body\n\n"@ =~= a7 + ")\n## Body\n\n"@);
}

proof fn lemma_field_step(a: Seq<char>, label: Seq<char>, v: Seq<char>, joined: Seq<char>)
    requires
        joined == "\n"@ + label + ": "@,
    ensures
        (a + "\n"@) + field_line(label, v) == a + joined + v + "\n"@,
{
    assert((a + "\n"@) + field_line(label, v) =~= a + joined + v + "\n"@);
}

proof fn lemma_range_step(a: Seq<char>, label: Seq<char>, start: nat, end: nat, close: Seq<char>, joined: Seq<char>)
    requires
        joined == close + label + ": ["@,
    ensures
        (a + close) + range_line(label, start, end) == a + joined + dec(start) + ".."@ + dec(end) + ")\n"@,
{
    assert((a + close) + range_line(label, start, end) =~= a + joined + dec(start) + ".."@ + dec(end) + ")\n"@);
}

fn push_range(v: &mut Vec<char>, label: &str, start: u64, end: u64)
    ensures
        final(v)@ == old(v)@ + range_line(label@, start as nat, end as nat),
{
    push_str(v, label);
    push_str(v, ": [");
    push_u64(v, start);
    push_str(v, "..");
    push_u64(v, end);
    push_str(v, ")\n");
    assert(v@ =~= old(v)@ + range_line(label@, start as nat, end as nat));
}

fn push_field(v: &mut Vec<char>, label: &str, value: &Vec<char>)
    ensures
        final(v)@ == old(v)@ + field_line(label@, value@),
{
    push_str(v, label);
    push_str(v, ": ");
    push_all(v, value);
    push_str(v, "\n");
    assert(v@ =~= old(v)@ + field_line(label@, value@));
}

/// Appends `piece` to `v` and restates `v` as `start` followed by `acc` and `piece`.
proof fn lemma_step(start: Seq<char>, acc: Seq<char>, piece: Seq<char>)
    ensures
        (start + acc) + piece == start + (acc + piece),
{
    vstd::seq_lib::lemma_concat_associative(start, acc, piece);
}

fn push_opt_tokens(v: &mut Vec<char>, label: &str, t: Option<i64>)
    ensures
        final(v)@ == old(v)@ + opt_tokens_line(label@, t),
{
    match t {
        Some(n) => {
            push_str(v, label);
            push_str(v, ": ");
            push_i64(v, n);
            push_str(v, "\n");
            assert(v@ =~= old(v)@ + opt_tokens_line(label@, t));
        },
        None => {
            assert(v@ =~= old(v)@ + opt_tokens_line(label@, t));
        },
    }
}

fn push_memory_header(v: &mut Vec<char>, m: &MemoryRef)
    ensures
        final(v)@ == old(v)@ + memory_archive_header(*m),
{
    let ghost start = old(v)@;
    push_str(v, "# Spine Memory Archive\n\n");
    let ghost acc = "# Spine Memory Archive\n\n"@;
    push_field(v, "compact_id", &chars_of(m.compact_id.as_str()));
    proof { lemma_step(start, acc, field_line("compact_id"@, m.compact_id@)); acc = acc + field_line("compact_id"@, m.compact_id@); }
    push_field(v, "node_id", &m.node_id.to_text());
    proof { lemma_step(start, acc, field_line("node_id"@, node_id_text(m.node_id@))); acc = acc + field_line("node_id"@, node_id_text(m.node_id@)); }
    push_field(v, "body_path", &chars_of(m.body_path.as_str()));
    proof { lemma_step(start, acc, field_line("body_path"@, m.body_path@)); acc = acc + field_line("body_path"@, m.body_path@); }
    push_field(v, "body_hash", &chars_of(m.body_hash.as_str()));
    proof { lemma_step(start, acc, field_line("body_hash"@, m.body_hash@)); acc = acc + field_line("body_hash"@, m.body_hash@); }
    push_range(v, "source_raw_range", m.source_raw_range.start, m.source_raw_range.end);
    proof {
        let p = range_line("source_raw_range"@, m.source_raw_range.start as nat, m.source_raw_range.end as nat);
        lemma_step(start, acc, p);
        acc = acc + p;
    }
    push_range(v, "source_context_range", m.source_context_range.start as u64, m.source_context_range.end as u64);
    proof {
        let p = range_line("source_context_range"@, m.source_context_range.start as nat, m.source_context_range.end as nat);
        lemma_step(start, acc, p);
        acc = acc + p;
    }
    push_range(v, "source_token_seq", m.source_token_seq.start, m.source_token_seq.end);
    proof {
        let p = range_line("source_token_seq"@, m.source_token_seq.start as nat, m.source_token_seq.end as nat);
        lemma_step(start, acc, p);
        acc = acc + p;
    }
}

/// The token-baseline lines without the closing blank line.
pub open spec fn token_lines(m: MemoryRef) -> Seq<char> {
    opt_tokens_line("open_input_tokens"@, m.open_input_tokens) + opt_tokens_line(
        "close_input_tokens"@,
        m.close_input_tokens,
    ) + opt_tokens_line("open_context_tokens"@, m.open_context_tokens) + opt_tokens_line(
        "close_context_tokens"@,
        m.close_context_tokens,
    ) + opt_tokens_line("closed_source_suffix_tokens"@, m.closed_source_suffix_tokens)
        + opt_tokens_line("closed_memory_context_tokens"@, m.closed_memory_context_tokens) + source_line(
        m.open_context_source,
    ) + opt_tokens_line("memory_output_tokens"@, m.memory_output_tokens)
}

/// `open_context_source: <Source>\n` when present.
pub open spec fn source_line(src: Option<ContextBaselineSource>) -> Seq<char> {
    match src {
        Some(s) => "open_context_source: "@ + baseline_source_name(s) + "\n"@,
        None => Seq::empty(),
    }
}

fn push_memory_tokens(v: &mut Vec<char>, m: &MemoryRef)
    ensures
        final(v)@ == old(v)@ + memory_archive_tokens(*m),
{
    let ghost start = old(v)@;
    let ghost acc = Seq::<char>::empty();
    assert(start + acc =~= start);
    push_opt_tokens(v, "open_input_tokens", m.open_input_tokens);
    proof { let p = opt_tokens_line("open_input_tokens"@, m.open_input_tokens); lemma_step(start, acc, p); acc = acc + p; }
    push_opt_tokens(v, "close_input_tokens", m.close_input_tokens);
    proof { let p = opt_tokens_line("close_input_tokens"@, m.close_input_tokens); lemma_step(start, acc, p); acc = acc + p; }
    push_opt_tokens(v, "open_context_tokens", m.open_context_tokens);
    proof { let p = opt_tokens_line("open_context_tokens"@, m.open_context_tokens); lemma_step(start, acc, p); acc = acc + p; }
    push_opt_tokens(v, "close_context_tokens", m.close_context_tokens);
    proof { let p = opt_tokens_line("close_context_tokens"@, m.close_context_tokens); lemma_step(start, acc, p); acc = acc + p; }
    push_opt_tokens(v, "closed_source_suffix_tokens", m.closed_source_suffix_tokens);
    proof { let p = opt_tokens_line("closed_source_suffix_tokens"@, m.closed_source_suffix_tokens); lemma_step(start, acc, p); acc = acc + p; }
    push_opt_tokens(v, "closed_memory_context_tokens", m.closed_memory_context_tokens);
    proof { let p = opt_tokens_line("closed_memory_context_tokens"@, m.closed_memory_context_tokens); lemma_step(start, acc, p); acc = acc + p; }
    let ghost before_src = v@;
    match m.open_context_source {
        Some(ContextBaselineSource::RootCompactHandoff) => {
            push_str(v, "open_context_source: ");
            push_str(v, "RootCompactHandoff");
            push_str(v, "\n");
        },
        None => {},
    }
    assert(v@ =~= before_src + source_line(m.open_context_source));
    proof { let p = source_line(m.open_context_source); lemma_step(start, acc, p); acc = acc + p; }
    push_opt_tokens(v, "memory_output_tokens", m.memory_output_tokens);
    proof { let p = opt_tokens_line("memory_output_tokens"@, m.memory_output_tokens); lemma_step(start, acc, p); acc = acc + p; }
    assert(acc == token_lines(*m));
    let any = m.open_input_tokens.is_some() || m.close_input_tokens.is_some()
        || m.open_context_tokens.is_some() || m.close_context_tokens.is_some()
        || m.closed_source_suffix_tokens.is_some() || m.closed_memory_context_tokens.is_some()
        || m.open_context_source.is_some() || m.memory_output_tokens.is_some();
    let ghost before_blank = v@;
    if any {
        push_str(v, "\n");
    }
    proof {
        let p = if any { "\n"@ } else { Seq::<char>::empty() };
        assert(v@ =~= before_blank + p);
        lemma_step(start, acc, p);
    }
}

/// Renders the `Memory.md` of an archived node. A staged body must hash to the
/// memory's body hash; without one, `stored_body` (the body read from the
/// memory's body path) is used.
pub fn render_memory_archive(memory: &MemoryRef, staged_body: Option<&str>, stored_body: &str) -> (r:
    Result<String, SpineError>)
    ensures
        match staged_body {
            Some(b) => if sha1_hex(b@) == memory.body_hash@ {
                r matches Ok(text) && text@ == memory_archive_text(*memory, b@)
            } else {
                r matches Err(SpineError::InvalidStore(m)) && m@ == "staged memory body hash mismatch for "@
                    + memory.compact_id@
            },
            None => r matches Ok(text) && text@ == memory_archive_text(*memory, stored_body@),
        },
        staged_body matches Some(b) ==> (r is Ok <==> sha1_hex(b@) == memory.body_hash@),
{
    let body: &str = match staged_body {
        Some(b) => {
            let actual_hash = sha1_hex_of(b);
            if !str_eq(actual_hash.as_str(), memory.body_hash.as_str()) {
                let mut m = chars_of("staged memory body hash mismatch for ");
                push_str(&mut m, memory.compact_id.as_str());
                return Err(SpineError::InvalidStore(string_of(&m)));
            }
            b
        },
        None => stored_body,
    };
    let mut v: Vec<char> = Vec::new();
    push_memory_header(&mut v, memory);
    push_memory_tokens(&mut v, memory);
    push_str(&mut v, "## Body\n\n");
    let b = chars_of(body);
    push_all(&mut v, &b);
    if b.len() == 0 || b[b.len() - 1] != '\n' {
        push_str(&mut v, "\n");
    }
    proof {
        if b.len() > 0 {
            assert(b@.last() == b@[b.len() - 1]);
        }
        assert(v@ =~= memory_archive_text(*memory, body@));
    }
    Ok(string_of(&v))
}

/// The text of a segment reference in a trajs archive.
pub open spec fn seg_ref_text(seg: SegRef) -> Seq<char> {
    match seg {
        SegRef::ResponseItem { raw_ordinal, context_index } => "raw_ordinal="@ + dec(raw_ordinal as nat)
            + " context_index="@ + dec(context_index as nat),
        SegRef::Memory { memory_id, body_path } => "compact_id="@ + memory_id@ + " body_path="@
            + body_path@,
    }
}

/// A `bool` as `Display` prints it.
pub open spec fn bool_text(b: bool) -> Seq<char> {
    if b {
        "true"@
    } else {
        "false"@
    }
}

/// The lines of the tool-call segments of a trajs archive.
pub open spec fn toolcall_lines(segs: Seq<crate::model::ToolCallSegment>) -> Seq<char>
    decreases segs.len(),
{
    if segs.len() == 0 {
        Seq::empty()
    } else {
        toolcall_lines(segs.drop_last()) + "- toolcall "@ + (match segs.last().kind {
            ToolCallSegmentKind::Request => "request "@,
            ToolCallSegmentKind::Response => "response "@,
        }) + seg_ref_text(segs.last().seg) + "\n"@
    }
}

/// The lines of one node in a trajs archive.
pub open spec fn trajs_node_text(node: SpineTreeNode) -> Seq<char> {
    match node {
        SpineTreeNode::MsgAsLeafNode { msg, from_user } => match msg {
            SegRef::ResponseItem { raw_ordinal, context_index } => "- raw raw_ordinal="@ + dec(
                raw_ordinal as nat,
            ) + " context_index="@ + dec(context_index as nat) + " from_user="@ + bool_text(
                from_user,
            ) + "\n"@,
            SegRef::Memory { memory_id, body_path } => "- memory compact_id="@ + memory_id@
                + " body_path="@ + body_path@ + "\n"@,
        },
        SpineTreeNode::ToolCallAsLeafNode { segments } => toolcall_lines(segments@),
        SpineTreeNode::SpineTree { meta, memory, memory_path, trajs_path, .. } => "- memory compact_id="@
            + memory.compact_id@ + " node_id="@ + node_id_text(meta.id@) + " index="@ + dec(
            meta.index as nat,
        ) + " summary="@ + meta.summary@ + " body_path="@ + memory.body_path@ + " memory_path="@
            + memory_path@ + " trajs_path="@ + trajs_path@ + "\n"@,
    }
}

/// The lines of a list of nodes in a trajs archive.
pub open spec fn trajs_nodes_text(nodes: Seq<SpineTreeNode>) -> Seq<char>
    decreases nodes.len(),
{
    if nodes.len() == 0 {
        Seq::empty()
    } else {
        trajs_nodes_text(nodes.drop_last()) + trajs_node_text(nodes.last())
    }
}

fn push_bool(v: &mut Vec<char>, b: bool)
    ensures
        final(v)@ == old(v)@ + bool_text(b),
{
    if b {
        push_str(v, "true");
    } else {
        push_str(v, "false");
    }
}

/// Appends the text of a segment reference.
pub fn render_trajs_seg_ref(out: &mut Vec<char>, seg: &SegRef) -> (r: Result<(), SpineError>)
    ensures
        r is Ok,
        final(out)@ == old(out)@ + seg_ref_text(*seg),
{
    match seg {
        SegRef::ResponseItem { raw_ordinal, context_index } => {
            push_str(out, "raw_ordinal=");
            push_u64(out, *raw_ordinal);
            push_str(out, " context_index=");
            push_u64(out, *context_index as u64);
        },
        SegRef::Memory { memory_id, body_path } => {
            push_str(out, "compact_id=");
            push_str(out, memory_id.as_str());
            push_str(out, " body_path=");
            push_str(out, body_path.as_str());
        },
    }
    assert(out@ =~= old(out)@ + seg_ref_text(*seg));
    Ok(())
}

/// Appends the lines of one node of a trajs archive.
pub fn render_trajs_node(out: &mut Vec<char>, node: &SpineTreeNode) -> (r: Result<(), SpineError>)
    ensures
        r is Ok,
        final(out)@ == old(out)@ + trajs_node_text(*node),
{
    match node {
        SpineTreeNode::MsgAsLeafNode { msg, from_user } => match msg {
            SegRef::ResponseItem { raw_ordinal, context_index } => {
                push_str(out, "- raw raw_ordinal=");
                push_u64(out, *raw_ordinal);
                push_str(out, " context_index=");
                push_u64(out, *context_index as u64);
                push_str(out, " from_user=");
                push_bool(out, *from_user);
                push_str(out, "\n");
            },
            SegRef::Memory { memory_id, body_path } => {
                push_str(out, "- memory compact_id=");
                push_str(out, memory_id.as_str());
                push_str(out, " body_path=");
                push_str(out, body_path.as_str());
                push_str(out, "\n");
            },
        },
        SpineTreeNode::ToolCallAsLeafNode { segments } => {
            let mut i: usize = 0;
            let ghost start = out@;
            while i < segments.len()
                invariant
                    i <= segments.len(),
                    out@ == start + toolcall_lines(segments@.take(i as int)),
                decreases segments.len() - i,
            {
                let ghost before = out@;
                push_str(out, "- toolcall ");
                match segments[i].kind {
                    ToolCallSegmentKind::Request => push_str(out, "request "),
                    ToolCallSegmentKind::Response => push_str(out, "response "),
                }
                let _ = render_trajs_seg_ref(out, &segments[i].seg);
                push_str(out, "\n");
                proof {
                    assert(segments@.take(i + 1).drop_last() =~= segments@.take(i as int));
                    assert(out@ =~= start + toolcall_lines(segments@.take(i + 1)));
                }
                i = i + 1;
            }
            assert(segments@.take(i as int) =~= segments@);
        },
        SpineTreeNode::SpineTree { meta, memory, memory_path, trajs_path, .. } => {
            push_str(out, "- memory compact_id=");
            push_str(out, memory.compact_id.as_str());
            push_str(out, " node_id=");
            let t = meta.id.to_text();
            push_all(out, &t);
            push_str(out, " index=");
            push_u64(out, meta.index as u64);
            push_str(out, " summary=");
            push_str(out, meta.summary.as_str());
            push_str(out, " body_path=");
            push_str(out, memory.body_path.as_str());
            push_str(out, " memory_path=");
            push_str(out, memory_path.as_str());
            push_str(out, " trajs_path=");
            push_str(out, trajs_path.as_str());
            push_str(out, "\n");
        },
    }
    assert(out@ =~= old(out)@ + trajs_node_text(*node));
    Ok(())
}

/// Renders the `Trajs.md` of an archived node from its children.
pub fn render_trajs_archive(children: &Vec<SpineTreeNode>) -> (r: Result<String, SpineError>)
    ensures
        r matches Ok(text) && text@ == "# Spine Trajs Archive\n\n"@ + trajs_nodes_text(children@),
{
    let mut out = chars_of("# Spine Trajs Archive\n\n");
    let mut i: usize = 0;
    while i < children.len()
        invariant
            i <= children.len(),
            out@ == "# Spine Trajs Archive\n\n"@ + trajs_nodes_text(children@.take(i as int)),
        decreases children.len() - i,
    {
        let _ = render_trajs_node(&mut out, &children[i]);
        proof {
            assert(children@.take(i + 1).drop_last() =~= children@.take(i as int));
            assert(out@ =~= "# Spine Trajs Archive\n\n"@ + trajs_nodes_text(children@.take(i + 1)));
        }
        i = i + 1;
    }
    assert(children@.take(i as int) =~= children@);
    Ok(string_of(&out))
}

/// After a path is staged with some content, staging the same content for it
/// again finds it and changes nothing.
pub proof fn lemma_restaging_is_noop(files: Seq<(Seq<char>, Seq<char>)>, path: Seq<char>, content: Seq<char>)
    requires
        paths_unique(files),
        staged_content(files, path) is None,
    ensures
        paths_unique(files.push((path, content))),
        staged_content(files.push((path, content)), path) == Some(content),
{
    assert forall|j: int| 0 <= j < files.len() implies #[trigger] files[j].0 != path by {
        if files[j].0 == path {
            assert(exists|k: int| 0 <= k < files.len() && files[k].0 == path);
        }
    }
    lemma_staged_content_none(files, path);
    let v = files.push((path, content));
    lemma_staged_content_at(v, path, files.len() as int);
}

} // verus!
