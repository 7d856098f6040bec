//! Spine node identifiers: dotted paths of positive segments (`1.2.3`).
use crate::text::{
    all_digits, digits_value, is_digit, lemma_dec_digits, unsigned_digits,
    chars_of, dec, parse_unsigned, parse_unsigned_chars, push_all, push_u64, string_of,
};
use vstd::prelude::*;

verus! {

/// A node of the Spine tree, addressed by the path of child indices from the root.
#[derive(Clone, Debug, PartialEq, Eq, Hash)]
pub struct NodeId(pub Vec<u32>);

impl View for NodeId {
    type V = Seq<u32>;

    open spec fn view(&self) -> Seq<u32> {
        self.0@
    }
}

/// Why a node id text was rejected.
#[derive(Clone, Debug, PartialEq, Eq)]
pub enum NodeIdParseError {
    Empty,
    EmptySegment,
    InvalidSegment(String),
    ZeroSegment,
}

/// The outcome of parsing, over plain values.
pub enum ParsedNodeId {
    Parsed(Seq<u32>),
    Empty,
    EmptySegment,
    InvalidSegment(Seq<char>),
    ZeroSegment,
}

/// The view of a parse result.
pub open spec fn parse_outcome(r: Result<NodeId, NodeIdParseError>) -> ParsedNodeId {
    match r {
        Ok(id) => ParsedNodeId::Parsed(id@),
        Err(NodeIdParseError::Empty) => ParsedNodeId::Empty,
        Err(NodeIdParseError::EmptySegment) => ParsedNodeId::EmptySegment,
        Err(NodeIdParseError::InvalidSegment(s)) => ParsedNodeId::InvalidSegment(s@),
        Err(NodeIdParseError::ZeroSegment) => ParsedNodeId::ZeroSegment,
    }
}

/// `s` cut at every `.` (what `str::split('.')` yields).
pub open spec fn split_dots(s: Seq<char>) -> Seq<Seq<char>>
    decreases s.len(),
{
    if s.len() == 0 {
        seq![Seq::<char>::empty()]
    } else {
        let p = split_dots(s.drop_last());
        if s.last() == '.' {
            p.push(Seq::<char>::empty())
        } else {
            p.update(p.len() - 1, p.last().push(s.last()))
        }
    }
}

/// The outcome of reading the segments in order; the first bad segment decides.
pub open spec fn parse_segments(segs: Seq<Seq<char>>) -> ParsedNodeId
    decreases segs.len(),
{
    if segs.len() == 0 {
        ParsedNodeId::Parsed(Seq::empty())
    } else {
        match parse_segments(segs.drop_last()) {
            ParsedNodeId::Parsed(prefix) => {
                let seg = segs.last();
                if seg.len() == 0 {
                    ParsedNodeId::EmptySegment
                } else {
                    match parse_unsigned(seg, u32::MAX as nat) {
                        None => ParsedNodeId::InvalidSegment(seg),
                        Some(v) => if v == 0 {
                            ParsedNodeId::ZeroSegment
                        } else {
                            ParsedNodeId::Parsed(prefix.push(v as u32))
                        },
                    }
                }
            },
            other => other,
        }
    }
}

/// What `NodeId::parse` gives for a text.
pub open spec fn parse_node_id_spec(s: Seq<char>) -> ParsedNodeId {
    if s.len() == 0 {
        ParsedNodeId::Empty
    } else {
        parse_segments(split_dots(s))
    }
}

/// The segments joined by `.`.
pub open spec fn join_dots(segs: Seq<u32>) -> Seq<char>
    decreases segs.len(),
{
    if segs.len() == 0 {
        Seq::empty()
    } else if segs.len() == 1 {
        dec(segs[0] as nat)
    } else {
        join_dots(segs.drop_last()) + seq!['.'] + dec(segs.last() as nat)
    }
}

/// The display text of a node id: `root` for the root, else the dotted segments.
pub open spec fn node_id_text(segs: Seq<u32>) -> Seq<char> {
    if segs.len() == 0 {
        seq!['r', 'o', 'o', 't']
    } else {
        join_dots(segs)
    }
}

/// Every segment is positive (the ids that `NodeId::parse` can produce).
pub open spec fn positive_segments(segs: Seq<u32>) -> bool {
    forall|i: int| 0 <= i < segs.len() ==> segs[i] > 0
}

impl NodeId {
    /// The root of the tree.
    pub fn root() -> (r: Self)
        ensures
            r@ == Seq::<u32>::empty(),
    {
        NodeId(Vec::new())
    }

    /// A node id from its path of segments.
    pub fn from_segments(segments: Vec<u32>) -> (r: Self)
        ensures
            r@ == segments@,
    {
        NodeId(segments)
    }

    /// The root epoch with the given index.
    pub fn root_epoch(index: u32) -> (r: Self)
        ensures
            r@ == seq![index],
    {
        let mut v: Vec<u32> = Vec::new();
        v.push(index);
        NodeId(v)
    }

    /// The child of this node with the given index.
    pub fn child(&self, index: u32) -> (r: Self)
        ensures
            r@ == self@.push(index),
    {
        let mut segments = self.0.clone();
        segments.push(index);
        NodeId(segments)
    }

    /// The path of segments.
    pub fn segments(&self) -> (r: &Vec<u32>)
        ensures
            r@ == self@,
    {
        &self.0
    }

    /// The display text (`root`, or `1.2.3`).
    pub fn to_text(&self) -> (r: Vec<char>)
        ensures
            r@ == node_id_text(self@),
    {
        if self.0.len() == 0 {
            let mut r: Vec<char> = Vec::new();
            r.push('r');
            r.push('o');
            r.push('o');
            r.push('t');
            assert(r@ =~= seq!['r', 'o', 'o', 't']);
            return r;
        }
        let mut r: Vec<char> = Vec::new();
        let mut i: usize = 0;
        while i < self.0.len()
            invariant
                0 < self.0.len(),
                i <= self.0.len(),
                r@ == join_dots(self@.subrange(0, i as int)),
            decreases self.0.len() - i,
        {
            if i > 0 {
                r.push('.');
            }
            push_u64(&mut r, self.0[i] as u64);
            proof {
                let s = self@.subrange(0, i + 1);
                assert(s.drop_last() =~= self@.subrange(0, i as int));
                if i == 0 {
                    assert(s.len() == 1);
                    assert(r@ =~= join_dots(s));
                }
            }
            i = i + 1;
        }
        assert(self@.subrange(0, self.0.len() as int) =~= self@);
        r
    }

    /// The display text as a string (`Display for NodeId`).
    pub fn to_string(&self) -> (r: String)
        ensures
            r@ == node_id_text(self@),
    {
        string_of(&self.to_text())
    }

    /// The id in square brackets, `[1.2]`.
    pub fn bracketed(&self) -> (r: String)
        ensures
            r@ == seq!['['] + node_id_text(self@) + seq![']'],
    {
        let mut v: Vec<char> = Vec::new();
        v.push('[');
        let t = self.to_text();
        push_all(&mut v, &t);
        v.push(']');
        string_of(&v)
    }

    /// Reads a node id from its dotted text.
    pub fn parse(value: &str) -> (r: Result<NodeId, NodeIdParseError>)
        ensures
            parse_outcome(r) == parse_node_id_spec(value@),
    {
        let v = chars_of(value);
        parse_node_id_chars(&v)
    }
}

/// Reads one segment; `prefix` holds the segments read before it.
fn parse_one_segment(seg: &Vec<char>, prefix: &mut Vec<u32>) -> (r: Result<(), NodeIdParseError>)
    ensures
        match r {
            Ok(()) => {
                &&& seg@.len() > 0
                &&& parse_unsigned(seg@, u32::MAX as nat) is Some
                &&& parse_unsigned(seg@, u32::MAX as nat)->0 > 0
                &&& final(prefix)@ == old(prefix)@.push(
                    parse_unsigned(seg@, u32::MAX as nat)->0 as u32,
                )
            },
            Err(NodeIdParseError::EmptySegment) => seg@.len() == 0,
            Err(NodeIdParseError::InvalidSegment(s)) => seg@.len() > 0 && s@ == seg@ && parse_unsigned(
                seg@,
                u32::MAX as nat,
            ) is None,
            Err(NodeIdParseError::ZeroSegment) => seg@.len() > 0 && parse_unsigned(
                seg@,
                u32::MAX as nat,
            ) == Some(0nat),
            Err(NodeIdParseError::Empty) => false,
        },
{
    if seg.len() == 0 {
        return Err(NodeIdParseError::EmptySegment);
    }
    match parse_unsigned_chars(seg, 4294967295u64) {
        None => Err(NodeIdParseError::InvalidSegment(string_of(seg))),
        Some(x) => {
            if x == 0 {
                Err(NodeIdParseError::ZeroSegment)
            } else {
                prefix.push(x as u32);
                Ok(())
            }
        },
    }
}

proof fn lemma_parse_segments_push_ok(segs: Seq<Seq<char>>, seg: Seq<char>, prefix: Seq<u32>)
    requires
        parse_segments(segs) == ParsedNodeId::Parsed(prefix),
    ensures
        parse_segments(segs.push(seg)) == (if seg.len() == 0 {
            ParsedNodeId::EmptySegment
        } else {
            match parse_unsigned(seg, u32::MAX as nat) {
                None => ParsedNodeId::InvalidSegment(seg),
                Some(v) => if v == 0 {
                    ParsedNodeId::ZeroSegment
                } else {
                    ParsedNodeId::Parsed(prefix.push(v as u32))
                },
            }
        }),
{
    assert(segs.push(seg).drop_last() =~= segs);
}

/// Reads a node id from its characters.
pub fn parse_node_id_chars(v: &Vec<char>) -> (r: Result<NodeId, NodeIdParseError>)
    ensures
        parse_outcome(r) == parse_node_id_spec(v@),
{
    if v.len() == 0 {
        return Err(NodeIdParseError::Empty);
    }
    let mut segments: Vec<u32> = Vec::new();
    let mut current: Vec<char> = Vec::new();
    let mut i: usize = 0;
    while i < v.len()
        invariant
            i <= v.len(),
            split_dots(v@.subrange(0, i as int)).len() >= 1,
            parse_segments(split_dots(v@.subrange(0, i as int)).drop_last()) == ParsedNodeId::Parsed(
                segments@,
            ),
            split_dots(v@.subrange(0, i as int)).last() == current@,
        decreases v.len() - i,
    {
        let c = v[i];
        let ghost pre = v@.subrange(0, i as int);
        let ghost p = split_dots(pre);
        let ghost post = v@.subrange(0, i + 1);
        assert(post.drop_last() =~= pre);
        assert(post.last() == c);
        if c == '.' {
            let ghost done = p.drop_last();
            proof {
                lemma_parse_segments_push_ok(done, current@, segments@);
                assert(done.push(current@) =~= p);
                assert(split_dots(post) == p.push(Seq::<char>::empty()));
                assert(split_dots(post).drop_last() =~= p);
            }
            match parse_one_segment(&current, &mut segments) {
                Ok(()) => {},
                Err(e) => {
                    proof {
                        // the first bad segment decides the whole parse
                        lemma_parse_segments_prefix_err(split_dots(v@), (i + 1) as nat, v@);
                    }
                    return Err(e);
                },
            }
            current = Vec::new();
            assert(split_dots(post).last() =~= current@);
        } else {
            current.push(c);
            proof {
                assert(split_dots(post) == p.update(p.len() - 1, p.last().push(c)));
                assert(split_dots(post).drop_last() =~= p.drop_last());
            }
        }
        i = i + 1;
    }
    assert(v@.subrange(0, v.len() as int) =~= v@);
    let ghost all = split_dots(v@);
    let ghost done = all.drop_last();
    proof {
        lemma_parse_segments_push_ok(done, current@, segments@);
        assert(done.push(current@) =~= all);
    }
    match parse_one_segment(&current, &mut segments) {
        Ok(()) => Ok(NodeId(segments)),
        Err(e) => Err(e),
    }
}

/// Splitting a longer text keeps the segments that were complete before.
proof fn lemma_split_dots_extends(s: Seq<char>, k: int)
    requires
        0 <= k <= s.len(),
    ensures
        split_dots(s.subrange(0, k)).len() <= split_dots(s).len(),
        forall|j: int|
            0 <= j < split_dots(s.subrange(0, k)).len() - 1 ==> #[trigger] split_dots(s)[j]
                == split_dots(s.subrange(0, k))[j],
    decreases s.len() - k,
{
    if k < s.len() {
        lemma_split_dots_extends(s, k + 1);
        let a = s.subrange(0, k);
        let b = s.subrange(0, k + 1);
        assert(b.drop_last() =~= a);
    } else {
        assert(s.subrange(0, k) =~= s);
    }
}

/// An error in the segments read so far is the error of the whole parse.
proof fn lemma_parse_segments_prefix_err(segs: Seq<Seq<char>>, k: nat, s: Seq<char>)
    requires
        segs == split_dots(s),
        k <= s.len(),
        split_dots(s.subrange(0, k as int)).len() >= 1,
        !(parse_segments(split_dots(s.subrange(0, k as int)).drop_last()) is Parsed),
    ensures
        parse_segments(segs) == parse_segments(split_dots(s.subrange(0, k as int)).drop_last()),
{
    lemma_split_dots_extends(s, k as int);
    let pre = split_dots(s.subrange(0, k as int)).drop_last();
    lemma_parse_segments_prefix_err_seq(segs, pre);
}

proof fn lemma_parse_segments_prefix_err_seq(segs: Seq<Seq<char>>, pre: Seq<Seq<char>>)
    requires
        pre.len() <= segs.len(),
        forall|j: int| 0 <= j < pre.len() ==> #[trigger] segs[j] == pre[j],
        !(parse_segments(pre) is Parsed),
    ensures
        parse_segments(segs) == parse_segments(pre),
    decreases segs.len(),
{
    if segs.len() == pre.len() {
        assert(segs =~= pre);
    } else {
        lemma_parse_segments_prefix_err_seq(segs.drop_last(), pre);
    }
}

/// Text without any `.` splits into itself alone, appended to the last segment.
proof fn lemma_split_dots_append_plain(s: Seq<char>, d: Seq<char>)
    requires
        forall|i: int| 0 <= i < d.len() ==> d[i] != '.',
    ensures
        split_dots(s + d) == split_dots(s).update(
            split_dots(s).len() - 1,
            split_dots(s).last() + d,
        ),
        split_dots(s + d).len() == split_dots(s).len(),
    decreases d.len(),
{
    lemma_split_dots_nonempty(s);
    if d.len() == 0 {
        assert(s + d =~= s);
        assert(split_dots(s).last() + d =~= split_dots(s).last());
        assert(split_dots(s).update(split_dots(s).len() - 1, split_dots(s).last()) =~= split_dots(
            s,
        ));
    } else {
        let d0 = d.drop_last();
        lemma_split_dots_append_plain(s, d0);
        assert((s + d).drop_last() =~= s + d0);
        assert((s + d).last() == d.last());
        let p = split_dots(s + d0);
        let q = split_dots(s);
        let l = q.len() - 1;
        assert(split_dots(s + d) == p.update(p.len() - 1, p.last().push(d.last())));
        assert(p.len() == q.len());
        assert(p.last() == p[l]);
        assert(p[l] == q.last() + d0);
        assert((q.last() + d0).push(d.last()) =~= q.last() + d);
        assert(split_dots(s + d) =~= split_dots(s).update(
            split_dots(s).len() - 1,
            split_dots(s).last() + d,
        ));
    }
}

proof fn lemma_split_dots_nonempty(s: Seq<char>)
    ensures
        split_dots(s).len() >= 1,
    decreases s.len(),
{
    if s.len() > 0 {
        lemma_split_dots_nonempty(s.drop_last());
    }
}

proof fn lemma_dec_has_no_dot(x: nat)
    ensures
        forall|i: int| 0 <= i < dec(x).len() ==> dec(x)[i] != '.',
        unsigned_digits(dec(x)) == dec(x),
        parse_unsigned(dec(x), u32::MAX as nat) == (if x <= u32::MAX {
            Some(x)
        } else {
            None::<nat>
        }),
{
    lemma_dec_digits(x);
    assert forall|i: int| 0 <= i < dec(x).len() implies dec(x)[i] != '.' by {
        assert(is_digit(dec(x)[i]));
    }
    assert(is_digit(dec(x)[0]));
}

proof fn lemma_join_dots_split(segs: Seq<u32>)
    requires
        segs.len() > 0,
        positive_segments(segs),
    ensures
        parse_segments(split_dots(join_dots(segs))) == ParsedNodeId::Parsed(segs),
    decreases segs.len(),
{
    let x = segs.last();
    lemma_dec_has_no_dot(x as nat);
    lemma_dec_digits(x as nat);
    assert(x > 0);
    if segs.len() == 1 {
        lemma_split_dots_append_plain(Seq::<char>::empty(), dec(x as nat));
        assert(Seq::<char>::empty() + dec(x as nat) =~= dec(x as nat));
        let sp = split_dots(dec(x as nat));
        assert(split_dots(Seq::<char>::empty()) =~= seq![Seq::<char>::empty()]);
        assert(Seq::<char>::empty() + dec(x as nat) =~= dec(x as nat));
        assert(sp =~= seq![dec(x as nat)]);
        assert(sp.drop_last() =~= Seq::<Seq<char>>::empty());
        assert(sp.last() == dec(x as nat));
        assert(parse_segments(Seq::<Seq<char>>::empty()) == ParsedNodeId::Parsed(Seq::empty()));
        assert(segs =~= Seq::<u32>::empty().push(x));
        assert(parse_segments(sp) == ParsedNodeId::Parsed(Seq::<u32>::empty().push(x)));
    } else {
        let rest = segs.drop_last();
        assert(positive_segments(rest));
        lemma_join_dots_split(rest);
        let a = join_dots(rest) + seq!['.'];
        assert(a.drop_last() =~= join_dots(rest));
        assert(split_dots(a) == split_dots(join_dots(rest)).push(Seq::<char>::empty()));
        lemma_split_dots_append_plain(a, dec(x as nat));
        assert(join_dots(segs) == a + dec(x as nat));
        let sp = split_dots(join_dots(segs));
        assert(sp =~= split_dots(join_dots(rest)).push(dec(x as nat)));
        assert(sp.drop_last() =~= split_dots(join_dots(rest)));
        assert(sp.last() == dec(x as nat));
        assert(segs =~= rest.push(x));
        assert(parse_segments(sp) == ParsedNodeId::Parsed(rest.push(x)));
    }
}

/// Reading back the text of a node id gives the same id, for every non-root id
/// whose segments are positive (the ids that parsing can produce).
pub proof fn lemma_node_id_text_round_trip(segs: Seq<u32>)
    requires
        segs.len() > 0,
        positive_segments(segs),
    ensures
        parse_node_id_spec(node_id_text(segs)) == ParsedNodeId::Parsed(segs),
{
    lemma_join_dots_split(segs);
    lemma_dec_digits(segs[0] as nat);
    lemma_join_dots_len(segs);
}

proof fn lemma_join_dots_len(segs: Seq<u32>)
    requires
        segs.len() > 0,
    ensures
        join_dots(segs).len() > 0,
    decreases segs.len(),
{
    if segs.len() == 1 {
        lemma_dec_digits(segs[0] as nat);
    } else {
        lemma_join_dots_len(segs.drop_last());
    }
}

/// The segment text reads as a positive number that fits in a `u32`.
pub open spec fn positive_u32_segment(seg: Seq<char>) -> bool {
    parse_unsigned(seg, u32::MAX as nat) matches Some(v) && v > 0
}

proof fn lemma_parse_segments_accepts_exactly(segs: Seq<Seq<char>>)
    ensures
        (parse_segments(segs) is Parsed) <==> (forall|i: int|
            0 <= i < segs.len() ==> positive_u32_segment(#[trigger] segs[i])),
        parse_segments(segs) matches ParsedNodeId::Parsed(vals) ==> {
            &&& vals.len() == segs.len()
            &&& forall|i: int|
                0 <= i < segs.len() ==> parse_unsigned(#[trigger] segs[i], u32::MAX as nat) == Some(
                    vals[i] as nat,
                )
        },
    decreases segs.len(),
{
    if segs.len() > 0 {
        let pre = segs.drop_last();
        lemma_parse_segments_accepts_exactly(pre);
        assert forall|i: int| 0 <= i < pre.len() implies pre[i] == segs[i] by {}
        if !(parse_segments(pre) is Parsed) {
            let j = choose|j: int| 0 <= j < pre.len() && !positive_u32_segment(#[trigger] pre[j]);
            assert(!positive_u32_segment(segs[j]));
        }
    }
}

/// `NodeId::parse` accepts a text exactly when it is not empty and every
/// dot-separated segment reads as a positive `u32`; the id it gives then holds
/// those numbers, one per segment, in order.
pub proof fn lemma_parse_node_id_accepts_exactly(s: Seq<char>)
    ensures
        s.len() == 0 ==> parse_node_id_spec(s) == ParsedNodeId::Empty,
        (parse_node_id_spec(s) is Parsed) <==> (s.len() > 0 && forall|i: int|
            0 <= i < split_dots(s).len() ==> positive_u32_segment(#[trigger] split_dots(s)[i])),
        parse_node_id_spec(s) matches ParsedNodeId::Parsed(vals) ==> {
            &&& vals.len() == split_dots(s).len()
            &&& forall|i: int|
                0 <= i < vals.len() ==> parse_unsigned(#[trigger] split_dots(s)[i], u32::MAX as nat)
                    == Some(vals[i] as nat)
        },
{
    if s.len() > 0 {
        lemma_parse_segments_accepts_exactly(split_dots(s));
    }
}

} // verus!
