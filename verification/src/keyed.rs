//! A small map from string keys to values, in insertion order; a later
//! entry for a key replaces the earlier one.
use crate::text::str_eq;
use vstd::prelude::*;

verus! {

/// Values by string key.
#[derive(Debug)]
pub struct KeyedItems<V> {
    entries: Vec<(String, V)>,
}

/// The map that a list of entries stands for; later entries win.
pub open spec fn keyed_map<V>(e: Seq<(String, V)>) -> Map<Seq<char>, V>
    decreases e.len(),
{
    if e.len() == 0 {
        Map::empty()
    } else {
        keyed_map(e.drop_last()).insert(e.last().0@, e.last().1)
    }
}

impl<V> View for KeyedItems<V> {
    type V = Map<Seq<char>, V>;

    closed spec fn view(&self) -> Map<Seq<char>, V> {
        keyed_map(self.entries@)
    }
}

proof fn lemma_keyed_concat<V>(a: Seq<(String, V)>, b: Seq<(String, V)>)
    ensures
        keyed_map(a + b) == keyed_map(a).union_prefer_right(keyed_map(b)),
    decreases b.len(),
{
    if b.len() == 0 {
        assert(a + b =~= a);
        assert(keyed_map(a).union_prefer_right(Map::empty()) =~= keyed_map(a));
    } else {
        lemma_keyed_concat(a, b.drop_last());
        assert((a + b).drop_last() =~= a + b.drop_last());
        assert(keyed_map(a + b) =~= keyed_map(a).union_prefer_right(keyed_map(b)));
    }
}

proof fn lemma_keyed_split<V>(e: Seq<(String, V)>, i: int)
    requires
        0 <= i < e.len(),
    ensures
        keyed_map(e) == keyed_map(e.take(i + 1)).union_prefer_right(keyed_map(e.skip(i + 1))),
        keyed_map(e.take(i + 1)) == keyed_map(e.take(i)).insert(e[i].0@, e[i].1),
{
    assert(e.take(i + 1).drop_last() =~= e.take(i));
    lemma_keyed_concat(e.take(i + 1), e.skip(i + 1));
    assert(e.take(i + 1) + e.skip(i + 1) =~= e);
}

proof fn lemma_keyed_skip_back<V>(e: Seq<(String, V)>, i: int)
    requires
        0 <= i < e.len(),
    ensures
        keyed_map(e.skip(i)) == Map::<Seq<char>, V>::empty().insert(e[i].0@, e[i].1).union_prefer_right(
            keyed_map(e.skip(i + 1)),
        ),
{
    lemma_keyed_concat(seq![e[i]], e.skip(i + 1));
    assert(seq![e[i]] + e.skip(i + 1) =~= e.skip(i));
    assert(seq![e[i]].drop_last() =~= Seq::<(String, V)>::empty());
    assert(keyed_map(Seq::<(String, V)>::empty()) =~= Map::<Seq<char>, V>::empty());
    assert(keyed_map(seq![e[i]]) =~= Map::<Seq<char>, V>::empty().insert(e[i].0@, e[i].1));
}

impl<V> KeyedItems<V> {
    pub fn new() -> (r: Self)
        ensures
            r@ == Map::<Seq<char>, V>::empty(),
    {
        let r = KeyedItems { entries: Vec::new() };
        assert(r@ =~= Map::<Seq<char>, V>::empty());
        r
    }

    /// Records `value` for `key`, replacing an earlier one.
    pub fn insert(&mut self, key: String, value: V)
        ensures
            final(self)@ == old(self)@.insert(key@, value),
    {
        let ghost before = self.entries@;
        self.entries.push((key, value));
        assert(self.entries@.drop_last() =~= before);
    }

    /// The value recorded for `key`.
    pub fn get(&self, key: &str) -> (r: Option<&V>)
        ensures
            match r {
                Some(v) => self@.contains_key(key@) && self@[key@] == *v,
                None => !self@.contains_key(key@),
            },
    {
        let e = &self.entries;
        let mut i = e.len();
        proof {
            assert(e@.take(i as int) =~= e@);
            assert(e@.skip(i as int) =~= Seq::<(String, V)>::empty());
            assert(keyed_map(e@.skip(i as int)) =~= Map::<Seq<char>, V>::empty());
            assert(keyed_map(e@).union_prefer_right(Map::<Seq<char>, V>::empty()) =~= keyed_map(e@));
        }
        while i > 0
            invariant
                i <= e.len(),
                self@ == keyed_map(e@),
                keyed_map(e@) == keyed_map(e@.take(i as int)).union_prefer_right(keyed_map(e@.skip(i as int))),
                !keyed_map(e@.skip(i as int)).contains_key(key@),
            decreases i,
        {
            proof {
                lemma_keyed_split(e@, i - 1);
                assert(e@.take(i as int).drop_last() =~= e@.take(i - 1));
            }
            if str_eq(e[i - 1].0.as_str(), key) {
                return Some(&e[i - 1].1);
            }
            proof {
                lemma_keyed_skip_back(e@, i - 1);
            }
            i = i - 1;
        }
        proof {
            assert(e@.take(0) =~= Seq::<(String, V)>::empty());
            assert(keyed_map(e@.take(0)) =~= Map::<Seq<char>, V>::empty());
        }
        None
    }
}

} // verus!
