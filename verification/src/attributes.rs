//! The attribute map a span or event carries: keys are unique, and a
//! write to an existing key replaces its value (last write wins).
use vstd::prelude::*;

use crate::key::Value;

verus! {

/// The mapping a list of attribute pairs stands for: later pairs win.
pub open spec fn attrs_map(s: Seq<(String, Value)>) -> Map<Seq<char>, Value>
    decreases s.len(),
{
    if s.len() == 0 {
        Map::empty()
    } else {
        attrs_map(s.drop_last()).insert(s.last().0@, s.last().1)
    }
}

/// Replacing the value at position `i` of a unique-keyed list inserts
/// that pair's key anew in the mapping.
proof fn lemma_attrs_map_update(s: Seq<(String, Value)>, i: int, v: Value)
    requires
        0 <= i < s.len(),
        forall|a: int, b: int| 0 <= a < b < s.len() ==> (#[trigger] s[a]).0@ != (#[trigger] s[b]).0@,
    ensures
        attrs_map(s.update(i, (s[i].0, v))) == attrs_map(s).insert(s[i].0@, v),
    decreases s.len(),
{
    let s2 = s.update(i, (s[i].0, v));
    if i == s.len() - 1 {
        assert(s2.drop_last() =~= s.drop_last());
        assert(s2.last() == (s[i].0, v));
        assert(attrs_map(s.drop_last()).insert(s[i].0@, v) =~= attrs_map(s).insert(s[i].0@, v));
    } else {
        assert(s2.drop_last() =~= s.drop_last().update(i, (s[i].0, v)));
        assert(s.drop_last()[i] == s[i]);
        lemma_attrs_map_update(s.drop_last(), i, v);
        assert(s2.last() == s.last());
        assert(s[i].0@ != s.last().0@);
        assert(attrs_map(s.drop_last()).insert(s[i].0@, v).insert(s.last().0@, s.last().1)
            =~= attrs_map(s).insert(s[i].0@, v));
    }
}

/// An attribute map: string keys, unique, each holding one value.
#[derive(Debug)]
pub struct Attributes {
    entries: Vec<(String, Value)>,
}

impl Attributes {
    /// The stored pairs, in insertion order.
    pub closed spec fn entries(self) -> Seq<(String, Value)> {
        self.entries@
    }

    /// The mapping the attributes stand for.
    pub open spec fn as_map(self) -> Map<Seq<char>, Value> {
        attrs_map(self.entries())
    }

    /// A well-formed map holds pairwise distinct keys.
    pub open spec fn wf(self) -> bool {
        forall|a: int, b: int|
            0 <= a < b < self.entries().len() ==> (#[trigger] self.entries()[a]).0@ != (
            #[trigger] self.entries()[b]).0@
    }

    /// An empty attribute map.
    pub fn new() -> (r: Self)
        ensures
            r.wf(),
            r.entries() == Seq::<(String, Value)>::empty(),
            r.as_map() == Map::<Seq<char>, Value>::empty(),
    {
        Attributes { entries: Vec::new() }
    }

    /// Number of stored pairs.
    pub fn len(&self) -> (r: usize)
        ensures
            r == self.entries().len(),
    {
        self.entries.len()
    }

    /// The stored pairs.
    pub fn pairs(&self) -> (r: &Vec<(String, Value)>)
        ensures
            r@ == self.entries(),
    {
        &self.entries
    }

    /// Stores a pair: an existing key's value is replaced in place, a
    /// new key is appended; the last write to a key wins.
    pub fn insert(&mut self, key: String, value: Value)
        requires
            old(self).wf(),
        ensures
            final(self).wf(),
            final(self).as_map() == old(self).as_map().insert(key@, value),
    {
        let n = self.entries.len();
        let mut i: usize = 0;
        while i < n
            invariant
                n == self.entries().len(),
                i <= n,
                *self == *old(self),
                old(self).wf(),
                forall|j: int| 0 <= j < i ==> (#[trigger] self.entries()[j]).0@ != key@,
            decreases n - i,
        {
            if strings_equal(&self.entries[i].0, &key) {
                let k2 = self.entries[i].0.clone();
                self.entries.set(i, (k2, value));
                proof {
                    assert(self.entries() == old(self).entries().update(
                        i as int,
                        (old(self).entries()[i as int].0, value),
                    ));
                    lemma_attrs_map_update(old(self).entries(), i as int, value);
                    assert(old(self).entries()[i as int].0@ == key@);
                    assert forall|a: int, b: int|
                        0 <= a < b < self.entries().len() implies (
                    #[trigger] self.entries()[a]).0@ != (#[trigger] self.entries()[b]).0@ by {
                        assert(self.entries()[a].0@ == old(self).entries()[a].0@);
                        assert(self.entries()[b].0@ == old(self).entries()[b].0@);
                    }
                }
                return ;
            }
            i += 1;
        }
        self.entries.push((key, value));
        proof {
            assert(self.entries().drop_last() =~= old(self).entries());
        }
    }
}

fn strings_equal(a: &String, b: &String) -> (r: bool)
    ensures
        r == (a@ == b@),
{
    *a == *b
}

fn clone_pairs(v: &Vec<(String, Value)>) -> (r: Vec<(String, Value)>)
    ensures
        r@ == v@,
{
    let mut r: Vec<(String, Value)> = Vec::new();
    let mut i: usize = 0;
    while i < v.len()
        invariant
            i <= v@.len(),
            r@ == v@.subrange(0, i as int),
        decreases v@.len() - i,
    {
        r.push((v[i].0.clone(), v[i].1.clone()));
        proof {
            assert(r@ =~= v@.subrange(0, i + 1 as int));
        }
        i += 1;
    }
    proof {
        assert(r@ =~= v@);
    }
    r
}

impl Clone for Attributes {
    fn clone(&self) -> (r: Self)
        ensures
            r.entries() == self.entries(),
    {
        Attributes { entries: clone_pairs(&self.entries) }
    }
}

} // verus!
