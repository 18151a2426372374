//! Resource labels: validated name/value pairs that tag spans and
//! processes with metadata.
//!
//! Names and values admit printable ASCII only (space through tilde);
//! a name holds 1 to 255 characters, a value 0 to 255. Construction
//! outside these bounds fails, and a failed pair never partially
//! applies. Merging two resources keeps both sides' labels, the right
//! side winning on a shared name.
use vstd::prelude::*;

verus! {

/// The characters a label may hold: printable ASCII, space through tilde.
pub open spec fn is_label_char(c: char) -> bool {
    32 <= c as u32 && c as u32 <= 126
}

/// A label name holds 1 to 255 printable-ASCII characters.
pub open spec fn valid_label_name(s: Seq<char>) -> bool {
    1 <= s.len() <= 255 && forall|i: int| 0 <= i < s.len() ==> is_label_char(#[trigger] s[i])
}

/// A label value holds 0 to 255 printable-ASCII characters.
pub open spec fn valid_label_value(s: Seq<char>) -> bool {
    s.len() <= 255 && forall|i: int| 0 <= i < s.len() ==> is_label_char(#[trigger] s[i])
}

fn label_chars_check(s: &str, max: usize) -> (r: bool)
    ensures
        r == (s@.len() <= max && forall|i: int| 0 <= i < s@.len() ==> is_label_char(
            #[trigger] s@[i],
        )),
{
    let n = s.unicode_len();
    if n > max {
        return false;
    }
    let mut i: usize = 0;
    while i < n
        invariant
            n == s@.len(),
            i <= n,
            forall|k: int| 0 <= k < i ==> is_label_char(#[trigger] s@[k]),
        decreases n - i,
    {
        let u = s.get_char(i) as u32;
        if !(32 <= u && u <= 126) {
            return false;
        }
        i += 1;
    }
    true
}

/// A validated resource-label name.
#[derive(Debug, PartialEq, Eq, Hash)]
pub struct LabelName {
    text: String,
}

impl LabelName {
    /// The name's characters.
    pub closed spec fn text(self) -> Seq<char> {
        self.text@
    }

    /// A well-formed name matches the name grammar.
    pub open spec fn wf(self) -> bool {
        valid_label_name(self.text())
    }

    /// Law: a name is accepted exactly when it holds 1 to 255 characters,
    /// all printable ASCII.
    pub fn try_from_str(s: &str) -> (r: Result<Self, ()>)
        ensures
            r is Ok <==> valid_label_name(s@),
            r is Ok ==> r.unwrap().text() == s@,
    {
        let n = s.unicode_len();
        if n >= 1 && label_chars_check(s, 255) {
            Ok(LabelName { text: s.to_owned() })
        } else {
            Err(())
        }
    }

    /// The name's text.
    pub fn value(&self) -> (r: &str)
        ensures
            r@ == self.text(),
    {
        self.text.as_str()
    }
}

impl Clone for LabelName {
    fn clone(&self) -> (r: Self)
        ensures
            r == *self,
    {
        LabelName { text: self.text.clone() }
    }
}

impl core::str::FromStr for LabelName {
    type Err = ();

    fn from_str(s: &str) -> Result<Self, Self::Err> {
        LabelName::try_from_str(s)
    }
}

/// A validated resource-label value.
#[derive(Debug, PartialEq, Eq)]
pub struct LabelValue {
    text: String,
}

impl LabelValue {
    /// The value's characters.
    pub closed spec fn text(self) -> Seq<char> {
        self.text@
    }

    /// A well-formed value matches the value grammar.
    pub open spec fn wf(self) -> bool {
        valid_label_value(self.text())
    }

    /// Law: a value is accepted exactly when it holds at most 255
    /// characters, all printable ASCII; the empty value is accepted.
    pub fn try_from_str(s: &str) -> (r: Result<Self, ()>)
        ensures
            r is Ok <==> valid_label_value(s@),
            r is Ok ==> r.unwrap().text() == s@,
    {
        if label_chars_check(s, 255) {
            Ok(LabelValue { text: s.to_owned() })
        } else {
            Err(())
        }
    }

    /// The value's text.
    pub fn value(&self) -> (r: &str)
        ensures
            r@ == self.text(),
    {
        self.text.as_str()
    }
}

impl Clone for LabelValue {
    fn clone(&self) -> (r: Self)
        ensures
            r == *self,
    {
        LabelValue { text: self.text.clone() }
    }
}

impl core::str::FromStr for LabelValue {
    type Err = ();

    fn from_str(s: &str) -> Result<Self, Self::Err> {
        LabelValue::try_from_str(s)
    }
}

/// The mapping a list of labels stands for: later pairs win.
pub open spec fn labels_map(s: Seq<(LabelName, LabelValue)>) -> Map<Seq<char>, Seq<char>>
    decreases s.len(),
{
    if s.len() == 0 {
        Map::empty()
    } else {
        labels_map(s.drop_last()).insert(s.last().0.text(), s.last().1.text())
    }
}

/// Replacing the value at position `i` of a unique-keyed list inserts
/// that pair's key anew in the mapping.
proof fn lemma_labels_map_update(s: Seq<(LabelName, LabelValue)>, i: int, v: LabelValue)
    requires
        0 <= i < s.len(),
        forall|a: int, b: int|
            0 <= a < b < s.len() ==> (#[trigger] s[a]).0.text() != (#[trigger] s[b]).0.text(),
    ensures
        labels_map(s.update(i, (s[i].0, v))) == labels_map(s).insert(s[i].0.text(), v.text()),
    decreases s.len(),
{
    let s2 = s.update(i, (s[i].0, v));
    if i == s.len() - 1 {
        assert(s2.drop_last() =~= s.drop_last());
        assert(s2.last() == (s[i].0, v));
        assert(labels_map(s2) == labels_map(s.drop_last()).insert(s[i].0.text(), v.text()));
        assert(labels_map(s.drop_last()).insert(s[i].0.text(), v.text()) =~= labels_map(s).insert(
            s[i].0.text(),
            v.text(),
        ));
    } else {
        assert(s2.drop_last() =~= s.drop_last().update(i, (s[i].0, v)));
        assert(s.drop_last()[i] == s[i]);
        lemma_labels_map_update(s.drop_last(), i, v);
        assert(s2.last() == s.last());
        assert(labels_map(s2) == labels_map(s.drop_last()).insert(s[i].0.text(), v.text()).insert(
            s.last().0.text(),
            s.last().1.text(),
        ));
        assert(s[i].0.text() != s.last().0.text());
        assert(labels_map(s.drop_last()).insert(s[i].0.text(), v.text()).insert(
            s.last().0.text(),
            s.last().1.text(),
        ) =~= labels_map(s).insert(s[i].0.text(), v.text()));
    }
}

/// A bag of labels naming the process or service a span belongs to;
/// names are unique.
#[derive(Debug)]
pub struct Resource {
    labels: Vec<(LabelName, LabelValue)>,
}

impl Resource {
    /// The stored pairs, in insertion order.
    pub closed spec fn entries(self) -> Seq<(LabelName, LabelValue)> {
        self.labels@
    }

    /// The mapping the resource stands for.
    pub open spec fn as_map(self) -> Map<Seq<char>, Seq<char>> {
        labels_map(self.entries())
    }

    /// A well-formed resource holds valid pairs under pairwise distinct
    /// names.
    pub open spec fn wf(self) -> bool {
        (forall|a: int, b: int|
            0 <= a < b < self.entries().len() ==> (#[trigger] self.entries()[a]).0.text() != (
            #[trigger] self.entries()[b]).0.text()) && forall|i: int|
            0 <= i < self.entries().len() ==> (#[trigger] self.entries()[i]).0.wf()
                && self.entries()[i].1.wf()
    }

    /// The stored pairs.
    pub fn labels(&self) -> (r: &Vec<(LabelName, LabelValue)>)
        ensures
            r@ == self.entries(),
    {
        &self.labels
    }

    /// Stores a pair: an existing name's value is replaced in place, a
    /// new name is appended.
    pub fn upsert(&mut self, name: LabelName, value: LabelValue)
        requires
            old(self).wf(),
            name.wf(),
            value.wf(),
        ensures
            final(self).wf(),
            final(self).as_map() == old(self).as_map().insert(name.text(), value.text()),
    {
        let n = self.labels.len();
        let mut i: usize = 0;
        while i < n
            invariant
                n == self.entries().len(),
                i <= n,
                *self == *old(self),
                old(self).wf(),
                name.wf(),
                value.wf(),
                forall|j: int| 0 <= j < i ==> (#[trigger] self.entries()[j]).0.text() != name.text(),
            decreases n - i,
        {
            if labels_equal(&self.labels[i].0, &name) {
                let v2 = value.clone();
                let k2 = self.labels[i].0.clone();
                self.labels.set(i, (k2, v2));
                proof {
                    assert(self.entries() == old(self).entries().update(
                        i as int,
                        (old(self).entries()[i as int].0, value),
                    ));
                    lemma_labels_map_update(old(self).entries(), i as int, value);
                    assert(old(self).entries()[i as int].0.text() == name.text());
                    assert forall|a: int, b: int|
                        0 <= a < b < self.entries().len() implies (
                    #[trigger] self.entries()[a]).0.text() != (
                    #[trigger] self.entries()[b]).0.text() by {
                        assert(self.entries()[a].0.text() == old(self).entries()[a].0.text());
                        assert(self.entries()[b].0.text() == old(self).entries()[b].0.text());
                    }
                    assert forall|j: int| 0 <= j < self.entries().len() implies (
                    #[trigger] self.entries()[j]).0.wf() && self.entries()[j].1.wf() by {
                        if j != i {
                            assert(self.entries()[j] == old(self).entries()[j]);
                        }
                    }
                }
                return ;
            }
            i += 1;
        }
        self.labels.push((name, value));
        proof {
            assert(self.entries().drop_last() =~= old(self).entries());
        }
    }

    /// Validates and stores a pair; an invalid name or value rejects the
    /// pair whole, and the resource is then left unchanged.
    pub fn try_upsert(&mut self, name: &str, value: &str) -> (r: Result<(), ()>)
        requires
            old(self).wf(),
        ensures
            final(self).wf(),
            r is Ok <==> (valid_label_name(name@) && valid_label_value(value@)),
            r is Ok ==> final(self).as_map() == old(self).as_map().insert(name@, value@),
            r is Err ==> *final(self) == *old(self),
    {
        match LabelName::try_from_str(name) {
            Err(_) => Err(()),
            Ok(n) => match LabelValue::try_from_str(value) {
                Err(_) => Err(()),
                Ok(v) => {
                    self.upsert(n, v);
                    Ok(())
                },
            },
        }
    }

    /// Law: merging keeps both sides' labels; on a name both sides hold,
    /// the right side's value wins.
    pub fn merge(&self, other: &Self) -> (r: Self)
        requires
            self.wf(),
            other.wf(),
        ensures
            r.wf(),
            r.as_map() == self.as_map().union_prefer_right(other.as_map()),
    {
        let mut acc = Resource { labels: clone_labels(&self.labels) };
        let n = other.labels.len();
        let mut i: usize = 0;
        proof {
            assert(acc.entries() == self.entries());
            assert(acc.wf());
            assert(other.entries().subrange(0, 0) =~= Seq::<(LabelName, LabelValue)>::empty());
            assert(labels_map(Seq::<(LabelName, LabelValue)>::empty()) =~= Map::<
                Seq<char>,
                Seq<char>,
            >::empty());
            assert(self.as_map().union_prefer_right(Map::<Seq<char>, Seq<char>>::empty())
                =~= self.as_map());
        }
        while i < n
            invariant
                n == other.entries().len(),
                i <= n,
                other.wf(),
                acc.wf(),
                acc.as_map() == self.as_map().union_prefer_right(
                    labels_map(other.entries().subrange(0, i as int)),
                ),
            decreases n - i,
        {
            let name = other.labels[i].0.clone();
            let value = other.labels[i].1.clone();
            let ghost before = acc.as_map();
            acc.upsert(name, value);
            proof {
                let pre = other.entries().subrange(0, i as int);
                let post = other.entries().subrange(0, i + 1 as int);
                assert(post.drop_last() =~= pre);
                assert(post.last() == other.entries()[i as int]);
                assert(labels_map(post) == labels_map(pre).insert(
                    other.entries()[i as int].0.text(),
                    other.entries()[i as int].1.text(),
                ));
                assert(acc.as_map() =~= self.as_map().union_prefer_right(labels_map(post)));
            }
            i += 1;
        }
        proof {
            assert(other.entries().subrange(0, other.entries().len() as int) =~= other.entries());
        }
        acc
    }
}

fn labels_equal(a: &LabelName, b: &LabelName) -> (r: bool)
    ensures
        r == (a.text() == b.text()),
{
    a.text == b.text
}

fn clone_labels(v: &Vec<(LabelName, LabelValue)>) -> (r: Vec<(LabelName, LabelValue)>)
    ensures
        r@ == v@,
{
    let mut r: Vec<(LabelName, LabelValue)> = Vec::new();
    let mut i: usize = 0;
    while i < v.len()
        invariant
            i <= v@.len(),
            r@ == v@.subrange(0, i as int),
        decreases v@.len() - i,
    {
        r.push((v[i].0.clone(), v[i].1.clone()));
        proof {
            assert(r@ =~= v@.subrange(0, i + 1 as int));
        }
        i += 1;
    }
    proof {
        assert(r@ =~= v@);
    }
    r
}

impl Default for Resource {
    fn default() -> (r: Self)
        ensures
            r.wf(),
            r.as_map() == Map::<Seq<char>, Seq<char>>::empty(),
            r.entries() == Seq::<(LabelName, LabelValue)>::empty(),
    {
        Resource { labels: Vec::new() }
    }
}

impl Clone for Resource {
    fn clone(&self) -> (r: Self)
        ensures
            r.entries() == self.entries(),
    {
        Resource { labels: clone_labels(&self.labels) }
    }
}

} // verus!
