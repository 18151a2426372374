//! Vendor trace-state: validated key/value entries in a bounded, ordered
//! list, and their delimited text form.
//!
//! An entry's key and value are validated against the trace-state grammar
//! when the entry is built; an invalid pair is rejected whole. The list
//! keeps insertion order, replaces in place on an existing key, and holds
//! at most 32 entries; beyond that, new keys are silently dropped. The
//! text form joins entries as `key=value` pairs with `,`; decoding is
//! lenient and drops malformed segments instead of failing.
use vstd::prelude::*;

use crate::hex::push_char;
use crate::text::is_key_char;
use crate::text::is_space_char;
use crate::text::is_value_char;
use crate::text::key_text_check;
use crate::text::lemma_grammar_text_is_trimmed;
use crate::text::trim_chars;
use crate::text::trimmed;
use crate::text::valid_key_text;
use crate::text::valid_value_text;
use crate::text::value_text_check;

verus! {

/// A validated trace-state key.
#[derive(Debug, PartialEq, Eq)]
pub struct Key {
    text: String,
}

impl Key {
    /// The key's characters.
    pub closed spec fn text(self) -> Seq<char> {
        self.text@
    }

    /// A well-formed key matches the key grammar.
    pub open spec fn wf(self) -> bool {
        valid_key_text(self.text())
    }

    /// Validates a key: the input is trimmed, and the rest must match the
    /// key grammar; anything else is rejected.
    pub fn try_from(value: String) -> (r: Option<Self>)
        ensures
            r is Some <==> valid_key_text(trimmed(value@)),
            r is Some ==> r.unwrap().text() == trimmed(value@),
    {
        let t = trim_chars(value.as_str());
        if key_text_check(t.as_str()) {
            Some(Key { text: t })
        } else {
            None
        }
    }

    /// The key's text.
    pub fn as_str(&self) -> (r: &str)
        ensures
            r@ == self.text(),
    {
        self.text.as_str()
    }
}

impl Clone for Key {
    fn clone(&self) -> (r: Self)
        ensures
            r == *self,
    {
        Key { text: self.text.clone() }
    }
}

/// A validated trace-state value.
#[derive(Debug, PartialEq, Eq)]
pub struct Value {
    text: String,
}

impl Value {
    /// The value's characters.
    pub closed spec fn text(self) -> Seq<char> {
        self.text@
    }

    /// A well-formed value matches the value grammar.
    pub open spec fn wf(self) -> bool {
        valid_value_text(self.text())
    }

    /// Validates a value: the input is trimmed, and the rest must match
    /// the value grammar; anything else is rejected.
    pub fn try_from(value: String) -> (r: Option<Self>)
        ensures
            r is Some <==> valid_value_text(trimmed(value@)),
            r is Some ==> r.unwrap().text() == trimmed(value@),
    {
        let t = trim_chars(value.as_str());
        if value_text_check(t.as_str()) {
            Some(Value { text: t })
        } else {
            None
        }
    }

    /// The value's text.
    pub fn as_str(&self) -> (r: &str)
        ensures
            r@ == self.text(),
    {
        self.text.as_str()
    }
}

impl Clone for Value {
    fn clone(&self) -> (r: Self)
        ensures
            r == *self,
    {
        Value { text: self.text.clone() }
    }
}

/// One trace-state key/value pair.
#[derive(Debug, PartialEq, Eq)]
pub struct Entry {
    key: Key,
    value: Value,
}

/// The text of one entry: `key=value`.
pub open spec fn entry_text(key: Seq<char>, value: Seq<char>) -> Seq<char> {
    key + seq!['='] + value
}

impl Entry {
    /// The entry's key characters.
    pub closed spec fn key_text(self) -> Seq<char> {
        self.key.text()
    }

    /// The entry's value characters.
    pub closed spec fn value_text(self) -> Seq<char> {
        self.value.text()
    }

    /// A well-formed entry holds a grammatical key and value.
    pub open spec fn wf(self) -> bool {
        valid_key_text(self.key_text()) && valid_value_text(self.value_text())
    }

    /// Validates a pair; an invalid key or value rejects the whole entry.
    pub fn try_from(key: String, value: String) -> (r: Option<Self>)
        ensures
            r is Some <==> (valid_key_text(trimmed(key@)) && valid_value_text(trimmed(value@))),
            r is Some ==> r.unwrap().key_text() == trimmed(key@),
            r is Some ==> r.unwrap().value_text() == trimmed(value@),
            r is Some ==> r.unwrap().wf(),
    {
        match Key::try_from(key) {
            None => None,
            Some(k) => match Value::try_from(value) {
                None => None,
                Some(v) => Some(Entry { key: k, value: v }),
            },
        }
    }

    /// The entry's key text.
    pub fn key(&self) -> (r: &str)
        ensures
            r@ == self.key_text(),
    {
        self.key.as_str()
    }

    /// The entry's value text.
    pub fn value(&self) -> (r: &str)
        ensures
            r@ == self.value_text(),
    {
        self.value.as_str()
    }

    /// The entry's text form `key=value`.
    pub fn to_string(&self) -> (r: String)
        ensures
            r@ == entry_text(self.key_text(), self.value_text()),
    {
        let mut r = self.key.text.clone();
        push_char(&mut r, '=');
        r.append(self.value.text.as_str());
        proof {
            assert(r@ =~= entry_text(self.key_text(), self.value_text()));
        }
        r
    }
}

impl Clone for Entry {
    fn clone(&self) -> (r: Self)
        ensures
            r == *self,
    {
        Entry { key: self.key.clone(), value: self.value.clone() }
    }
}

/// Position of the first occurrence of `c` in `s`, if any.
pub open spec fn find_char(s: Seq<char>, c: char) -> Option<nat>
    decreases s.len(),
{
    if s.len() == 0 {
        None
    } else if s[0] == c {
        Some(0 as nat)
    } else {
        match find_char(s.drop_first(), c) {
            None => None,
            Some(i) => Some(i + 1),
        }
    }
}

/// A position whose prefix is free of `c` and that holds `c` is exactly
/// what `find_char` finds.
pub proof fn lemma_find_char_exact(s: Seq<char>, c: char, i: int)
    requires
        0 <= i < s.len(),
        s[i] == c,
        forall|k: int| 0 <= k < i ==> s[k] != c,
    ensures
        find_char(s, c) == Some(i as nat),
    decreases s.len(),
{
    if i == 0 {
    } else {
        let t = s.drop_first();
        assert(forall|k: int| 0 <= k < i - 1 ==> #[trigger] t[k] == s[k + 1]);
        assert(t[i - 1] == s[i]);
        lemma_find_char_exact(t, c, i - 1);
    }
}

/// A text without `c` has no position for `find_char` to find.
pub proof fn lemma_find_char_none(s: Seq<char>, c: char)
    requires
        forall|k: int| 0 <= k < s.len() ==> s[k] != c,
    ensures
        find_char(s, c) is None,
    decreases s.len(),
{
    if s.len() > 0 {
        let t = s.drop_first();
        assert(forall|k: int| 0 <= k < t.len() ==> #[trigger] t[k] == s[k + 1]);
        lemma_find_char_none(t, c);
    }
}

/// Searching a concatenation whose first part is free of `c` finds `c`
/// where the second part holds it, shifted by the first part's length.
pub proof fn lemma_find_char_concat(a: Seq<char>, b: Seq<char>, c: char)
    requires
        forall|k: int| 0 <= k < a.len() ==> a[k] != c,
    ensures
        find_char(a + b, c) == match find_char(b, c) {
            None => None::<nat>,
            Some(i) => Some((a.len() + i) as nat),
        },
    decreases a.len(),
{
    if a.len() == 0 {
        assert(a + b =~= b);
    } else {
        let s = a + b;
        assert(s[0] == a[0]);
        assert(s.drop_first() =~= a.drop_first() + b);
        assert(forall|k: int|
            0 <= k < a.drop_first().len() ==> #[trigger] a.drop_first()[k] == a[k + 1]);
        lemma_find_char_concat(a.drop_first(), b, c);
    }
}

/// What parsing one `key=value` segment yields: the trimmed key before
/// the first `=` and the trimmed value after it, provided both match
/// their grammars; anything else yields nothing.
pub open spec fn parse_entry_text(s: Seq<char>) -> Option<(Seq<char>, Seq<char>)> {
    match find_char(s, '=') {
        None => None,
        Some(i) => {
            let k = trimmed(s.subrange(0, i as int));
            let v = trimmed(s.subrange(i + 1 as int, s.len() as int));
            if valid_key_text(k) && valid_value_text(v) {
                Some((k, v))
            } else {
                None
            }
        },
    }
}

/// Position of the first occurrence of `c`, scanning left to right.
fn scan_for_char(s: &str, c: char) -> (r: Option<usize>)
    ensures
        r is Some ==> r.unwrap() < s@.len() && find_char(s@, c) == Some(r.unwrap() as nat),
        r is None ==> find_char(s@, c) is None,
{
    let n = s.unicode_len();
    let mut i: usize = 0;
    while i < n
        invariant
            n == s@.len(),
            i <= n,
            forall|k: int| 0 <= k < i ==> s@[k] != c,
        decreases n - i,
    {
        if s.get_char(i) == c {
            proof {
                lemma_find_char_exact(s@, c, i as int);
            }
            return Some(i);
        }
        i += 1;
    }
    proof {
        lemma_find_char_none(s@, c);
    }
    None
}

impl Entry {
    /// Parses one `key=value` segment: the key stands before the first
    /// `=`, the value after it; a missing `=` or a part that fails its
    /// grammar rejects the segment.
    pub fn try_from_http_text(s: &str) -> (r: Result<Self, ()>)
        ensures
            r is Ok <==> parse_entry_text(s@) is Some,
            r is Ok ==> r.unwrap().key_text() == parse_entry_text(s@).unwrap().0,
            r is Ok ==> r.unwrap().value_text() == parse_entry_text(s@).unwrap().1,
            r is Ok ==> r.unwrap().wf(),
    {
        let n = s.unicode_len();
        match scan_for_char(s, '=') {
            None => Err(()),
            Some(i) => {
                let k = s.substring_char(0, i).to_owned();
                let v = s.substring_char(i + 1, n).to_owned();
                match Entry::try_from(k, v) {
                    None => Err(()),
                    Some(e) => Ok(e),
                }
            },
        }
    }
}

/// Position of the first entry whose key is `k`, if any.
pub open spec fn find_key(entries: Seq<Entry>, k: Seq<char>) -> Option<nat>
    decreases entries.len(),
{
    if entries.len() == 0 {
        None
    } else if entries[0].key_text() == k {
        Some(0 as nat)
    } else {
        match find_key(entries.drop_first(), k) {
            None => None,
            Some(i) => Some(i + 1),
        }
    }
}

proof fn lemma_find_key_exact(entries: Seq<Entry>, k: Seq<char>, i: int)
    requires
        0 <= i < entries.len(),
        entries[i].key_text() == k,
        forall|j: int| 0 <= j < i ==> (#[trigger] entries[j]).key_text() != k,
    ensures
        find_key(entries, k) == Some(i as nat),
    decreases entries.len(),
{
    if i == 0 {
    } else {
        let t = entries.drop_first();
        assert(forall|j: int| 0 <= j < t.len() ==> #[trigger] t[j] == entries[j + 1]);
        lemma_find_key_exact(t, k, i - 1);
    }
}

proof fn lemma_find_key_none(entries: Seq<Entry>, k: Seq<char>)
    requires
        forall|j: int| 0 <= j < entries.len() ==> (#[trigger] entries[j]).key_text() != k,
    ensures
        find_key(entries, k) is None,
    decreases entries.len(),
{
    if entries.len() > 0 {
        let t = entries.drop_first();
        assert(forall|j: int| 0 <= j < t.len() ==> #[trigger] t[j] == entries[j + 1]);
        lemma_find_key_none(t, k);
    }
}

/// The text of a list of entries: `key=value` pairs joined with `,`.
pub open spec fn state_text(entries: Seq<Entry>) -> Seq<char>
    decreases entries.len(),
{
    if entries.len() == 0 {
        Seq::empty()
    } else if entries.len() == 1 {
        entry_text(entries[0].key_text(), entries[0].value_text())
    } else {
        entry_text(entries[0].key_text(), entries[0].value_text()) + seq![','] + state_text(
            entries.drop_first(),
        )
    }
}

/// The text split at every `,`.
pub open spec fn split_on_comma(s: Seq<char>) -> Seq<Seq<char>>
    decreases s.len(),
{
    match find_char(s, ',') {
        None => seq![s],
        Some(i) => if i < s.len() {
            seq![s.subrange(0, i as int)] + split_on_comma(
                s.subrange(i + 1 as int, s.len() as int),
            )
        } else {
            seq![s]
        },
    }
}

/// The key/value pairs of the segments that parse, in segment order;
/// a segment that fails to parse is dropped silently.
pub open spec fn parsed_entries(segs: Seq<Seq<char>>) -> Seq<(Seq<char>, Seq<char>)>
    decreases segs.len(),
{
    if segs.len() == 0 {
        Seq::empty()
    } else {
        let rest = parsed_entries(segs.drop_first());
        match parse_entry_text(segs[0]) {
            None => rest,
            Some(kv) => seq![kv] + rest,
        }
    }
}

/// What decoding a trace-state text yields: the pairs of the well-formed
/// `key=value` segments, in original order, capped at the first 32.
pub open spec fn decode_state_text(s: Seq<char>) -> Seq<(Seq<char>, Seq<char>)> {
    let all = parsed_entries(split_on_comma(s));
    if all.len() <= 32 {
        all
    } else {
        all.subrange(0, 32)
    }
}

/// The entries carry exactly these key/value pairs, in order.
pub open spec fn entries_match(entries: Seq<Entry>, kvs: Seq<(Seq<char>, Seq<char>)>) -> bool {
    entries.len() == kvs.len() && forall|i: int|
        0 <= i < entries.len() ==> (#[trigger] entries[i]).key_text() == kvs[i].0
            && entries[i].value_text() == kvs[i].1
}

/// An ordered list of trace-state entries, at most 32 of them.
#[derive(Debug, PartialEq, Eq)]
pub struct TraceState {
    entries: Vec<Entry>,
}

impl View for TraceState {
    type V = Seq<Entry>;

    closed spec fn view(&self) -> Seq<Entry> {
        self.entries@
    }
}

fn keys_equal(a: &Key, b: &Key) -> (r: bool)
    ensures
        r == (a.text() == b.text()),
{
    a.text == b.text
}

/// Parses every `,`-separated segment, keeping the ones that are valid
/// entries, in order.
fn decode_segments(s: &str) -> (v: Vec<Entry>)
    ensures
        entries_match(v@, parsed_entries(split_on_comma(s@))),
        forall|i: int| 0 <= i < v@.len() ==> (#[trigger] v@[i]).wf(),
    decreases s@.len(),
{
    let n = s.unicode_len();
    match scan_for_char(s, ',') {
        None => {
            let ghost segs = split_on_comma(s@);
            proof {
                assert(segs =~= seq![s@]);
                assert(segs[0] == s@);
                assert(segs.drop_first() =~= Seq::<Seq<char>>::empty());
                assert(parsed_entries(Seq::<Seq<char>>::empty()) =~= Seq::<
                    (Seq<char>, Seq<char>),
                >::empty());
            }
            let mut v: Vec<Entry> = Vec::new();
            match Entry::try_from_http_text(s) {
                Err(_) => {
                    proof {
                        assert(parse_entry_text(segs[0]) is None);
                        assert(parsed_entries(segs) =~= Seq::<(Seq<char>, Seq<char>)>::empty());
                    }
                    v
                },
                Ok(e) => {
                    v.push(e);
                    proof {
                        let kv = parse_entry_text(s@).unwrap();
                        assert(v@ =~= seq![e]);
                        assert(parsed_entries(segs) =~= seq![kv]);
                        assert(e.key_text() == kv.0 && e.value_text() == kv.1);
                    }
                    v
                },
            }
        },
        Some(i) => {
            let ghost segs = split_on_comma(s@);
            let head = s.substring_char(0, i);
            let tail = s.substring_char(i + 1, n);
            proof {
                assert(segs == seq![s@.subrange(0, i as int)] + split_on_comma(
                    s@.subrange(i + 1 as int, s@.len() as int),
                ));
                assert(segs[0] == head@);
                assert(segs.drop_first() =~= split_on_comma(tail@));
            }
            let mut v = decode_segments(tail);
            let ghost rest_kvs = parsed_entries(split_on_comma(tail@));
            proof {
                assert(parsed_entries(segs.drop_first()) == rest_kvs);
            }
            match Entry::try_from_http_text(head) {
                Err(_) => {
                    proof {
                        assert(parse_entry_text(segs[0]) is None);
                        assert(parsed_entries(segs) == rest_kvs);
                    }
                    v
                },
                Ok(e) => {
                    let ghost prior = v@;
                    v.insert(0, e);
                    proof {
                        let kv = parse_entry_text(head@).unwrap();
                        assert(v@ =~= seq![e] + prior);
                        assert(parsed_entries(segs) == seq![kv] + rest_kvs);
                        assert(e.key_text() == kv.0 && e.value_text() == kv.1);
                        assert(entries_match(v@, parsed_entries(segs)));
                    }
                    v
                },
            }
        },
    }
}

impl TraceState {
    /// A well-formed trace state holds at most 32 entries, each valid.
    pub open spec fn wf(self) -> bool {
        self@.len() <= 32 && forall|i: int| 0 <= i < self@.len() ==> (#[trigger] self@[i]).wf()
    }

    /// The capacity bound of the list.
    pub fn max_entry_size() -> (r: usize)
        ensures
            r == 32,
    {
        32
    }

    /// A trace state with no entries.
    pub fn empty() -> (r: Self)
        ensures
            r@ == Seq::<Entry>::empty(),
            r.wf(),
    {
        TraceState { entries: Vec::new() }
    }

    /// Duplicates a parent's entries into a new owned list.
    pub fn propagate(parent: &Self) -> (r: Self)
        ensures
            r@ == parent@,
    {
        let entries = parent.entries.clone();
        proof {
            assert(entries@ =~= parent.entries@);
        }
        TraceState { entries }
    }

    /// Number of entries.
    pub fn len(&self) -> (r: usize)
        ensures
            r == self@.len(),
    {
        self.entries.len()
    }

    /// The entry at position `i`.
    pub fn get(&self, i: usize) -> (r: &Entry)
        requires
            i < self@.len(),
        ensures
            *r == self@[i as int],
    {
        &self.entries[i]
    }

    /// Whether any entry is stored.
    pub fn has_entry(&self) -> (r: bool)
        ensures
            r == (self@.len() > 0),
    {
        self.entries.len() > 0
    }

    /// Replaces the value of an existing key in place; appends a new key
    /// only while fewer than 32 entries are stored, and silently drops a
    /// new key once the list is full.
    pub fn upsert(&mut self, entry: Entry)
        requires
            old(self).wf(),
            entry.wf(),
        ensures
            final(self).wf(),
            match find_key(old(self)@, entry.key_text()) {
                Some(i) => final(self)@.len() == old(self)@.len() && final(self)@[i as int].key_text()
                    == old(self)@[i as int].key_text() && final(self)@[i as int].value_text()
                    == entry.value_text() && (forall|j: int|
                    0 <= j < old(self)@.len() && j != i ==> final(self)@[j] == old(self)@[j]),
                None => final(self)@ == if old(self)@.len() < 32 {
                    old(self)@.push(entry)
                } else {
                    old(self)@
                },
            },
    {
        let n = self.entries.len();
        let mut i: usize = 0;
        while i < n
            invariant
                n == self@.len(),
                i <= n,
                *self == *old(self),
                old(self).wf(),
                entry.wf(),
                forall|j: int| 0 <= j < i ==> (#[trigger] self@[j]).key_text() != entry.key_text(),
            decreases n - i,
        {
            if keys_equal(&self.entries[i].key, &entry.key) {
                proof {
                    lemma_find_key_exact(self@, entry.key_text(), i as int);
                }
                let Entry { key: _, value: new_value } = entry;
                let old_key = self.entries[i].key.clone();
                let new_entry = Entry { key: old_key, value: new_value };
                proof {
                    assert(old(self)@[i as int].wf());
                    assert(new_entry.wf());
                }
                self.entries.set(i, new_entry);
                proof {
                    assert forall|j: int| 0 <= j < self@.len() implies (
                    #[trigger] self@[j]).wf() by {
                        if j != i {
                            assert(self@[j] == old(self)@[j]);
                        }
                    }
                }
                return ;
            }
            i += 1;
        }
        proof {
            lemma_find_key_none(self@, entry.key_text());
        }
        if self.entries.len() < 32 {
            self.entries.push(entry);
        }
    }

    /// The list's text: entries joined as `key=value` pairs with `,`.
    pub fn to_http_text(&self) -> (r: String)
        ensures
            r@ == state_text(self@),
    {
        let r = encode_from(&self.entries, 0);
        proof {
            assert(self.entries@.subrange(0, self.entries@.len() as int) =~= self@);
        }
        r
    }

    /// Lenient decoding: the text is split at every `,`, each segment is
    /// parsed on its own, malformed segments are dropped silently, and
    /// the first 32 valid entries make up the state.
    pub fn try_from_http_text(s: &str) -> (r: Self)
        ensures
            r.wf(),
            entries_match(r@, decode_state_text(s@)),
    {
        let mut v = decode_segments(s);
        let ghost all = parsed_entries(split_on_comma(s@));
        if v.len() > 32 {
            v.truncate(32);
        }
        let r = TraceState { entries: v };
        proof {
            let kvs = decode_state_text(s@);
            assert(entries_match(r@, kvs));
        }
        r
    }
}

/// Text of the entries from position `from` on, joined with `,`.
fn encode_from(entries: &Vec<Entry>, from: usize) -> (r: String)
    requires
        from <= entries@.len(),
    ensures
        r@ == state_text(entries@.subrange(from as int, entries@.len() as int)),
    decreases entries@.len() - from,
{
    let n = entries.len();
    let ghost sub = entries@.subrange(from as int, entries@.len() as int);
    if from == n {
        proof {
            assert(sub =~= Seq::<Entry>::empty());
        }
        String::new()
    } else if from + 1 == n {
        let r = entries[from].to_string();
        proof {
            assert(sub.len() == 1 && sub[0] == entries@[from as int]);
        }
        r
    } else {
        let mut r = entries[from].to_string();
        push_char(&mut r, ',');
        let rest = encode_from(entries, from + 1);
        r.append(rest.as_str());
        proof {
            assert(sub[0] == entries@[from as int]);
            assert(sub.drop_first() =~= entries@.subrange(from + 1 as int, entries@.len() as int));
            assert(r@ =~= state_text(sub));
        }
        r
    }
}

/// The key/value pairs of a list of entries, in order.
pub open spec fn kvs_of(entries: Seq<Entry>) -> Seq<(Seq<char>, Seq<char>)>
    decreases entries.len(),
{
    if entries.len() == 0 {
        Seq::empty()
    } else {
        seq![(entries[0].key_text(), entries[0].value_text())] + kvs_of(entries.drop_first())
    }
}

/// Law: a key and a value that match their grammars build an entry, the
/// entry's text is `key=value`, and parsing that text gives the pair back.
pub proof fn lemma_entry_text_round_trip(k: Seq<char>, v: Seq<char>)
    requires
        valid_key_text(k),
        valid_value_text(v),
    ensures
        trimmed(k) == k,
        trimmed(v) == v,
        parse_entry_text(entry_text(k, v)) == Some((k, v)),
{
    assert(!is_space_char(k[0]) && !is_space_char(k[k.len() - 1]));
    assert(!is_space_char(v[0]) && !is_space_char(v[v.len() - 1]));
    lemma_grammar_text_is_trimmed(k);
    lemma_grammar_text_is_trimmed(v);
    let t = entry_text(k, v);
    let b = seq!['='] + v;
    assert(t =~= k + b);
    assert(b[0] == '=');
    assert(find_char(b, '=') == Some(0 as nat));
    assert(forall|i: int| 0 <= i < k.len() ==> is_key_char(#[trigger] k[i]));
    assert(forall|i: int| 0 <= i < k.len() ==> k[i] != '=');
    lemma_find_char_concat(k, b, '=');
    assert(find_char(t, '=') == Some(k.len()));
    assert(t.subrange(0, k.len() as int) =~= k);
    assert(t.subrange(k.len() + 1 as int, t.len() as int) =~= v);
}

/// No character of an entry's text is a comma.
proof fn lemma_entry_text_no_comma(k: Seq<char>, v: Seq<char>)
    requires
        valid_key_text(k),
        valid_value_text(v),
    ensures
        forall|i: int| 0 <= i < entry_text(k, v).len() ==> entry_text(k, v)[i] != ',',
{
    let t = entry_text(k, v);
    assert forall|i: int| 0 <= i < t.len() implies t[i] != ',' by {
        if i < k.len() {
            assert(t[i] == k[i] && is_key_char(k[i]));
        } else if i == k.len() {
            assert(t[i] == '=');
        } else {
            assert(t[i] == v[i - k.len() - 1] && is_value_char(v[i - k.len() - 1]));
        }
    }
}

/// The parsed segments of a well-formed state's text are exactly its
/// key/value pairs.
proof fn lemma_parsed_state_text(entries: Seq<Entry>)
    requires
        forall|i: int| 0 <= i < entries.len() ==> (#[trigger] entries[i]).wf(),
    ensures
        parsed_entries(split_on_comma(state_text(entries))) == kvs_of(entries),
    decreases entries.len(),
{
    let t = state_text(entries);
    if entries.len() == 0 {
        assert(t == Seq::<char>::empty());
        lemma_find_char_none(t, ',');
        let segs = split_on_comma(t);
        assert(segs =~= seq![t]);
        assert(segs.drop_first() =~= Seq::<Seq<char>>::empty());
        assert(parsed_entries(Seq::<Seq<char>>::empty()) =~= Seq::<(Seq<char>, Seq<char>)>::empty());
        assert(find_char(t, '=') is None);
        assert(parse_entry_text(segs[0]) is None);
        assert(parsed_entries(segs) =~= Seq::<(Seq<char>, Seq<char>)>::empty());
        assert(kvs_of(entries) =~= Seq::<(Seq<char>, Seq<char>)>::empty());
    } else if entries.len() == 1 {
        let e = entries[0];
        let k = e.key_text();
        let v = e.value_text();
        assert(t == entry_text(k, v));
        lemma_entry_text_no_comma(k, v);
        lemma_find_char_none(t, ',');
        let segs = split_on_comma(t);
        assert(segs =~= seq![t]);
        assert(segs.drop_first() =~= Seq::<Seq<char>>::empty());
        assert(parsed_entries(Seq::<Seq<char>>::empty()) =~= Seq::<(Seq<char>, Seq<char>)>::empty());
        lemma_entry_text_round_trip(k, v);
        assert(parse_entry_text(segs[0]) == Some((k, v)));
        assert(parsed_entries(segs) =~= seq![(k, v)]);
        assert(entries.drop_first() =~= Seq::<Entry>::empty());
        assert(kvs_of(Seq::<Entry>::empty()) =~= Seq::<(Seq<char>, Seq<char>)>::empty());
        assert(kvs_of(entries) =~= seq![(k, v)]);
    } else {
        let e = entries[0];
        let k = e.key_text();
        let v = e.value_text();
        let rest = entries.drop_first();
        assert(forall|i: int| 0 <= i < rest.len() ==> #[trigger] rest[i] == entries[i + 1]);
        let a = entry_text(k, v);
        let rt = state_text(rest);
        assert(t == a + seq![','] + rt);
        let b = seq![','] + rt;
        assert(t =~= a + b);
        lemma_entry_text_no_comma(k, v);
        assert(b[0] == ',');
        assert(find_char(b, ',') == Some(0 as nat));
        lemma_find_char_concat(a, b, ',');
        assert(find_char(t, ',') == Some(a.len()));
        assert(a.len() < t.len());
        let segs = split_on_comma(t);
        assert(t.subrange(0, a.len() as int) =~= a);
        assert(t.subrange(a.len() + 1 as int, t.len() as int) =~= rt);
        assert(segs == seq![a] + split_on_comma(rt));
        assert(segs[0] == a);
        assert(segs.drop_first() =~= split_on_comma(rt));
        lemma_entry_text_round_trip(k, v);
        assert(parse_entry_text(a) == Some((k, v)));
        lemma_parsed_state_text(rest);
        assert(parsed_entries(segs) == seq![(k, v)] + kvs_of(rest));
        assert(kvs_of(entries) == seq![(k, v)] + kvs_of(rest));
    }
}

/// Law: the text of a list of well-formed entries decodes back to the
/// list's own key/value pairs — all of them when the list holds at most
/// 32 entries (decoding is then a fixed point), and exactly the first 32
/// when it holds more.
pub proof fn lemma_state_text_round_trip(entries: Seq<Entry>)
    requires
        forall|i: int| 0 <= i < entries.len() ==> (#[trigger] entries[i]).wf(),
    ensures
        entries.len() <= 32 ==> decode_state_text(state_text(entries)) == kvs_of(entries),
        entries.len() > 32 ==> decode_state_text(state_text(entries)) == kvs_of(
            entries,
        ).subrange(0, 32),
    decreases entries.len(),
{
    lemma_parsed_state_text(entries);
    lemma_kvs_of_len(entries);
}

/// One text segment holds no comma.
pub open spec fn segment_has_no_comma(s: Seq<char>) -> bool {
    forall|i: int| 0 <= i < s.len() ==> s[i] != ','
}

/// The segments joined back into one text with `,`.
pub open spec fn join_segments(segs: Seq<Seq<char>>) -> Seq<char>
    decreases segs.len(),
{
    if segs.len() == 0 {
        Seq::empty()
    } else if segs.len() == 1 {
        segs[0]
    } else {
        segs[0] + seq![','] + join_segments(segs.drop_first())
    }
}

/// Splitting the joined text gives the segments back, provided none of
/// them holds a comma of its own.
pub proof fn lemma_split_of_join(segs: Seq<Seq<char>>)
    requires
        segs.len() > 0,
        forall|i: int| 0 <= i < segs.len() ==> segment_has_no_comma(#[trigger] segs[i]),
    ensures
        split_on_comma(join_segments(segs)) == segs,
    decreases segs.len(),
{
    let t = join_segments(segs);
    if segs.len() == 1 {
        assert(t == segs[0]);
        assert(segment_has_no_comma(segs[0]));
        lemma_find_char_none(t, ',');
        assert(split_on_comma(t) =~= segs);
    } else {
        let a = segs[0];
        let rest = segs.drop_first();
        let rt = join_segments(rest);
        let b = seq![','] + rt;
        assert(t =~= a + b);
        assert(b[0] == ',');
        assert(find_char(b, ',') == Some(0 as nat));
        assert(segment_has_no_comma(a));
        lemma_find_char_concat(a, b, ',');
        assert(find_char(t, ',') == Some(a.len()));
        assert(a.len() < t.len());
        assert(t.subrange(0, a.len() as int) =~= a);
        assert(t.subrange(a.len() + 1 as int, t.len() as int) =~= rt);
        assert(forall|i: int| 0 <= i < rest.len() ==> #[trigger] rest[i] == segs[i + 1]);
        lemma_split_of_join(rest);
        assert(split_on_comma(t) == seq![a] + split_on_comma(rt));
        assert(seq![a] + rest =~= segs);
    }
}

/// A segment that parses as no entry contributes nothing: the parsed
/// pairs are those of the list without it.
proof fn lemma_parsed_entries_skip(segs: Seq<Seq<char>>, p: int)
    requires
        0 <= p < segs.len(),
        parse_entry_text(segs[p]) is None,
    ensures
        parsed_entries(segs) == parsed_entries(segs.remove(p)),
    decreases segs.len(),
{
    if p == 0 {
        assert(segs.remove(0) =~= segs.drop_first());
    } else {
        let rest = segs.drop_first();
        assert(forall|i: int| 0 <= i < rest.len() ==> #[trigger] rest[i] == segs[i + 1]);
        lemma_parsed_entries_skip(rest, p - 1);
        assert(segs.remove(p).drop_first() =~= rest.remove(p - 1));
        assert(segs.remove(p)[0] == segs[0]);
        assert(segs.remove(p).len() > 0);
    }
}

/// Law: a malformed segment among the others is dropped alone, wherever
/// it stands: the joined text decodes to exactly what the text without
/// that segment decodes to, the remaining segments kept in their
/// original order.
pub proof fn lemma_malformed_segment_dropped_alone(segs: Seq<Seq<char>>, p: int)
    requires
        segs.len() > 1,
        0 <= p < segs.len(),
        parse_entry_text(segs[p]) is None,
        forall|i: int| 0 <= i < segs.len() ==> segment_has_no_comma(#[trigger] segs[i]),
    ensures
        decode_state_text(join_segments(segs)) == decode_state_text(
            join_segments(segs.remove(p)),
        ),
{
    lemma_split_of_join(segs);
    let shorter = segs.remove(p);
    assert forall|i: int| 0 <= i < shorter.len() implies segment_has_no_comma(
        #[trigger] shorter[i],
    ) by {
        if i < p {
            assert(shorter[i] == segs[i]);
        } else {
            assert(shorter[i] == segs[i + 1]);
        }
    }
    lemma_split_of_join(shorter);
    lemma_parsed_entries_skip(segs, p);
}

/// A list's key/value pairs are as many as its entries.
proof fn lemma_kvs_of_len(entries: Seq<Entry>)
    ensures
        kvs_of(entries).len() == entries.len(),
    decreases entries.len(),
{
    if entries.len() > 0 {
        lemma_kvs_of_len(entries.drop_first());
    }
}

} // verus!
