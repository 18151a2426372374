//! Character classes and trimming for the trace-state grammar.
//!
//! Keys and values are validated after trimming surrounding whitespace;
//! the grammar itself admits only printable ASCII, so a string that
//! matches it carries no whitespace of its own.
use vstd::prelude::*;

verus! {

/// The characters the White_Space property names: what trimming removes.
pub open spec fn is_space_char(c: char) -> bool {
    let u = c as u32;
    (9 <= u && u <= 13) || u == 32 || u == 0x85 || u == 0xa0 || u == 0x1680 || (0x2000 <= u && u
        <= 0x200a) || u == 0x2028 || u == 0x2029 || u == 0x202f || u == 0x205f || u == 0x3000
}

/// How many whitespace characters the text starts with.
pub open spec fn leading_ws(s: Seq<char>) -> nat
    decreases s.len(),
{
    if s.len() == 0 || !is_space_char(s[0]) {
        0
    } else {
        1 + leading_ws(s.drop_first())
    }
}

/// How many whitespace characters the text ends with.
pub open spec fn trailing_ws(s: Seq<char>) -> nat
    decreases s.len(),
{
    if s.len() == 0 || !is_space_char(s[s.len() - 1]) {
        0
    } else {
        1 + trailing_ws(s.drop_last())
    }
}

/// The text with leading and trailing whitespace removed.
pub open spec fn trimmed(s: Seq<char>) -> Seq<char> {
    if leading_ws(s) == s.len() {
        Seq::empty()
    } else {
        s.subrange(leading_ws(s) as int, s.len() - trailing_ws(s))
    }
}

/// The number of leading whitespace characters marks the first
/// non-whitespace position.
pub proof fn lemma_leading_ws(s: Seq<char>)
    ensures
        leading_ws(s) <= s.len(),
        forall|i: int| 0 <= i < leading_ws(s) ==> is_space_char(#[trigger] s[i]),
        leading_ws(s) < s.len() ==> !is_space_char(s[leading_ws(s) as int]),
    decreases s.len(),
{
    if s.len() == 0 || !is_space_char(s[0]) {
    } else {
        lemma_leading_ws(s.drop_first());
        assert forall|i: int| 0 <= i < leading_ws(s) implies is_space_char(#[trigger] s[i]) by {
            if i > 0 {
                assert(s[i] == s.drop_first()[i - 1]);
            }
        }
    }
}

/// A prefix of whitespace that stops at a non-whitespace character (or at
/// the end) has exactly the length that `leading_ws` gives.
pub proof fn lemma_leading_ws_exact(s: Seq<char>, i: int)
    requires
        0 <= i <= s.len(),
        forall|k: int| 0 <= k < i ==> is_space_char(#[trigger] s[k]),
        i < s.len() ==> !is_space_char(s[i]),
    ensures
        leading_ws(s) == i,
    decreases s.len(),
{
    if s.len() == 0 {
    } else if !is_space_char(s[0]) {
        assert(i == 0);
    } else {
        assert(i >= 1);
        let t = s.drop_first();
        assert(forall|k: int| 0 <= k < i - 1 ==> #[trigger] t[k] == s[k + 1]);
        if i - 1 < t.len() {
            assert(t[i - 1] == s[i]);
        }
        lemma_leading_ws_exact(t, i - 1);
    }
}

/// The number of trailing whitespace characters marks the last
/// non-whitespace position.
pub proof fn lemma_trailing_ws(s: Seq<char>)
    ensures
        trailing_ws(s) <= s.len(),
        forall|i: int| s.len() - trailing_ws(s) <= i < s.len() ==> is_space_char(#[trigger] s[i]),
        trailing_ws(s) < s.len() ==> !is_space_char(s[s.len() - trailing_ws(s) - 1]),
    decreases s.len(),
{
    if s.len() == 0 || !is_space_char(s[s.len() - 1]) {
    } else {
        lemma_trailing_ws(s.drop_last());
        assert forall|i: int| s.len() - trailing_ws(s) <= i < s.len() implies is_space_char(
            #[trigger] s[i],
        ) by {
            if i < s.len() - 1 {
                assert(s[i] == s.drop_last()[i]);
            }
        }
    }
}

/// A suffix of whitespace that starts after a non-whitespace character
/// (or at the start) has exactly the length that `trailing_ws` gives.
pub proof fn lemma_trailing_ws_exact(s: Seq<char>, j: int)
    requires
        0 <= j <= s.len(),
        forall|k: int| j <= k < s.len() ==> is_space_char(#[trigger] s[k]),
        j > 0 ==> !is_space_char(s[j - 1]),
    ensures
        trailing_ws(s) == s.len() - j,
    decreases s.len(),
{
    if s.len() == 0 {
    } else if !is_space_char(s[s.len() - 1]) {
        assert(j == s.len());
    } else {
        assert(j <= s.len() - 1);
        let t = s.drop_last();
        assert(forall|k: int| 0 <= k < t.len() ==> #[trigger] t[k] == s[k]);
        lemma_trailing_ws_exact(t, j);
    }
}

/// Where some character is no whitespace, the leading and the trailing
/// whitespace do not overlap.
pub proof fn lemma_trim_bounds(s: Seq<char>)
    requires
        leading_ws(s) < s.len(),
    ensures
        leading_ws(s) + trailing_ws(s) < s.len(),
        !is_space_char(s[leading_ws(s) as int]),
        !is_space_char(s[s.len() - trailing_ws(s) - 1]),
{
    lemma_leading_ws(s);
    lemma_trailing_ws(s);
    if leading_ws(s) >= s.len() - trailing_ws(s) {
        assert(is_space_char(s[leading_ws(s) as int]));
    }
}

/// Whether `c` has the White_Space property.
pub fn space_char_check(c: char) -> (r: bool)
    ensures
        r == is_space_char(c),
{
    let u = c as u32;
    (9 <= u && u <= 13) || u == 32 || u == 0x85 || u == 0xa0 || u == 0x1680 || (0x2000 <= u && u
        <= 0x200a) || u == 0x2028 || u == 0x2029 || u == 0x202f || u == 0x205f || u == 0x3000
}

/// The text with leading and trailing whitespace removed.
pub fn trim_chars(s: &str) -> (r: String)
    ensures
        r@ == trimmed(s@),
{
    let n = s.unicode_len();
    let mut i: usize = 0;
    while i < n && space_char_check(s.get_char(i))
        invariant
            n == s@.len(),
            i <= n,
            forall|k: int| 0 <= k < i ==> is_space_char(#[trigger] s@[k]),
        decreases n - i,
    {
        i += 1;
    }
    proof {
        lemma_leading_ws_exact(s@, i as int);
    }
    if i == n {
        return String::new();
    }
    let mut j: usize = n;
    while j > i && space_char_check(s.get_char(j - 1))
        invariant
            n == s@.len(),
            i < n,
            i <= j <= n,
            !is_space_char(s@[i as int]),
            forall|k: int| j <= k < n ==> is_space_char(#[trigger] s@[k]),
        decreases j,
    {
        j -= 1;
    }
    proof {
        if j > i {
            lemma_trailing_ws_exact(s@, j as int);
        } else {
            assert(j == i);
            lemma_trailing_ws_exact(s@, j as int);
        }
    }
    let mid = s.substring_char(i, j);
    mid.to_owned()
}

/// First character a key may start with: a lowercase ASCII letter.
pub open spec fn is_key_start_char(c: char) -> bool {
    97 <= c as u32 && c as u32 <= 122
}

/// Characters a key may hold: lowercase ASCII letters, digits, and the
/// four punctuation marks `_`, `-`, `*`, `/`.
pub open spec fn is_key_char(c: char) -> bool {
    (97 <= c as u32 && c as u32 <= 122) || (48 <= c as u32 && c as u32 <= 57) || c as u32 == 95
        || c as u32 == 45 || c as u32 == 42 || c as u32 == 47
}

/// The key grammar: non-empty, at most 256 characters, starting with a
/// lowercase letter, all characters from the key alphabet.
pub open spec fn valid_key_text(s: Seq<char>) -> bool {
    1 <= s.len() <= 256 && is_key_start_char(s[0]) && forall|i: int|
        0 <= i < s.len() ==> is_key_char(#[trigger] s[i])
}

/// Characters a value may hold: graphic ASCII except `,` and `=`.
pub open spec fn is_value_char(c: char) -> bool {
    33 <= c as u32 && c as u32 <= 126 && c as u32 != 44 && c as u32 != 61
}

/// The value grammar: non-empty, at most 256 characters, all characters
/// from the value alphabet.
pub open spec fn valid_value_text(s: Seq<char>) -> bool {
    1 <= s.len() <= 256 && forall|i: int| 0 <= i < s.len() ==> is_value_char(#[trigger] s[i])
}

/// Whether `c` may appear in a key.
pub fn key_char_check(c: char) -> (r: bool)
    ensures
        r == is_key_char(c),
{
    let u = c as u32;
    (97 <= u && u <= 122) || (48 <= u && u <= 57) || u == 95 || u == 45 || u == 42 || u == 47
}

/// Whether `c` may appear in a value.
pub fn value_char_check(c: char) -> (r: bool)
    ensures
        r == is_value_char(c),
{
    let u = c as u32;
    33 <= u && u <= 126 && u != 44 && u != 61
}

/// Whether the whole text matches the key grammar.
pub fn key_text_check(s: &str) -> (r: bool)
    ensures
        r == valid_key_text(s@),
{
    let n = s.unicode_len();
    if n == 0 || n > 256 {
        return false;
    }
    let first = s.get_char(0);
    let u = first as u32;
    if !(97 <= u && u <= 122) {
        return false;
    }
    let mut i: usize = 0;
    while i < n
        invariant
            n == s@.len(),
            i <= n,
            forall|k: int| 0 <= k < i ==> is_key_char(#[trigger] s@[k]),
        decreases n - i,
    {
        if !key_char_check(s.get_char(i)) {
            return false;
        }
        i += 1;
    }
    true
}

/// Whether the whole text matches the value grammar.
pub fn value_text_check(s: &str) -> (r: bool)
    ensures
        r == valid_value_text(s@),
{
    let n = s.unicode_len();
    if n == 0 || n > 256 {
        return false;
    }
    let mut i: usize = 0;
    while i < n
        invariant
            n == s@.len(),
            i <= n,
            forall|k: int| 0 <= k < i ==> is_value_char(#[trigger] s@[k]),
        decreases n - i,
    {
        if !value_char_check(s.get_char(i)) {
            return false;
        }
        i += 1;
    }
    true
}

/// A text that matches the key grammar holds no whitespace, so trimming
/// leaves it unchanged; the value grammar gives the same.
pub proof fn lemma_grammar_text_is_trimmed(s: Seq<char>)
    requires
        s.len() > 0,
        !is_space_char(s[0]),
        !is_space_char(s[s.len() - 1]),
    ensures
        trimmed(s) == s,
{
    lemma_leading_ws_exact(s, 0);
    lemma_trailing_ws_exact(s, s.len() as int);
    assert(trimmed(s) == s.subrange(0, s.len() as int));
    assert(s.subrange(0, s.len() as int) =~= s);
}

} // verus!
