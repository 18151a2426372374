//! Fixed-width hexadecimal text for the identifier wire format.
//!
//! Identifiers travel as lowercase hex digits, two per byte, with the
//! least significant byte of the numeric value written first (the byte
//! order of the value's network-order representation).
use vstd::prelude::*;

verus! {

/// Characters accepted as hexadecimal digits.
pub open spec fn is_hex_char(c: char) -> bool {
    (48 <= c as u32 && c as u32 <= 57)  // '0' ..= '9'
    || (97 <= c as u32 && c as u32 <= 102)  // 'a' ..= 'f'
    || (65 <= c as u32 && c as u32 <= 70)  // 'A' ..= 'F'
}

/// Numeric value of a hexadecimal digit character.
pub open spec fn hex_char_val(c: char) -> u8 {
    if 48 <= c as u32 && c as u32 <= 57 {
        (c as u32 - 48) as u8
    } else if 97 <= c as u32 && c as u32 <= 102 {
        (c as u32 - 87) as u8
    } else {
        (c as u32 - 55) as u8
    }
}

/// Lowercase hexadecimal digit character for a value below 16.
pub open spec fn hex_char_of(d: u8) -> char {
    if d < 10 {
        ((48 + d) as u8) as char
    } else {
        ((87 + d) as u8) as char
    }
}

/// Every character of the sequence is a hexadecimal digit.
pub open spec fn all_hex(s: Seq<char>) -> bool {
    forall|i: int| 0 <= i < s.len() ==> is_hex_char(#[trigger] s[i])
}

/// Byte `i` of `v`, counting from the least significant byte.
pub open spec fn byte_of(v: u128, i: int) -> u8 {
    ((v >> ((8 * i) as u128)) & 0xff) as u8
}

/// The hex text of the low `nbytes` bytes of `v`, least significant byte first.
pub open spec fn le_hex_chars(v: u128, nbytes: nat) -> Seq<char> {
    Seq::new(
        2 * nbytes,
        |j: int|
            if j % 2 == 0 {
                hex_char_of(byte_of(v, j / 2) / 16)
            } else {
                hex_char_of((byte_of(v, j / 2) % 16) as u8)
            },
    )
}

/// Numeric value of a hex text whose bytes stand least significant first.
pub open spec fn le_hex_val(s: Seq<char>) -> nat
    decreases s.len(),
{
    if s.len() < 2 {
        0
    } else {
        (hex_char_val(s[0]) * 16 + hex_char_val(s[1])) as nat + 256 * le_hex_val(
            s.subrange(2, s.len() as int),
        )
    }
}

/// 256 to the power `k`.
pub open spec fn pow256(k: nat) -> nat
    decreases k,
{
    if k == 0 {
        1
    } else {
        256 * pow256((k - 1) as nat)
    }
}

pub proof fn lemma_pow256_values()
    ensures
        pow256(1) == 0x100,
        pow256(8) == 0x10000000000000000,
        pow256(16) == 0x100000000000000000000000000000000,
{
    reveal_with_fuel(pow256, 17);
}

/// A hexadecimal digit's character decodes back to the digit.
pub proof fn lemma_hex_digit_round_trip(d: u8)
    requires
        d < 16,
    ensures
        is_hex_char(hex_char_of(d)),
        hex_char_val(hex_char_of(d)) == d,
{
    if d < 10 {
        assert(((48 + d) as u8) as char as u32 == 48 + d);
    } else {
        assert(((87 + d) as u8) as char as u32 == 87 + d);
    }
}

/// 256 to a power never shrinks as the power grows.
pub proof fn lemma_pow256_mono(a: nat, b: nat)
    requires
        a <= b,
    ensures
        pow256(a) <= pow256(b),
    decreases b,
{
    if a < b {
        lemma_pow256_mono(a, (b - 1) as nat);
    }
}

/// The value of a hex text is below 256 to the number of its bytes.
pub proof fn lemma_le_hex_val_bound(s: Seq<char>)
    requires
        s.len() % 2 == 0,
        all_hex(s),
    ensures
        le_hex_val(s) < pow256(s.len() / 2),
    decreases s.len(),
{
    if s.len() < 2 {
    } else {
        let rest = s.subrange(2, s.len() as int);
        lemma_le_hex_val_bound(rest);
        assert(is_hex_char(s[0]) && is_hex_char(s[1]));
        assert(hex_char_val(s[0]) < 16 && hex_char_val(s[1]) < 16);
        assert(pow256(s.len() / 2) == 256 * pow256(rest.len() / 2));
    }
}

proof fn lemma_byte_of_shift(v: u128, i: int)
    requires
        0 <= i < 15,
    ensures
        byte_of(v, i + 1) == byte_of(v >> 8, i),
{
    let k = (8 * i) as u128;
    assert(0 <= 8 * i < 120);
    assert((v >> ((k + 8) as u128)) == ((v >> 8) >> k)) by (bit_vector)
        requires
            k < 120,
    ;
    assert((8 * (i + 1)) as u128 == (k + 8) as u128);
}

proof fn lemma_low_byte(v: u128)
    ensures
        byte_of(v, 0) == (v % 256) as u8,
        v == (v % 256) + 256 * ((v >> 8) as u128),
        (v >> 8) as u128 == v / 256,
{
    assert((v >> ((8 * 0) as u128)) == v) by (bit_vector);
    assert((v & 0xff) == v % 256) by (bit_vector);
    assert(v >> 8 == v / 256) by (bit_vector);
    assert(v == (v % 256) + 256 * (v / 256));
}

/// Encoding then decoding the low `nbytes` bytes of a value gives the value back.
pub proof fn lemma_le_hex_round_trip(v: u128, nbytes: nat)
    requires
        nbytes <= 16,
        v < pow256(nbytes),
    ensures
        le_hex_chars(v, nbytes).len() == 2 * nbytes,
        all_hex(le_hex_chars(v, nbytes)),
        le_hex_val(le_hex_chars(v, nbytes)) == v,
    decreases nbytes,
{
    let s = le_hex_chars(v, nbytes);
    assert forall|j: int| 0 <= j < s.len() implies is_hex_char(#[trigger] s[j]) by {
        if j % 2 == 0 {
            lemma_hex_digit_round_trip(byte_of(v, j / 2) / 16);
        } else {
            lemma_hex_digit_round_trip((byte_of(v, j / 2) % 16) as u8);
        }
    }
    if nbytes == 0 {
        assert(v == 0);
    } else {
        let b0 = byte_of(v, 0);
        lemma_low_byte(v);
        let w = (v >> 8) as u128;
        assert(w < pow256((nbytes - 1) as nat)) by {
            assert(pow256(nbytes) == 256 * pow256((nbytes - 1) as nat));
        }
        lemma_le_hex_round_trip(w, (nbytes - 1) as nat);
        let rest = s.subrange(2, s.len() as int);
        assert(rest =~= le_hex_chars(w, (nbytes - 1) as nat)) by {
            assert forall|j: int| 0 <= j < rest.len() implies rest[j] == le_hex_chars(
                w,
                (nbytes - 1) as nat,
            )[j] by {
                lemma_byte_of_shift(v, j / 2);
                assert(rest[j] == s[j + 2]);
                assert((j + 2) / 2 == j / 2 + 1);
            }
        }
        lemma_hex_digit_round_trip(b0 / 16);
        lemma_hex_digit_round_trip((b0 % 16) as u8);
        assert(s[0] == hex_char_of(b0 / 16) && s[1] == hex_char_of((b0 % 16) as u8));
        assert(le_hex_val(s) == (b0 / 16) * 16 + (b0 % 16) + 256 * le_hex_val(rest));
        assert((b0 / 16) * 16 + (b0 % 16) == b0);
        assert(b0 == v % 256);
    }
}

/// Whether `c` is a hexadecimal digit.
pub fn hex_char_check(c: char) -> (r: bool)
    ensures
        r == is_hex_char(c),
{
    let u = c as u32;
    (48 <= u && u <= 57) || (97 <= u && u <= 102) || (65 <= u && u <= 70)
}

/// Numeric value of a hexadecimal digit character.
pub fn hex_char_value(c: char) -> (r: u8)
    requires
        is_hex_char(c),
    ensures
        r == hex_char_val(c),
        r < 16,
{
    let u = c as u32;
    if 48 <= u && u <= 57 {
        (u - 48) as u8
    } else if 97 <= u && u <= 102 {
        (u - 87) as u8
    } else {
        (u - 55) as u8
    }
}

/// Lowercase hexadecimal digit character of a value below 16.
pub fn hex_digit_char(d: u8) -> (c: char)
    requires
        d < 16,
    ensures
        c == hex_char_of(d),
{
    if d < 10 {
        (48 + d) as char
    } else {
        (87 + d) as char
    }
}

/// Relies on std's String::push: appends one character at the end.
#[verifier::external_body]
pub(crate) fn push_char(s: &mut String, c: char)
    ensures
        final(s)@ == old(s)@.push(c),
{
    s.push(c)
}

/// Hex text of the low `nbytes` bytes of `v`, least significant byte first.
pub fn encode_le_hex(v: u128, nbytes: usize) -> (r: String)
    requires
        nbytes <= 16,
        v < pow256(nbytes as nat),
    ensures
        r@ == le_hex_chars(v, nbytes as nat),
{
    let ghost chars = le_hex_chars(v, nbytes as nat);
    let mut r = String::new();
    let mut i: usize = 0;
    while i < nbytes
        invariant
            nbytes <= 16,
            i <= nbytes,
            chars == le_hex_chars(v, nbytes as nat),
            chars.len() == 2 * nbytes,
            r@ == chars.subrange(0, 2 * i),
        decreases nbytes - i,
    {
        let sh: u128 = (8 * i) as u128;
        let b: u8 = ((v >> sh) & 0xff) as u8;
        assert(b == byte_of(v, i as int));
        let hi = hex_digit_char(b / 16);
        let lo = hex_digit_char(b % 16);
        push_char(&mut r, hi);
        push_char(&mut r, lo);
        assert(r@ =~= chars.subrange(0, 2 * (i + 1)));
        i += 1;
    }
    assert(r@ =~= chars);
    r
}

fn decode_le_hex_rec(s: &str, from: usize) -> (r: Option<u128>)
    requires
        s@.len() <= 32,
        from <= s@.len(),
        (s@.len() - from) % 2 == 0,
    ensures
        r is Some <==> all_hex(s@.subrange(from as int, s@.len() as int)),
        r is Some ==> r.unwrap() as nat == le_hex_val(s@.subrange(from as int, s@.len() as int)),
        r is Some ==> (r.unwrap() as nat) < pow256(((s@.len() - from) / 2) as nat),
    decreases s@.len() - from,
{
    let n = s.unicode_len();
    let ghost tail = s@.subrange(from as int, s@.len() as int);
    if from == n {
        assert(all_hex(tail));
        return Some(0);
    }
    let c0 = s.get_char(from);
    let c1 = s.get_char(from + 1);
    if !hex_char_check(c0) || !hex_char_check(c1) {
        assert(tail[0] == c0 && tail[1] == c1);
        return None;
    }
    match decode_le_hex_rec(s, from + 2) {
        None => {
            proof {
                let rest = s@.subrange(from as int + 2, s@.len() as int);
                assert(!all_hex(rest));
                let j = choose|j: int| 0 <= j < rest.len() && !is_hex_char(rest[j]);
                assert(tail[j + 2] == rest[j]);
            }
            None
        },
        Some(rest_val) => {
            let b: u8 = hex_char_value(c0) * 16 + hex_char_value(c1);
            proof {
                let rest = s@.subrange(from as int + 2, s@.len() as int);
                let k = ((s@.len() - from - 2) / 2) as nat;
                assert(pow256(((s@.len() - from) / 2) as nat) == 256 * pow256(k));
                lemma_pow256_mono((k + 1) as nat, 16);
                lemma_pow256_values();
                assert(tail.subrange(2, tail.len() as int) =~= rest);
                assert(tail[0] == c0 && tail[1] == c1);
                assert forall|j: int| 0 <= j < tail.len() implies is_hex_char(
                    #[trigger] tail[j],
                ) by {
                    if j >= 2 {
                        assert(tail[j] == rest[j - 2]);
                    }
                }
            }
            Some(b as u128 + 256 * rest_val)
        },
    }
}

/// Value of a hex text of exactly `2 * nbytes` digits, bytes least significant first.
pub fn decode_le_hex(s: &str, nbytes: usize) -> (r: Option<u128>)
    requires
        nbytes <= 16,
    ensures
        r is Some <==> (s@.len() == 2 * nbytes && all_hex(s@)),
        r is Some ==> r.unwrap() as nat == le_hex_val(s@),
{
    let n = s.unicode_len();
    if n != 2 * nbytes {
        return None;
    }
    let r = decode_le_hex_rec(s, 0);
    proof {
        assert(s@.subrange(0, s@.len() as int) =~= s@);
    }
    r
}

/// Plain hexadecimal text of `v`, most significant digit first.
pub open spec fn be_hex_chars(v: u128, ndigits: nat) -> Seq<char> {
    Seq::new(
        ndigits,
        |j: int| hex_char_of(((v >> ((4 * (ndigits - 1 - j)) as u128)) & 0xf) as u8),
    )
}

/// Hex text of `v`, most significant digit first, `ndigits` digits wide.
pub fn encode_be_hex(v: u128, ndigits: usize) -> (r: String)
    requires
        ndigits <= 32,
    ensures
        r@ == be_hex_chars(v, ndigits as nat),
{
    let ghost chars = be_hex_chars(v, ndigits as nat);
    let mut r = String::new();
    let mut j: usize = 0;
    while j < ndigits
        invariant
            ndigits <= 32,
            j <= ndigits,
            chars == be_hex_chars(v, ndigits as nat),
            chars.len() == ndigits,
            r@ == chars.subrange(0, j as int),
        decreases ndigits - j,
    {
        let sh: u128 = (4 * (ndigits - 1 - j)) as u128;
        proof {
            assert(((v >> sh) & 0xf) < 16) by (bit_vector);
        }
        let d: u8 = ((v >> sh) & 0xf) as u8;
        assert(d == ((v >> ((4 * (ndigits - 1 - j as int)) as u128)) & 0xf) as u8);
        let c = hex_digit_char(d);
        push_char(&mut r, c);
        assert(r@ =~= chars.subrange(0, j as int + 1));
        j += 1;
    }
    assert(r@ =~= chars);
    r
}

} // verus!
