//! Trace and span identifiers and the sampling-flag byte.
//!
//! A `TraceId` names an entire distributed trace, a `SpanId` one unit of
//! work within it. Both are fixed-width, non-zero values that travel as
//! lowercase hex text; `TraceOption` is the flag byte whose lowest bit
//! records the sampling decision.
use vstd::prelude::*;

use crate::hex::all_hex;
use crate::hex::be_hex_chars;
use crate::hex::decode_le_hex;
use crate::hex::encode_be_hex;
use crate::hex::encode_le_hex;
use crate::hex::le_hex_chars;
use crate::hex::le_hex_val;
use crate::hex::lemma_le_hex_round_trip;
use crate::hex::lemma_le_hex_val_bound;
use crate::hex::lemma_pow256_values;
use core::num::NonZeroU128;
use core::num::NonZeroU64;

verus! {

/// Relies on rand::random for core::num::NonZeroU128: the standard
/// distribution samples until a non-zero value comes out, so the result
/// is never zero.
#[verifier::external_body]
fn random_nonzero_u128() -> (r: u128)
    ensures
        r != 0,
{
    rand::random::<NonZeroU128>().get()
}

/// Relies on rand::random for core::num::NonZeroU64: the standard
/// distribution samples until a non-zero value comes out, so the result
/// is never zero.
#[verifier::external_body]
fn random_nonzero_u64() -> (r: u64)
    ensures
        r != 0,
{
    rand::random::<NonZeroU64>().get()
}

/// The wire text of an identifier value: its low `nbytes` bytes as
/// lowercase hex, least significant byte first.
pub open spec fn id_wire_text(v: u128, nbytes: nat) -> Seq<char> {
    le_hex_chars(v, nbytes)
}

/// What parsing an identifier's wire text of `nbytes` bytes yields:
/// the value, unless the text has the wrong length, holds a character
/// that is no hex digit, or names the all-zero value.
pub open spec fn parse_id_wire_text(s: Seq<char>, nbytes: nat) -> Option<u128> {
    if s.len() == 2 * nbytes && all_hex(s) && le_hex_val(s) != 0 {
        Some(le_hex_val(s) as u128)
    } else {
        None
    }
}

/// A 128-bit trace identifier; never zero.
#[derive(Debug, Clone, Copy, PartialEq, Eq, Structural)]
pub struct TraceId {
    id: u128,
}

impl TraceId {
    /// The identifier's numeric value.
    pub closed spec fn value(self) -> u128 {
        self.id
    }

    /// A well-formed trace identifier is non-zero.
    pub open spec fn wf(self) -> bool {
        self.value() != 0
    }

    /// Width of the identifier in bytes.
    pub fn size() -> (r: usize)
        ensures
            r == 16,
    {
        16
    }

    pub fn new(id: u128) -> (r: Self)
        requires
            id != 0,
        ensures
            r.value() == id,
            r.wf(),
    {
        TraceId { id }
    }

    /// A statistically unique, non-zero identifier.
    pub fn generate_random() -> (r: Self)
        ensures
            r.wf(),
    {
        TraceId { id: random_nonzero_u128() }
    }

    /// The 32-digit lowercase hex wire text of the identifier.
    pub fn to_base16(&self) -> (r: String)
        ensures
            r@ == id_wire_text(self.value(), 16),
    {
        proof {
            lemma_pow256_values();
        }
        encode_le_hex(self.id, 16)
    }

    /// Parses the 32-digit wire text; fails on wrong length, a character
    /// that is no hex digit, or the all-zero value.
    pub fn try_from_base16(value: &str) -> (r: Option<Self>)
        ensures
            r is Some <==> parse_id_wire_text(value@, 16) is Some,
            r is Some ==> r.unwrap().value() == parse_id_wire_text(value@, 16).unwrap(),
            r is Some ==> r.unwrap().wf(),
    {
        match decode_le_hex(value, 16) {
            None => None,
            Some(v) => {
                proof {
                    lemma_le_hex_val_bound(value@);
                    lemma_pow256_values();
                }
                if v == 0 {
                    None
                } else {
                    Some(TraceId { id: v })
                }
            },
        }
    }

    /// Plain hex text of the numeric value, most significant digit first,
    /// 32 digits wide.
    pub fn to_string(&self) -> (r: String)
        ensures
            r@ == be_hex_chars(self.value(), 32),
    {
        encode_be_hex(self.id, 32)
    }
}

/// A 64-bit span identifier; never zero.
#[derive(Debug, Clone, Copy, PartialEq, Eq, Structural)]
pub struct SpanId {
    id: u64,
}

impl SpanId {
    /// The identifier's numeric value.
    pub closed spec fn value(self) -> u64 {
        self.id
    }

    /// A well-formed span identifier is non-zero.
    pub open spec fn wf(self) -> bool {
        self.value() != 0
    }

    /// Width of the identifier in bytes.
    pub fn size() -> (r: usize)
        ensures
            r == 8,
    {
        8
    }

    pub fn new(id: u64) -> (r: Self)
        requires
            id != 0,
        ensures
            r.value() == id,
            r.wf(),
    {
        SpanId { id }
    }

    /// A statistically unique, non-zero identifier.
    pub fn generate_random() -> (r: Self)
        ensures
            r.wf(),
    {
        SpanId { id: random_nonzero_u64() }
    }

    /// The 16-digit lowercase hex wire text of the identifier.
    pub fn to_base16(&self) -> (r: String)
        ensures
            r@ == id_wire_text(self.value() as u128, 8),
    {
        proof {
            lemma_pow256_values();
        }
        encode_le_hex(self.id as u128, 8)
    }

    /// Parses the 16-digit wire text; fails on wrong length, a character
    /// that is no hex digit, or the all-zero value.
    pub fn try_from_base16(value: &str) -> (r: Option<Self>)
        ensures
            r is Some <==> parse_id_wire_text(value@, 8) is Some,
            r is Some ==> r.unwrap().value() == parse_id_wire_text(value@, 8).unwrap(),
            r is Some ==> r.unwrap().wf(),
    {
        match decode_le_hex(value, 8) {
            None => None,
            Some(v) => {
                proof {
                    lemma_le_hex_val_bound(value@);
                    lemma_pow256_values();
                }
                if v == 0 {
                    None
                } else {
                    Some(SpanId { id: v as u64 })
                }
            },
        }
    }

    /// Plain hex text of the numeric value, most significant digit first,
    /// 16 digits wide.
    pub fn to_string(&self) -> (r: String)
        ensures
            r@ == be_hex_chars(self.value() as u128, 16),
    {
        encode_be_hex(self.id as u128, 16)
    }
}

/// The flag byte carried beside the identifiers; bit 0 is the sampling
/// flag, the remaining bits are reserved but preserved on round-trip.
#[derive(Debug, Clone, Copy, PartialEq, Eq, Structural)]
pub struct TraceOption {
    pub bits: u8,
}

/// The bit that marks a sampled trace.
pub open spec fn spec_mask_sample() -> u8 {
    1
}

impl TraceOption {
    /// Width of the flag set in bytes.
    pub fn size() -> (r: usize)
        ensures
            r == 1,
    {
        1
    }

    pub fn new(bits: u8) -> (r: Self)
        ensures
            r.bits == bits,
    {
        TraceOption { bits }
    }

    /// The flag set holding only the sampling bit.
    pub fn mask_sample() -> (r: Self)
        ensures
            r.bits == spec_mask_sample(),
    {
        TraceOption { bits: 1 }
    }

    /// The flag set with no bit set.
    pub fn empty() -> (r: Self)
        ensures
            r.bits == 0,
    {
        TraceOption { bits: 0 }
    }

    /// The raw flag byte.
    pub fn bits(&self) -> (r: u8)
        ensures
            r == self.bits,
    {
        self.bits
    }

    /// Whether every bit of `other` is set in `self`.
    pub fn contains(&self, other: &TraceOption) -> (r: bool)
        ensures
            r == (self.bits & other.bits == other.bits),
    {
        self.bits & other.bits == other.bits
    }

    /// The 2-digit lowercase hex text of the flag byte.
    pub fn to_base16(self) -> (r: String)
        ensures
            r@ == id_wire_text(self.bits as u128, 1),
    {
        proof {
            lemma_pow256_values();
        }
        encode_le_hex(self.bits as u128, 1)
    }

    /// Parses a 2-digit hex flag byte; unlike the identifiers, the
    /// all-zero byte is accepted.
    pub fn try_from_base16(value: &str) -> (r: Option<Self>)
        ensures
            r is Some <==> (value@.len() == 2 && all_hex(value@)),
            r is Some ==> r.unwrap().bits as nat == le_hex_val(value@),
    {
        match decode_le_hex(value, 1) {
            None => None,
            Some(v) => {
                proof {
                    lemma_le_hex_val_bound(value@);
                    lemma_pow256_values();
                }
                Some(TraceOption { bits: v as u8 })
            },
        }
    }
}

/// Law: trace-identifier equality is equality of the raw numeric value,
/// and nothing else.
pub proof fn lemma_trace_id_eq(a: TraceId, b: TraceId)
    ensures
        (a == b) <==> (a.value() == b.value()),
{
}

/// Law: span-identifier equality is equality of the raw numeric value,
/// and nothing else.
pub proof fn lemma_span_id_eq(a: SpanId, b: SpanId)
    ensures
        (a == b) <==> (a.value() == b.value()),
{
}

/// Law: every non-zero 128-bit value survives the trace-id wire encoding:
/// parsing the encoded text gives back exactly the value.
pub proof fn lemma_trace_id_round_trip(v: u128)
    requires
        v != 0,
    ensures
        parse_id_wire_text(id_wire_text(v, 16), 16) == Some(v),
{
    lemma_pow256_values();
    lemma_le_hex_round_trip(v, 16);
}

/// Law: every non-zero 64-bit value survives the span-id wire encoding.
pub proof fn lemma_span_id_round_trip(v: u64)
    requires
        v != 0,
    ensures
        parse_id_wire_text(id_wire_text(v as u128, 8), 8) == Some(v as u128),
{
    lemma_pow256_values();
    lemma_le_hex_round_trip(v as u128, 8);
}

/// Law: every flag byte, reserved bits included, survives the flag wire
/// encoding: the parsed text has the byte's exact value.
pub proof fn lemma_trace_option_round_trip(b: u8)
    ensures
        id_wire_text(b as u128, 1).len() == 2,
        all_hex(id_wire_text(b as u128, 1)),
        le_hex_val(id_wire_text(b as u128, 1)) == b,
{
    lemma_pow256_values();
    lemma_le_hex_round_trip(b as u128, 1);
}

} // verus!
