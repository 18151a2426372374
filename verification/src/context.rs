//! Span and trace contexts and the text propagation codec.
//!
//! A `SpanContext` carries the identifiers, the flag byte and the vendor
//! trace state that link a span to its trace; a `TraceContext` is the
//! self-contained form produced at the root of a trace or by decoding.
//! Contexts travel over two carrier fields: `traceparent`, the fixed
//! `00-{trace-id}-{span-id}-{flags}` line, and `tracestate`, the entry
//! list, which is emitted only when non-empty and decoded best-effort.
use vstd::prelude::*;

use crate::hex::all_hex;
use crate::hex::le_hex_val;
use crate::hex::lemma_le_hex_val_bound;
use crate::hex::lemma_pow256_values;
use crate::hex::push_char;
use crate::ids::id_wire_text;
use crate::ids::parse_id_wire_text;
use crate::ids::SpanId;
use crate::ids::TraceId;
use crate::ids::TraceOption;
use crate::trace_state::decode_state_text;
use crate::trace_state::entries_match;
use crate::trace_state::find_char;
use crate::trace_state::lemma_find_char_exact;
use crate::trace_state::state_text;
use crate::trace_state::Entry;
use crate::trace_state::TraceState;

verus! {

/// The `traceparent` line of a context: the fixed version field `00`,
/// then the trace id, the span id and the flag byte as hex, joined by `-`.
pub open spec fn traceparent_text(trace_id: u128, span_id: u64, flags: u8) -> Seq<char> {
    seq!['0', '0', '-'] + id_wire_text(trace_id, 16) + seq!['-'] + id_wire_text(span_id as u128, 8)
        + seq!['-'] + id_wire_text(flags as u128, 1)
}

/// What decoding a `traceparent` line yields: the three parsed fields,
/// provided the line has exactly the four dash-joined fields, the version
/// field is `00`, and every field parses; anything else fails whole.
pub open spec fn parse_traceparent_text(s: Seq<char>) -> Option<(u128, u64, u8)> {
    if s.len() == 55 && s[0] == '0' && s[1] == '0' && s[2] == '-' && s[35] == '-' && s[52] == '-' {
        let tid = parse_id_wire_text(s.subrange(3, 35), 16);
        let sid = parse_id_wire_text(s.subrange(36, 52), 8);
        let fl = s.subrange(53, 55);
        if tid is Some && sid is Some && all_hex(fl) {
            Some((tid.unwrap(), sid.unwrap() as u64, le_hex_val(fl) as u8))
        } else {
            None
        }
    } else {
        None
    }
}

/// Law: a `traceparent` line written from non-zero identifiers decodes
/// back to exactly the identifiers and the flag byte it was written
/// from, reserved flag bits included.
pub proof fn lemma_traceparent_round_trip(trace_id: u128, span_id: u64, flags: u8)
    requires
        trace_id != 0,
        span_id != 0,
    ensures
        parse_traceparent_text(traceparent_text(trace_id, span_id, flags)) == Some(
            (trace_id, span_id, flags),
        ),
{
    crate::hex::lemma_pow256_values();
    crate::hex::lemma_le_hex_round_trip(trace_id, 16);
    crate::hex::lemma_le_hex_round_trip(span_id as u128, 8);
    crate::hex::lemma_le_hex_round_trip(flags as u128, 1);
    let a = id_wire_text(trace_id, 16);
    let b = id_wire_text(span_id as u128, 8);
    let c = id_wire_text(flags as u128, 1);
    let s = traceparent_text(trace_id, span_id, flags);
    assert(s.len() == 55);
    assert(s[0] == '0' && s[1] == '0' && s[2] == '-');
    assert(s[35] == '-' && s[52] == '-');
    assert(s.subrange(3, 35) =~= a);
    assert(s.subrange(36, 52) =~= b);
    assert(s.subrange(53, 55) =~= c);
    assert(parse_id_wire_text(a, 16) == Some(trace_id));
    assert(parse_id_wire_text(b, 8) == Some(span_id as u128));
    assert(le_hex_val(c) == flags);
}

/// The field before the first `-`, or the whole text without one.
pub open spec fn first_dash_field(s: Seq<char>) -> Seq<char> {
    match find_char(s, '-') {
        None => s,
        Some(i) => s.subrange(0, i as int),
    }
}

/// Law: a `traceparent` line whose first dash-delimited field is not the
/// version literal `00` is rejected.
pub proof fn lemma_version_field_must_be_00(s: Seq<char>)
    requires
        first_dash_field(s) != seq!['0', '0'],
    ensures
        parse_traceparent_text(s) is None,
{
    if parse_traceparent_text(s) is Some {
        assert(s[0] == '0' && s[1] == '0' && s[2] == '-');
        lemma_find_char_exact(s, '-', 2);
        assert(first_dash_field(s) =~= seq!['0', '0']);
    }
}

/// The identifiers and flags that link a span to its trace, together
/// with the vendor trace state that travels beside them. Equality
/// compares the identifiers and flags only, never the trace state.
#[derive(Debug)]
pub struct SpanContext {
    pub trace_id: TraceId,
    pub span_id: SpanId,
    pub trace_option: TraceOption,
    pub trace_state: TraceState,
}

impl PartialEq for SpanContext {
    fn eq(&self, other: &Self) -> (r: bool) {
        self.trace_id == other.trace_id && self.span_id == other.span_id
            && self.trace_option.bits == other.trace_option.bits
    }
}

impl vstd::std_specs::cmp::PartialEqSpecImpl for SpanContext {
    open spec fn obeys_eq_spec() -> bool {
        true
    }

    open spec fn eq_spec(&self, other: &SpanContext) -> bool {
        self.trace_id == other.trace_id && self.span_id == other.span_id
            && self.trace_option.bits == other.trace_option.bits
    }
}

impl Clone for SpanContext {
    fn clone(&self) -> (r: Self)
        ensures
            r.trace_id == self.trace_id,
            r.span_id == self.span_id,
            r.trace_option == self.trace_option,
            r.trace_state@ == self.trace_state@,
    {
        SpanContext {
            trace_id: self.trace_id,
            span_id: self.span_id,
            trace_option: self.trace_option,
            trace_state: TraceState::propagate(&self.trace_state),
        }
    }
}

impl SpanContext {
    /// A well-formed context holds non-zero identifiers and a valid
    /// trace state.
    pub open spec fn wf(self) -> bool {
        self.trace_id.wf() && self.span_id.wf() && self.trace_state.wf()
    }

    /// A context borrowing its trace identity from the owning trace.
    pub fn new(
        trace_id: &TraceId,
        span_id: SpanId,
        trace_option: TraceOption,
        trace_state: TraceState,
    ) -> (r: Self)
        ensures
            r.trace_id == *trace_id,
            r.span_id == span_id,
            r.trace_option == trace_option,
            r.trace_state == trace_state,
    {
        SpanContext { trace_id: *trace_id, span_id, trace_option, trace_state }
    }

    /// Plain hex text of the span identifier.
    pub fn span_id_str(&self) -> (r: String)
        ensures
            r@ == crate::hex::be_hex_chars(self.span_id.value() as u128, 16),
    {
        self.span_id.to_string()
    }

    /// Plain hex text of the trace identifier.
    pub fn trace_id_str(&self) -> (r: String)
        ensures
            r@ == crate::hex::be_hex_chars(self.trace_id.value(), 32),
    {
        self.trace_id.to_string()
    }

    /// Whether the sampling bit is set.
    pub fn is_sample(&self) -> (r: bool)
        ensures
            r == (self.trace_option.bits & 1 == 1),
    {
        let mask = TraceOption::mask_sample();
        self.trace_option.contains(&mask)
    }

    /// The context's `traceparent` line.
    pub fn to_http_text(&self) -> (r: String)
        ensures
            r@ == traceparent_text(
                self.trace_id.value(),
                self.span_id.value(),
                self.trace_option.bits,
            ),
    {
        proof {
            reveal_strlit("00-");
        }
        let mut r = "00-".to_owned();
        proof {
            assert(r@ =~= seq!['0', '0', '-']);
        }
        let tid = self.trace_id.to_base16();
        r.append(tid.as_str());
        push_char(&mut r, '-');
        let sid = self.span_id.to_base16();
        r.append(sid.as_str());
        push_char(&mut r, '-');
        let fl = self.trace_option.to_base16();
        r.append(fl.as_str());
        proof {
            assert(r@ =~= traceparent_text(
                self.trace_id.value(),
                self.span_id.value(),
                self.trace_option.bits,
            ));
        }
        r
    }

    /// The carrier fields this context emits: always the `traceparent`
    /// line, and the `tracestate` line only when the state has entries.
    pub fn propagation_pairs(&self) -> (r: Vec<(String, String)>)
        ensures
            self.trace_state@.len() == 0 ==> r@.len() == 1,
            self.trace_state@.len() > 0 ==> r@.len() == 2,
            r@[0].0@ == "traceparent"@,
            r@[0].1@ == traceparent_text(
                self.trace_id.value(),
                self.span_id.value(),
                self.trace_option.bits,
            ),
            r@.len() == 2 ==> r@[1].0@ == "tracestate"@,
            r@.len() == 2 ==> r@[1].1@ == state_text(self.trace_state@),
    {
        let mut r: Vec<(String, String)> = Vec::new();
        r.push(("traceparent".to_owned(), self.to_http_text()));
        if self.trace_state.has_entry() {
            r.push(("tracestate".to_owned(), self.trace_state.to_http_text()));
        }
        r
    }

    /// Hands the context's carrier fields to the setter: once for
    /// `traceparent` and, only if the trace state is non-empty, once more
    /// for `tracestate`.
    pub fn inject<C, R, F: Fn(&mut C, String, String) -> R>(&self, carrier: &mut C, setter: F)
        requires
            forall|args: (&mut C, String, String)| call_requires(setter, args),
        ensures
            exists|args: (&mut C, String, String), r: R|
                call_ensures(setter, args, r) && args.1@ == "traceparent"@ && args.2@
                    == traceparent_text(
                    self.trace_id.value(),
                    self.span_id.value(),
                    self.trace_option.bits,
                ),
            self.trace_state@.len() > 0 ==> exists|args: (&mut C, String, String), r: R|
                call_ensures(setter, args, r) && args.1@ == "tracestate"@ && args.2@ == state_text(
                    self.trace_state@,
                ),
    {
        let _ = setter(carrier, "traceparent".to_owned(), self.to_http_text());
        if self.trace_state.has_entry() {
            let _ = setter(carrier, "tracestate".to_owned(), self.trace_state.to_http_text());
        }
    }
}

/// A self-contained context that owns its trace identity, as built at
/// the root of a trace or by decoding a carrier.
#[derive(Debug)]
pub struct TraceContext {
    pub trace_id: TraceId,
    pub span_id: SpanId,
    pub trace_option: TraceOption,
    pub trace_state: TraceState,
}

impl TraceContext {
    /// A well-formed context holds non-zero identifiers and a valid
    /// trace state.
    pub open spec fn wf(self) -> bool {
        self.trace_id.wf() && self.span_id.wf() && self.trace_state.wf()
    }

    pub fn new(
        trace_id: TraceId,
        span_id: SpanId,
        trace_option: TraceOption,
        trace_state: TraceState,
    ) -> (r: Self)
        ensures
            r.trace_id == trace_id,
            r.span_id == span_id,
            r.trace_option == trace_option,
            r.trace_state == trace_state,
    {
        TraceContext { trace_id, span_id, trace_option, trace_state }
    }

    /// A context with an empty trace state; the state is attached
    /// separately, as a best-effort second step.
    pub fn new_without_trace_state(
        trace_id: TraceId,
        span_id: SpanId,
        trace_option: TraceOption,
    ) -> (r: Self)
        ensures
            r.trace_id == trace_id,
            r.span_id == span_id,
            r.trace_option == trace_option,
            r.trace_state@ == Seq::<Entry>::empty(),
    {
        TraceContext { trace_id, span_id, trace_option, trace_state: TraceState::empty() }
    }

    /// Replaces the whole trace state.
    pub fn with_trace_state(&mut self, trace_state: TraceState)
        ensures
            final(self).trace_id == old(self).trace_id,
            final(self).span_id == old(self).span_id,
            final(self).trace_option == old(self).trace_option,
            final(self).trace_state == trace_state,
    {
        self.trace_state = trace_state;
    }

    /// Decodes a `traceparent` line. The whole decode fails if the
    /// version field is not `00`, a field is missing or ill-formed, or
    /// an identifier is zero; no partial context is returned. On success
    /// the context carries an empty trace state.
    pub fn try_from_http_text(s: &str) -> (r: Result<Self, ()>)
        ensures
            r is Ok <==> parse_traceparent_text(s@) is Some,
            r is Ok ==> r.unwrap().trace_id.value() == parse_traceparent_text(s@).unwrap().0,
            r is Ok ==> r.unwrap().span_id.value() == parse_traceparent_text(s@).unwrap().1,
            r is Ok ==> r.unwrap().trace_option.bits == parse_traceparent_text(s@).unwrap().2,
            r is Ok ==> r.unwrap().trace_state@ == Seq::<Entry>::empty(),
            r is Ok ==> r.unwrap().trace_id.wf() && r.unwrap().span_id.wf(),
    {
        let n = s.unicode_len();
        if n != 55 {
            return Err(());
        }
        if !(s.get_char(0) == '0' && s.get_char(1) == '0' && s.get_char(2) == '-' && s.get_char(35)
            == '-' && s.get_char(52) == '-') {
            return Err(());
        }
        let tid_text = s.substring_char(3, 35);
        let sid_text = s.substring_char(36, 52);
        let fl_text = s.substring_char(53, 55);
        let tid = match TraceId::try_from_base16(tid_text) {
            None => {
                return Err(());
            },
            Some(t) => t,
        };
        let sid = match SpanId::try_from_base16(sid_text) {
            None => {
                return Err(());
            },
            Some(t) => t,
        };
        let fl = match TraceOption::try_from_base16(fl_text) {
            None => {
                return Err(());
            },
            Some(t) => t,
        };
        proof {
            lemma_le_hex_val_bound(fl_text@);
            lemma_pow256_values();
        }
        Ok(TraceContext::new_without_trace_state(tid, sid, fl))
    }

    /// Builds a context from the two carrier field values. Success is
    /// decided by the `traceparent` value alone; the `tracestate` value
    /// is decoded best-effort, and a missing one leaves the state empty.
    pub fn extract_from_values(trace_parent: Option<&String>, trace_state: Option<&String>) -> (r:
        Option<TraceContext>)
        ensures
            r is Some <==> (trace_parent is Some && parse_traceparent_text(trace_parent.unwrap()@)
                is Some),
            r is Some ==> {
                let parsed = parse_traceparent_text(trace_parent.unwrap()@).unwrap();
                r.unwrap().trace_id.value() == parsed.0 && r.unwrap().span_id.value() == parsed.1
                    && r.unwrap().trace_option.bits == parsed.2
            },
            r is Some ==> match trace_state {
                None => r.unwrap().trace_state@ == Seq::<Entry>::empty(),
                Some(ts) => entries_match(r.unwrap().trace_state@, decode_state_text(ts@)),
            },
            r is Some ==> r.unwrap().wf(),
    {
        let tp = match trace_parent {
            None => {
                return None;
            },
            Some(v) => v,
        };
        let mut ctx = match TraceContext::try_from_http_text(tp.as_str()) {
            Err(_) => {
                return None;
            },
            Ok(c) => c,
        };
        match trace_state {
            None => {},
            Some(ts) => {
                let state = TraceState::try_from_http_text(ts.as_str());
                ctx.with_trace_state(state);
            },
        }
        Some(ctx)
    }

    /// Reads the two carrier fields through the getter and builds a
    /// context from what came back: the `traceparent` value decides
    /// success, the `tracestate` value is attached best-effort.
    pub fn extract<C, F: for<'r> Fn(&'r C, &str) -> Option<&'r String>>(carrier: &C, getter: F) -> (r:
        Option<TraceContext>)
        requires
            forall|args: (&C, &str)| call_requires(getter, args),
        ensures
            r is Some ==> r.unwrap().wf(),
    {
        let tp = getter(carrier, "traceparent");
        let ts = getter(carrier, "tracestate");
        TraceContext::extract_from_values(tp, ts)
    }
}

} // verus!
