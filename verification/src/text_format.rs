//! The carrier-facing propagation interfaces: what can be written to and
//! read from the textual propagation fields.
use vstd::prelude::*;

use crate::context::SpanContext;
use crate::context::TraceContext;
use crate::trace_state::Entry;
use crate::trace_state::TraceState;

verus! {

/// A value that can be parsed from one propagation field.
pub trait TryFromHttpText: Sized {
    type Err;

    fn try_from_http_text(s: &str) -> Result<Self, Self::Err>;
}

/// A value that can be written as one propagation field.
pub trait ToHttpText {
    fn to_http_text(&self) -> String;
}

/// A format names the carrier fields it occupies: exactly the
/// `traceparent` line and the `tracestate` list.
pub trait HttpTextFormat {
    fn fields(&self) -> (r: Vec<&'static str>)
        ensures
            r@.len() == 2,
            r@[0]@ == "traceparent"@,
            r@[1]@ == "tracestate"@,
    ;
}

/// A format that writes itself into a mutable carrier through a setter.
pub trait HttpTextInject: HttpTextFormat + ToHttpText {
    fn inject<C, R, F: Fn(&mut C, String, String) -> R>(&self, carrier: &mut C, setter: F)
        requires
            forall|args: (&mut C, String, String)| call_requires(setter, args),
    ;
}

/// A format that reads itself out of a carrier through a getter.
pub trait HttpTextExtract: HttpTextFormat + TryFromHttpText {
    fn extract<C, F: for<'r> Fn(&'r C, &str) -> Option<&'r String>>(carrier: &C, getter: F) -> Option<Self>
        requires
            forall|args: (&C, &str)| call_requires(getter, args),
    ;
}

impl TryFromHttpText for Entry {
    type Err = ();

    fn try_from_http_text(s: &str) -> Result<Self, Self::Err> {
        Entry::try_from_http_text(s)
    }
}

impl TryFromHttpText for TraceState {
    type Err = ();

    fn try_from_http_text(s: &str) -> Result<Self, Self::Err> {
        Ok(TraceState::try_from_http_text(s))
    }
}

impl ToHttpText for TraceState {
    fn to_http_text(&self) -> String {
        TraceState::to_http_text(self)
    }
}

impl HttpTextFormat for SpanContext {
    fn fields(&self) -> Vec<&'static str> {
        let mut v: Vec<&'static str> = Vec::new();
        v.push("traceparent");
        v.push("tracestate");
        v
    }
}

impl ToHttpText for SpanContext {
    fn to_http_text(&self) -> String {
        SpanContext::to_http_text(self)
    }
}

impl HttpTextInject for SpanContext {
    fn inject<C, R, F: Fn(&mut C, String, String) -> R>(&self, carrier: &mut C, setter: F) {
        SpanContext::inject(self, carrier, setter)
    }
}

impl HttpTextFormat for TraceContext {
    fn fields(&self) -> Vec<&'static str> {
        let mut v: Vec<&'static str> = Vec::new();
        v.push("traceparent");
        v.push("tracestate");
        v
    }
}

impl TryFromHttpText for TraceContext {
    type Err = ();

    fn try_from_http_text(s: &str) -> Result<Self, Self::Err> {
        TraceContext::try_from_http_text(s)
    }
}

impl HttpTextExtract for TraceContext {
    fn extract<C, F: for<'r> Fn(&'r C, &str) -> Option<&'r String>>(carrier: &C, getter: F) -> Option<
        Self,
    > {
        TraceContext::extract(carrier, getter)
    }
}

} // verus!
