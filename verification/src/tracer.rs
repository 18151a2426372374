//! The in-memory tracer: the one concrete backend of this core. It holds
//! the current trace and span and turns a finished span into its record;
//! other backends would sit behind the same surface.
use vstd::prelude::*;

use crate::context::TraceContext;
use crate::resources::Resource;
use crate::span::InMemorySpan;
use crate::span_data::SpanData;

verus! {

/// A tracer that keeps its state in memory: the context of the current
/// trace, the span being recorded, and the resource labels it tags
/// spans with.
pub struct InMemoryTracer {
    pub current_trace: Option<TraceContext>,
    pub current_span: Option<InMemorySpan>,
    pub resource: Resource,
}

impl InMemoryTracer {
    pub fn new(resource: Resource) -> (r: Self)
        ensures
            r.current_trace is None,
            r.current_span is None,
            r.resource == resource,
    {
        InMemoryTracer { current_trace: None, current_span: None, resource }
    }

    /// The context of the trace being recorded, if one is open.
    pub fn current_trace(&self) -> (r: Option<&TraceContext>)
        ensures
            r is Some <==> self.current_trace is Some,
            r is Some ==> *r.unwrap() == self.current_trace.unwrap(),
    {
        self.current_trace.as_ref()
    }

    /// The span being recorded, if one is open.
    pub fn current_span(&self) -> (r: Option<&InMemorySpan>)
        ensures
            r is Some <==> self.current_span is Some,
            r is Some ==> *r.unwrap() == self.current_span.unwrap(),
    {
        self.current_span.as_ref()
    }

    /// Finalizes a span into its exporter-ready record; fails exactly
    /// while the span has no finish timestamp. The record carries owned
    /// copies of everything the span held.
    pub fn record_span_data(&self, value: InMemorySpan) -> (r: Result<SpanData, ()>)
        ensures
            r is Ok <==> value.finish_time is Some,
            r is Ok ==> {
                let d = r.unwrap();
                &&& d.context.trace_id == value.context.trace_id
                &&& d.context.span_id == value.context.span_id
                &&& d.context.trace_option == value.context.trace_option
                &&& d.context.trace_state@ == value.context.trace_state@
                &&& d.parent_span_id == value.parent_span_id
                &&& d.name == value.name
                &&& d.kind == crate::span_data::SpanKind::Internal
                &&& d.start_time == value.start_time
                &&& d.end_time == value.finish_time.unwrap()
                &&& d.attributes.entries() == value.attributes.entries()
                &&& crate::span_data::timed_events_equal(d.events@, value.events@)
                &&& crate::span_data::links_equal(d.links@, value.links@)
                &&& d.status.code() == value.status.code()
                &&& (d.status.spec_description() is Some <==> value.status.spec_description()
                    is Some)
                &&& (d.status.spec_description() is Some ==> d.status.spec_description().unwrap()@
                    == value.status.spec_description().unwrap()@)
            },
    {
        SpanData::try_from(&value)
    }
}

} // verus!
