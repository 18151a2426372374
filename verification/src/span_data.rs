//! The finalized, exporter-ready span record.
//!
//! A `SpanData` is produced from a span only once the span holds a
//! finish timestamp; that is the conversion's sole failure condition.
//! The record owns deep copies of everything it carries, so it can
//! outlive the span and cross an execution boundary on its own.
use vstd::prelude::*;

use crate::attributes::Attributes;
use crate::context::SpanContext;
use crate::ids::SpanId;
use crate::span::InMemorySpan;
use crate::span::Link;
use crate::span::TimedEvent;
use crate::status::Status;
use crate::time::Timestamp;

verus! {

/// What role the span played; this core classifies every finished span
/// as internal.
#[derive(Debug, PartialEq, Eq, Clone, Copy, Structural)]
pub enum SpanKind {
    Internal,
    Server,
    Client,
    Producer,
    Consumer,
}

/// The two lists hold the same timed events, record for record.
pub open spec fn timed_events_equal(a: Seq<TimedEvent>, b: Seq<TimedEvent>) -> bool {
    a.len() == b.len() && forall|i: int|
        0 <= i < a.len() ==> (#[trigger] a[i]).timestamp == b[i].timestamp && a[i].name == b[i].name
            && a[i].attributes.entries() == b[i].attributes.entries()
}

/// The two lists hold the same links, record for record.
pub open spec fn links_equal(a: Seq<Link>, b: Seq<Link>) -> bool {
    a.len() == b.len() && forall|i: int|
        0 <= i < a.len() ==> (#[trigger] a[i]).span_context.trace_id == b[i].span_context.trace_id
            && a[i].span_context.span_id == b[i].span_context.span_id
            && a[i].span_context.trace_option == b[i].span_context.trace_option
            && a[i].span_context.trace_state@ == b[i].span_context.trace_state@
            && a[i].attributes.entries() == b[i].attributes.entries()
}

/// An immutable, fully owned record of one finished span.
#[derive(Debug)]
pub struct SpanData {
    pub context: SpanContext,
    pub parent_span_id: Option<SpanId>,
    pub name: String,
    pub kind: SpanKind,
    pub start_time: Timestamp,
    pub end_time: Timestamp,
    pub attributes: Attributes,
    pub events: Vec<TimedEvent>,
    pub links: Vec<Link>,
    pub status: Status,
}

fn clone_events(v: &Vec<TimedEvent>) -> (r: Vec<TimedEvent>)
    ensures
        timed_events_equal(r@, v@),
{
    let mut r: Vec<TimedEvent> = Vec::new();
    let mut i: usize = 0;
    while i < v.len()
        invariant
            i <= v@.len(),
            r@.len() == i,
            timed_events_equal(r@, v@.subrange(0, i as int)),
        decreases v@.len() - i,
    {
        r.push(v[i].clone());
        i += 1;
    }
    proof {
        assert(v@.subrange(0, v@.len() as int) =~= v@);
    }
    r
}

fn clone_links(v: &Vec<Link>) -> (r: Vec<Link>)
    ensures
        links_equal(r@, v@),
{
    let mut r: Vec<Link> = Vec::new();
    let mut i: usize = 0;
    while i < v.len()
        invariant
            i <= v@.len(),
            r@.len() == i,
            links_equal(r@, v@.subrange(0, i as int)),
        decreases v@.len() - i,
    {
        r.push(v[i].clone());
        i += 1;
    }
    proof {
        assert(v@.subrange(0, v@.len() as int) =~= v@);
    }
    r
}

impl SpanData {
    /// Law: the conversion fails exactly while the span has no finish
    /// timestamp; once the span has ended it succeeds, and the record
    /// carries owned copies of the span's context, name, attributes,
    /// events, links and status, with the kind classified as internal.
    pub fn try_from(value: &InMemorySpan) -> (r: Result<SpanData, ()>)
        ensures
            r is Ok <==> value.finish_time is Some,
            r is Ok ==> {
                let d = r.unwrap();
                &&& d.context.trace_id == value.context.trace_id
                &&& d.context.span_id == value.context.span_id
                &&& d.context.trace_option == value.context.trace_option
                &&& d.context.trace_state@ == value.context.trace_state@
                &&& d.parent_span_id == value.parent_span_id
                &&& d.name == value.name
                &&& d.kind == SpanKind::Internal
                &&& d.start_time == value.start_time
                &&& d.end_time == value.finish_time.unwrap()
                &&& d.attributes.entries() == value.attributes.entries()
                &&& timed_events_equal(d.events@, value.events@)
                &&& links_equal(d.links@, value.links@)
                &&& d.status.code() == value.status.code()
                &&& (d.status.spec_description() is Some <==> value.status.spec_description()
                    is Some)
                &&& (d.status.spec_description() is Some ==> d.status.spec_description().unwrap()@
                    == value.status.spec_description().unwrap()@)
            },
    {
        let ft = match &value.finish_time {
            None => {
                return Err(());
            },
            Some(t) => *t,
        };
        Ok(
            SpanData {
                context: value.context.clone(),
                parent_span_id: value.parent_span_id,
                name: value.name.clone(),
                kind: SpanKind::Internal,
                start_time: value.start_time,
                end_time: ft,
                attributes: value.attributes.clone(),
                events: clone_events(&value.events),
                links: clone_links(&value.links),
                status: value.status.clone(),
            },
        )
    }
}

} // verus!
