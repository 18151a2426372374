//! The span lifecycle: a mutable, in-flight unit of work.
//!
//! A span accumulates a name, attributes, events, links and a status
//! while open. `end` records the finish timestamp once; after that every
//! mutation, a second `end` included, is silently ignored, so the finish
//! time is set exactly once and the span's record is stable.
use vstd::prelude::*;

use crate::attributes::Attributes;
use crate::context::SpanContext;
use crate::ids::SpanId;
use crate::status::Status;
use crate::time::Timestamp;

verus! {

/// A point-in-time annotation before its timestamp is captured.
#[derive(Debug)]
pub struct Event {
    pub name: String,
    pub attributes: Attributes,
}

impl Event {
    /// An event without attributes.
    pub fn new(name: &str) -> (r: Self)
        ensures
            r.name@ == name@,
            r.attributes.entries() == Seq::<(String, crate::key::Value)>::empty(),
            r.attributes.wf(),
    {
        Event { name: name.to_owned(), attributes: Attributes::new() }
    }

    /// An event carrying attributes.
    pub fn new_with_attributes(name: &str, attributes: Attributes) -> (r: Self)
        ensures
            r.name@ == name@,
            r.attributes == attributes,
    {
        Event { name: name.to_owned(), attributes }
    }
}

/// An event stamped with the time it was recorded; immutable once made.
#[derive(Debug)]
pub struct TimedEvent {
    pub timestamp: Timestamp,
    pub name: String,
    pub attributes: Attributes,
}

impl TimedEvent {
    /// Stamps the event with the current time.
    pub fn new(event: Event) -> (r: Self)
        ensures
            r.name == event.name,
            r.attributes == event.attributes,
    {
        TimedEvent::new_with_timestamp(Timestamp::now(), event)
    }

    /// Stamps the event with the given time.
    pub fn new_with_timestamp(timestamp: Timestamp, event: Event) -> (r: Self)
        ensures
            r.timestamp == timestamp,
            r.name == event.name,
            r.attributes == event.attributes,
    {
        TimedEvent { timestamp, name: event.name, attributes: event.attributes }
    }
}

impl Clone for TimedEvent {
    fn clone(&self) -> (r: Self)
        ensures
            r.timestamp == self.timestamp,
            r.name == self.name,
            r.attributes.entries() == self.attributes.entries(),
    {
        TimedEvent {
            timestamp: self.timestamp,
            name: self.name.clone(),
            attributes: self.attributes.clone(),
        }
    }
}

/// A reference from one span to another; immutable once made.
#[derive(Debug)]
pub struct Link {
    pub span_context: SpanContext,
    pub attributes: Attributes,
}

impl Link {
    pub fn new(span_context: SpanContext, attributes: Attributes) -> (r: Self)
        ensures
            r.span_context == span_context,
            r.attributes == attributes,
    {
        Link { span_context, attributes }
    }
}

impl Clone for Link {
    fn clone(&self) -> (r: Self)
        ensures
            r.span_context.trace_id == self.span_context.trace_id,
            r.span_context.span_id == self.span_context.span_id,
            r.span_context.trace_option == self.span_context.trace_option,
            r.span_context.trace_state@ == self.span_context.trace_state@,
            r.attributes.entries() == self.attributes.entries(),
    {
        Link { span_context: self.span_context.clone(), attributes: self.attributes.clone() }
    }
}

/// A mutable, in-flight span held in memory until it is finished.
#[derive(Debug)]
pub struct InMemorySpan {
    pub context: SpanContext,
    pub name: String,
    pub start_time: Timestamp,
    pub finish_time: Option<Timestamp>,
    pub attributes: Attributes,
    pub parent_span_id: Option<SpanId>,
    pub links: Vec<Link>,
    pub events: Vec<TimedEvent>,
    pub status: Status,
}

impl InMemorySpan {
    /// The span is still open: no finish time has been recorded.
    pub open spec fn is_open(self) -> bool {
        self.finish_time is None
    }

    /// Everything but the start and finish timestamps is unchanged.
    pub open spec fn times_only_changed(self, other: Self) -> bool {
        self.context == other.context && self.name == other.name && self.attributes
            == other.attributes && self.parent_span_id == other.parent_span_id && self.links
            == other.links && self.events == other.events && self.status == other.status
    }

    /// A fresh open span against the given context, started now.
    pub fn new(context: SpanContext, name: String, parent_span_id: Option<SpanId>) -> (r: Self)
        ensures
            r.context == context,
            r.name == name,
            r.parent_span_id == parent_span_id,
            r.is_open(),
            r.attributes.wf(),
            r.attributes.entries() == Seq::<(String, crate::key::Value)>::empty(),
            r.links@ == Seq::<Link>::empty(),
            r.events@ == Seq::<TimedEvent>::empty(),
            r.status.code() == crate::status::CanonicalCode::Okay,
    {
        InMemorySpan {
            context,
            name,
            start_time: Timestamp::now(),
            finish_time: None,
            attributes: Attributes::new(),
            parent_span_id,
            links: Vec::new(),
            events: Vec::new(),
            status: Status::ok(),
        }
    }

    /// Marks the beginning of recording: resets the start timestamp to
    /// now. Ignored once the span has ended.
    pub fn start(&mut self)
        ensures
            old(self).is_open() ==> final(self).times_only_changed(*old(self)) && final(self).finish_time == old(self).finish_time,
            !old(self).is_open() ==> *final(self) == *old(self),
    {
        if self.finish_time.is_none() {
            self.start_time = Timestamp::now();
        }
    }

    /// The context the span runs under.
    pub fn context(&self) -> (r: &SpanContext)
        ensures
            r == &self.context,
    {
        &self.context
    }

    /// This span records events.
    pub fn is_recording_events(&self) -> (r: bool)
        ensures
            r,
    {
        true
    }

    /// Appends a link. Ignored once the span has ended.
    pub fn add_link(&mut self, link: Link)
        ensures
            old(self).is_open() ==> final(self).links@ == old(self).links@.push(link),
            old(self).is_open() ==> final(self).events == old(self).events && final(self).attributes
                == old(self).attributes && final(self).context == old(self).context && final(self).name == old(self).name && final(self).start_time == old(self).start_time && final(self).finish_time == old(self).finish_time && final(self).parent_span_id == old(self).parent_span_id && final(self).status == old(self).status,
            !old(self).is_open() ==> *final(self) == *old(self),
    {
        if self.finish_time.is_none() {
            self.links.push(link);
        }
    }

    /// Appends an event, stamped with the current time. Ignored once the
    /// span has ended.
    pub fn add_event(&mut self, event: Event)
        ensures
            old(self).is_open() ==> {
                &&& final(self).events@.len() == old(self).events@.len() + 1
                &&& final(self).events@.last().name == event.name
                &&& final(self).events@.last().attributes == event.attributes
                &&& final(self).events@.subrange(0, old(self).events@.len() as int) == old(self).events@
            },
            old(self).is_open() ==> final(self).links == old(self).links && final(self).attributes
                == old(self).attributes && final(self).context == old(self).context && final(self).name == old(self).name && final(self).start_time == old(self).start_time && final(self).finish_time == old(self).finish_time && final(self).parent_span_id == old(self).parent_span_id && final(self).status == old(self).status,
            !old(self).is_open() ==> *final(self) == *old(self),
    {
        if self.finish_time.is_none() {
            self.events.push(TimedEvent::new(event));
            proof {
                assert(self.events@.subrange(0, old(self).events@.len() as int) =~= old(self).events@);
            }
        }
    }

    /// Writes an attribute; the last write to a key wins. Ignored once
    /// the span has ended.
    pub fn set_attribute(&mut self, key: String, value: crate::key::Value)
        requires
            old(self).attributes.wf(),
        ensures
            final(self).attributes.wf(),
            old(self).is_open() ==> final(self).attributes.as_map() == old(self).attributes.as_map().insert(key@, value),
            old(self).is_open() ==> final(self).links == old(self).links && final(self).events
                == old(self).events && final(self).context == old(self).context && final(self).name
                == old(self).name && final(self).start_time == old(self).start_time && final(self).finish_time == old(self).finish_time && final(self).parent_span_id == old(self).parent_span_id && final(self).status == old(self).status,
            !old(self).is_open() ==> *final(self) == *old(self),
    {
        if self.finish_time.is_none() {
            self.attributes.insert(key, value);
        }
    }

    /// Renames the span. Ignored once the span has ended.
    pub fn update_name(&mut self, name: &str)
        ensures
            old(self).is_open() ==> final(self).name@ == name@,
            old(self).is_open() ==> final(self).links == old(self).links && final(self).events
                == old(self).events && final(self).attributes == old(self).attributes && final(self).context == old(self).context && final(self).start_time == old(self).start_time
                && final(self).finish_time == old(self).finish_time && final(self).parent_span_id
                == old(self).parent_span_id && final(self).status == old(self).status,
            !old(self).is_open() ==> *final(self) == *old(self),
    {
        if self.finish_time.is_none() {
            self.name = name.to_owned();
        }
    }

    /// Replaces the status. Ignored once the span has ended.
    pub fn set_status(&mut self, next: Status)
        ensures
            old(self).is_open() ==> final(self).status == next,
            old(self).is_open() ==> final(self).links == old(self).links && final(self).events
                == old(self).events && final(self).attributes == old(self).attributes && final(self).context == old(self).context && final(self).name == old(self).name && final(self).start_time == old(self).start_time && final(self).finish_time == old(self).finish_time && final(self).parent_span_id == old(self).parent_span_id,
            !old(self).is_open() ==> *final(self) == *old(self),
    {
        if self.finish_time.is_none() {
            self.status = next;
        }
    }

    /// Records the finish timestamp. The first call closes the span;
    /// any later call is ignored, so the finish time is set exactly once.
    pub fn end(&mut self)
        ensures
            final(self).finish_time is Some,
            old(self).is_open() ==> final(self).times_only_changed(*old(self)) && final(self).start_time == old(self).start_time,
            !old(self).is_open() ==> *final(self) == *old(self),
    {
        if self.finish_time.is_none() {
            self.finish_time = Some(Timestamp::now());
        }
    }

    /// Milliseconds from start to finish; nothing while the span is open
    /// or when the clock ran backwards.
    pub fn span_duration_as_millis(&self) -> (r: Option<u128>)
        ensures
            r is Some <==> (self.finish_time is Some && self.finish_time.unwrap().spec_nanos()
                >= self.start_time.spec_nanos()),
            r is Some ==> r.unwrap() == (self.finish_time.unwrap().spec_nanos()
                - self.start_time.spec_nanos()) as u128 / 1000000,
    {
        match &self.finish_time {
            None => None,
            Some(fin) => fin.duration_since_as_millis(&self.start_time),
        }
    }

    /// Microseconds from start to finish; nothing while the span is open
    /// or when the clock ran backwards.
    pub fn span_duration_as_micros(&self) -> (r: Option<u128>)
        ensures
            r is Some <==> (self.finish_time is Some && self.finish_time.unwrap().spec_nanos()
                >= self.start_time.spec_nanos()),
            r is Some ==> r.unwrap() == (self.finish_time.unwrap().spec_nanos()
                - self.start_time.spec_nanos()) as u128 / 1000,
    {
        match &self.finish_time {
            None => None,
            Some(fin) => fin.duration_since_as_micros(&self.start_time),
        }
    }

    /// Nanoseconds from start to finish; nothing while the span is open
    /// or when the clock ran backwards.
    pub fn span_duration_as_nanos(&self) -> (r: Option<u128>)
        ensures
            r is Some <==> (self.finish_time is Some && self.finish_time.unwrap().spec_nanos()
                >= self.start_time.spec_nanos()),
            r is Some ==> r.unwrap() == (self.finish_time.unwrap().spec_nanos()
                - self.start_time.spec_nanos()) as u128,
    {
        match &self.finish_time {
            None => None,
            Some(fin) => fin.duration_since_as_nanos(&self.start_time),
        }
    }

    /// Milliseconds between the epoch and the start.
    pub fn get_start_epoch_time_as_millis(&self) -> (r: u128)
        ensures
            r == self.start_time.spec_nanos() / 1000000,
    {
        self.start_time.as_millis()
    }

    /// Milliseconds between the epoch and the finish, once ended.
    pub fn get_finish_epoch_time_as_millis(&self) -> (r: Option<u128>)
        ensures
            r is Some <==> self.finish_time is Some,
            r is Some ==> r.unwrap() == self.finish_time.unwrap().spec_nanos() / 1000000,
    {
        match &self.finish_time {
            None => None,
            Some(fin) => Some(fin.as_millis()),
        }
    }

    /// Microseconds between the epoch and the start.
    pub fn get_start_epoch_time_as_micros(&self) -> (r: u128)
        ensures
            r == self.start_time.spec_nanos() / 1000,
    {
        self.start_time.as_micros()
    }

    /// Microseconds between the epoch and the finish, once ended.
    pub fn get_finish_epoch_time_as_micros(&self) -> (r: Option<u128>)
        ensures
            r is Some <==> self.finish_time is Some,
            r is Some ==> r.unwrap() == self.finish_time.unwrap().spec_nanos() / 1000,
    {
        match &self.finish_time {
            None => None,
            Some(fin) => Some(fin.as_micros()),
        }
    }

    /// Nanoseconds between the epoch and the start.
    pub fn get_start_epoch_time_as_nanos(&self) -> (r: u128)
        ensures
            r == self.start_time.spec_nanos(),
    {
        self.start_time.as_nanos()
    }

    /// Nanoseconds between the epoch and the finish, once ended.
    pub fn get_finish_epoch_time_as_nanos(&self) -> (r: Option<u128>)
        ensures
            r is Some <==> self.finish_time is Some,
            r is Some ==> r.unwrap() == self.finish_time.unwrap().spec_nanos(),
    {
        match &self.finish_time {
            None => None,
            Some(fin) => Some(fin.as_nanos()),
        }
    }
}

/// Runs a unit of work and ends its span when the work returns.
pub struct Scope<F> {
    pub f: F,
    pub span: InMemorySpan,
}

impl<F> Scope<F> {
    pub fn new(span: InMemorySpan, f: F) -> (r: Self)
        ensures
            r.span == span,
            r.f == f,
    {
        Scope { f, span }
    }

    /// Runs the stored work, ends the span, and hands the work's result
    /// back; the stored work and everything of the span but its finish
    /// timestamp stay as they were.
    pub fn run<U>(&mut self) -> (r: U) where F: Fn() -> U
        requires
            call_requires(old(self).f, ()),
        ensures
            call_ensures(old(self).f, (), r),
            final(self).f == old(self).f,
            final(self).span.finish_time is Some,
            old(self).span.is_open() ==> final(self).span.times_only_changed(old(self).span)
                && final(self).span.start_time == old(self).span.start_time,
            !old(self).span.is_open() ==> final(self).span == old(self).span,
    {
        let rt = (self.f)();
        self.span.end();
        rt
    }
}

} // verus!
