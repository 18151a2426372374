use ot_rs::attributes::Attributes;
use ot_rs::context::SpanContext;
use ot_rs::context::TraceContext;
use ot_rs::ids::SpanId;
use ot_rs::ids::TraceId;
use ot_rs::ids::TraceOption;
use ot_rs::key::Value;
use ot_rs::span::Event;
use ot_rs::span::InMemorySpan;
use ot_rs::span::Scope;
use ot_rs::span_data::SpanData;
use ot_rs::span_data::SpanKind;
use ot_rs::resources::Resource;
use ot_rs::status::Status;
use ot_rs::tracer::InMemoryTracer;
use ot_rs::time::Timestamp;
use ot_rs::trace_state::TraceState;

#[test]
fn trace_timestamp_to_primitive() {
    let a = Timestamp::from_nanos(1_000_000_000);
    assert_eq!(a.as_millis(), 1000);
    assert_eq!(a.as_micros(), 1000_000);
    assert_eq!(a.as_nanos(), 1000_000_000);
}

#[test]
fn trace_timestamp_to_duration() {
    let a1 = Timestamp::from_nanos(1_000_000_000);
    let a2 = Timestamp::from_nanos(0);

    assert_eq!(a1.duration_since_as_millis(&a2), Some(1000));
    assert_eq!(a1.duration_since_as_micros(&a2), Some(1000_000));
    assert_eq!(a1.duration_since_as_nanos(&a2), Some(1000_000_000));
}

#[test]
fn span_timestamp_to_primitive() {
    let a = Timestamp::from_nanos(1_000_000_000);
    assert_eq!(a.as_millis(), 1000);
    assert_eq!(a.as_micros(), 1000_000);
    assert_eq!(a.as_nanos(), 1000_000_000);
}

#[test]
fn span_timestamp_to_duration() {
    let a1 = Timestamp::from_nanos(1_000_000_000);
    let a2 = Timestamp::from_nanos(0);

    assert_eq!(a1.duration_since_as_millis(&a2), Some(1000));
    assert_eq!(a1.duration_since_as_micros(&a2), Some(1000_000));
    assert_eq!(a1.duration_since_as_nanos(&a2), Some(1000_000_000));
}

#[test]
fn timestamp_duration_refuses_backwards_clock() {
    let earlier = Timestamp::from_nanos(5);
    let later = Timestamp::from_nanos(9);
    assert_eq!(earlier.duration_since_as_nanos(&later), None);
    assert_eq!(earlier.duration_since_as_millis(&later), None);
    assert_eq!(earlier.duration_since_as_micros(&later), None);
}

fn test_span() -> InMemorySpan {
    let t = TraceContext::new(
        TraceId::generate_random(),
        SpanId::generate_random(),
        TraceOption::mask_sample(),
        TraceState::empty(),
    );
    let s = SpanContext::new(
        &t.trace_id,
        SpanId::generate_random(),
        TraceOption::mask_sample(),
        TraceState::empty(),
    );
    InMemorySpan {
        context: s,
        name: "test".to_owned(),
        start_time: Timestamp::now(),
        finish_time: None,
        attributes: Attributes::new(),
        parent_span_id: None,
        links: Vec::new(),
        events: Vec::new(),
        status: Status::ok(),
    }
}

#[test]
fn scope_test() {
    let span = test_span();
    let mut s = Scope::new(span, || 1);
    let a = s.run();

    assert_eq!(a, 1);
    assert!(s.span.finish_time.is_some());
}

#[test]
fn span_duration_uses_both_timestamps() {
    let mut span = test_span();
    span.start_time = Timestamp::from_nanos(1_000_000_000);
    assert_eq!(span.span_duration_as_nanos(), None);
    span.finish_time = Some(Timestamp::from_nanos(3_500_000_000));
    assert_eq!(span.span_duration_as_millis(), Some(2500));
    assert_eq!(span.span_duration_as_micros(), Some(2_500_000));
    assert_eq!(span.span_duration_as_nanos(), Some(2_500_000_000));
    assert_eq!(span.get_start_epoch_time_as_millis(), 1000);
    assert_eq!(span.get_start_epoch_time_as_micros(), 1_000_000);
    assert_eq!(span.get_start_epoch_time_as_nanos(), 1_000_000_000);
    assert_eq!(span.get_finish_epoch_time_as_millis(), Some(3500));
    assert_eq!(span.get_finish_epoch_time_as_micros(), Some(3_500_000));
    assert_eq!(span.get_finish_epoch_time_as_nanos(), Some(3_500_000_000));

    // A finish before the start reports no duration at all.
    span.finish_time = Some(Timestamp::from_nanos(500));
    assert_eq!(span.span_duration_as_millis(), None);
}

#[test]
fn span_mutations_stop_after_end() {
    let mut span = test_span();
    span.set_attribute("k".to_owned(), Value::Int64(1));
    span.add_event(Event::new("before"));
    span.update_name("renamed");
    span.set_status(Status::cancelled());
    assert_eq!(span.attributes.len(), 1);
    assert_eq!(span.events.len(), 1);
    assert_eq!(span.name, "renamed");
    assert!(!span.status.is_ok());

    span.end();
    let finish = span.finish_time;
    assert!(finish.is_some());

    // Every mutation after the end is silently ignored.
    span.set_attribute("k2".to_owned(), Value::Bool(true));
    span.add_event(Event::new("after"));
    span.update_name("again");
    span.set_status(Status::ok());
    span.end();
    assert_eq!(span.attributes.len(), 1);
    assert_eq!(span.events.len(), 1);
    assert_eq!(span.name, "renamed");
    assert!(!span.status.is_ok());
    assert_eq!(span.finish_time, finish);
    assert!(span.is_recording_events());
}

#[test]
fn span_data_needs_an_ended_span() {
    let mut span = test_span();
    assert!(SpanData::try_from(&span).is_err());
    span.end();
    let data = SpanData::try_from(&span).unwrap();
    assert_eq!(data.name, "test");
    assert!(matches!(data.kind, SpanKind::Internal));
    assert_eq!(data.end_time, span.finish_time.unwrap());
}

#[test]
fn span_data_is_an_independent_copy() {
    let mut span = test_span();
    span.set_attribute("color".to_owned(), Value::String("red".to_owned()));
    span.add_event(Event::new("handled"));
    span.end();
    let data = SpanData::try_from(&span).unwrap();

    // Reopen the original by hand and mutate it; the record keeps the
    // values it was built from.
    span.finish_time = None;
    span.set_attribute("color".to_owned(), Value::String("blue".to_owned()));
    span.add_event(Event::new("later"));
    span.update_name("changed");

    assert_eq!(data.name, "test");
    assert_eq!(data.events.len(), 1);
    assert_eq!(data.events[0].name, "handled");
    assert_eq!(data.attributes.len(), 1);
    let pairs = data.attributes.pairs();
    assert_eq!(pairs[0].0, "color");
    assert!(matches!(&pairs[0].1, Value::String(s) if s == "red"));
}

#[test]
fn tracer_records_only_ended_spans() {
    let tracer = InMemoryTracer::new(Resource::default());
    assert!(tracer.current_trace().is_none());
    assert!(tracer.current_span().is_none());

    let open = test_span();
    assert!(tracer.record_span_data(open).is_err());

    let mut done = test_span();
    done.end();
    let data = tracer.record_span_data(done).unwrap();
    assert_eq!(data.name, "test");
}

#[test]
fn events_capture_attributes() {
    let mut attrs = Attributes::new();
    attrs.insert("n".to_owned(), Value::UInt64(7));
    attrs.insert("n".to_owned(), Value::UInt64(8));
    let e = Event::new_with_attributes("evt", attrs);
    assert_eq!(e.name, "evt");
    assert_eq!(e.attributes.len(), 1);
    assert!(matches!(e.attributes.pairs()[0].1, Value::UInt64(8)));
}
