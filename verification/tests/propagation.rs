use std::collections::HashMap;

use ot_rs::context::SpanContext;
use ot_rs::context::TraceContext;
use ot_rs::ids::SpanId;
use ot_rs::ids::TraceId;
use ot_rs::ids::TraceOption;
use ot_rs::text_format::HttpTextExtract;
use ot_rs::text_format::HttpTextFormat;
use ot_rs::text_format::HttpTextInject;
use ot_rs::text_format::ToHttpText;
use ot_rs::text_format::TryFromHttpText;
use ot_rs::trace_state::Entry;
use ot_rs::trace_state::TraceState;

#[test]
fn propagation_http_trace_context_inject() {
    let t = TraceId::new(42);

    let i = SpanContext::new(
        &t,
        SpanId::new(42),
        TraceOption::mask_sample(),
        TraceState::empty(),
    );
    let mut m: HashMap<String, String> = HashMap::new();
    i.inject(&mut m, HashMap::insert);
    assert_eq!(m.keys().next().map(String::as_str), Some("traceparent"));
    assert_eq!(
        m.values().next().map(String::as_str),
        Some("00-2a000000000000000000000000000000-2a00000000000000-01")
    )
}

#[test]
fn propagation_http_trace_context_extract() {
    let t = TraceId::new(42);

    let e = SpanContext::new(
        &t,
        SpanId::new(42),
        TraceOption::mask_sample(),
        TraceState::empty(),
    );
    let mut m: HashMap<String, String> = HashMap::new();
    m.insert(
        "traceparent".to_owned(),
        "00-2a000000000000000000000000000000-2a00000000000000-01".to_owned(),
    );
    let a = TraceContext::extract(&m, HashMap::get);
    assert!(a.is_some());
    let aa = a.unwrap();
    assert_eq!(e.trace_id, aa.trace_id);
    assert_eq!(e.span_id, aa.span_id);
    assert_eq!(e.trace_option, aa.trace_option);
    assert_eq!(e.trace_state, aa.trace_state);
}

#[test]
fn propagation_span_context_convert_base16() {
    let t = TraceId::generate_random();
    let e = SpanContext::new(
        &t,
        SpanId::generate_random(),
        TraceOption::mask_sample(),
        TraceState::empty(),
    );
    let a = TraceContext::try_from_http_text(&e.to_http_text());

    assert!(a.is_ok());
    let aa = a.unwrap();
    assert_eq!(e.trace_id, aa.trace_id);
    assert_eq!(e.span_id, aa.span_id);
    assert_eq!(e.trace_option, aa.trace_option);
    assert_eq!(e.trace_state, aa.trace_state);
}

#[test]
fn trace_context_http_trace_context_inject() {
    let t = TraceId::new(42);
    let i = SpanContext::new(
        &t,
        SpanId::new(42),
        TraceOption::mask_sample(),
        TraceState::empty(),
    );
    let mut m: HashMap<String, String> = HashMap::new();
    i.inject(&mut m, HashMap::insert);
    assert_eq!(m.keys().next().map(String::as_str), Some("traceparent"));
    assert_eq!(
        m.values().next().map(String::as_str),
        Some("00-2a000000000000000000000000000000-2a00000000000000-01")
    )
}

#[test]
fn trace_context_http_trace_context_extract() {
    let t = TraceId::new(42);
    let e = SpanContext::new(
        &t,
        SpanId::new(42),
        TraceOption::mask_sample(),
        TraceState::empty(),
    );
    let mut m: HashMap<String, String> = HashMap::new();
    m.insert(
        "traceparent".to_owned(),
        "00-2a000000000000000000000000000000-2a00000000000000-01".to_owned(),
    );
    let a = TraceContext::extract(&m, HashMap::get);
    assert!(a.is_some());
    let aa = a.unwrap();
    assert_eq!(e.trace_id, aa.trace_id);
    assert_eq!(e.span_id, aa.span_id);
    assert_eq!(e.trace_option, aa.trace_option);
    assert_eq!(e.trace_state, aa.trace_state);
}

#[test]
fn trace_context_span_context_convert_base16() {
    let t = TraceId::generate_random();
    let e = SpanContext::new(
        &t,
        SpanId::generate_random(),
        TraceOption::mask_sample(),
        TraceState::empty(),
    );
    let a = TraceContext::try_from_http_text(&e.to_http_text());

    assert!(a.is_ok());
    let aa = a.unwrap();
    assert_eq!(e.trace_id, aa.trace_id);
    assert_eq!(e.span_id, aa.span_id);
    assert_eq!(e.trace_option, aa.trace_option);
    assert_eq!(e.trace_state, aa.trace_state);
}

#[test]
fn inject_with_trace_state_emits_both_fields() {
    let t = TraceId::new(7);
    let mut state = TraceState::empty();
    state.upsert(Entry::try_from("vendor".to_owned(), "x7".to_owned()).unwrap());
    let i = SpanContext::new(&t, SpanId::new(9), TraceOption::empty(), state);
    let mut m: HashMap<String, String> = HashMap::new();
    i.inject(&mut m, HashMap::insert);
    assert_eq!(m.len(), 2);
    assert_eq!(
        m.get("traceparent").map(String::as_str),
        Some("00-07000000000000000000000000000000-0900000000000000-00")
    );
    assert_eq!(m.get("tracestate").map(String::as_str), Some("vendor=x7"));
}

#[test]
fn inject_with_empty_trace_state_emits_one_field() {
    let t = TraceId::new(7);
    let i = SpanContext::new(&t, SpanId::new(9), TraceOption::empty(), TraceState::empty());
    let mut m: HashMap<String, String> = HashMap::new();
    i.inject(&mut m, HashMap::insert);
    assert_eq!(m.len(), 1);
    assert!(m.contains_key("traceparent"));
}

#[test]
fn formats_work_through_the_trait_surface() {
    let t = TraceId::new(42);
    let ctx = SpanContext::new(
        &t,
        SpanId::new(42),
        TraceOption::mask_sample(),
        TraceState::empty(),
    );
    assert_eq!(HttpTextFormat::fields(&ctx), vec!["traceparent", "tracestate"]);
    let line = ToHttpText::to_http_text(&ctx);
    assert_eq!(line, "00-2a000000000000000000000000000000-2a00000000000000-01");

    let mut m: HashMap<String, String> = HashMap::new();
    HttpTextInject::inject(&ctx, &mut m, HashMap::insert);
    let back: Option<TraceContext> = HttpTextExtract::extract(&m, HashMap::get);
    let back = back.unwrap();
    assert_eq!(HttpTextFormat::fields(&back), vec!["traceparent", "tracestate"]);
    assert_eq!(back.trace_id, ctx.trace_id);

    let parsed: Result<TraceContext, ()> = TryFromHttpText::try_from_http_text(line.as_str());
    assert_eq!(parsed.unwrap().span_id, ctx.span_id);
    let entry: Result<Entry, ()> = TryFromHttpText::try_from_http_text("a=1");
    assert_eq!(entry.unwrap().to_string(), "a=1");
    let state: Result<TraceState, ()> = TryFromHttpText::try_from_http_text("a=1,b=2");
    assert_eq!(ToHttpText::to_http_text(&state.unwrap()), "a=1,b=2");
}

#[test]
fn extract_rejects_wrong_version() {
    assert!(TraceContext::try_from_http_text(
        "01-2a000000000000000000000000000000-2a00000000000000-01"
    )
    .is_err());
    assert!(TraceContext::try_from_http_text(
        "zz-2a000000000000000000000000000000-2a00000000000000-01"
    )
    .is_err());
    assert!(TraceContext::try_from_http_text(
        "000-2a00000000000000000000000000000-2a00000000000000-01"
    )
    .is_err());
    assert!(TraceContext::try_from_http_text("00").is_err());
}

#[test]
fn extract_rejects_partial_lines() {
    // A missing field fails the whole decode.
    assert!(TraceContext::try_from_http_text("00-2a000000000000000000000000000000").is_err());
    // A zero identifier fails the whole decode.
    assert!(TraceContext::try_from_http_text(
        "00-00000000000000000000000000000000-2a00000000000000-01"
    )
    .is_err());
    assert!(TraceContext::try_from_http_text(
        "00-2a000000000000000000000000000000-0000000000000000-01"
    )
    .is_err());
    // Trailing data after the flags fails the whole decode.
    assert!(TraceContext::try_from_http_text(
        "00-2a000000000000000000000000000000-2a00000000000000-01-extra"
    )
    .is_err());
}

#[test]
fn extract_attaches_trace_state_best_effort() {
    let mut m: HashMap<String, String> = HashMap::new();
    m.insert(
        "traceparent".to_owned(),
        "00-2a000000000000000000000000000000-2a00000000000000-01".to_owned(),
    );
    m.insert("tracestate".to_owned(), "a=1,###,b=2".to_owned());
    let a = TraceContext::extract(&m, HashMap::get).unwrap();
    assert_eq!(a.trace_state.len(), 2);
    assert_eq!(a.trace_state.get(0).key(), "a");
    assert_eq!(a.trace_state.get(1).key(), "b");

    // A carrier without any tracestate field still extracts, with an
    // empty state attached.
    let mut only_parent: HashMap<String, String> = HashMap::new();
    only_parent.insert(
        "traceparent".to_owned(),
        "00-2a000000000000000000000000000000-2a00000000000000-01".to_owned(),
    );
    let b = TraceContext::extract(&only_parent, HashMap::get).unwrap();
    assert!(!b.trace_state.has_entry());

    // A carrier without a traceparent field fails the extraction whole.
    let empty: HashMap<String, String> = HashMap::new();
    assert!(TraceContext::extract(&empty, HashMap::get).is_none());
}
