use ot_rs::context::SpanContext;
use ot_rs::ids::SpanId;
use ot_rs::ids::TraceId;
use ot_rs::ids::TraceOption;
use ot_rs::trace_state::TraceState;

#[test]
fn span_context_valid() {
    let t = TraceId::new(42);
    let a = SpanContext::new(
        &t,
        SpanId::new(42),
        TraceOption::mask_sample(),
        TraceState::empty(),
    );

    assert_eq!(a.span_id_str(), "000000000000002a".to_owned());
    assert_eq!(
        a.trace_id_str(),
        "0000000000000000000000000000002a".to_owned()
    );
    assert_eq!(a.span_id.to_base16(), "2a00000000000000".to_owned());
    assert_eq!(
        a.trace_id.to_base16(),
        "2a000000000000000000000000000000".to_owned()
    )
}

#[test]
fn trace_id_compare() {
    let a = TraceId::generate_random();
    let b = TraceId::generate_random();

    assert_ne!(a, b);
}

#[test]
fn span_id_compare() {
    let a = SpanId::generate_random();
    let b = SpanId::generate_random();

    assert_ne!(a, b);
}

#[test]
fn trace_id_convert_base16() {
    let e = TraceId::generate_random();
    let a = TraceId::try_from_base16(e.to_base16().as_str());
    assert!(a.is_some());
    assert_eq!(e, a.unwrap())
}

#[test]
fn span_id_convert_base16() {
    let e = SpanId::generate_random();
    let a = SpanId::try_from_base16(e.to_base16().as_str());
    assert!(a.is_some());
    assert_eq!(e, a.unwrap())
}

#[test]
fn trace_id_known_values_round_trip() {
    let small = TraceId::new(42);
    assert_eq!(small.to_base16(), "2a000000000000000000000000000000");
    assert_eq!(TraceId::try_from_base16("2a000000000000000000000000000000"), Some(small));

    let large = TraceId::new(u128::MAX);
    assert_eq!(large.to_base16(), "ffffffffffffffffffffffffffffffff");
    assert_eq!(
        TraceId::try_from_base16("ffffffffffffffffffffffffffffffff"),
        Some(large)
    );
}

#[test]
fn span_id_known_values_round_trip() {
    let e = SpanId::new(0x0102030405060708);
    assert_eq!(e.to_base16(), "0807060504030201");
    assert_eq!(SpanId::try_from_base16("0807060504030201"), Some(e));
}

#[test]
fn trace_id_rejects_bad_text() {
    // Wrong length.
    assert!(TraceId::try_from_base16("2a00").is_none());
    assert!(TraceId::try_from_base16("").is_none());
    // A character that is no hex digit.
    assert!(TraceId::try_from_base16("2g000000000000000000000000000000").is_none());
    assert!(TraceId::try_from_base16("+2a00000000000000000000000000000").is_none());
    // The all-zero value.
    assert!(TraceId::try_from_base16("00000000000000000000000000000000").is_none());
}

#[test]
fn span_id_rejects_bad_text() {
    assert!(SpanId::try_from_base16("2a0000000000000000").is_none());
    assert!(SpanId::try_from_base16("zz00000000000000").is_none());
    assert!(SpanId::try_from_base16("0000000000000000").is_none());
}

#[test]
fn trace_option_round_trips_every_byte() {
    let mut b: u16 = 0;
    while b <= 255 {
        let o = TraceOption::new(b as u8);
        let text = o.to_base16();
        assert_eq!(text.len(), 2);
        let back = TraceOption::try_from_base16(text.as_str());
        assert_eq!(back, Some(o));
        b += 1;
    }
}

#[test]
fn trace_option_sample_bit() {
    let sampled = TraceOption::mask_sample();
    assert_eq!(sampled.bits(), 1);
    assert_eq!(sampled.to_base16(), "01");
    assert_eq!(TraceOption::try_from_base16("01"), Some(sampled));
    assert_eq!(TraceOption::try_from_base16("0"), None);
    assert_eq!(TraceOption::try_from_base16("0x1"), None);
    let empty = TraceOption::empty();
    assert!(sampled.contains(&empty));
    assert!(!empty.contains(&sampled));

    let sizes = (TraceId::size(), SpanId::size(), TraceOption::size());
    assert_eq!(sizes, (16, 8, 1));
}
