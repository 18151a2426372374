use ot_rs::trace_state::Entry;
use ot_rs::trace_state::Key;
use ot_rs::trace_state::TraceState;
use ot_rs::trace_state::Value;

#[test]
fn entry_round_trips_as_text() {
    let e = Entry::try_from("vendor-a".to_owned(), "opaque/Value:01".to_owned()).unwrap();
    assert_eq!(e.to_string(), "vendor-a=opaque/Value:01");
    let back = Entry::try_from_http_text("vendor-a=opaque/Value:01").unwrap();
    assert_eq!(back.key(), "vendor-a");
    assert_eq!(back.value(), "opaque/Value:01");
}

#[test]
fn entry_trims_surrounding_whitespace() {
    let e = Entry::try_from("  congo  ".to_owned(), "\tt61rcWkgMzE \n".to_owned()).unwrap();
    assert_eq!(e.to_string(), "congo=t61rcWkgMzE");
}

#[test]
fn entry_rejects_bad_keys() {
    // Must start with a lowercase letter.
    assert!(Entry::try_from("Congo".to_owned(), "v".to_owned()).is_none());
    assert!(Entry::try_from("7up".to_owned(), "v".to_owned()).is_none());
    // Only the four punctuation marks are allowed.
    assert!(Entry::try_from("a.b".to_owned(), "v".to_owned()).is_none());
    // Empty after trimming.
    assert!(Entry::try_from("   ".to_owned(), "v".to_owned()).is_none());
    // Longer than 256 characters.
    let long = "k".repeat(257);
    assert!(Entry::try_from(long, "v".to_owned()).is_none());
    // 256 characters is still accepted.
    let edge = "k".repeat(256);
    assert!(Entry::try_from(edge, "v".to_owned()).is_some());
    assert!(Key::try_from("a_b-c*d/e0".to_owned()).is_some());
}

#[test]
fn entry_rejects_bad_values() {
    // A value may not hold a comma or an equals sign.
    assert!(Entry::try_from("k".to_owned(), "a,b".to_owned()).is_none());
    assert!(Entry::try_from("k".to_owned(), "a=b".to_owned()).is_none());
    // Nor a space inside, nor anything non-ASCII.
    assert!(Entry::try_from("k".to_owned(), "a b".to_owned()).is_none());
    assert!(Entry::try_from("k".to_owned(), "caf\u{e9}".to_owned()).is_none());
    // Empty after trimming.
    assert!(Entry::try_from("k".to_owned(), " ".to_owned()).is_none());
    let long = "v".repeat(257);
    assert!(Entry::try_from("k".to_owned(), long).is_none());
    let edge = "v".repeat(256);
    assert!(Value::try_from(edge).is_some());
}

#[test]
fn entry_text_needs_equals_sign() {
    assert!(Entry::try_from_http_text("vendor").is_err());
    assert!(Entry::try_from_http_text("").is_err());
    // The value may not hold `=`, so a second `=` rejects the segment.
    assert!(Entry::try_from_http_text("a=b=c").is_err());
}

#[test]
fn state_round_trips_within_capacity() {
    let mut state = TraceState::empty();
    state.upsert(Entry::try_from("a".to_owned(), "1".to_owned()).unwrap());
    state.upsert(Entry::try_from("b".to_owned(), "2".to_owned()).unwrap());
    state.upsert(Entry::try_from("c".to_owned(), "3".to_owned()).unwrap());
    let text = state.to_http_text();
    assert_eq!(text, "a=1,b=2,c=3");
    let back = TraceState::try_from_http_text(text.as_str());
    assert_eq!(back, state);
    // Decoding what the round trip produced is a fixed point.
    assert_eq!(TraceState::try_from_http_text(back.to_http_text().as_str()), back);
}

#[test]
fn state_decode_truncates_to_32_entries() {
    let mut text = String::new();
    let mut i = 0;
    while i < 40 {
        if i > 0 {
            text.push(',');
        }
        text.push_str(&format!("k{}=v{}", i, i));
        i += 1;
    }
    let state = TraceState::try_from_http_text(text.as_str());
    assert_eq!(state.len(), 32);
    assert_eq!(state.get(0).key(), "k0");
    assert_eq!(state.get(31).key(), "k31");
}

#[test]
fn state_decode_drops_malformed_segments() {
    let state = TraceState::try_from_http_text("a=1,NOT VALID,b=2, ,c==3,d=4");
    assert_eq!(state.len(), 3);
    assert_eq!(state.get(0).key(), "a");
    assert_eq!(state.get(0).value(), "1");
    assert_eq!(state.get(1).key(), "b");
    assert_eq!(state.get(1).value(), "2");
    assert_eq!(state.get(2).key(), "d");
    assert_eq!(state.get(2).value(), "4");
}

#[test]
fn state_decode_of_empty_text_is_empty() {
    let state = TraceState::try_from_http_text("");
    assert!(!state.has_entry());
    assert_eq!(state.to_http_text(), "");
}

#[test]
fn upsert_replaces_in_place() {
    let mut state = TraceState::empty();
    state.upsert(Entry::try_from("a".to_owned(), "1".to_owned()).unwrap());
    state.upsert(Entry::try_from("b".to_owned(), "2".to_owned()).unwrap());
    state.upsert(Entry::try_from("a".to_owned(), "9".to_owned()).unwrap());
    assert_eq!(state.len(), 2);
    assert_eq!(state.get(0).key(), "a");
    assert_eq!(state.get(0).value(), "9");
    assert_eq!(state.get(1).key(), "b");
}

#[test]
fn upsert_drops_new_keys_at_capacity() {
    let mut state = TraceState::empty();
    let mut i = 0;
    while i < 32 {
        state.upsert(Entry::try_from(format!("k{}", i), format!("v{}", i)).unwrap());
        i += 1;
    }
    assert_eq!(state.len(), 32);
    // A new key is silently dropped once the list is full.
    state.upsert(Entry::try_from("overflow".to_owned(), "x".to_owned()).unwrap());
    assert_eq!(state.len(), 32);
    assert_eq!(state.get(31).key(), "k31");
    // An existing key is still replaced in place.
    state.upsert(Entry::try_from("k31".to_owned(), "replaced".to_owned()).unwrap());
    assert_eq!(state.len(), 32);
    assert_eq!(state.get(31).value(), "replaced");
    assert_eq!(TraceState::max_entry_size(), 32);
}

#[test]
fn propagate_duplicates_a_parent() {
    let mut parent = TraceState::empty();
    parent.upsert(Entry::try_from("a".to_owned(), "1".to_owned()).unwrap());
    let mut child = TraceState::propagate(&parent);
    assert_eq!(child, parent);
    child.upsert(Entry::try_from("b".to_owned(), "2".to_owned()).unwrap());
    assert_eq!(parent.len(), 1);
    assert_eq!(child.len(), 2);
}
