//! Tests of the three carrier codecs: text map, HTTP header (with
//! percent-decoding and case-insensitive names) and the fixed binary
//! layout.
use rustracing_jaeger::constants;
use rustracing_jaeger::ErrorKind;
use rustracing_jaeger::SpanContextState;
use rustracing_jaeger::SpanContextStateBuilder;
use rustracing_jaeger::TraceId;

fn sample_state() -> SpanContextState {
    SpanContextStateBuilder::new()
        .trace_id(TraceId { high: 0, low: 10 })
        .span_id(0x1234)
        .finish()
}

#[test]
fn inject_to_text_map_works() {
    let state = sample_state();
    let mut map: Vec<(String, String)> = Vec::new();
    state.inject_to_text_map(&mut map);
    assert!(map
        .iter()
        .any(|(k, _)| k == constants::tracer_context_header_name()));
}

#[test]
fn extract_from_text_map_works() {
    let mut map: Vec<(String, String)> = Vec::new();
    map.push((
        constants::tracer_context_header_name().to_string(),
        "6309ab92c95468edea0dc1a9772ae2dc:409423a204bc17a8:0:1".to_string(),
    ));
    let context = SpanContextState::extract_from_text_map(&map).unwrap().unwrap();
    let trace_id = context.trace_id();
    assert_eq!(trace_id.to_string(), "6309ab92c95468edea0dc1a9772ae2dc");
}

/// Some clients percent-encode the colons of the trace-context value; the
/// decoder must accept both renderings alike.
#[test]
fn extract_from_urlencoded_text_map_works() {
    let mut map: Vec<(String, String)> = Vec::new();
    map.push((
        constants::tracer_context_header_name().to_string(),
        "6309ab92c95468edea0dc1a9772ae2dc%3A409423a204bc17a8%3A0%3A1".to_string(),
    ));
    let context = SpanContextState::extract_from_text_map(&map).unwrap().unwrap();
    let trace_id = context.trace_id();
    assert_eq!(trace_id.to_string(), "6309ab92c95468edea0dc1a9772ae2dc");
}

#[test]
fn urlencoded_and_plain_values_yield_the_same_context() {
    let plain = "6309ab92c95468edea0dc1a9772ae2dc:409423a204bc17a8:0:1";
    let encoded = "6309ab92c95468edea0dc1a9772ae2dc%3A409423a204bc17a8%3A0%3A1";
    let mut m1: Vec<(String, String)> = Vec::new();
    m1.push((
        constants::tracer_context_header_name().to_string(),
        plain.to_string(),
    ));
    let mut m2: Vec<(String, String)> = Vec::new();
    m2.push((
        constants::tracer_context_header_name().to_string(),
        encoded.to_string(),
    ));
    let c1 = SpanContextState::extract_from_text_map(&m1).unwrap().unwrap();
    let c2 = SpanContextState::extract_from_text_map(&m2).unwrap().unwrap();
    assert_eq!(c1.trace_id(), c2.trace_id());
    assert_eq!(c1.span_id(), c2.span_id());
    assert_eq!(c1.flags(), c2.flags());
    assert_eq!(c2.span_id(), 0x409423a204bc17a8);
}

#[test]
fn extract_debug_id_works() {
    let mut map: Vec<(String, String)> = Vec::new();
    map.push((
        constants::jaeger_debug_header().to_string(),
        "abcdef".to_string(),
    ));
    let context = SpanContextState::extract_from_text_map(&map).unwrap().unwrap();
    let debug_id = context.debug_id();
    assert_eq!(debug_id, Some("abcdef"));
}

#[test]
fn debug_only_carrier_yields_zero_ids_and_debug_flag() {
    let mut map: Vec<(String, String)> = Vec::new();
    map.push((
        constants::jaeger_debug_header().to_string(),
        "abcdef".to_string(),
    ));
    let context = SpanContextState::extract_from_text_map(&map).unwrap().unwrap();
    assert_eq!(context.trace_id(), TraceId { high: 0, low: 0 });
    assert_eq!(context.span_id(), 0);
    assert_eq!(context.flags(), rustracing_jaeger::span::FLAG_DEBUG);
    assert!(!context.is_sampled());
}

#[test]
fn extract_with_no_relevant_keys_yields_no_context() {
    let empty: Vec<(String, String)> = Vec::new();
    assert!(SpanContextState::extract_from_text_map(&empty)
        .unwrap()
        .is_none());

    let mut other: Vec<(String, String)> = Vec::new();
    other.push(("content-type".to_string(), "text/plain".to_string()));
    assert!(SpanContextState::extract_from_text_map(&other)
        .unwrap()
        .is_none());
}

#[test]
fn extract_malformed_trace_value_is_invalid_input_not_missing() {
    let mut map: Vec<(String, String)> = Vec::new();
    map.push((
        constants::tracer_context_header_name().to_string(),
        "not-a-context".to_string(),
    ));
    let err = SpanContextState::extract_from_text_map(&map).unwrap_err();
    assert_eq!(err.kind(), ErrorKind::InvalidInput);
}

#[test]
fn debug_value_takes_precedence_over_parsed_context() {
    let mut map: Vec<(String, String)> = Vec::new();
    map.push((
        constants::tracer_context_header_name().to_string(),
        "a:1:0:1".to_string(),
    ));
    map.push((
        constants::jaeger_debug_header().to_string(),
        "forced".to_string(),
    ));
    let context = SpanContextState::extract_from_text_map(&map).unwrap().unwrap();
    assert_eq!(context.debug_id(), Some("forced"));
    assert_eq!(
        context.flags(),
        rustracing_jaeger::span::FLAG_SAMPLED | rustracing_jaeger::span::FLAG_DEBUG
    );
    assert_eq!(context.trace_id(), TraceId { high: 0, low: 10 });
}

#[test]
fn text_map_keys_match_case_insensitively() {
    let mut map: Vec<(String, String)> = Vec::new();
    map.push(("Uber-Trace-Id".to_string(), "a:1:0:1".to_string()));
    let context = SpanContextState::extract_from_text_map(&map).unwrap().unwrap();
    assert_eq!(context.trace_id(), TraceId { high: 0, low: 10 });
}

#[test]
fn http_header_names_match_case_insensitively() {
    let mut fields: Vec<(String, Vec<u8>)> = Vec::new();
    fields.push(("Uber-Trace-Id".to_string(), b"a:1:0:1".to_vec()));
    let context = SpanContextState::extract_from_http_header(&fields)
        .unwrap()
        .unwrap();
    assert_eq!(context.trace_id(), TraceId { high: 0, low: 10 });
    assert_eq!(context.span_id(), 1);
}

#[test]
fn http_header_last_trace_context_occurrence_wins() {
    let mut fields: Vec<(String, Vec<u8>)> = Vec::new();
    fields.push(("uber-trace-id".to_string(), b"a:1:0:1".to_vec()));
    fields.push(("UBER-TRACE-ID".to_string(), b"b:2:0:0".to_vec()));
    let context = SpanContextState::extract_from_http_header(&fields)
        .unwrap()
        .unwrap();
    assert_eq!(context.trace_id(), TraceId { high: 0, low: 11 });
    assert_eq!(context.span_id(), 2);
    assert!(!context.is_sampled());
}

#[test]
fn http_header_invalid_utf8_debug_value_is_invalid_input() {
    let mut fields: Vec<(String, Vec<u8>)> = Vec::new();
    fields.push((
        constants::jaeger_debug_header().to_string(),
        vec![0xff, 0xfe],
    ));
    let err = SpanContextState::extract_from_http_header(&fields).unwrap_err();
    assert_eq!(err.kind(), ErrorKind::InvalidInput);
}

#[test]
fn inject_to_http_header_writes_the_context_line() {
    let state = sample_state();
    let mut fields: Vec<(String, String)> = Vec::new();
    state.inject_to_http_header(&mut fields);
    assert_eq!(fields.len(), 1);
    assert_eq!(fields[0].0, constants::tracer_context_header_name());
    assert_eq!(fields[0].1, "a:1234:0:1");
}

#[test]
fn inject_to_binary_works() {
    let parent = SpanContextStateBuilder::new().finish();
    let state = SpanContextStateBuilder::new()
        .trace_id(parent.trace_id())
        .finish();

    let mut span_buf: Vec<u8> = Vec::new();
    state.inject_to_binary(&mut span_buf);

    let sbv = span_buf;
    let mut u64buf: [u8; 8] = [0; 8];
    let mut u32buf: [u8; 4] = [0; 4];
    let mut u8buf: [u8; 1] = [0; 1];

    u64buf.copy_from_slice(&sbv[0..8]);
    assert_eq!(state.trace_id().high, u64::from_be_bytes(u64buf));
    u64buf.copy_from_slice(&sbv[8..16]);
    assert_eq!(state.trace_id().low, u64::from_be_bytes(u64buf));
    u64buf.copy_from_slice(&sbv[16..24]);
    assert_eq!(state.span_id(), u64::from_be_bytes(u64buf));
    u64buf.copy_from_slice(&sbv[24..32]);
    assert_eq!(0, u64::from_be_bytes(u64buf)); // the parent-id field is obsolete
    u8buf.copy_from_slice(&sbv[32..33]);
    assert_eq!(state.flags(), u8buf[0]);
    u32buf.copy_from_slice(&sbv[33..37]);
    assert_eq!(0, u32::from_be_bytes(u32buf)); // no baggage item length
    assert_eq!(sbv.len(), 37);
}

#[test]
fn extract_from_binary_works() {
    let span_buf: Vec<u8> = vec![
        0xab, 0xcd, 0xef, 0xed, 0xcb, 0xab, 0xcd, 0xef, 0xfe, 0xdc, 0xba, 0xbc, 0xde, 0xfe,
        0xdc, 0xba, // trace_id=abcdefedcbabcdef fedcbabcdefedcba
        0, 0, 0, 0, 0, 0, 0, 11, // span_id=11
        0, 0, 0, 0, 0, 0, 0, 12, // parent_span_id=12
        1,  // flags=1
        0, 0, 0, 0, // baggage item length=0
    ];

    let context = SpanContextState::extract_from_binary(&span_buf).unwrap().unwrap();
    assert_eq!(
        context.trace_id().to_string(),
        "abcdefedcbabcdeffedcbabcdefedcba"
    );
    assert_eq!(context.span_id(), 11);
    assert_eq!(context.flags(), 1);
}

#[test]
fn binary_round_trip_is_exact() {
    let state = SpanContextStateBuilder::new()
        .trace_id(TraceId {
            high: 0x0102030405060708,
            low: 0x090a0b0c0d0e0f10,
        })
        .span_id(0x1112131415161718)
        .finish();
    let mut buf: Vec<u8> = Vec::new();
    state.inject_to_binary(&mut buf);
    let back = SpanContextState::extract_from_binary(&buf).unwrap().unwrap();
    assert_eq!(back.trace_id(), state.trace_id());
    assert_eq!(back.span_id(), state.span_id());
    assert_eq!(back.flags(), state.flags());
}

#[test]
fn binary_extract_needs_thirty_seven_bytes() {
    let short = vec![0u8; 36];
    let err = SpanContextState::extract_from_binary(&short).unwrap_err();
    assert_eq!(err.kind(), ErrorKind::InvalidInput);
}

#[test]
fn text_map_round_trip_rezeroes_parent_and_drops_debug_id() {
    let state = SpanContextStateBuilder::new()
        .trace_id(TraceId { high: 1, low: 2 })
        .span_id(3)
        .debug_id("dbg".to_string())
        .finish();
    let mut map: Vec<(String, String)> = Vec::new();
    state.inject_to_text_map(&mut map);
    let back = SpanContextState::extract_from_text_map(&map).unwrap().unwrap();
    assert_eq!(back.trace_id(), state.trace_id());
    assert_eq!(back.span_id(), state.span_id());
    assert_eq!(back.flags(), state.flags());
    // The debug identifier travels in its own carrier key, not in the line.
    assert_eq!(back.debug_id(), None);
}
