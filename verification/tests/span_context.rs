//! Tests of the span-context state, its builder, and the textual line
//! codec shared by the text-map and HTTP-header carriers.
use rustracing_jaeger::span::FLAG_DEBUG;
use rustracing_jaeger::span::FLAG_SAMPLED;
use rustracing_jaeger::ErrorKind;
use rustracing_jaeger::SpanContextState;
use rustracing_jaeger::SpanContextStateBuilder;
use rustracing_jaeger::TraceId;

#[test]
fn sampled_flag_works() {
    let state: SpanContextState = "6309ab92c95468edea0dc1a9772ae2dc:409423a204bc17a8:0:1"
        .parse()
        .unwrap();

    assert!(state.is_sampled());
    assert_eq!(state.flags(), 1);

    let state: SpanContextState = "6309ab92c95468edea0dc1a9772ae2dc:409423a204bc17a8:0:0"
        .parse()
        .unwrap();

    assert!(!state.is_sampled());
    assert_eq!(state.flags(), 0);
}

#[test]
fn context_line_rendering_is_exact() {
    let state = SpanContextStateBuilder::new()
        .trace_id(TraceId { high: 0, low: 10 })
        .span_id(0x1f)
        .finish();
    // Trace id, span id, the re-zeroed parent id, and the flags, all in
    // lowercase hex.
    assert_eq!(state.to_string(), "a:1f:0:1");
}

#[test]
fn context_line_round_trip_preserves_ids_and_flags() {
    let state = SpanContextStateBuilder::new()
        .trace_id(TraceId { high: 7, low: 0x10 })
        .span_id(u64::MAX)
        .finish();
    let parsed: SpanContextState = state.to_string().parse().unwrap();
    assert_eq!(parsed.trace_id(), state.trace_id());
    assert_eq!(parsed.span_id(), state.span_id());
    assert_eq!(parsed.flags(), state.flags());
    assert_eq!(parsed.debug_id(), None);
}

#[test]
fn context_line_parent_token_is_validated_but_ignored() {
    let state: SpanContextState = "a:1:deadbeef:1".parse().unwrap();
    assert_eq!(state.trace_id(), TraceId { high: 0, low: 10 });
    assert_eq!(state.span_id(), 1);
    // The parent token must still be well-formed hex.
    let err = "a:1:xyz:1".parse::<SpanContextState>().unwrap_err();
    assert_eq!(err.kind(), ErrorKind::InvalidInput);
}

#[test]
fn context_line_with_missing_tokens_is_invalid_input() {
    for text in ["", "a", "a:1", "a:1:0", "a:1:0:1:9", "a::0:1", "a:1:0:"] {
        let r = text.parse::<SpanContextState>();
        assert!(
            r.is_err(),
            "{:?} should not parse",
            text
        );
        assert_eq!(r.unwrap_err().kind(), ErrorKind::InvalidInput);
    }
}

#[test]
fn context_line_flags_must_fit_one_byte() {
    assert!("a:1:0:ff".parse::<SpanContextState>().is_ok());
    let err = "a:1:0:100".parse::<SpanContextState>().unwrap_err();
    assert_eq!(err.kind(), ErrorKind::InvalidInput);
}

#[test]
fn builder_defaults_are_sampled_without_debug_id() {
    let state = SpanContextStateBuilder::new().finish();
    assert!(state.is_sampled());
    assert_eq!(state.flags(), FLAG_SAMPLED);
    assert_eq!(state.debug_id(), None);
}

#[test]
fn builder_debug_id_sets_debug_flag() {
    let state = SpanContextStateBuilder::new()
        .trace_id(TraceId { high: 0, low: 1 })
        .span_id(2)
        .debug_id("watch-this".to_string())
        .finish();
    assert_eq!(state.debug_id(), Some("watch-this"));
    assert_eq!(state.flags(), FLAG_SAMPLED | FLAG_DEBUG);
}

#[test]
fn builder_empty_debug_id_changes_nothing() {
    let state = SpanContextStateBuilder::new()
        .debug_id(String::new())
        .finish();
    assert_eq!(state.debug_id(), None);
    assert_eq!(state.flags(), FLAG_SAMPLED);
}

#[test]
fn for_candidate_inherits_first_reference_trace_id() {
    let parent = SpanContextStateBuilder::new()
        .trace_id(TraceId { high: 5, low: 6 })
        .span_id(7)
        .finish();
    let refs = vec![rustracing_jaeger::span::SpanReference {
        kind: rustracing_jaeger::span::SpanReferenceKind::ChildOf,
        state: parent,
    }];
    let derived = SpanContextState::for_candidate(&refs);
    assert_eq!(derived.trace_id(), TraceId { high: 5, low: 6 });
    assert_eq!(derived.flags(), FLAG_SAMPLED);

    let root = SpanContextState::for_candidate(&Vec::new());
    assert!(root.is_sampled());
}
