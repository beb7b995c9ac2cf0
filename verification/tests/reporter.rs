//! Tests of the reporter's computing side: the initial process
//! description, tag accumulation, and the serialized report payload.
use rustracing_jaeger::reporter::add_service_tag;
use rustracing_jaeger::reporter::encode_report;
use rustracing_jaeger::reporter::initial_process;
use rustracing_jaeger::reporter::ReporterEncoding;
use rustracing_jaeger::span::FinishedSpan;
use rustracing_jaeger::thrift::agent::EmitBatchNotification;
use rustracing_jaeger::thrift::jaeger::Batch;
use rustracing_jaeger::thrift::jaeger::Span;
use rustracing_jaeger::thrift::jaeger::Tag;
use rustracing_jaeger::thrift::jaeger::TagKind;
use rustracing_jaeger::SpanContextStateBuilder;
use rustracing_jaeger::TraceId;

#[test]
fn initial_process_reports_client_version() {
    let process = initial_process("sample_service");
    assert_eq!(process.service_name, "sample_service");
    assert!(!process.tags.is_empty());
    assert_eq!(process.tags[0].key(), "jaeger.version");
    assert_eq!(process.tags[0].kind(), TagKind::String);
    // The hostname tag is best-effort: present at most once, and then as
    // a string tag under the well-known key.
    assert!(process.tags.len() <= 2);
    if process.tags.len() == 2 {
        assert_eq!(process.tags[1].key(), "hostname");
        assert_eq!(process.tags[1].kind(), TagKind::String);
    }
}

#[test]
fn add_service_tag_appends_without_dedup() {
    let mut process = initial_process("svc");
    let before = process.tags.len();
    add_service_tag(
        &mut process,
        Tag::String {
            key: "foo".to_string(),
            value: "bar".to_string(),
        },
    );
    add_service_tag(
        &mut process,
        Tag::String {
            key: "foo".to_string(),
            value: "bar".to_string(),
        },
    );
    assert_eq!(process.tags.len(), before + 2);
    assert_eq!(process.tags[before].key(), "foo");
    assert_eq!(process.tags[before + 1].key(), "foo");
}

fn one_finished_span() -> FinishedSpan {
    FinishedSpan {
        state: SpanContextStateBuilder::new()
            .trace_id(TraceId { high: 0, low: 5 })
            .span_id(6)
            .finish(),
        operation_name: "op".to_string(),
        start_time_micros: 10,
        finish_time_micros: 30,
        references: Vec::new(),
        tags: Vec::new(),
        logs: Vec::new(),
    }
}

#[test]
fn encode_report_wraps_batch_in_emit_batch_message() {
    let process = initial_process("svc");
    let spans = vec![one_finished_span()];
    let bytes = encode_report(process.clone(), &spans, ReporterEncoding::Compact).unwrap();

    let batch = Batch {
        process,
        spans: vec![Span::from_finished(&spans[0])],
    };
    let reference = EmitBatchNotification { batch }.encode_compact().unwrap();
    assert_eq!(bytes, reference);
}

#[test]
fn encode_report_compact_and_binary_differ() {
    let spans = vec![one_finished_span()];
    let compact = encode_report(initial_process("svc"), &spans, ReporterEncoding::Compact)
        .unwrap();
    let binary = encode_report(initial_process("svc"), &spans, ReporterEncoding::Binary)
        .unwrap();
    assert_ne!(compact, binary);
    // Each starts with its protocol's marker.
    assert_eq!(compact[0], 0x82);
    assert_eq!(&binary[0..2], &[0x80, 0x01]);
}

#[test]
fn encode_report_of_no_spans_still_produces_a_message() {
    let spans: Vec<FinishedSpan> = Vec::new();
    let bytes = encode_report(initial_process("svc"), &spans, ReporterEncoding::Binary).unwrap();
    assert!(!bytes.is_empty());
}
