//! Tests of the wire-schema mapping and the two serializations, including
//! a differential comparison against the `thrift_codec` crate's encoders
//! for the same message.
use rustracing_jaeger::span::FinishedSpan;
use rustracing_jaeger::span::LogField;
use rustracing_jaeger::span::LogRecord;
use rustracing_jaeger::span::SpanReference;
use rustracing_jaeger::span::SpanReferenceKind;
use rustracing_jaeger::span::SpanTag;
use rustracing_jaeger::span::TagValue;
use rustracing_jaeger::SpanContextStateBuilder;
use rustracing_jaeger::TraceId;
use rustracing_jaeger::thrift::agent::EmitBatchNotification;
use rustracing_jaeger::thrift::jaeger::Batch;
use rustracing_jaeger::thrift::jaeger::Log;
use rustracing_jaeger::thrift::jaeger::Process;
use rustracing_jaeger::thrift::jaeger::Span;
use rustracing_jaeger::thrift::jaeger::SpanRef;
use rustracing_jaeger::thrift::jaeger::SpanRefKind;
use rustracing_jaeger::thrift::jaeger::Tag;
use rustracing_jaeger::thrift::jaeger::TagKind;
use thrift_codec::data::Field;
use thrift_codec::data::List;
use thrift_codec::data::Struct;
use thrift_codec::message::Message;
use thrift_codec::BinaryEncode;
use thrift_codec::CompactEncode;

/// The library-side batch and the equivalent `thrift_codec` structure,
/// built field by field as the agent's schema numbers them.
fn sample_batch() -> (Batch, Struct) {
    let double_value = 3.25f64;
    let process = Process {
        service_name: "sample_service".to_string(),
        tags: vec![
            Tag::String {
                key: "jaeger.version".to_string(),
                value: "rustracing_jaeger-0.7.0".to_string(),
            },
            Tag::Bool {
                key: "flag".to_string(),
                value: true,
            },
        ],
    };
    let span = Span {
        trace_id_low: 2,
        trace_id_high: 1,
        span_id: 3,
        parent_span_id: 4,
        operation_name: "op".to_string(),
        references: vec![
            SpanRef {
                kind: SpanRefKind::ChildOf,
                trace_id_low: 2,
                trace_id_high: 1,
                span_id: 4,
            },
            SpanRef {
                kind: SpanRefKind::FollowsFrom,
                trace_id_low: -2,
                trace_id_high: 0,
                span_id: 9,
            },
        ],
        flags: 1,
        start_time: 1_000_000,
        duration: -5,
        tags: vec![
            Tag::String {
                key: "s".to_string(),
                value: "v".to_string(),
            },
            Tag::Double {
                key: "d".to_string(),
                value_bits: double_value.to_bits(),
            },
            Tag::Bool {
                key: "b".to_string(),
                value: false,
            },
            Tag::Long {
                key: "l".to_string(),
                value: -42,
            },
            Tag::Binary {
                key: "raw".to_string(),
                value: vec![0, 1, 2, 255],
            },
        ],
        logs: vec![
            Log {
                timestamp: 123,
                fields: vec![
                    Tag::String {
                        key: "event".to_string(),
                        value: "boom".to_string(),
                    },
                ],
            },
            Log {
                timestamp: -1,
                fields: Vec::new(),
            },
        ],
    };
    let batch = Batch {
        process,
        spans: vec![span],
    };

    // The same values in thrift_codec's data model, with the schema's
    // field numbers.
    let tc_process = Struct::new(vec![
        Field::new(1, "sample_service"),
        Field::new(
            2,
            List::from(vec![
                Struct::new(vec![
                    Field::new(1, "jaeger.version"),
                    Field::new(2, 0i32),
                    Field::new(3, "rustracing_jaeger-0.7.0"),
                ]),
                Struct::new(vec![
                    Field::new(1, "flag"),
                    Field::new(2, 2i32),
                    Field::new(5, true),
                ]),
            ]),
        ),
    ]);
    let tc_refs = List::from(vec![
        Struct::from((0i32, 2i64, 1i64, 4i64)),
        Struct::from((1i32, -2i64, 0i64, 9i64)),
    ]);
    let tc_tags = List::from(vec![
        Struct::new(vec![
            Field::new(1, "s"),
            Field::new(2, 0i32),
            Field::new(3, "v"),
        ]),
        Struct::new(vec![
            Field::new(1, "d"),
            Field::new(2, 1i32),
            Field::new(4, double_value),
        ]),
        Struct::new(vec![
            Field::new(1, "b"),
            Field::new(2, 2i32),
            Field::new(5, false),
        ]),
        Struct::new(vec![
            Field::new(1, "l"),
            Field::new(2, 3i32),
            Field::new(6, -42i64),
        ]),
        Struct::new(vec![
            Field::new(1, "raw"),
            Field::new(2, 4i32),
            Field::new(7, vec![0u8, 1, 2, 255]),
        ]),
    ]);
    let tc_logs = List::from(vec![
        Struct::from((
            123i64,
            List::from(vec![Struct::new(vec![
                Field::new(1, "event"),
                Field::new(2, 0i32),
                Field::new(3, "boom"),
            ])]),
        )),
        Struct::from((-1i64, List::from(Vec::<Struct>::new()))),
    ]);
    let tc_span = Struct::new(vec![
        Field::new(1, 2i64),
        Field::new(2, 1i64),
        Field::new(3, 3i64),
        Field::new(4, 4i64),
        Field::new(5, "op"),
        Field::new(6, tc_refs),
        Field::new(7, 1i32),
        Field::new(8, 1_000_000i64),
        Field::new(9, -5i64),
        Field::new(10, tc_tags),
        Field::new(11, tc_logs),
    ]);
    let tc_batch = Struct::from((tc_process, List::from(vec![tc_span])));
    (batch, tc_batch)
}

#[test]
fn compact_message_matches_thrift_codec() {
    let (batch, tc_batch) = sample_batch();
    let ours = EmitBatchNotification { batch }.encode_compact().unwrap();
    let message = Message::oneway("emitBatch", 0, Struct::from((tc_batch,)));
    let mut reference = Vec::new();
    message.compact_encode(&mut reference).unwrap();
    assert_eq!(ours, reference);
}

#[test]
fn binary_message_matches_thrift_codec() {
    let (batch, tc_batch) = sample_batch();
    let ours = EmitBatchNotification { batch }.encode_binary().unwrap();
    let message = Message::oneway("emitBatch", 0, Struct::from((tc_batch,)));
    let mut reference = Vec::new();
    message.binary_encode(&mut reference).unwrap();
    assert_eq!(ours, reference);
}

#[test]
fn empty_batch_matches_thrift_codec() {
    let batch = Batch {
        process: Process {
            service_name: String::new(),
            tags: Vec::new(),
        },
        spans: Vec::new(),
    };
    let ours = EmitBatchNotification { batch }.encode_compact().unwrap();
    let tc_process = Struct::from((String::new(),));
    let tc_batch = Struct::from((tc_process, List::from(Vec::<Struct>::new())));
    let message = Message::oneway("emitBatch", 0, Struct::from((tc_batch,)));
    let mut reference = Vec::new();
    message.compact_encode(&mut reference).unwrap();
    assert_eq!(ours, reference);
}

#[test]
fn tag_key_and_kind_accessors() {
    let t = Tag::Long {
        key: "answer".to_string(),
        value: 42,
    };
    assert_eq!(t.key(), "answer");
    assert_eq!(t.kind(), TagKind::Long);
    let t = Tag::Double {
        key: "pi".to_string(),
        value_bits: 0,
    };
    assert_eq!(t.kind(), TagKind::Double);
}

#[test]
fn tag_conversion_covers_every_value_kind() {
    let cases = vec![
        (TagValue::Text("x".to_string()), TagKind::String),
        (TagValue::Boolean(true), TagKind::Bool),
        (TagValue::Integer(-1), TagKind::Long),
        (TagValue::FloatBits(1.5f64.to_bits()), TagKind::Double),
    ];
    for (value, kind) in cases {
        let tag = Tag::from_span_tag(&SpanTag {
            name: "k".to_string(),
            value,
        });
        assert_eq!(tag.key(), "k");
        assert_eq!(tag.kind(), kind);
    }
}

#[test]
fn log_conversion_keeps_empty_field_list() {
    let log = Log::from_record(&LogRecord {
        timestamp_micros: 9,
        fields: Vec::new(),
    });
    assert_eq!(log.timestamp, 9);
    assert!(log.fields.is_empty());

    let log = Log::from_record(&LogRecord {
        timestamp_micros: 10,
        fields: vec![LogField {
            name: "event".to_string(),
            value: "boom".to_string(),
        }],
    });
    assert_eq!(log.fields.len(), 1);
    assert_eq!(log.fields[0].key(), "event");
    assert_eq!(log.fields[0].kind(), TagKind::String);
}

fn finished_span_with_two_references() -> FinishedSpan {
    let sampled_parent = SpanContextStateBuilder::new()
        .trace_id(TraceId { high: 0, low: 7 })
        .span_id(77)
        .finish();
    assert!(sampled_parent.is_sampled());
    let unsampled: rustracing_jaeger::SpanContextState = "8:88:0:0".parse().unwrap();
    assert!(!unsampled.is_sampled());
    let state = SpanContextStateBuilder::new()
        .trace_id(TraceId { high: 0, low: 7 })
        .span_id(100)
        .finish();
    FinishedSpan {
        state,
        operation_name: "child".to_string(),
        start_time_micros: 50,
        finish_time_micros: 80,
        references: vec![
            SpanReference {
                kind: SpanReferenceKind::FollowsFrom,
                state: unsampled,
            },
            SpanReference {
                kind: SpanReferenceKind::ChildOf,
                state: sampled_parent,
            },
        ],
        tags: Vec::new(),
        logs: Vec::new(),
    }
}

/// The mapped span's parent is the first sampled reference and references
/// to unsampled spans are excluded.
#[test]
fn span_mapping_keeps_only_sampled_references() {
    let finished = finished_span_with_two_references();
    let span = Span::from_finished(&finished);
    assert_eq!(span.parent_span_id, 77);
    assert_eq!(span.references.len(), 1);
    assert_eq!(span.references[0].kind, SpanRefKind::ChildOf);
    assert_eq!(span.references[0].span_id, 77);
    assert_eq!(span.references[0].trace_id_low, 7);
    assert_eq!(span.duration, 30);
    assert_eq!(span.start_time, 50);
    assert_eq!(span.flags, 1);
}

#[test]
fn span_mapping_appends_debug_tag() {
    let state = SpanContextStateBuilder::new()
        .trace_id(TraceId { high: 0, low: 1 })
        .span_id(2)
        .debug_id("trail".to_string())
        .finish();
    let finished = FinishedSpan {
        state,
        operation_name: "op".to_string(),
        start_time_micros: 0,
        finish_time_micros: 1,
        references: Vec::new(),
        tags: vec![SpanTag {
            name: "first".to_string(),
            value: TagValue::Integer(1),
        }],
        logs: Vec::new(),
    };
    let span = Span::from_finished(&finished);
    assert_eq!(span.parent_span_id, 0);
    assert_eq!(span.tags.len(), 2);
    assert_eq!(span.tags[1].key(), "jaeger-debug-id");
    assert_eq!(span.tags[1].kind(), TagKind::String);
}

#[test]
fn negative_duration_is_kept_signed() {
    let finished = FinishedSpan {
        state: SpanContextStateBuilder::new().finish(),
        operation_name: "skewed".to_string(),
        start_time_micros: 100,
        finish_time_micros: 40,
        references: Vec::new(),
        tags: Vec::new(),
        logs: Vec::new(),
    };
    let span = Span::from_finished(&finished);
    assert_eq!(span.duration, -60);
}

#[test]
fn compact_varint_and_zigzag_bytes_are_exact() {
    // One tag with known small values pins the compact primitives: field
    // headers, varint lengths and the zigzag mapping of the kind code.
    let batch = Batch {
        process: Process {
            service_name: "s".to_string(),
            tags: Vec::new(),
        },
        spans: Vec::new(),
    };
    let bytes = EmitBatchNotification { batch }.encode_compact().unwrap();
    let expected: Vec<u8> = vec![
        0x82, // compact protocol id
        0x81, // one-way kind in the version byte
        0x00, // sequence id varint 0
        0x09, // method name length varint
        b'e', b'm', b'i', b't', b'B', b'a', b't', b'c', b'h',
        0x1C, // envelope field 1, struct
        0x1C, // batch field 1, the process struct
        0x18, // process field 1, binary
        0x01, // service-name length varint
        b's',
        0x00, // end of process struct
        0x19, // batch field 2, list
        0x0C, // empty list of structs
        0x00, // end of batch struct
        0x00, // end of envelope struct
    ];
    assert_eq!(bytes, expected);
}
