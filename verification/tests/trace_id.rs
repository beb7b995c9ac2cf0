//! Tests of the trace-identifier codec: rendering, parsing, and the
//! round-trip behaviour over the whole range of accepted lengths.
use rustracing_jaeger::ErrorKind;
use rustracing_jaeger::TraceId;

#[test]
fn trace_id_conversion_works() {
    let id = TraceId { high: 0, low: 10 };
    assert_eq!(id.to_string(), "a");
    assert_eq!("a".parse::<TraceId>().unwrap(), id);

    let id = TraceId { high: 1, low: 2 };
    assert_eq!(id.to_string(), "10000000000000002");
    assert_eq!("10000000000000002".parse::<TraceId>().unwrap(), id);
}

#[test]
fn trace_id_zero_renders_as_single_digit() {
    let id = TraceId { high: 0, low: 0 };
    assert_eq!(id.to_string(), "0");
    assert_eq!("0".parse::<TraceId>().unwrap(), id);
}

#[test]
fn trace_id_full_width_round_trip() {
    let id = TraceId {
        high: 0xabcd_efed_cbab_cdef,
        low: 0xfedc_babc_defe_dcba,
    };
    let text = id.to_string();
    assert_eq!(text, "abcdefedcbabcdeffedcbabcdefedcba");
    assert_eq!(text.len(), 32);
    assert_eq!(text.parse::<TraceId>().unwrap(), id);
}

#[test]
fn trace_id_low_half_is_zero_padded_when_high_is_set() {
    let id = TraceId { high: 0xab, low: 0x1 };
    assert_eq!(id.to_string(), "ab0000000000000001");
    assert_eq!(id.to_string().parse::<TraceId>().unwrap(), id);
}

#[test]
fn trace_id_every_length_round_trips() {
    // One identifier for each textual length from 1 to 32 digits.
    for len in 1..=32usize {
        let text: String = "123456789abcdef0123456789abcdef0"[..len].to_string();
        let id: TraceId = text.parse().unwrap();
        assert_eq!(id.to_string(), text, "len {}", len);
    }
}

#[test]
fn trace_id_sixteen_and_seventeen_digit_boundary() {
    let id: TraceId = "ffffffffffffffff".parse().unwrap();
    assert_eq!(id, TraceId { high: 0, low: u64::MAX });

    let id: TraceId = "1ffffffffffffffff".parse().unwrap();
    assert_eq!(id, TraceId { high: 1, low: u64::MAX });
}

#[test]
fn trace_id_accepts_uppercase_but_prints_lowercase() {
    let id: TraceId = "ABCDEF".parse().unwrap();
    assert_eq!(id, TraceId { high: 0, low: 0xabcdef });
    assert_eq!(id.to_string(), "abcdef");
}

#[test]
fn trace_id_longer_than_32_digits_is_invalid_input() {
    let text = "123456789abcdef0123456789abcdef01";
    assert_eq!(text.len(), 33);
    let err = text.parse::<TraceId>().unwrap_err();
    assert_eq!(err.kind(), ErrorKind::InvalidInput);
}

#[test]
fn trace_id_rejects_empty_and_non_hex_input() {
    assert_eq!(
        "".parse::<TraceId>().unwrap_err().kind(),
        ErrorKind::InvalidInput
    );
    assert_eq!(
        "xyz".parse::<TraceId>().unwrap_err().kind(),
        ErrorKind::InvalidInput
    );
    // A sign prefix is not a hexadecimal digit.
    assert_eq!(
        "+a".parse::<TraceId>().unwrap_err().kind(),
        ErrorKind::InvalidInput
    );
    // A non-hex byte in the high half of a long identifier.
    assert_eq!(
        "g0000000000000000".parse::<TraceId>().unwrap_err().kind(),
        ErrorKind::InvalidInput
    );
}

#[test]
fn trace_id_random_halves_round_trip() {
    let id = TraceId::new();
    let text = id.to_string();
    assert!(1 <= text.len() && text.len() <= 32);
    assert_eq!(text.parse::<TraceId>().unwrap(), id);
}
