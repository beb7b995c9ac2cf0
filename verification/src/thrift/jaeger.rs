//! The value types of the agent's span schema, their conversions from
//! finished-span records, and their rendering in the compact and the plain
//! binary serialization.  Field numbers are part of the wire contract and
//! are fixed by the specs below.
use crate::error::Error;
use crate::error::ErrorKind;
use crate::propagation::be_bytes_u64;
use crate::span::FinishedSpan;
use crate::span::LogField;
use crate::span::LogRecord;
use crate::span::SpanReference;
use crate::span::SpanReferenceKind;
use crate::span::SpanTag;
use crate::span::TagValue;
use crate::span::FLAG_SAMPLED;
use crate::thrift::protocol::be_bytes_u32;
use crate::thrift::protocol::le_bytes_u64;
use crate::thrift::protocol::push_be_u32;
use crate::thrift::protocol::push_be_i64;
use crate::thrift::protocol::push_binary_binary;
use crate::thrift::protocol::push_binary_field_header;
use crate::thrift::protocol::push_binary_list_header;
use crate::thrift::protocol::push_compact_binary;
use crate::thrift::protocol::push_compact_field_header;
use crate::thrift::protocol::push_compact_i32;
use crate::thrift::protocol::push_compact_i64;
use crate::thrift::protocol::push_compact_list_header;
use crate::thrift::protocol::push_le_u64;
use crate::thrift::protocol::spec_binary_binary;
use crate::thrift::protocol::spec_binary_field_header;
use crate::thrift::protocol::spec_binary_list_header;
use crate::thrift::protocol::spec_compact_binary;
use crate::thrift::protocol::spec_compact_field_header;
use crate::thrift::protocol::spec_compact_i32;
use crate::thrift::protocol::spec_compact_i64;
use crate::thrift::protocol::spec_compact_list_header;
use crate::thrift::protocol::MAX_WIRE_LEN;
use vstd::prelude::*;

verus! {

/// Compact field-kind code for a true boolean.
pub const COMPACT_BOOL_TRUE: u8 = 1;

/// Compact field-kind code for a false boolean.
pub const COMPACT_BOOL_FALSE: u8 = 2;

/// Compact field-kind code for a 32-bit integer.
pub const COMPACT_I32: u8 = 5;

/// Compact field-kind code for a 64-bit integer.
pub const COMPACT_I64: u8 = 6;

/// Compact field-kind code for a double.
pub const COMPACT_DOUBLE: u8 = 7;

/// Compact field-kind code for a byte string.
pub const COMPACT_BINARY: u8 = 8;

/// Compact field-kind code for a list.
pub const COMPACT_LIST: u8 = 9;

/// Compact field-kind code for a nested struct.
pub const COMPACT_STRUCT: u8 = 12;

/// Binary-protocol kind code for a boolean.
pub const BINARY_BOOL: u8 = 2;

/// Binary-protocol kind code for a double.
pub const BINARY_DOUBLE: u8 = 4;

/// Binary-protocol kind code for a 32-bit integer.
pub const BINARY_I32: u8 = 8;

/// Binary-protocol kind code for a 64-bit integer.
pub const BINARY_I64: u8 = 10;

/// Binary-protocol kind code for a byte string.
pub const BINARY_BINARY: u8 = 11;

/// Binary-protocol kind code for a nested struct.
pub const BINARY_STRUCT: u8 = 12;

/// Binary-protocol kind code for a list.
pub const BINARY_LIST: u8 = 15;

/// The element-kind byte written in a list header for struct elements
/// (the same code in both serializations).
pub const ELEMENT_STRUCT: u8 = 12;

/// The UTF-8 bytes a string puts on the wire.
pub open spec fn str_bytes(s: Seq<char>) -> Seq<u8> {
    vstd::utf8::encode_utf8(s)
}

/// A string short enough for a 32-bit length prefix.
pub open spec fn spec_str_ok(s: Seq<char>) -> bool {
    str_bytes(s).len() <= MAX_WIRE_LEN
}

/// `TagKind` denotes the kind of a `Tag`'s value.
#[derive(Debug, Clone, Copy, PartialEq, Eq, Structural, PartialOrd, Ord, Hash)]
pub enum TagKind {
    String,
    Double,
    Bool,
    Long,
    Binary,
}

/// `Tag` is a basic strongly typed key/value pair of the agent's schema.
/// A double tag carries the IEEE-754 bit pattern of its value.
#[derive(Debug, Clone)]
pub enum Tag {
    String { key: String, value: String },
    Double { key: String, value_bits: u64 },
    Bool { key: String, value: bool },
    Long { key: String, value: i64 },
    Binary { key: String, value: Vec<u8> },
}

/// The key of a tag.
pub open spec fn spec_tag_key(t: Tag) -> Seq<char> {
    match t {
        Tag::String { key, .. } => key@,
        Tag::Double { key, .. } => key@,
        Tag::Bool { key, .. } => key@,
        Tag::Long { key, .. } => key@,
        Tag::Binary { key, .. } => key@,
    }
}

/// The kind of a tag.
pub open spec fn spec_tag_kind(t: Tag) -> TagKind {
    match t {
        Tag::String { .. } => TagKind::String,
        Tag::Double { .. } => TagKind::Double,
        Tag::Bool { .. } => TagKind::Bool,
        Tag::Long { .. } => TagKind::Long,
        Tag::Binary { .. } => TagKind::Binary,
    }
}

/// The wire code of a tag kind, as the schema enumerates the kinds.
pub open spec fn spec_tag_kind_code(k: TagKind) -> i32 {
    match k {
        TagKind::String => 0,
        TagKind::Double => 1,
        TagKind::Bool => 2,
        TagKind::Long => 3,
        TagKind::Binary => 4,
    }
}

/// A tag whose strings fit the wire's 32-bit length prefixes.
pub open spec fn spec_tag_ok(t: Tag) -> bool {
    match t {
        Tag::String { key, value } => spec_str_ok(key@) && spec_str_ok(value@),
        Tag::Double { key, .. } => spec_str_ok(key@),
        Tag::Bool { key, .. } => spec_str_ok(key@),
        Tag::Long { key, .. } => spec_str_ok(key@),
        Tag::Binary { key, value } => spec_str_ok(key@) && value@.len() <= MAX_WIRE_LEN,
    }
}

/// The compact rendering of a tag struct: field 1 the key, field 2 the
/// kind code, and one of fields 3 to 7 the value (a boolean value lives in
/// its field header).
pub open spec fn spec_tag_compact(t: Tag) -> Seq<u8> {
    spec_compact_field_header(0, 1, COMPACT_BINARY) + spec_compact_binary(str_bytes(spec_tag_key(t)))
        + spec_compact_field_header(1, 2, COMPACT_I32) + spec_compact_i32(
        spec_tag_kind_code(spec_tag_kind(t)),
    ) + (match t {
        Tag::String { value, .. } => spec_compact_field_header(2, 3, COMPACT_BINARY)
            + spec_compact_binary(str_bytes(value@)),
        Tag::Double { value_bits, .. } => spec_compact_field_header(2, 4, COMPACT_DOUBLE)
            + le_bytes_u64(value_bits),
        Tag::Bool { value, .. } => spec_compact_field_header(
            2,
            5,
            if value {
                COMPACT_BOOL_TRUE
            } else {
                COMPACT_BOOL_FALSE
            },
        ),
        Tag::Long { value, .. } => spec_compact_field_header(2, 6, COMPACT_I64) + spec_compact_i64(
            value,
        ),
        Tag::Binary { value, .. } => spec_compact_field_header(2, 7, COMPACT_BINARY)
            + spec_compact_binary(value@),
    }) + seq![0u8]
}

/// The binary-protocol rendering of a tag struct.
pub open spec fn spec_tag_binary(t: Tag) -> Seq<u8> {
    spec_binary_field_header(BINARY_BINARY, 1) + spec_binary_binary(str_bytes(spec_tag_key(t)))
        + spec_binary_field_header(BINARY_I32, 2) + be_bytes_u32(
        spec_tag_kind_code(spec_tag_kind(t)) as u32,
    ) + (match t {
        Tag::String { value, .. } => spec_binary_field_header(BINARY_BINARY, 3)
            + spec_binary_binary(str_bytes(value@)),
        Tag::Double { value_bits, .. } => spec_binary_field_header(BINARY_DOUBLE, 4)
            + be_bytes_u64(value_bits),
        Tag::Bool { value, .. } => spec_binary_field_header(BINARY_BOOL, 5) + seq![
            if value {
                1u8
            } else {
                0u8
            },
        ],
        Tag::Long { value, .. } => spec_binary_field_header(BINARY_I64, 6) + be_bytes_u64(
            value as u64,
        ),
        Tag::Binary { value, .. } => spec_binary_field_header(BINARY_BINARY, 7)
            + spec_binary_binary(value@),
    }) + seq![0u8]
}

/// The tag a span tag maps to: text, boolean, integer and floating-point
/// values map to the corresponding schema kinds.
pub open spec fn spec_tag_of_span_tag(t: SpanTag) -> Tag {
    match t.value {
        TagValue::Text(v) => Tag::String { key: t.name, value: v },
        TagValue::Boolean(b) => Tag::Bool { key: t.name, value: b },
        TagValue::Integer(i) => Tag::Long { key: t.name, value: i },
        TagValue::FloatBits(x) => Tag::Double { key: t.name, value_bits: x },
    }
}

/// The tag a log field maps to: always a string tag.
pub open spec fn spec_tag_of_log_field(f: LogField) -> Tag {
    Tag::String { key: f.name, value: f.value }
}

impl Tag {
    /// Returns the key of this tag.
    pub fn key(&self) -> (r: &str)
        ensures
            r@ == spec_tag_key(*self),
    {
        match self {
            Tag::String { key, .. } => key.as_str(),
            Tag::Double { key, .. } => key.as_str(),
            Tag::Bool { key, .. } => key.as_str(),
            Tag::Long { key, .. } => key.as_str(),
            Tag::Binary { key, .. } => key.as_str(),
        }
    }

    /// Returns the kind of this tag.
    pub fn kind(&self) -> (r: TagKind)
        ensures
            r == spec_tag_kind(*self),
    {
        match self {
            Tag::String { .. } => TagKind::String,
            Tag::Double { .. } => TagKind::Double,
            Tag::Bool { .. } => TagKind::Bool,
            Tag::Long { .. } => TagKind::Long,
            Tag::Binary { .. } => TagKind::Binary,
        }
    }

    /// Maps a span tag into the schema.
    pub fn from_span_tag(t: &SpanTag) -> (r: Tag)
        ensures
            r == spec_tag_of_span_tag(*t),
    {
        match &t.value {
            TagValue::Text(v) => Tag::String { key: t.name.clone(), value: v.clone() },
            TagValue::Boolean(b) => Tag::Bool { key: t.name.clone(), value: *b },
            TagValue::Integer(i) => Tag::Long { key: t.name.clone(), value: *i },
            TagValue::FloatBits(x) => Tag::Double { key: t.name.clone(), value_bits: *x },
        }
    }

    /// Maps a log field into the schema.
    pub fn from_log_field(f: &LogField) -> (r: Tag)
        ensures
            r == spec_tag_of_log_field(*f),
    {
        Tag::String { key: f.name.clone(), value: f.value.clone() }
    }

    /// Appends the compact rendering of this tag.
    pub fn encode_compact(&self, out: &mut Vec<u8>) -> (r: Result<(), Error>)
        ensures
            r is Ok <==> spec_tag_ok(*self),
            r is Ok ==> final(out)@ == old(out)@ + spec_tag_compact(*self),
            r matches Err(e) ==> e.kind == ErrorKind::InvalidInput,
    {
        push_compact_field_header(out, 0, 1, COMPACT_BINARY);
        let kc = match self.kind() {
            TagKind::String => 0i32,
            TagKind::Double => 1i32,
            TagKind::Bool => 2i32,
            TagKind::Long => 3i32,
            TagKind::Binary => 4i32,
        };
        if let Err(e) = push_compact_binary(out, self.key().as_bytes()) {
            return Err(e);
        }
        push_compact_field_header(out, 1, 2, COMPACT_I32);
        push_compact_i32(out, kc);
        match self {
            Tag::String { value, .. } => {
                push_compact_field_header(out, 2, 3, COMPACT_BINARY);
                if let Err(e) = push_compact_binary(out, value.as_str().as_bytes()) {
                    return Err(e);
                }
            },
            Tag::Double { value_bits, .. } => {
                push_compact_field_header(out, 2, 4, COMPACT_DOUBLE);
                push_le_u64(out, *value_bits);
            },
            Tag::Bool { value, .. } => {
                push_compact_field_header(
                    out,
                    2,
                    5,
                    if *value {
                        COMPACT_BOOL_TRUE
                    } else {
                        COMPACT_BOOL_FALSE
                    },
                );
            },
            Tag::Long { value, .. } => {
                push_compact_field_header(out, 2, 6, COMPACT_I64);
                push_compact_i64(out, *value);
            },
            Tag::Binary { value, .. } => {
                push_compact_field_header(out, 2, 7, COMPACT_BINARY);
                if let Err(e) = push_compact_binary(out, value.as_slice()) {
                    return Err(e);
                }
            },
        }
        out.push(0);
        proof {
            assert(final(out)@ =~= old(out)@ + spec_tag_compact(*self));
        }
        Ok(())
    }

    /// Appends the binary-protocol rendering of this tag.
    pub fn encode_binary(&self, out: &mut Vec<u8>) -> (r: Result<(), Error>)
        ensures
            r is Ok <==> spec_tag_ok(*self),
            r is Ok ==> final(out)@ == old(out)@ + spec_tag_binary(*self),
            r matches Err(e) ==> e.kind == ErrorKind::InvalidInput,
    {
        push_binary_field_header(out, BINARY_BINARY, 1);
        let kc = match self.kind() {
            TagKind::String => 0u32,
            TagKind::Double => 1u32,
            TagKind::Bool => 2u32,
            TagKind::Long => 3u32,
            TagKind::Binary => 4u32,
        };
        if let Err(e) = push_binary_binary(out, self.key().as_bytes()) {
            return Err(e);
        }
        push_binary_field_header(out, BINARY_I32, 2);
        push_be_u32(out, kc);
        match self {
            Tag::String { value, .. } => {
                push_binary_field_header(out, BINARY_BINARY, 3);
                if let Err(e) = push_binary_binary(out, value.as_str().as_bytes()) {
                    return Err(e);
                }
            },
            Tag::Double { value_bits, .. } => {
                push_binary_field_header(out, BINARY_DOUBLE, 4);
                crate::propagation::push_be_u64(out, *value_bits);
            },
            Tag::Bool { value, .. } => {
                push_binary_field_header(out, BINARY_BOOL, 5);
                out.push(
                    if *value {
                        1
                    } else {
                        0
                    },
                );
            },
            Tag::Long { value, .. } => {
                push_binary_field_header(out, BINARY_I64, 6);
                push_be_i64(out, *value);
            },
            Tag::Binary { value, .. } => {
                push_binary_field_header(out, BINARY_BINARY, 7);
                if let Err(e) = push_binary_binary(out, value.as_slice()) {
                    return Err(e);
                }
            },
        }
        out.push(0);
        proof {
            assert(final(out)@ =~= old(out)@ + spec_tag_binary(*self));
        }
        Ok(())
    }
}

/// A list of tags rendered back to back, compact.
pub open spec fn spec_tags_compact(s: Seq<Tag>) -> Seq<u8>
    decreases s.len(),
{
    if s.len() == 0 {
        Seq::empty()
    } else {
        spec_tags_compact(s.drop_last()) + spec_tag_compact(s.last())
    }
}

/// A list of tags rendered back to back, binary protocol.
pub open spec fn spec_tags_binary(s: Seq<Tag>) -> Seq<u8>
    decreases s.len(),
{
    if s.len() == 0 {
        Seq::empty()
    } else {
        spec_tags_binary(s.drop_last()) + spec_tag_binary(s.last())
    }
}

/// A tag list that fits the wire: its length and each tag's strings.
pub open spec fn spec_tags_ok(s: Seq<Tag>) -> bool {
    s.len() <= MAX_WIRE_LEN && forall|i: int| 0 <= i < s.len() ==> spec_tag_ok(#[trigger] s[i])
}

/// Appends a compact list of tag structs: the list header, then each tag.
fn encode_tag_list_compact(out: &mut Vec<u8>, tags: &Vec<Tag>) -> (r: Result<(), Error>)
    ensures
        r is Ok <==> spec_tags_ok(tags@),
        r is Ok ==> final(out)@ == old(out)@ + spec_compact_list_header(tags@.len(), ELEMENT_STRUCT)
            + spec_tags_compact(tags@),
        r matches Err(e) ==> e.kind == ErrorKind::InvalidInput,
{
    if tags.len() > MAX_WIRE_LEN {
        return Err(Error::invalid_input());
    }
    push_compact_list_header(out, tags.len(), ELEMENT_STRUCT);
    let ghost base = old(out)@ + spec_compact_list_header(tags@.len(), ELEMENT_STRUCT);
    let mut i: usize = 0;
    while i < tags.len()
        invariant
            0 <= i <= tags@.len(),
            out@ == base + spec_tags_compact(tags@.take(i as int)),
            forall|j: int| 0 <= j < i ==> spec_tag_ok(#[trigger] tags@[j]),
        decreases tags@.len() - i,
    {
        if let Err(e) = tags[i].encode_compact(out) {
            return Err(e);
        }
        proof {
            assert(tags@.take(i + 1).drop_last() =~= tags@.take(i as int));
            assert(tags@.take(i + 1).last() == tags@[i as int]);
            assert(out@ =~= base + spec_tags_compact(tags@.take(i + 1)));
        }
        i = i + 1;
    }
    proof {
        assert(tags@.take(tags@.len() as int) =~= tags@);
    }
    Ok(())
}

/// Appends a binary-protocol list of tag structs.
fn encode_tag_list_binary(out: &mut Vec<u8>, tags: &Vec<Tag>) -> (r: Result<(), Error>)
    ensures
        r is Ok <==> spec_tags_ok(tags@),
        r is Ok ==> final(out)@ == old(out)@ + spec_binary_list_header(tags@.len(), ELEMENT_STRUCT)
            + spec_tags_binary(tags@),
        r matches Err(e) ==> e.kind == ErrorKind::InvalidInput,
{
    if tags.len() > MAX_WIRE_LEN {
        return Err(Error::invalid_input());
    }
    push_binary_list_header(out, tags.len(), ELEMENT_STRUCT);
    let ghost base = old(out)@ + spec_binary_list_header(tags@.len(), ELEMENT_STRUCT);
    let mut i: usize = 0;
    while i < tags.len()
        invariant
            0 <= i <= tags@.len(),
            out@ == base + spec_tags_binary(tags@.take(i as int)),
            forall|j: int| 0 <= j < i ==> spec_tag_ok(#[trigger] tags@[j]),
        decreases tags@.len() - i,
    {
        if let Err(e) = tags[i].encode_binary(out) {
            return Err(e);
        }
        proof {
            assert(tags@.take(i + 1).drop_last() =~= tags@.take(i as int));
            assert(tags@.take(i + 1).last() == tags@[i as int]);
            assert(out@ =~= base + spec_tags_binary(tags@.take(i + 1)));
        }
        i = i + 1;
    }
    proof {
        assert(tags@.take(tags@.len() as int) =~= tags@);
    }
    Ok(())
}


/// `Log` is a timed event with an arbitrary set of tags.
#[derive(Debug, Clone)]
pub struct Log {
    pub timestamp: i64,
    pub fields: Vec<Tag>,
}

/// `Log` corresponds to a log record: the timestamp is taken over and each
/// record field becomes a string tag; a record with no fields still maps
/// to a log with an empty field list.
pub open spec fn spec_log_matches(l: Log, r: LogRecord) -> bool {
    &&& l.timestamp == r.timestamp_micros
    &&& l.fields@ == r.fields@.map(|i: int, f: LogField| spec_tag_of_log_field(f))
}

/// A log whose field list fits the wire.
pub open spec fn spec_log_ok(l: Log) -> bool {
    spec_tags_ok(l.fields@)
}

/// The compact rendering of a log struct: field 1 the timestamp, field 2
/// the field list (present even when empty).
pub open spec fn spec_log_compact(l: Log) -> Seq<u8> {
    spec_compact_field_header(0, 1, COMPACT_I64) + spec_compact_i64(l.timestamp)
        + spec_compact_field_header(1, 2, COMPACT_LIST) + spec_compact_list_header(
        l.fields@.len(),
        ELEMENT_STRUCT,
    ) + spec_tags_compact(l.fields@) + seq![0u8]
}

/// The binary-protocol rendering of a log struct.
pub open spec fn spec_log_binary(l: Log) -> Seq<u8> {
    spec_binary_field_header(BINARY_I64, 1) + be_bytes_u64(l.timestamp as u64)
        + spec_binary_field_header(BINARY_LIST, 2) + spec_binary_list_header(
        l.fields@.len(),
        ELEMENT_STRUCT,
    ) + spec_tags_binary(l.fields@) + seq![0u8]
}

impl Log {
    /// Maps a log record into the schema.
    pub fn from_record(r: &LogRecord) -> (l: Log)
        ensures
            spec_log_matches(l, *r),
    {
        let mut fields: Vec<Tag> = Vec::new();
        let mut i: usize = 0;
        while i < r.fields.len()
            invariant
                0 <= i <= r.fields@.len(),
                fields@ == r.fields@.take(i as int).map(
                    |k: int, f: LogField| spec_tag_of_log_field(f),
                ),
            decreases r.fields@.len() - i,
        {
            fields.push(Tag::from_log_field(&r.fields[i]));
            proof {
                assert(fields@ =~= r.fields@.take(i + 1).map(
                    |k: int, f: LogField| spec_tag_of_log_field(f),
                ));
            }
            i = i + 1;
        }
        proof {
            assert(r.fields@.take(r.fields@.len() as int) =~= r.fields@);
        }
        Log { timestamp: r.timestamp_micros, fields }
    }

    /// Appends the compact rendering of this log.
    pub fn encode_compact(&self, out: &mut Vec<u8>) -> (r: Result<(), Error>)
        ensures
            r is Ok <==> spec_log_ok(*self),
            r is Ok ==> final(out)@ == old(out)@ + spec_log_compact(*self),
            r matches Err(e) ==> e.kind == ErrorKind::InvalidInput,
    {
        push_compact_field_header(out, 0, 1, COMPACT_I64);
        push_compact_i64(out, self.timestamp);
        push_compact_field_header(out, 1, 2, COMPACT_LIST);
        if let Err(e) = encode_tag_list_compact(out, &self.fields) {
            return Err(e);
        }
        out.push(0);
        proof {
            assert(final(out)@ =~= old(out)@ + spec_log_compact(*self));
        }
        Ok(())
    }

    /// Appends the binary-protocol rendering of this log.
    pub fn encode_binary(&self, out: &mut Vec<u8>) -> (r: Result<(), Error>)
        ensures
            r is Ok <==> spec_log_ok(*self),
            r is Ok ==> final(out)@ == old(out)@ + spec_log_binary(*self),
            r matches Err(e) ==> e.kind == ErrorKind::InvalidInput,
    {
        push_binary_field_header(out, BINARY_I64, 1);
        push_be_i64(out, self.timestamp);
        push_binary_field_header(out, BINARY_LIST, 2);
        if let Err(e) = encode_tag_list_binary(out, &self.fields) {
            return Err(e);
        }
        out.push(0);
        proof {
            assert(final(out)@ =~= old(out)@ + spec_log_binary(*self));
        }
        Ok(())
    }
}

/// Span reference kind.
#[derive(Debug, Clone, Copy, PartialEq, Eq, Structural, PartialOrd, Ord, Hash)]
pub enum SpanRefKind {
    ChildOf,
    FollowsFrom,
}

/// The wire code of a reference kind.
pub open spec fn spec_ref_kind_code(k: SpanRefKind) -> i32 {
    match k {
        SpanRefKind::ChildOf => 0,
        SpanRefKind::FollowsFrom => 1,
    }
}

/// `SpanRef` describes the causal relationship of the current span to
/// another span (e.g. child-of).
#[derive(Debug, Clone)]
pub struct SpanRef {
    pub kind: SpanRefKind,
    pub trace_id_low: i64,
    pub trace_id_high: i64,
    pub span_id: i64,
}

/// The wire reference a span reference maps to: the relation kind and the
/// referenced context's identifiers, reinterpreted as signed values.
pub open spec fn spec_ref_of(r: SpanReference) -> SpanRef {
    SpanRef {
        kind: match r.kind {
            SpanReferenceKind::ChildOf => SpanRefKind::ChildOf,
            SpanReferenceKind::FollowsFrom => SpanRefKind::FollowsFrom,
        },
        trace_id_low: r.state@.trace_id.low as i64,
        trace_id_high: r.state@.trace_id.high as i64,
        span_id: r.state@.span_id as i64,
    }
}

/// The compact rendering of a reference struct: field 1 the kind code,
/// fields 2 to 4 the low and high trace-id halves and the span id.
pub open spec fn spec_ref_compact(r: SpanRef) -> Seq<u8> {
    spec_compact_field_header(0, 1, COMPACT_I32) + spec_compact_i32(spec_ref_kind_code(r.kind))
        + spec_compact_field_header(1, 2, COMPACT_I64) + spec_compact_i64(r.trace_id_low)
        + spec_compact_field_header(2, 3, COMPACT_I64) + spec_compact_i64(r.trace_id_high)
        + spec_compact_field_header(3, 4, COMPACT_I64) + spec_compact_i64(r.span_id) + seq![0u8]
}

/// The binary-protocol rendering of a reference struct.
pub open spec fn spec_ref_binary(r: SpanRef) -> Seq<u8> {
    spec_binary_field_header(BINARY_I32, 1) + be_bytes_u32(spec_ref_kind_code(r.kind) as u32)
        + spec_binary_field_header(BINARY_I64, 2) + be_bytes_u64(r.trace_id_low as u64)
        + spec_binary_field_header(BINARY_I64, 3) + be_bytes_u64(r.trace_id_high as u64)
        + spec_binary_field_header(BINARY_I64, 4) + be_bytes_u64(r.span_id as u64) + seq![0u8]
}

impl SpanRef {
    /// Maps a span reference into the schema.
    pub fn from_reference(r: &SpanReference) -> (s: SpanRef)
        ensures
            s == spec_ref_of(*r),
    {
        let kind = match r.kind {
            SpanReferenceKind::ChildOf => SpanRefKind::ChildOf,
            SpanReferenceKind::FollowsFrom => SpanRefKind::FollowsFrom,
        };
        SpanRef {
            kind,
            trace_id_low: (#[verifier::truncate] (r.state.trace_id().low as i64)),
            trace_id_high: (#[verifier::truncate] (r.state.trace_id().high as i64)),
            span_id: (#[verifier::truncate] (r.state.span_id() as i64)),
        }
    }

    /// Appends the compact rendering of this reference.
    pub fn encode_compact(&self, out: &mut Vec<u8>)
        ensures
            final(out)@ == old(out)@ + spec_ref_compact(*self),
    {
        push_compact_field_header(out, 0, 1, COMPACT_I32);
        let code: i32 = match self.kind {
            SpanRefKind::ChildOf => 0,
            SpanRefKind::FollowsFrom => 1,
        };
        push_compact_i32(out, code);
        push_compact_field_header(out, 1, 2, COMPACT_I64);
        push_compact_i64(out, self.trace_id_low);
        push_compact_field_header(out, 2, 3, COMPACT_I64);
        push_compact_i64(out, self.trace_id_high);
        push_compact_field_header(out, 3, 4, COMPACT_I64);
        push_compact_i64(out, self.span_id);
        out.push(0);
        proof {
            assert(final(out)@ =~= old(out)@ + spec_ref_compact(*self));
        }
    }

    /// Appends the binary-protocol rendering of this reference.
    pub fn encode_binary(&self, out: &mut Vec<u8>)
        ensures
            final(out)@ == old(out)@ + spec_ref_binary(*self),
    {
        push_binary_field_header(out, BINARY_I32, 1);
        let code: u32 = match self.kind {
            SpanRefKind::ChildOf => 0,
            SpanRefKind::FollowsFrom => 1,
        };
        push_be_u32(out, code);
        push_binary_field_header(out, BINARY_I64, 2);
        push_be_i64(out, self.trace_id_low);
        push_binary_field_header(out, BINARY_I64, 3);
        push_be_i64(out, self.trace_id_high);
        push_binary_field_header(out, BINARY_I64, 4);
        push_be_i64(out, self.span_id);
        out.push(0);
        proof {
            assert(final(out)@ =~= old(out)@ + spec_ref_binary(*self));
        }
    }
}

/// A list of references rendered back to back, compact.
pub open spec fn spec_refs_compact(s: Seq<SpanRef>) -> Seq<u8>
    decreases s.len(),
{
    if s.len() == 0 {
        Seq::empty()
    } else {
        spec_refs_compact(s.drop_last()) + spec_ref_compact(s.last())
    }
}

/// A list of references rendered back to back, binary protocol.
pub open spec fn spec_refs_binary(s: Seq<SpanRef>) -> Seq<u8>
    decreases s.len(),
{
    if s.len() == 0 {
        Seq::empty()
    } else {
        spec_refs_binary(s.drop_last()) + spec_ref_binary(s.last())
    }
}


/// Is the referenced span sampled?
pub open spec fn spec_ref_sampled(r: SpanReference) -> bool {
    r.state@.flags & FLAG_SAMPLED != 0
}

/// The parent span id of a finished span: the span id of the first sampled
/// reference, reinterpreted as signed, or zero when no reference is
/// sampled.
pub open spec fn spec_parent_span_id(refs: Seq<SpanReference>) -> i64
    decreases refs.len(),
{
    if refs.len() == 0 {
        0
    } else if spec_ref_sampled(refs[0]) {
        refs[0].state@.span_id as i64
    } else {
        spec_parent_span_id(refs.drop_first())
    }
}

/// The wire references of a finished span: the references to sampled spans
/// only, in order; references to unsampled spans are excluded.
pub open spec fn spec_filtered_refs(refs: Seq<SpanReference>) -> Seq<SpanRef>
    decreases refs.len(),
{
    if refs.len() == 0 {
        Seq::empty()
    } else if spec_ref_sampled(refs.last()) {
        spec_filtered_refs(refs.drop_last()).push(spec_ref_of(refs.last()))
    } else {
        spec_filtered_refs(refs.drop_last())
    }
}

/// `Span` represents a named unit of work performed by a service, in the
/// agent's schema.
#[derive(Debug, Clone)]
pub struct Span {
    /// The least significant 64 bits of the trace id.
    pub trace_id_low: i64,
    /// The most significant 64 bits of the trace id; 0 when only 64-bit
    /// ids are used.
    pub trace_id_high: i64,
    /// Unique span id (only unique within a given trace).
    pub span_id: i64,
    /// The span id of the first sampled parent reference, or 0 for a root
    /// span.
    pub parent_span_id: i64,
    /// The name of the operation.
    pub operation_name: String,
    /// Causal references to other sampled spans.
    pub references: Vec<SpanRef>,
    /// A bit field used to propagate sampling decisions: 1 is SAMPLED,
    /// 2 is DEBUG.
    pub flags: i32,
    /// Start time of this span, microseconds since the Unix epoch.
    pub start_time: i64,
    /// Duration of this span in microseconds, signed (clock skew across
    /// threads may make it negative; the signed value is kept).
    pub duration: i64,
    /// Tag list.
    pub tags: Vec<Tag>,
    /// Log list.
    pub logs: Vec<Log>,
}

/// `Span` corresponds to a finished-span record: identifiers and flags are
/// taken from the record's context (reinterpreted as signed where the
/// schema is signed); the parent span id and the reference list follow the
/// first-sampled / sampled-only rules; the duration is the signed
/// difference of finish and start; the tags are the record's tags, with
/// the debug identifier appended as an extra string tag under the debug
/// carrier key when one is present.
pub open spec fn spec_span_matches(s: Span, f: FinishedSpan) -> bool {
    &&& s.trace_id_low == f.state@.trace_id.low as i64
    &&& s.trace_id_high == f.state@.trace_id.high as i64
    &&& s.span_id == f.state@.span_id as i64
    &&& s.parent_span_id == spec_parent_span_id(f.references@)
    &&& s.operation_name@ == f.operation_name@
    &&& s.references@ == spec_filtered_refs(f.references@)
    &&& s.flags == f.state@.flags as i32
    &&& s.start_time == f.start_time_micros
    &&& s.duration == (f.finish_time_micros - f.start_time_micros) as i64
    &&& ({
        let base = f.tags@.map(|i: int, t: SpanTag| spec_tag_of_span_tag(t));
        if f.state@.debug_id.len() > 0 {
            &&& s.tags@.len() == base.len() + 1
            &&& s.tags@.take(base.len() as int) == base
            &&& (s.tags@.last() matches Tag::String { key, value } && key@ == "jaeger-debug-id"@
                && value@ == f.state@.debug_id)
        } else {
            s.tags@ == base
        }
    })
    &&& s.logs@.len() == f.logs@.len()
    &&& (forall|i: int|
        0 <= i < f.logs@.len() ==> spec_log_matches(#[trigger] s.logs@[i], f.logs@[i]))
}

impl Span {
    /// Maps a finished-span record into the schema.
    pub fn from_finished(f: &FinishedSpan) -> (s: Span)
        ensures
            spec_span_matches(s, *f),
    {
        let mut parent_span_id: i64 = 0;
        let mut k: usize = 0;
        let mut found: bool = false;
        while k < f.references.len() && !found
            invariant
                0 <= k <= f.references@.len(),
                !found ==> (forall|j: int|
                    0 <= j < k ==> !spec_ref_sampled(#[trigger] f.references@[j])),
                found ==> k >= 1 && spec_ref_sampled(f.references@[k - 1]) && (forall|j: int|
                    0 <= j < k - 1 ==> !spec_ref_sampled(#[trigger] f.references@[j]))
                    && parent_span_id == f.references@[k - 1].state@.span_id as i64,
                !found ==> parent_span_id == 0,
            decreases f.references@.len() - k,
        {
            if f.references[k].state.is_sampled() {
                parent_span_id = (#[verifier::truncate] (f.references[k].state.span_id() as i64));
                found = true;
            }
            k = k + 1;
        }
        proof {
            if found {
                lemma_parent_first_sampled(f.references@, k - 1);
            } else {
                lemma_parent_none_sampled(f.references@);
            }
        }
        let mut references: Vec<SpanRef> = Vec::new();
        let mut i: usize = 0;
        while i < f.references.len()
            invariant
                0 <= i <= f.references@.len(),
                references@ == spec_filtered_refs(f.references@.take(i as int)),
            decreases f.references@.len() - i,
        {
            proof {
                assert(f.references@.take(i + 1).drop_last() =~= f.references@.take(i as int));
                assert(f.references@.take(i + 1).last() == f.references@[i as int]);
            }
            if f.references[i].state.is_sampled() {
                references.push(SpanRef::from_reference(&f.references[i]));
            }
            i = i + 1;
        }
        proof {
            assert(f.references@.take(f.references@.len() as int) =~= f.references@);
        }
        let mut tags: Vec<Tag> = Vec::new();
        let mut j: usize = 0;
        while j < f.tags.len()
            invariant
                0 <= j <= f.tags@.len(),
                tags@ == f.tags@.take(j as int).map(|i: int, t: SpanTag| spec_tag_of_span_tag(t)),
            decreases f.tags@.len() - j,
        {
            tags.push(Tag::from_span_tag(&f.tags[j]));
            proof {
                assert(tags@ =~= f.tags@.take(j + 1).map(
                    |i: int, t: SpanTag| spec_tag_of_span_tag(t),
                ));
            }
            j = j + 1;
        }
        proof {
            assert(f.tags@.take(f.tags@.len() as int) =~= f.tags@);
        }
        let ghost base = f.tags@.map(|i: int, t: SpanTag| spec_tag_of_span_tag(t));
        if let Some(id) = f.state.debug_id() {
            let debug_tag = Tag::String {
                key: crate::constants::jaeger_debug_header().to_owned(),
                value: id.to_owned(),
            };
            tags.push(debug_tag);
            proof {
                assert(tags@.take(base.len() as int) =~= base);
            }
        }
        let mut logs: Vec<Log> = Vec::new();
        let mut m: usize = 0;
        while m < f.logs.len()
            invariant
                0 <= m <= f.logs@.len(),
                logs@.len() == m,
                forall|i: int| 0 <= i < m ==> spec_log_matches(#[trigger] logs@[i], f.logs@[i]),
            decreases f.logs@.len() - m,
        {
            logs.push(Log::from_record(&f.logs[m]));
            m = m + 1;
        }
        let duration: i64 = (#[verifier::truncate] (((f.finish_time_micros as i128)
            - (f.start_time_micros as i128)) as i64));
        Span {
            trace_id_low: (#[verifier::truncate] (f.state.trace_id().low as i64)),
            trace_id_high: (#[verifier::truncate] (f.state.trace_id().high as i64)),
            span_id: (#[verifier::truncate] (f.state.span_id() as i64)),
            parent_span_id,
            operation_name: f.operation_name.clone(),
            references,
            flags: f.state.flags() as i32,
            start_time: f.start_time_micros,
            duration,
            tags,
            logs,
        }
    }
}

/// If the references before `k` are unsampled and the one at `k` is
/// sampled, the parent span id is that reference's span id.
proof fn lemma_parent_first_sampled(refs: Seq<SpanReference>, k: int)
    requires
        0 <= k < refs.len(),
        spec_ref_sampled(refs[k]),
        forall|j: int| 0 <= j < k ==> !spec_ref_sampled(#[trigger] refs[j]),
    ensures
        spec_parent_span_id(refs) == refs[k].state@.span_id as i64,
    decreases k,
{
    if k > 0 {
        lemma_parent_first_sampled(refs.drop_first(), k - 1);
        assert(refs.drop_first()[k - 1] == refs[k]);
        assert(forall|j: int|
            0 <= j < k - 1 ==> refs.drop_first()[j] == #[trigger] refs[j + 1]);
    }
}

/// With no sampled reference the parent span id is zero.
proof fn lemma_parent_none_sampled(refs: Seq<SpanReference>)
    requires
        forall|j: int| 0 <= j < refs.len() ==> !spec_ref_sampled(#[trigger] refs[j]),
    ensures
        spec_parent_span_id(refs) == 0,
    decreases refs.len(),
{
    if refs.len() > 0 {
        lemma_parent_none_sampled(refs.drop_first());
        assert(forall|j: int|
            0 <= j < refs.len() - 1 ==> refs.drop_first()[j] == #[trigger] refs[j + 1]);
    }
}


/// A log list that fits the wire.
pub open spec fn spec_logs_ok(s: Seq<Log>) -> bool {
    s.len() <= MAX_WIRE_LEN && forall|i: int| 0 <= i < s.len() ==> spec_log_ok(#[trigger] s[i])
}

/// A list of logs rendered back to back, compact.
pub open spec fn spec_logs_compact(s: Seq<Log>) -> Seq<u8>
    decreases s.len(),
{
    if s.len() == 0 {
        Seq::empty()
    } else {
        spec_logs_compact(s.drop_last()) + spec_log_compact(s.last())
    }
}

/// A list of logs rendered back to back, binary protocol.
pub open spec fn spec_logs_binary(s: Seq<Log>) -> Seq<u8>
    decreases s.len(),
{
    if s.len() == 0 {
        Seq::empty()
    } else {
        spec_logs_binary(s.drop_last()) + spec_log_binary(s.last())
    }
}

/// Appends a compact list of reference structs.
fn encode_ref_list_compact(out: &mut Vec<u8>, refs: &Vec<SpanRef>) -> (r: Result<(), Error>)
    ensures
        r is Ok <==> refs@.len() <= MAX_WIRE_LEN,
        r is Ok ==> final(out)@ == old(out)@ + spec_compact_list_header(refs@.len(), ELEMENT_STRUCT)
            + spec_refs_compact(refs@),
        r matches Err(e) ==> e.kind == ErrorKind::InvalidInput,
{
    if refs.len() > MAX_WIRE_LEN {
        return Err(Error::invalid_input());
    }
    push_compact_list_header(out, refs.len(), ELEMENT_STRUCT);
    let ghost base = old(out)@ + spec_compact_list_header(refs@.len(), ELEMENT_STRUCT);
    let mut i: usize = 0;
    while i < refs.len()
        invariant
            0 <= i <= refs@.len(),
            out@ == base + spec_refs_compact(refs@.take(i as int)),
        decreases refs@.len() - i,
    {
        refs[i].encode_compact(out);
        proof {
            assert(refs@.take(i + 1).drop_last() =~= refs@.take(i as int));
            assert(refs@.take(i + 1).last() == refs@[i as int]);
            assert(out@ =~= base + spec_refs_compact(refs@.take(i + 1)));
        }
        i = i + 1;
    }
    proof {
        assert(refs@.take(refs@.len() as int) =~= refs@);
    }
    Ok(())
}

/// Appends a binary-protocol list of reference structs.
fn encode_ref_list_binary(out: &mut Vec<u8>, refs: &Vec<SpanRef>) -> (r: Result<(), Error>)
    ensures
        r is Ok <==> refs@.len() <= MAX_WIRE_LEN,
        r is Ok ==> final(out)@ == old(out)@ + spec_binary_list_header(refs@.len(), ELEMENT_STRUCT)
            + spec_refs_binary(refs@),
        r matches Err(e) ==> e.kind == ErrorKind::InvalidInput,
{
    if refs.len() > MAX_WIRE_LEN {
        return Err(Error::invalid_input());
    }
    push_binary_list_header(out, refs.len(), ELEMENT_STRUCT);
    let ghost base = old(out)@ + spec_binary_list_header(refs@.len(), ELEMENT_STRUCT);
    let mut i: usize = 0;
    while i < refs.len()
        invariant
            0 <= i <= refs@.len(),
            out@ == base + spec_refs_binary(refs@.take(i as int)),
        decreases refs@.len() - i,
    {
        refs[i].encode_binary(out);
        proof {
            assert(refs@.take(i + 1).drop_last() =~= refs@.take(i as int));
            assert(refs@.take(i + 1).last() == refs@[i as int]);
            assert(out@ =~= base + spec_refs_binary(refs@.take(i + 1)));
        }
        i = i + 1;
    }
    proof {
        assert(refs@.take(refs@.len() as int) =~= refs@);
    }
    Ok(())
}

/// Appends a compact list of log structs.
fn encode_log_list_compact(out: &mut Vec<u8>, logs: &Vec<Log>) -> (r: Result<(), Error>)
    ensures
        r is Ok <==> spec_logs_ok(logs@),
        r is Ok ==> final(out)@ == old(out)@ + spec_compact_list_header(logs@.len(), ELEMENT_STRUCT)
            + spec_logs_compact(logs@),
        r matches Err(e) ==> e.kind == ErrorKind::InvalidInput,
{
    if logs.len() > MAX_WIRE_LEN {
        return Err(Error::invalid_input());
    }
    push_compact_list_header(out, logs.len(), ELEMENT_STRUCT);
    let ghost base = old(out)@ + spec_compact_list_header(logs@.len(), ELEMENT_STRUCT);
    let mut i: usize = 0;
    while i < logs.len()
        invariant
            0 <= i <= logs@.len(),
            out@ == base + spec_logs_compact(logs@.take(i as int)),
            forall|j: int| 0 <= j < i ==> spec_log_ok(#[trigger] logs@[j]),
        decreases logs@.len() - i,
    {
        if let Err(e) = logs[i].encode_compact(out) {
            return Err(e);
        }
        proof {
            assert(logs@.take(i + 1).drop_last() =~= logs@.take(i as int));
            assert(logs@.take(i + 1).last() == logs@[i as int]);
            assert(out@ =~= base + spec_logs_compact(logs@.take(i + 1)));
        }
        i = i + 1;
    }
    proof {
        assert(logs@.take(logs@.len() as int) =~= logs@);
    }
    Ok(())
}

/// Appends a binary-protocol list of log structs.
fn encode_log_list_binary(out: &mut Vec<u8>, logs: &Vec<Log>) -> (r: Result<(), Error>)
    ensures
        r is Ok <==> spec_logs_ok(logs@),
        r is Ok ==> final(out)@ == old(out)@ + spec_binary_list_header(logs@.len(), ELEMENT_STRUCT)
            + spec_logs_binary(logs@),
        r matches Err(e) ==> e.kind == ErrorKind::InvalidInput,
{
    if logs.len() > MAX_WIRE_LEN {
        return Err(Error::invalid_input());
    }
    push_binary_list_header(out, logs.len(), ELEMENT_STRUCT);
    let ghost base = old(out)@ + spec_binary_list_header(logs@.len(), ELEMENT_STRUCT);
    let mut i: usize = 0;
    while i < logs.len()
        invariant
            0 <= i <= logs@.len(),
            out@ == base + spec_logs_binary(logs@.take(i as int)),
            forall|j: int| 0 <= j < i ==> spec_log_ok(#[trigger] logs@[j]),
        decreases logs@.len() - i,
    {
        if let Err(e) = logs[i].encode_binary(out) {
            return Err(e);
        }
        proof {
            assert(logs@.take(i + 1).drop_last() =~= logs@.take(i as int));
            assert(logs@.take(i + 1).last() == logs@[i as int]);
            assert(out@ =~= base + spec_logs_binary(logs@.take(i + 1)));
        }
        i = i + 1;
    }
    proof {
        assert(logs@.take(logs@.len() as int) =~= logs@);
    }
    Ok(())
}

/// A span whose strings and lists fit the wire.
pub open spec fn spec_span_ok(s: Span) -> bool {
    &&& spec_str_ok(s.operation_name@)
    &&& s.references@.len() <= MAX_WIRE_LEN
    &&& spec_tags_ok(s.tags@)
    &&& spec_logs_ok(s.logs@)
}

/// Fields 1 to 5 of a compact span struct: the identifiers and the
/// operation name.
pub open spec fn spec_span_head_compact(s: Span) -> Seq<u8> {
    spec_compact_field_header(0, 1, COMPACT_I64) + spec_compact_i64(s.trace_id_low)
        + spec_compact_field_header(1, 2, COMPACT_I64) + spec_compact_i64(s.trace_id_high)
        + spec_compact_field_header(2, 3, COMPACT_I64) + spec_compact_i64(s.span_id)
        + spec_compact_field_header(3, 4, COMPACT_I64) + spec_compact_i64(s.parent_span_id)
        + spec_compact_field_header(4, 5, COMPACT_BINARY) + spec_compact_binary(
        str_bytes(s.operation_name@),
    )
}

/// Field 6 of a compact span struct: the reference list, present only when
/// non-empty.
pub open spec fn spec_span_refs_compact(s: Span) -> Seq<u8> {
    if s.references@.len() > 0 {
        spec_compact_field_header(5, 6, COMPACT_LIST) + spec_compact_list_header(
            s.references@.len(),
            ELEMENT_STRUCT,
        ) + spec_refs_compact(s.references@)
    } else {
        Seq::empty()
    }
}

/// Fields 7 to 9 of a compact span struct: flags, start time and duration;
/// the first header's delta depends on whether field 6 was present.
pub open spec fn spec_span_mid_compact(s: Span) -> Seq<u8> {
    spec_compact_field_header(
        if s.references@.len() > 0 {
            6
        } else {
            5
        },
        7,
        COMPACT_I32,
    ) + spec_compact_i32(s.flags) + spec_compact_field_header(7, 8, COMPACT_I64)
        + spec_compact_i64(s.start_time) + spec_compact_field_header(8, 9, COMPACT_I64)
        + spec_compact_i64(s.duration)
}

/// Field 10 of a compact span struct: the tag list, present only when
/// non-empty.
pub open spec fn spec_span_tags_compact(s: Span) -> Seq<u8> {
    if s.tags@.len() > 0 {
        spec_compact_field_header(9, 10, COMPACT_LIST) + spec_compact_list_header(
            s.tags@.len(),
            ELEMENT_STRUCT,
        ) + spec_tags_compact(s.tags@)
    } else {
        Seq::empty()
    }
}

/// Field 11 of a compact span struct: the log list, present only when
/// non-empty; its header's delta depends on whether field 10 was present.
pub open spec fn spec_span_logs_compact(s: Span) -> Seq<u8> {
    if s.logs@.len() > 0 {
        spec_compact_field_header(
            if s.tags@.len() > 0 {
                10
            } else {
                9
            },
            11,
            COMPACT_LIST,
        ) + spec_compact_list_header(s.logs@.len(), ELEMENT_STRUCT) + spec_logs_compact(s.logs@)
    } else {
        Seq::empty()
    }
}

/// The compact rendering of a span struct: fields 1 to 5 always, field 6
/// (references) only when non-empty, fields 7 to 9 always, fields 10
/// (tags) and 11 (logs) only when non-empty.
pub open spec fn spec_span_compact(s: Span) -> Seq<u8> {
    spec_span_head_compact(s) + spec_span_refs_compact(s) + spec_span_mid_compact(s)
        + spec_span_tags_compact(s) + spec_span_logs_compact(s) + seq![0u8]
}

/// Fields 1 to 5 of a binary-protocol span struct.
pub open spec fn spec_span_head_binary(s: Span) -> Seq<u8> {
    spec_binary_field_header(BINARY_I64, 1) + be_bytes_u64(s.trace_id_low as u64)
        + spec_binary_field_header(BINARY_I64, 2) + be_bytes_u64(s.trace_id_high as u64)
        + spec_binary_field_header(BINARY_I64, 3) + be_bytes_u64(s.span_id as u64)
        + spec_binary_field_header(BINARY_I64, 4) + be_bytes_u64(s.parent_span_id as u64)
        + spec_binary_field_header(BINARY_BINARY, 5) + spec_binary_binary(
        str_bytes(s.operation_name@),
    )
}

/// Field 6 of a binary-protocol span struct, present only when non-empty.
pub open spec fn spec_span_refs_binary(s: Span) -> Seq<u8> {
    if s.references@.len() > 0 {
        spec_binary_field_header(BINARY_LIST, 6) + spec_binary_list_header(
            s.references@.len(),
            ELEMENT_STRUCT,
        ) + spec_refs_binary(s.references@)
    } else {
        Seq::empty()
    }
}

/// Fields 7 to 9 of a binary-protocol span struct.
pub open spec fn spec_span_mid_binary(s: Span) -> Seq<u8> {
    spec_binary_field_header(BINARY_I32, 7) + be_bytes_u32(s.flags as u32)
        + spec_binary_field_header(BINARY_I64, 8) + be_bytes_u64(s.start_time as u64)
        + spec_binary_field_header(BINARY_I64, 9) + be_bytes_u64(s.duration as u64)
}

/// Field 10 of a binary-protocol span struct, present only when non-empty.
pub open spec fn spec_span_tags_binary(s: Span) -> Seq<u8> {
    if s.tags@.len() > 0 {
        spec_binary_field_header(BINARY_LIST, 10) + spec_binary_list_header(
            s.tags@.len(),
            ELEMENT_STRUCT,
        ) + spec_tags_binary(s.tags@)
    } else {
        Seq::empty()
    }
}

/// Field 11 of a binary-protocol span struct, present only when non-empty.
pub open spec fn spec_span_logs_binary(s: Span) -> Seq<u8> {
    if s.logs@.len() > 0 {
        spec_binary_field_header(BINARY_LIST, 11) + spec_binary_list_header(
            s.logs@.len(),
            ELEMENT_STRUCT,
        ) + spec_logs_binary(s.logs@)
    } else {
        Seq::empty()
    }
}

/// The binary-protocol rendering of a span struct, with the same field
/// presence rules as the compact one.
pub open spec fn spec_span_binary(s: Span) -> Seq<u8> {
    spec_span_head_binary(s) + spec_span_refs_binary(s) + spec_span_mid_binary(s)
        + spec_span_tags_binary(s) + spec_span_logs_binary(s) + seq![0u8]
}


/// Appends fields 1 to 5 of a compact span struct.
fn encode_span_head_compact(out: &mut Vec<u8>, s: &Span) -> (r: Result<(), Error>)
    ensures
        r is Ok <==> spec_str_ok(s.operation_name@),
        r is Ok ==> final(out)@ == old(out)@ + spec_span_head_compact(*s),
        r matches Err(e) ==> e.kind == ErrorKind::InvalidInput,
{
    push_compact_field_header(out, 0, 1, COMPACT_I64);
    push_compact_i64(out, s.trace_id_low);
    proof {
        assert(out@ =~= old(out)@ + (spec_compact_field_header(0, 1, COMPACT_I64)
            + spec_compact_i64(s.trace_id_low)));
    }
    push_compact_field_header(out, 1, 2, COMPACT_I64);
    push_compact_i64(out, s.trace_id_high);
    push_compact_field_header(out, 2, 3, COMPACT_I64);
    push_compact_i64(out, s.span_id);
    proof {
        assert(out@ =~= old(out)@ + (spec_compact_field_header(0, 1, COMPACT_I64)
            + spec_compact_i64(s.trace_id_low) + spec_compact_field_header(1, 2, COMPACT_I64)
            + spec_compact_i64(s.trace_id_high) + spec_compact_field_header(2, 3, COMPACT_I64)
            + spec_compact_i64(s.span_id)));
    }
    push_compact_field_header(out, 3, 4, COMPACT_I64);
    push_compact_i64(out, s.parent_span_id);
    push_compact_field_header(out, 4, 5, COMPACT_BINARY);
    if let Err(e) = push_compact_binary(out, s.operation_name.as_str().as_bytes()) {
        return Err(e);
    }
    proof {
        assert(out@ =~= old(out)@ + spec_span_head_compact(*s));
    }
    Ok(())
}

/// Appends fields 7 to 9 of a compact span struct.
fn encode_span_mid_compact(out: &mut Vec<u8>, s: &Span)
    ensures
        final(out)@ == old(out)@ + spec_span_mid_compact(*s),
{
    let prev: i32 = if s.references.len() > 0 {
        6
    } else {
        5
    };
    push_compact_field_header(out, prev, 7, COMPACT_I32);
    push_compact_i32(out, s.flags);
    push_compact_field_header(out, 7, 8, COMPACT_I64);
    push_compact_i64(out, s.start_time);
    push_compact_field_header(out, 8, 9, COMPACT_I64);
    push_compact_i64(out, s.duration);
    proof {
        assert(final(out)@ =~= old(out)@ + spec_span_mid_compact(*s));
    }
}


/// Appends fields 1 to 5 of a binary-protocol span struct.
fn encode_span_head_binary(out: &mut Vec<u8>, s: &Span) -> (r: Result<(), Error>)
    ensures
        r is Ok <==> spec_str_ok(s.operation_name@),
        r is Ok ==> final(out)@ == old(out)@ + spec_span_head_binary(*s),
        r matches Err(e) ==> e.kind == ErrorKind::InvalidInput,
{
    push_binary_field_header(out, BINARY_I64, 1);
    push_be_i64(out, s.trace_id_low);
    push_binary_field_header(out, BINARY_I64, 2);
    push_be_i64(out, s.trace_id_high);
    proof {
        assert(out@ =~= old(out)@ + (spec_binary_field_header(BINARY_I64, 1) + be_bytes_u64(
            s.trace_id_low as u64,
        ) + spec_binary_field_header(BINARY_I64, 2) + be_bytes_u64(s.trace_id_high as u64)));
    }
    push_binary_field_header(out, BINARY_I64, 3);
    push_be_i64(out, s.span_id);
    push_binary_field_header(out, BINARY_I64, 4);
    push_be_i64(out, s.parent_span_id);
    push_binary_field_header(out, BINARY_BINARY, 5);
    if let Err(e) = push_binary_binary(out, s.operation_name.as_str().as_bytes()) {
        return Err(e);
    }
    proof {
        assert(out@ =~= old(out)@ + spec_span_head_binary(*s));
    }
    Ok(())
}

/// Appends fields 7 to 9 of a binary-protocol span struct.
fn encode_span_mid_binary(out: &mut Vec<u8>, s: &Span)
    ensures
        final(out)@ == old(out)@ + spec_span_mid_binary(*s),
{
    push_binary_field_header(out, BINARY_I32, 7);
    push_be_u32(out, (#[verifier::truncate] (s.flags as u32)));
    push_binary_field_header(out, BINARY_I64, 8);
    push_be_i64(out, s.start_time);
    push_binary_field_header(out, BINARY_I64, 9);
    push_be_i64(out, s.duration);
    proof {
        assert(final(out)@ =~= old(out)@ + spec_span_mid_binary(*s));
    }
}

impl Span {
    /// Appends the compact rendering of this span.
    #[verifier::rlimit(100)]
    #[verifier::spinoff_prover]
    pub fn encode_compact(&self, out: &mut Vec<u8>) -> (r: Result<(), Error>)
        ensures
            r is Ok <==> spec_span_ok(*self),
            r is Ok ==> final(out)@ == old(out)@ + spec_span_compact(*self),
            r matches Err(e) ==> e.kind == ErrorKind::InvalidInput,
    {
        if let Err(e) = encode_span_head_compact(out, self) {
            return Err(e);
        }
        if self.references.len() > 0 {
            push_compact_field_header(out, 5, 6, COMPACT_LIST);
            if let Err(e) = encode_ref_list_compact(out, &self.references) {
                return Err(e);
            }
        }
        proof {
            assert(out@ =~= old(out)@ + spec_span_head_compact(*self) + spec_span_refs_compact(
                *self,
            ));
        }
        encode_span_mid_compact(out, self);
        let mut prev2: i32 = 9;
        if self.tags.len() > 0 {
            push_compact_field_header(out, 9, 10, COMPACT_LIST);
            if let Err(e) = encode_tag_list_compact(out, &self.tags) {
                return Err(e);
            }
            prev2 = 10;
        }
        proof {
            assert(out@ =~= old(out)@ + spec_span_head_compact(*self) + spec_span_refs_compact(
                *self,
            ) + spec_span_mid_compact(*self) + spec_span_tags_compact(*self));
        }
        if self.logs.len() > 0 {
            push_compact_field_header(out, prev2, 11, COMPACT_LIST);
            if let Err(e) = encode_log_list_compact(out, &self.logs) {
                return Err(e);
            }
        }
        proof {
            assert(out@ =~= old(out)@ + spec_span_head_compact(*self) + spec_span_refs_compact(
                *self,
            ) + spec_span_mid_compact(*self) + spec_span_tags_compact(*self)
                + spec_span_logs_compact(*self));
        }
        out.push(0);
        proof {
            assert(final(out)@ =~= old(out)@ + spec_span_compact(*self));
        }
        Ok(())
    }

    /// Appends the binary-protocol rendering of this span.
    #[verifier::rlimit(100)]
    #[verifier::spinoff_prover]
    pub fn encode_binary(&self, out: &mut Vec<u8>) -> (r: Result<(), Error>)
        ensures
            r is Ok <==> spec_span_ok(*self),
            r is Ok ==> final(out)@ == old(out)@ + spec_span_binary(*self),
            r matches Err(e) ==> e.kind == ErrorKind::InvalidInput,
    {
        if let Err(e) = encode_span_head_binary(out, self) {
            return Err(e);
        }
        if self.references.len() > 0 {
            push_binary_field_header(out, BINARY_LIST, 6);
            if let Err(e) = encode_ref_list_binary(out, &self.references) {
                return Err(e);
            }
        }
        proof {
            assert(out@ =~= old(out)@ + spec_span_head_binary(*self) + spec_span_refs_binary(
                *self,
            ));
        }
        encode_span_mid_binary(out, self);
        if self.tags.len() > 0 {
            push_binary_field_header(out, BINARY_LIST, 10);
            if let Err(e) = encode_tag_list_binary(out, &self.tags) {
                return Err(e);
            }
        }
        proof {
            assert(out@ =~= old(out)@ + spec_span_head_binary(*self) + spec_span_refs_binary(
                *self,
            ) + spec_span_mid_binary(*self) + spec_span_tags_binary(*self));
        }
        if self.logs.len() > 0 {
            push_binary_field_header(out, BINARY_LIST, 11);
            if let Err(e) = encode_log_list_binary(out, &self.logs) {
                return Err(e);
            }
        }
        proof {
            assert(out@ =~= old(out)@ + spec_span_head_binary(*self) + spec_span_refs_binary(
                *self,
            ) + spec_span_mid_binary(*self) + spec_span_tags_binary(*self) + spec_span_logs_binary(
                *self,
            ));
        }
        out.push(0);
        proof {
            assert(final(out)@ =~= old(out)@ + spec_span_binary(*self));
        }
        Ok(())
    }
}

/// `Process` describes the traced process or service that emits spans.
#[derive(Debug, Clone)]
pub struct Process {
    /// The name of this service.
    pub service_name: String,
    /// Tag list.
    pub tags: Vec<Tag>,
}

/// A process whose strings and tag list fit the wire.
pub open spec fn spec_process_ok(p: Process) -> bool {
    spec_str_ok(p.service_name@) && spec_tags_ok(p.tags@)
}

/// The compact rendering of a process struct: field 1 the service name,
/// field 2 the tag list only when non-empty.
pub open spec fn spec_process_compact(p: Process) -> Seq<u8> {
    spec_compact_field_header(0, 1, COMPACT_BINARY) + spec_compact_binary(
        str_bytes(p.service_name@),
    ) + (if p.tags@.len() > 0 {
        spec_compact_field_header(1, 2, COMPACT_LIST) + spec_compact_list_header(
            p.tags@.len(),
            ELEMENT_STRUCT,
        ) + spec_tags_compact(p.tags@)
    } else {
        Seq::empty()
    }) + seq![0u8]
}

/// The binary-protocol rendering of a process struct.
pub open spec fn spec_process_binary(p: Process) -> Seq<u8> {
    spec_binary_field_header(BINARY_BINARY, 1) + spec_binary_binary(str_bytes(p.service_name@)) + (
    if p.tags@.len() > 0 {
        spec_binary_field_header(BINARY_LIST, 2) + spec_binary_list_header(
            p.tags@.len(),
            ELEMENT_STRUCT,
        ) + spec_tags_binary(p.tags@)
    } else {
        Seq::empty()
    }) + seq![0u8]
}

impl Process {
    /// Appends the compact rendering of this process.
    pub fn encode_compact(&self, out: &mut Vec<u8>) -> (r: Result<(), Error>)
        ensures
            r is Ok <==> spec_process_ok(*self),
            r is Ok ==> final(out)@ == old(out)@ + spec_process_compact(*self),
            r matches Err(e) ==> e.kind == ErrorKind::InvalidInput,
    {
        push_compact_field_header(out, 0, 1, COMPACT_BINARY);
        if let Err(e) = push_compact_binary(out, self.service_name.as_str().as_bytes()) {
            return Err(e);
        }
        if self.tags.len() > 0 {
            push_compact_field_header(out, 1, 2, COMPACT_LIST);
            if let Err(e) = encode_tag_list_compact(out, &self.tags) {
                return Err(e);
            }
        }
        out.push(0);
        proof {
            assert(final(out)@ =~= old(out)@ + spec_process_compact(*self));
        }
        Ok(())
    }

    /// Appends the binary-protocol rendering of this process.
    pub fn encode_binary(&self, out: &mut Vec<u8>) -> (r: Result<(), Error>)
        ensures
            r is Ok <==> spec_process_ok(*self),
            r is Ok ==> final(out)@ == old(out)@ + spec_process_binary(*self),
            r matches Err(e) ==> e.kind == ErrorKind::InvalidInput,
    {
        push_binary_field_header(out, BINARY_BINARY, 1);
        if let Err(e) = push_binary_binary(out, self.service_name.as_str().as_bytes()) {
            return Err(e);
        }
        if self.tags.len() > 0 {
            push_binary_field_header(out, BINARY_LIST, 2);
            if let Err(e) = encode_tag_list_binary(out, &self.tags) {
                return Err(e);
            }
        }
        out.push(0);
        proof {
            assert(final(out)@ =~= old(out)@ + spec_process_binary(*self));
        }
        Ok(())
    }
}

/// A list of spans rendered back to back, compact.
pub open spec fn spec_spans_compact(s: Seq<Span>) -> Seq<u8>
    decreases s.len(),
{
    if s.len() == 0 {
        Seq::empty()
    } else {
        spec_spans_compact(s.drop_last()) + spec_span_compact(s.last())
    }
}

/// A list of spans rendered back to back, binary protocol.
pub open spec fn spec_spans_binary(s: Seq<Span>) -> Seq<u8>
    decreases s.len(),
{
    if s.len() == 0 {
        Seq::empty()
    } else {
        spec_spans_binary(s.drop_last()) + spec_span_binary(s.last())
    }
}

/// A span list that fits the wire.
pub open spec fn spec_spans_ok(s: Seq<Span>) -> bool {
    s.len() <= MAX_WIRE_LEN && forall|i: int| 0 <= i < s.len() ==> spec_span_ok(#[trigger] s[i])
}

/// `Batch` is a collection of spans reported out of process: the process
/// description and the spans reported together.
#[derive(Debug, Clone)]
pub struct Batch {
    pub process: Process,
    pub spans: Vec<Span>,
}

/// A batch that fits the wire.
pub open spec fn spec_batch_ok(b: Batch) -> bool {
    spec_process_ok(b.process) && spec_spans_ok(b.spans@)
}

/// The compact rendering of a batch struct: field 1 the process, field 2
/// the span list (present even when empty).
pub open spec fn spec_batch_compact(b: Batch) -> Seq<u8> {
    spec_compact_field_header(0, 1, COMPACT_STRUCT) + spec_process_compact(b.process)
        + spec_compact_field_header(1, 2, COMPACT_LIST) + spec_compact_list_header(
        b.spans@.len(),
        ELEMENT_STRUCT,
    ) + spec_spans_compact(b.spans@) + seq![0u8]
}

/// The binary-protocol rendering of a batch struct.
pub open spec fn spec_batch_binary(b: Batch) -> Seq<u8> {
    spec_binary_field_header(BINARY_STRUCT, 1) + spec_process_binary(b.process)
        + spec_binary_field_header(BINARY_LIST, 2) + spec_binary_list_header(
        b.spans@.len(),
        ELEMENT_STRUCT,
    ) + spec_spans_binary(b.spans@) + seq![0u8]
}

impl Batch {
    /// Builds the batch reported for `spans` under the process description
    /// `process`: each finished-span record is mapped into the schema.
    pub fn from_finished_spans(process: Process, spans: &Vec<FinishedSpan>) -> (r: Batch)
        ensures
            r.process == process,
            r.spans@.len() == spans@.len(),
            forall|i: int|
                0 <= i < spans@.len() ==> spec_span_matches(#[trigger] r.spans@[i], spans@[i]),
    {
        let mut out_spans: Vec<Span> = Vec::new();
        let mut i: usize = 0;
        while i < spans.len()
            invariant
                0 <= i <= spans@.len(),
                out_spans@.len() == i,
                forall|j: int|
                    0 <= j < i ==> spec_span_matches(#[trigger] out_spans@[j], spans@[j]),
            decreases spans@.len() - i,
        {
            out_spans.push(Span::from_finished(&spans[i]));
            i = i + 1;
        }
        Batch { process, spans: out_spans }
    }

    /// Appends the compact rendering of this batch.
    #[verifier::rlimit(80)]
    pub fn encode_compact(&self, out: &mut Vec<u8>) -> (r: Result<(), Error>)
        ensures
            r is Ok <==> spec_batch_ok(*self),
            r is Ok ==> final(out)@ == old(out)@ + spec_batch_compact(*self),
            r matches Err(e) ==> e.kind == ErrorKind::InvalidInput,
    {
        push_compact_field_header(out, 0, 1, COMPACT_STRUCT);
        if let Err(e) = self.process.encode_compact(out) {
            return Err(e);
        }
        push_compact_field_header(out, 1, 2, COMPACT_LIST);
        if self.spans.len() > MAX_WIRE_LEN {
            return Err(Error::invalid_input());
        }
        push_compact_list_header(out, self.spans.len(), ELEMENT_STRUCT);
        let ghost base = old(out)@ + spec_compact_field_header(0, 1, COMPACT_STRUCT as u8)
            + spec_process_compact(self.process) + spec_compact_field_header(1, 2, COMPACT_LIST as u8)
            + spec_compact_list_header(self.spans@.len(), ELEMENT_STRUCT as u8);
        let mut i: usize = 0;
        while i < self.spans.len()
            invariant
                0 <= i <= self.spans@.len(),
                out@ == base + spec_spans_compact(self.spans@.take(i as int)),
                forall|j: int| 0 <= j < i ==> spec_span_ok(#[trigger] self.spans@[j]),
            decreases self.spans@.len() - i,
        {
            if let Err(e) = self.spans[i].encode_compact(out) {
                return Err(e);
            }
            proof {
                assert(self.spans@.take(i + 1).drop_last() =~= self.spans@.take(i as int));
                assert(self.spans@.take(i + 1).last() == self.spans@[i as int]);
                assert(out@ =~= base + spec_spans_compact(self.spans@.take(i + 1)));
            }
            i = i + 1;
        }
        out.push(0);
        proof {
            assert(self.spans@.take(self.spans@.len() as int) =~= self.spans@);
            assert(final(out)@ =~= old(out)@ + spec_batch_compact(*self));
        }
        Ok(())
    }

    /// Appends the binary-protocol rendering of this batch.
    #[verifier::rlimit(80)]
    pub fn encode_binary(&self, out: &mut Vec<u8>) -> (r: Result<(), Error>)
        ensures
            r is Ok <==> spec_batch_ok(*self),
            r is Ok ==> final(out)@ == old(out)@ + spec_batch_binary(*self),
            r matches Err(e) ==> e.kind == ErrorKind::InvalidInput,
    {
        push_binary_field_header(out, BINARY_STRUCT, 1);
        if let Err(e) = self.process.encode_binary(out) {
            return Err(e);
        }
        push_binary_field_header(out, BINARY_LIST, 2);
        if self.spans.len() > MAX_WIRE_LEN {
            return Err(Error::invalid_input());
        }
        push_binary_list_header(out, self.spans.len(), ELEMENT_STRUCT);
        let ghost base = old(out)@ + spec_binary_field_header(BINARY_STRUCT as u8, 1)
            + spec_process_binary(self.process) + spec_binary_field_header(BINARY_LIST as u8, 2)
            + spec_binary_list_header(self.spans@.len(), ELEMENT_STRUCT as u8);
        let mut i: usize = 0;
        while i < self.spans.len()
            invariant
                0 <= i <= self.spans@.len(),
                out@ == base + spec_spans_binary(self.spans@.take(i as int)),
                forall|j: int| 0 <= j < i ==> spec_span_ok(#[trigger] self.spans@[j]),
            decreases self.spans@.len() - i,
        {
            if let Err(e) = self.spans[i].encode_binary(out) {
                return Err(e);
            }
            proof {
                assert(self.spans@.take(i + 1).drop_last() =~= self.spans@.take(i as int));
                assert(self.spans@.take(i + 1).last() == self.spans@[i as int]);
                assert(out@ =~= base + spec_spans_binary(self.spans@.take(i + 1)));
            }
            i = i + 1;
        }
        out.push(0);
        proof {
            assert(self.spans@.take(self.spans@.len() as int) =~= self.spans@);
            assert(final(out)@ =~= old(out)@ + spec_batch_binary(*self));
        }
        Ok(())
    }
}


/// A log record whose field list fits the wire once mapped.
pub open spec fn spec_log_record_ok(l: LogRecord) -> bool {
    l.fields@.len() <= MAX_WIRE_LEN && forall|j: int|
        0 <= j < l.fields@.len() ==> spec_tag_ok(spec_tag_of_log_field(#[trigger] l.fields@[j]))
}

/// A finished-span record that fits the wire once mapped: the operation
/// name and every mapped tag's strings fit the 32-bit length prefixes, as
/// do the list lengths (counting the extra debug tag when one is added).
pub open spec fn spec_finished_ok(f: FinishedSpan) -> bool {
    &&& spec_str_ok(f.operation_name@)
    &&& spec_filtered_refs(f.references@).len() <= MAX_WIRE_LEN
    &&& (if f.state@.debug_id.len() > 0 {
        f.tags@.len() + 1 <= MAX_WIRE_LEN && spec_str_ok(f.state@.debug_id)
    } else {
        f.tags@.len() <= MAX_WIRE_LEN
    })
    &&& (forall|i: int|
        0 <= i < f.tags@.len() ==> spec_tag_ok(spec_tag_of_span_tag(#[trigger] f.tags@[i])))
    &&& f.logs@.len() <= MAX_WIRE_LEN
    &&& (forall|i: int| 0 <= i < f.logs@.len() ==> spec_log_record_ok(#[trigger] f.logs@[i]))
}

/// The debug carrier key fits the wire.
proof fn lemma_debug_key_str_ok()
    ensures
        spec_str_ok("jaeger-debug-id"@),
{
    reveal_strlit("jaeger-debug-id");
    assert("jaeger-debug-id"@.len() == 15);
    assert(vstd::utf8::is_ascii_chars("jaeger-debug-id"@));
    vstd::utf8::is_ascii_chars_encode_utf8("jaeger-debug-id"@);
}

/// A log fits the wire exactly when the record it was mapped from does.
proof fn lemma_log_ok_of_matches(l: Log, r: LogRecord)
    requires
        spec_log_matches(l, r),
    ensures
        spec_log_ok(l) <==> spec_log_record_ok(r),
{
    let m = r.fields@.map(|i: int, f: LogField| spec_tag_of_log_field(f));
    assert(l.fields@.len() == r.fields@.len());
    if spec_log_ok(l) {
        assert forall|j: int| 0 <= j < r.fields@.len() implies spec_tag_ok(
            spec_tag_of_log_field(#[trigger] r.fields@[j]),
        ) by {
            assert(l.fields@[j] == m[j]);
            assert(m[j] == spec_tag_of_log_field(r.fields@[j]));
            assert(spec_tag_ok(l.fields@[j]));
        }
    }
    if spec_log_record_ok(r) {
        assert forall|j: int| 0 <= j < l.fields@.len() implies spec_tag_ok(
            #[trigger] l.fields@[j],
        ) by {
            assert(l.fields@[j] == m[j]);
            assert(m[j] == spec_tag_of_log_field(r.fields@[j]));
            assert(spec_tag_ok(spec_tag_of_log_field(r.fields@[j])));
        }
    }
}

/// A wire span fits the wire exactly when the record it was mapped from
/// does.
pub proof fn lemma_span_ok_of_matches(s: Span, f: FinishedSpan)
    requires
        spec_span_matches(s, f),
    ensures
        spec_span_ok(s) <==> spec_finished_ok(f),
{
    lemma_debug_key_str_ok();
    let base = f.tags@.map(|i: int, t: SpanTag| spec_tag_of_span_tag(t));
    assert(forall|i: int| 0 <= i < base.len() ==> #[trigger] base[i] == spec_tag_of_span_tag(
        f.tags@[i],
    ));
    let record_tags_ok = forall|i: int|
        0 <= i < f.tags@.len() ==> spec_tag_ok(spec_tag_of_span_tag(#[trigger] f.tags@[i]));
    if f.state@.debug_id.len() > 0 {
        let n = base.len() as int;
        assert(forall|i: int| 0 <= i < n ==> #[trigger] s.tags@[i] == s.tags@.take(n)[i]);
        assert(forall|i: int| 0 <= i < n ==> #[trigger] s.tags@[i] == base[i]);
        assert(spec_tag_ok(s.tags@.last()) <==> spec_str_ok(f.state@.debug_id));
        assert(s.tags@[s.tags@.len() - 1] == s.tags@.last());
        if spec_tags_ok(s.tags@) {
            assert forall|i: int| 0 <= i < f.tags@.len() implies spec_tag_ok(
                spec_tag_of_span_tag(#[trigger] f.tags@[i]),
            ) by {
                assert(spec_tag_ok(s.tags@[i]));
            }
            assert(spec_tag_ok(s.tags@[s.tags@.len() - 1]));
        }
        if s.tags@.len() <= MAX_WIRE_LEN && record_tags_ok && spec_str_ok(f.state@.debug_id) {
            assert forall|i: int| 0 <= i < s.tags@.len() implies spec_tag_ok(
                #[trigger] s.tags@[i],
            ) by {
                if i < n {
                    assert(s.tags@[i] == base[i]);
                    assert(spec_tag_ok(spec_tag_of_span_tag(f.tags@[i])));
                } else {
                    assert(s.tags@[i] == s.tags@.last());
                }
            }
        }
    } else {
        assert(s.tags@.len() == f.tags@.len());
        if spec_tags_ok(s.tags@) {
            assert forall|i: int| 0 <= i < f.tags@.len() implies spec_tag_ok(
                spec_tag_of_span_tag(#[trigger] f.tags@[i]),
            ) by {
                assert(s.tags@[i] == base[i]);
                assert(spec_tag_ok(s.tags@[i]));
            }
        }
        if record_tags_ok {
            assert forall|i: int| 0 <= i < s.tags@.len() implies spec_tag_ok(
                #[trigger] s.tags@[i],
            ) by {
                assert(s.tags@[i] == base[i]);
            }
        }
    }
    assert forall|i: int| 0 <= i < s.logs@.len() implies (spec_log_ok(#[trigger] s.logs@[i])
        <==> spec_log_record_ok(f.logs@[i])) by {
        lemma_log_ok_of_matches(s.logs@[i], f.logs@[i]);
    }
    assert(spec_logs_ok(s.logs@) <==> (f.logs@.len() <= MAX_WIRE_LEN && (forall|i: int|
        0 <= i < f.logs@.len() ==> spec_log_record_ok(#[trigger] f.logs@[i])))) by {
        if spec_logs_ok(s.logs@) {
            assert forall|i: int| 0 <= i < f.logs@.len() implies spec_log_record_ok(
                #[trigger] f.logs@[i],
            ) by {
                assert(spec_log_ok(s.logs@[i]));
            }
        }
        if f.logs@.len() <= MAX_WIRE_LEN && (forall|i: int|
            0 <= i < f.logs@.len() ==> spec_log_record_ok(#[trigger] f.logs@[i])) {
            assert forall|i: int| 0 <= i < s.logs@.len() implies spec_log_ok(
                #[trigger] s.logs@[i],
            ) by {
                assert(spec_log_record_ok(f.logs@[i]));
            }
        }
    }
}

} // verus!
