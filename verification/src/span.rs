//! Trace identifiers, the span-context state carried across processes, and
//! the finished-span record handed over by a tracing core for reporting.
use crate::error::Error;
use crate::error::ErrorKind;
use crate::hex::all_hex_digits;
use crate::hex::hex_value;
use crate::hex::is_hex_digit;
use crate::hex::lemma_hex_value_bound;
use crate::hex::lemma_min_hex_correct;
use crate::hex::lemma_min_hex_len;
use crate::hex::lemma_padded_hex_correct;
use crate::hex::min_hex;
use crate::hex::padded_hex;
use crate::hex::parse_hex_u64;
use crate::hex::pow16;
use crate::hex::push_min_hex;
use crate::hex::push_padded_hex;
use vstd::prelude::*;

verus! {

/// Flag bit marking a sampled (traced) span.
pub const FLAG_SAMPLED: u8 = 1;

/// Flag bit marking a debug span (forced sampling through a debug header).
pub const FLAG_DEBUG: u8 = 2;

/// Relies on `rand::random`: a fresh 64-bit value from the thread-local
/// generator.  Nothing is assumed about the outcome.
#[verifier::external_body]
pub(crate) fn random_u64() -> u64 {
    rand::random::<u64>()
}

/// Relies on `String::from_utf8`: ASCII bytes decode to the string whose
/// characters are those bytes.
#[verifier::external_body]
pub(crate) fn ascii_bytes_to_string(v: Vec<u8>) -> (r: String)
    requires
        forall|i: int| 0 <= i < v@.len() ==> v@[i] < 128,
    ensures
        r@ == bytes_as_chars(v@),
{
    String::from_utf8(v).unwrap_or_default()
}

/// The characters denoted by a sequence of ASCII bytes.
pub open spec fn bytes_as_chars(s: Seq<u8>) -> Seq<char> {
    s.map(|i: int, b: u8| b as char)
}

/// Setting a bit with `|` leaves that bit set.
proof fn lemma_or_sets_bit(x: u8)
    ensures
        (x | 2u8) & 2u8 != 0,
{
    assert((x | 2u8) & 2u8 != 0) by (bit_vector);
}

/// Unique 128-bit identifier of a trace, split into two 64-bit halves.
#[derive(Debug, Clone, Copy, PartialEq, Eq, Structural, PartialOrd, Ord, Hash)]
pub struct TraceId {
    pub high: u64,
    pub low: u64,
}

/// The textual rendering of a trace identifier: a 64-bit identifier (zero
/// high half) prints as plain shortest lowercase hex; otherwise the high
/// half prints shortest and the low half is zero-padded to 16 digits.
pub open spec fn spec_trace_id_bytes(id: TraceId) -> Seq<u8> {
    if id.high == 0 {
        min_hex(id.low as nat)
    } else {
        min_hex(id.high as nat) + padded_hex(id.low as nat, 16)
    }
}

/// Parsing a textual trace identifier: 1 to 16 hex digits fill the low half;
/// 17 to 32 hex digits split into a high part and the trailing 16 digits as
/// the low half; anything else is rejected.
pub open spec fn spec_parse_trace_id(s: Seq<u8>) -> Option<TraceId> {
    if 1 <= s.len() && s.len() <= 16 && all_hex_digits(s) {
        Some(TraceId { high: 0, low: hex_value(s) as u64 })
    } else if 17 <= s.len() && s.len() <= 32 && all_hex_digits(s) {
        Some(
            TraceId {
                high: hex_value(s.take(s.len() - 16)) as u64,
                low: hex_value(s.skip(s.len() - 16)) as u64,
            },
        )
    } else {
        None
    }
}

/// 16^16 is exactly 2^64, so 16 hex digits denote exactly the 64-bit values.
pub proof fn lemma_pow16_16()
    ensures
        pow16(16) == 0x1_0000_0000_0000_0000,
{
    reveal_with_fuel(vstd::arithmetic::power::pow, 17);
}

/// 16^k stays within 16^16 for k at most 16.
pub proof fn lemma_pow16_le_16(k: nat)
    requires
        k <= 16,
    ensures
        pow16(k) <= pow16(16),
{
    lemma_pow16_16();
    if k < 16 {
        vstd::arithmetic::power::lemma_pow_positive(16, k);
        vstd::arithmetic::power::lemma_pow_strictly_increases(16, k, 16);
    }
}

impl TraceId {
    /// Makes a randomly generated `TraceId`; both halves are drawn
    /// independently from the platform's 64-bit generator.
    pub fn new() -> Self {
        TraceId { high: random_u64(), low: random_u64() }
    }

    /// The textual rendering of this identifier, as bytes.
    pub fn to_hex_bytes(&self) -> (r: Vec<u8>)
        ensures
            r@ == spec_trace_id_bytes(*self),
    {
        let mut out: Vec<u8> = Vec::new();
        if self.high == 0 {
            push_min_hex(&mut out, self.low);
        } else {
            push_min_hex(&mut out, self.high);
            push_padded_hex(&mut out, self.low, 16);
            proof {
                assert(out@ =~= Seq::<u8>::empty() + min_hex(self.high as nat) + padded_hex(
                    self.low as nat,
                    16,
                ));
            }
        }
        proof {
            assert(out@ =~= spec_trace_id_bytes(*self));
        }
        out
    }

    /// The textual rendering of this identifier.
    pub fn to_string(&self) -> (r: String)
        ensures
            r@ == bytes_as_chars(spec_trace_id_bytes(*self)),
    {
        let bytes = self.to_hex_bytes();
        proof {
            lemma_trace_id_bytes_hex(*self);
            assert(forall|i: int|
                0 <= i < bytes@.len() ==> is_hex_digit(#[trigger] bytes@[i]) && bytes@[i] < 128);
        }
        ascii_bytes_to_string(bytes)
    }

    /// Parses the textual rendering of a trace identifier from bytes.
    ///
    /// Succeeds exactly on 1 to 32 hexadecimal digits (either case); in
    /// particular every input longer than 32 bytes is rejected as
    /// `InvalidInput`.
    pub fn from_hex_bytes(s: &[u8]) -> (r: Result<TraceId, Error>)
        ensures
            r is Ok <==> spec_parse_trace_id(s@) is Some,
            r matches Ok(id) ==> spec_parse_trace_id(s@) == Some(id),
            r matches Err(e) ==> e.kind == ErrorKind::InvalidInput,
            s@.len() > 32 ==> r is Err,
    {
        proof {
            lemma_pow16_16();
        }
        if s.len() == 0 {
            Err(Error::invalid_input())
        } else if s.len() <= 16 {
            proof {
                lemma_hex_value_bound(s@);
                lemma_pow16_le_16(s@.len());
            }
            match parse_hex_u64(s) {
                Some(low) => Ok(TraceId { high: 0, low }),
                None => Err(Error::invalid_input()),
            }
        } else if s.len() <= 32 {
            let (hi, lo) = s.split_at(s.len() - 16);
            proof {
                lemma_hex_value_bound(hi@);
                lemma_hex_value_bound(lo@);
                lemma_pow16_le_16(hi@.len());
                assert(s@ =~= hi@ + lo@);
                assert(s@.take(s@.len() - 16) =~= hi@);
                assert(s@.skip(s@.len() - 16) =~= lo@);
                assert(all_hex_digits(s@) <==> all_hex_digits(hi@) && all_hex_digits(lo@)) by {
                    if all_hex_digits(hi@) && all_hex_digits(lo@) {
                        assert(forall|i: int| 0 <= i < s@.len() ==> is_hex_digit(#[trigger] s@[i]))
                            by {
                            assert(forall|i: int|
                                0 <= i < hi@.len() ==> s@[i] == #[trigger] hi@[i]);
                            assert(forall|i: int|
                                0 <= i < lo@.len() ==> s@[i + hi@.len()] == #[trigger] lo@[i]);
                        }
                    }
                    if all_hex_digits(s@) {
                        assert(forall|i: int|
                            0 <= i < hi@.len() ==> is_hex_digit(#[trigger] hi@[i])) by {
                            assert(forall|i: int|
                                0 <= i < hi@.len() ==> #[trigger] hi@[i] == s@[i] && is_hex_digit(
                                    s@[i],
                                ));
                        }
                        assert(forall|i: int|
                            0 <= i < lo@.len() ==> is_hex_digit(#[trigger] lo@[i])) by {
                            assert(forall|i: int|
                                0 <= i < lo@.len() ==> #[trigger] lo@[i] == s@[i + hi@.len()]
                                    && is_hex_digit(s@[i + hi@.len()]));
                        }
                    }
                }
            }
            let high = match parse_hex_u64(hi) {
                Some(v) => v,
                None => {
                    return Err(Error::invalid_input());
                },
            };
            let low = match parse_hex_u64(lo) {
                Some(v) => v,
                None => {
                    return Err(Error::invalid_input());
                },
            };
            Ok(TraceId { high, low })
        } else {
            Err(Error::invalid_input())
        }
    }
}

impl std::str::FromStr for TraceId {
    type Err = Error;

    fn from_str(s: &str) -> Result<Self, Error> {
        TraceId::from_hex_bytes(s.as_bytes())
    }
}

/// The rendering of a trace identifier consists of hexadecimal digits.
pub proof fn lemma_trace_id_bytes_hex(id: TraceId)
    ensures
        all_hex_digits(spec_trace_id_bytes(id)),
        forall|i: int|
            0 <= i < spec_trace_id_bytes(id).len() ==> #[trigger] spec_trace_id_bytes(id)[i] < 128,
{
    lemma_pow16_16();
    lemma_min_hex_correct(id.low as nat);
    if id.high != 0 {
        lemma_min_hex_correct(id.high as nat);
        lemma_padded_hex_correct(id.low as nat, 16);
        let a = min_hex(id.high as nat);
        let b = padded_hex(id.low as nat, 16);
        let s = a + b;
        assert(forall|i: int| 0 <= i < s.len() ==> is_hex_digit(#[trigger] s[i])) by {
            assert(forall|i: int| 0 <= i < a.len() ==> s[i] == #[trigger] a[i]);
            assert(forall|i: int| 0 <= i < b.len() ==> s[i + a.len()] == #[trigger] b[i]);
            assert(forall|i: int|
                a.len() <= i < s.len() ==> #[trigger] s[i] == b[i - a.len()] && is_hex_digit(
                    b[i - a.len()],
                ));
        }
    }
}

/// Round-trip law for trace identifiers: parsing the textual rendering of
/// any identifier yields the identifier back, and the rendering is between
/// 1 and 32 digits long.
pub proof fn lemma_trace_id_round_trip(id: TraceId)
    ensures
        spec_parse_trace_id(spec_trace_id_bytes(id)) == Some(id),
        1 <= spec_trace_id_bytes(id).len() <= 32,
{
    lemma_pow16_16();
    lemma_trace_id_bytes_hex(id);
    if id.high == 0 {
        lemma_min_hex_correct(id.low as nat);
        lemma_min_hex_len(id.low as nat, 16);
    } else {
        let a = min_hex(id.high as nat);
        let b = padded_hex(id.low as nat, 16);
        let s = a + b;
        lemma_min_hex_correct(id.high as nat);
        lemma_min_hex_len(id.high as nat, 16);
        lemma_padded_hex_correct(id.low as nat, 16);
        assert(17 <= s.len() <= 32);
        assert(s.take(s.len() - 16) =~= a);
        assert(s.skip(s.len() - 16) =~= b);
    }
}

/// The mathematical value of a span-context state: the identifiers, the raw
/// flag bits, and the debug identifier (empty when absent).
pub ghost struct SpanContextValue {
    pub trace_id: TraceId,
    pub span_id: u64,
    pub flags: u8,
    pub debug_id: Seq<char>,
}

/// Jaeger-specific span context state: a trace identifier, a span
/// identifier, flag bits and an optional debug identifier.
#[derive(Debug, Clone)]
pub struct SpanContextState {
    trace_id: TraceId,
    span_id: u64,
    flags: u8,
    debug_id: String,
}

impl View for SpanContextState {
    type V = SpanContextValue;

    closed spec fn view(&self) -> SpanContextValue {
        SpanContextValue {
            trace_id: self.trace_id,
            span_id: self.span_id,
            flags: self.flags,
            debug_id: self.debug_id@,
        }
    }
}

impl SpanContextState {
    /// A context with a non-empty debug identifier always has the DEBUG bit
    /// set.
    pub open spec fn inv(&self) -> bool {
        self@.debug_id.len() > 0 ==> self@.flags & FLAG_DEBUG != 0
    }

    /// Returns the trace identifier of this span.
    pub fn trace_id(&self) -> (r: TraceId)
        ensures
            r == self@.trace_id,
    {
        self.trace_id
    }

    /// Returns the identifier of this span.
    pub fn span_id(&self) -> (r: u64)
        ensures
            r == self@.span_id,
    {
        self.span_id
    }

    /// Returns `true` if this span has been sampled (i.e., is being traced).
    pub fn is_sampled(&self) -> (r: bool)
        ensures
            r == (self@.flags & FLAG_SAMPLED != 0),
    {
        (self.flags & FLAG_SAMPLED) != 0
    }

    /// Returns the debug identifier of this span if one is set.
    pub fn debug_id(&self) -> (r: Option<&str>)
        ensures
            match r {
                Some(d) => self@.debug_id.len() > 0 && d@ == self@.debug_id,
                None => self@.debug_id.len() == 0,
            },
    {
        if self.debug_id.as_str().is_empty() {
            None
        } else {
            Some(self.debug_id.as_str())
        }
    }

    /// Returns the raw flag bits of this span.
    pub fn flags(&self) -> (r: u8)
        ensures
            r == self@.flags,
    {
        self.flags
    }

    /// Installs a non-empty debug identifier and sets the DEBUG bit; an
    /// empty identifier changes nothing.
    pub(crate) fn set_debug_id(&mut self, debug_id: String)
        ensures
            final(self)@.trace_id == old(self)@.trace_id,
            final(self)@.span_id == old(self)@.span_id,
            debug_id@.len() > 0 ==> final(self)@.debug_id == debug_id@ && final(self)@.flags == (
            old(self)@.flags | FLAG_DEBUG),
            debug_id@.len() == 0 ==> final(self)@ == old(self)@,
            old(self).inv() ==> final(self).inv(),
    {
        if !debug_id.as_str().is_empty() {
            proof {
                lemma_or_sets_bit(self.flags);
            }
            self.flags = self.flags | FLAG_DEBUG;
            self.debug_id = debug_id;
        }
    }

    /// A fresh root context: a random trace identifier, a random span
    /// identifier, and only the SAMPLED bit set.
    pub(crate) fn root() -> (r: Self)
        ensures
            r@.flags == FLAG_SAMPLED,
            r@.debug_id == Seq::<char>::empty(),
            r.inv(),
    {
        Self::with_trace_id(TraceId::new())
    }

    /// A fresh context inside the trace `trace_id`: a random span
    /// identifier and only the SAMPLED bit set.
    pub(crate) fn with_trace_id(trace_id: TraceId) -> (r: Self)
        ensures
            r@.trace_id == trace_id,
            r@.flags == FLAG_SAMPLED,
            r@.debug_id == Seq::<char>::empty(),
            r.inv(),
    {
        SpanContextState { trace_id, span_id: random_u64(), flags: FLAG_SAMPLED, debug_id: String::new() }
    }

    /// The context for a new span given its list of references: the trace
    /// identifier is inherited from the first reference when one exists,
    /// otherwise a fresh root trace is started.  This is the only rule by
    /// which the tracing core mints a context for a span.
    pub fn for_candidate(references: &Vec<SpanReference>) -> (r: Self)
        ensures
            references@.len() > 0 ==> r@.trace_id == references@[0].state@.trace_id,
            r@.flags == FLAG_SAMPLED,
            r@.debug_id == Seq::<char>::empty(),
            r.inv(),
    {
        if references.len() > 0 {
            Self::with_trace_id(references[0].state.trace_id())
        } else {
            Self::root()
        }
    }

    /// Assembles a context from raw parts read off a carrier; the flags are
    /// taken verbatim and the debug identifier starts out empty.
    pub(crate) fn from_wire_parts(trace_id: TraceId, span_id: u64, flags: u8) -> (r: Self)
        ensures
            r@.trace_id == trace_id,
            r@.span_id == span_id,
            r@.flags == flags,
            r@.debug_id == Seq::<char>::empty(),
            r.inv(),
    {
        SpanContextState { trace_id, span_id, flags, debug_id: String::new() }
    }
}

/// `SpanContextState` builder for constructing a context outside the tracer,
/// for example when handling a custom carrier format.
#[derive(Debug, Clone)]
pub struct SpanContextStateBuilder {
    trace_id: Option<TraceId>,
    span_id: Option<u64>,
    flags: u8,
    debug_id: String,
}

/// The mathematical value of a builder.
pub ghost struct SpanContextStateBuilderValue {
    pub trace_id: Option<TraceId>,
    pub span_id: Option<u64>,
    pub flags: u8,
    pub debug_id: Seq<char>,
}

impl View for SpanContextStateBuilder {
    type V = SpanContextStateBuilderValue;

    closed spec fn view(&self) -> SpanContextStateBuilderValue {
        SpanContextStateBuilderValue {
            trace_id: self.trace_id,
            span_id: self.span_id,
            flags: self.flags,
            debug_id: self.debug_id@,
        }
    }
}

impl SpanContextStateBuilder {
    /// A non-empty debug identifier always has the DEBUG bit set.
    pub open spec fn inv(&self) -> bool {
        self@.debug_id.len() > 0 ==> self@.flags & FLAG_DEBUG != 0
    }

    /// Makes a new `SpanContextStateBuilder` instance: identifiers unset,
    /// only the SAMPLED bit on, no debug identifier.
    pub fn new() -> (r: Self)
        ensures
            r@.trace_id is None,
            r@.span_id is None,
            r@.flags == FLAG_SAMPLED,
            r@.debug_id.len() == 0,
            r.inv(),
    {
        SpanContextStateBuilder {
            trace_id: None,
            span_id: None,
            flags: FLAG_SAMPLED,
            debug_id: String::new(),
        }
    }

    /// Sets the trace identifier; unset, a random one is drawn at `finish`.
    pub fn trace_id(self, trace_id: TraceId) -> (r: Self)
        ensures
            r@ == (SpanContextStateBuilderValue { trace_id: Some(trace_id), ..self@ }),
            self.inv() ==> r.inv(),
    {
        SpanContextStateBuilder { trace_id: Some(trace_id), ..self }
    }

    /// Sets the span identifier; unset, a random one is drawn at `finish`.
    pub fn span_id(self, span_id: u64) -> (r: Self)
        ensures
            r@ == (SpanContextStateBuilderValue { span_id: Some(span_id), ..self@ }),
            self.inv() ==> r.inv(),
    {
        SpanContextStateBuilder { span_id: Some(span_id), ..self }
    }

    /// Sets a non-empty debug identifier and with it the DEBUG bit; an empty
    /// identifier changes nothing.
    pub fn debug_id(self, debug_id: String) -> (r: Self)
        ensures
            debug_id@.len() > 0 ==> r@ == (SpanContextStateBuilderValue {
                flags: self@.flags | FLAG_DEBUG,
                debug_id: debug_id@,
                ..self@
            }),
            debug_id@.len() == 0 ==> r@ == self@,
            self.inv() ==> r.inv(),
    {
        if !debug_id.as_str().is_empty() {
            proof {
                lemma_or_sets_bit(self.flags);
            }
            let flags = self.flags | FLAG_DEBUG;
            SpanContextStateBuilder { flags, debug_id, ..self }
        } else {
            self
        }
    }

    /// Builds the context: unset identifiers are filled with random values,
    /// everything else is taken from the builder.
    pub fn finish(self) -> (r: SpanContextState)
        requires
            self.inv(),
        ensures
            self@.trace_id matches Some(t) ==> r@.trace_id == t,
            self@.span_id matches Some(sid) ==> r@.span_id == sid,
            r@.flags == self@.flags,
            r@.debug_id == self@.debug_id,
            r.inv(),
    {
        let trace_id = match self.trace_id {
            Some(t) => t,
            None => TraceId::new(),
        };
        let span_id = match self.span_id {
            Some(sid) => sid,
            None => random_u64(),
        };
        SpanContextState { trace_id, span_id, flags: self.flags, debug_id: self.debug_id }
    }
}

/// How a span relates to a span it references.
#[derive(Debug, Clone, Copy, PartialEq, Eq, Structural)]
pub enum SpanReferenceKind {
    ChildOf,
    FollowsFrom,
}

/// A causal reference from a span to the context of another span.
#[derive(Debug, Clone)]
pub struct SpanReference {
    pub kind: SpanReferenceKind,
    pub state: SpanContextState,
}

/// A tag value attached to a span or to the reporting process.  A
/// floating-point tag carries the IEEE-754 bit pattern of its value; the
/// surrounding shell converts at the boundary.
#[derive(Debug, Clone)]
pub enum TagValue {
    Text(String),
    Boolean(bool),
    Integer(i64),
    FloatBits(u64),
}

/// A named tag of a span or of the reporting process.
#[derive(Debug, Clone)]
pub struct SpanTag {
    pub name: String,
    pub value: TagValue,
}

/// One named field of a log record.
#[derive(Debug, Clone)]
pub struct LogField {
    pub name: String,
    pub value: String,
}

/// A timed log record of a span: a timestamp in microseconds since the Unix
/// epoch and a list of fields.
#[derive(Debug, Clone)]
pub struct LogRecord {
    pub timestamp_micros: i64,
    pub fields: Vec<LogField>,
}

/// Everything the tracing core hands over about one finished span; times
/// are microseconds since the Unix epoch.
#[derive(Debug, Clone)]
pub struct FinishedSpan {
    pub state: SpanContextState,
    pub operation_name: String,
    pub start_time_micros: i64,
    pub finish_time_micros: i64,
    pub references: Vec<SpanReference>,
    pub tags: Vec<SpanTag>,
    pub logs: Vec<LogRecord>,
}

} // verus!
