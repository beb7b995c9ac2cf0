//! The three carrier codecs for span contexts.
//!
//! The text-map and HTTP-header carriers share one textual line format,
//! `"<trace_id>:<span_id>:<parent_id>:<flags>"`, all in lowercase hex; the
//! historical `parent_id` token is always written as `0` and ignored (but
//! validated) on decode.  The binary carrier is a fixed 37-byte big-endian
//! layout.  HTTP-header values are percent-decoded before parsing, and the
//! two carrier key names are matched case-insensitively.
use crate::error::Error;
use crate::error::ErrorKind;
use crate::hex::all_hex_digits;
use crate::hex::hex_digit_value;
use crate::hex::hex_value;
use crate::hex::is_hex_digit;
use crate::hex::lemma_min_hex_correct;
use crate::hex::min_hex;
use crate::hex::parse_hex_u64;
use crate::hex::parse_hex_u8;
use crate::hex::push_min_hex;
use crate::span::ascii_bytes_to_string;
use crate::span::bytes_as_chars;
use crate::span::lemma_trace_id_bytes_hex;
use crate::span::lemma_trace_id_round_trip;
use crate::span::spec_parse_trace_id;
use crate::span::spec_trace_id_bytes;
use crate::span::SpanContextState;
use crate::span::SpanContextValue;
use crate::span::TraceId;
use crate::span::FLAG_DEBUG;
use vstd::prelude::*;

verus! {

/// The textual line rendering of a span context: trace id, span id, the
/// always-zero parent id, and the flags, colon separated, all lowercase hex.
pub open spec fn spec_ctx_line(v: SpanContextValue) -> Seq<u8> {
    spec_trace_id_bytes(v.trace_id) + seq![58u8] + min_hex(v.span_id as nat) + seq![58u8]
        + seq![48u8] + seq![58u8] + min_hex(v.flags as nat)
}

/// Index of the first occurrence of `b` in `s` at or after `from`, or the
/// length of `s` when there is none.
pub open spec fn find_byte(s: Seq<u8>, b: u8, from: int) -> int
    decreases s.len() - from,
{
    if from >= s.len() {
        s.len() as int
    } else if 0 <= from && s[from] == b {
        from
    } else {
        find_byte(s, b, from + 1)
    }
}

/// The four colon-separated tokens of a span-context line, when the line
/// has at least three colons (everything after the third colon is the last
/// token, as `splitn` would produce).
pub open spec fn spec_ctx_tokens(s: Seq<u8>) -> Option<(Seq<u8>, Seq<u8>, Seq<u8>, Seq<u8>)> {
    let i1 = find_byte(s, 58, 0);
    let i2 = find_byte(s, 58, i1 + 1);
    let i3 = find_byte(s, 58, i2 + 1);
    if i3 >= s.len() {
        None
    } else {
        Some(
            (
                s.take(i1),
                s.subrange(i1 + 1, i2),
                s.subrange(i2 + 1, i3),
                s.skip(i3 + 1),
            ),
        )
    }
}

/// Parsing a span-context line: the four tokens must be present, the trace
/// id must parse, the span id and the (discarded) parent id must be hex
/// values fitting 64 bits, and the flags a hex value fitting 8 bits.  The
/// flags are taken verbatim from the wire; the debug identifier is empty.
pub open spec fn spec_parse_ctx(s: Seq<u8>) -> Option<SpanContextValue> {
    match spec_ctx_tokens(s) {
        None => None,
        Some((t0, t1, t2, t3)) => match spec_parse_trace_id(t0) {
            None => None,
            Some(tid) => if 1 <= t1.len() && all_hex_digits(t1) && hex_value(t1) <= u64::MAX && 1
                <= t2.len() && all_hex_digits(t2) && hex_value(t2) <= u64::MAX && 1 <= t3.len()
                && all_hex_digits(t3) && hex_value(t3) <= u8::MAX {
                Some(
                    SpanContextValue {
                        trace_id: tid,
                        span_id: hex_value(t1) as u64,
                        flags: hex_value(t3) as u8,
                        debug_id: Seq::empty(),
                    },
                )
            } else {
                None
            },
        },
    }
}

/// Every byte of a span-context line is printable ASCII (hex digits, the
/// colon, and the zero digit), so the line carries over into a string
/// unchanged.
pub proof fn lemma_ctx_line_ascii(v: SpanContextValue)
    ensures
        forall|i: int| 0 <= i < spec_ctx_line(v).len() ==> #[trigger] spec_ctx_line(v)[i] < 128,
        forall|i: int| 0 <= i < spec_ctx_line(v).len() ==> #[trigger] spec_ctx_line(v)[i] != 37,
{
    lemma_trace_id_bytes_hex(v.trace_id);
    lemma_min_hex_correct(v.span_id as nat);
    lemma_min_hex_correct(v.flags as nat);
    let a = spec_trace_id_bytes(v.trace_id);
    let b = min_hex(v.span_id as nat);
    let c = min_hex(v.flags as nat);
    let s = spec_ctx_line(v);
    assert forall|i: int| 0 <= i < s.len() implies #[trigger] s[i] < 128 && s[i] != 37 by {
        assert(s[i] == 58 || s[i] == 48 || is_hex_digit(s[i])) by {
            if i < a.len() {
                assert(s[i] == a[i] && is_hex_digit(a[i]));
            } else if i == a.len() {
                assert(s[i] == 58);
            } else if i < a.len() + 1 + b.len() {
                assert(s[i] == b[i - a.len() - 1] && is_hex_digit(b[i - a.len() - 1]));
            } else if i == a.len() + 1 + b.len() {
                assert(s[i] == 58);
            } else if i == a.len() + 2 + b.len() {
                assert(s[i] == 48);
            } else if i == a.len() + 3 + b.len() {
                assert(s[i] == 58);
            } else {
                assert(s[i] == c[i - a.len() - b.len() - 4] && is_hex_digit(
                    c[i - a.len() - b.len() - 4],
                ));
            }
        }
    }
}

/// Finds a byte at a known position: if `b` first occurs at `k` within
/// `[from, len)`, the search from `from` lands on `k`.
proof fn lemma_find_byte_at(s: Seq<u8>, b: u8, from: int, k: int)
    requires
        0 <= from <= k < s.len(),
        s[k] == b,
        forall|i: int| from <= i < k ==> s[i] != b,
    ensures
        find_byte(s, b, from) == k,
    decreases k - from,
{
    if from < k {
        lemma_find_byte_at(s, b, from + 1, k);
    }
}

/// Round-trip law for the textual line codec: parsing the printed line of
/// any context yields the trace identifier, the span identifier and the
/// flags back; the parent token is re-zeroed and the debug identifier is
/// not carried.
pub proof fn lemma_ctx_line_round_trip(v: SpanContextValue)
    ensures
        spec_parse_ctx(spec_ctx_line(v)) == Some(
            SpanContextValue { debug_id: Seq::empty(), ..v },
        ),
{
    let a = spec_trace_id_bytes(v.trace_id);
    let b = min_hex(v.span_id as nat);
    let c = min_hex(v.flags as nat);
    let s = spec_ctx_line(v);
    lemma_trace_id_round_trip(v.trace_id);
    lemma_trace_id_bytes_hex(v.trace_id);
    lemma_min_hex_correct(v.span_id as nat);
    lemma_min_hex_correct(v.flags as nat);
    let la = a.len() as int;
    let lb = b.len() as int;
    let lc = c.len() as int;
    assert(s.len() == la + lb + lc + 4);
    assert(s[la] == 58);
    assert(s[la + 1 + lb] == 58);
    assert(s[la + 2 + lb] == 48);
    assert(s[la + 3 + lb] == 58);
    assert(forall|i: int| 0 <= i < la ==> s[i] == a[i] && is_hex_digit(#[trigger] s[i]));
    assert(forall|i: int|
        la + 1 <= i < la + 1 + lb ==> s[i] == b[i - la - 1] && is_hex_digit(#[trigger] s[i]));
    assert(forall|i: int|
        la + 4 + lb <= i < s.len() ==> s[i] == c[i - la - 4 - lb] && is_hex_digit(
            #[trigger] s[i],
        ));
    lemma_find_byte_at(s, 58, 0, la);
    lemma_find_byte_at(s, 58, la + 1, la + 1 + lb);
    lemma_find_byte_at(s, 58, la + 2 + lb, la + 3 + lb);
    let i1 = find_byte(s, 58, 0);
    let i2 = find_byte(s, 58, i1 + 1);
    let i3 = find_byte(s, 58, i2 + 1);
    assert(i1 == la && i2 == la + 1 + lb && i3 == la + 3 + lb);
    assert(s.take(i1) =~= a);
    assert(s.subrange(i1 + 1, i2) =~= b);
    assert(s.subrange(i2 + 1, i3) =~= seq![48u8]);
    assert(s.skip(i3 + 1) =~= c);
    assert(hex_value(seq![48u8]) == 0) by {
        let z = seq![48u8];
        assert(z.len() == 1);
        assert(z.last() == 48u8);
        assert(z.drop_last() =~= Seq::<u8>::empty());
        assert(hex_value(z) == hex_value(z.drop_last()) * 16 + hex_digit_value(48u8));
        assert(hex_digit_value(48u8) == 0);
    }
    assert(all_hex_digits(seq![48u8]));
    assert(hex_value(b) == v.span_id as nat && hex_value(c) == v.flags as nat);
    assert(spec_parse_ctx(s) == Some(SpanContextValue { debug_id: Seq::empty(), ..v }));
}

/// Finds the first colon in `s` at or after `from`.
fn find_colon(s: &[u8], from: usize) -> (r: usize)
    requires
        from <= s@.len(),
    ensures
        r == find_byte(s@, 58, from as int),
        from <= r <= s@.len(),
    decreases s@.len() - from,
{
    if from >= s.len() {
        s.len()
    } else if *vstd::slice::slice_index_get(s, from) == 58 {
        from
    } else {
        find_colon(s, from + 1)
    }
}

impl SpanContextState {
    /// The textual line rendering of this context, as bytes.
    pub fn to_wire_bytes(&self) -> (r: Vec<u8>)
        ensures
            r@ == spec_ctx_line(self@),
    {
        let mut out: Vec<u8> = self.trace_id().to_hex_bytes();
        out.push(58);
        push_min_hex(&mut out, self.span_id());
        out.push(58);
        out.push(48);
        out.push(58);
        push_min_hex(&mut out, self.flags() as u64);
        proof {
            assert(out@ =~= spec_ctx_line(self@));
        }
        out
    }

    /// The textual line rendering of this context.
    pub fn to_string(&self) -> (r: String)
        ensures
            r@ == bytes_as_chars(spec_ctx_line(self@)),
    {
        let bytes = self.to_wire_bytes();
        proof {
            lemma_ctx_line_ascii(self@);
        }
        ascii_bytes_to_string(bytes)
    }

    /// Parses the textual line rendering of a span context.
    ///
    /// Succeeds exactly when the four colon-separated tokens are present
    /// and well formed; the parsed context takes the flags verbatim from
    /// the line, discards the parent token, and has no debug identifier.
    pub fn parse_wire_bytes(s: &[u8]) -> (r: Result<SpanContextState, Error>)
        ensures
            r is Ok <==> spec_parse_ctx(s@) is Some,
            r matches Ok(st) ==> spec_parse_ctx(s@) == Some(st@) && st.inv(),
            r matches Err(e) ==> e.kind == ErrorKind::InvalidInput,
    {
        let i1 = find_colon(s, 0);
        let i2 = if i1 < s.len() {
            find_colon(s, i1 + 1)
        } else {
            proof {
                assert(find_byte(s@, 58, i1 + 1) == s@.len());
            }
            s.len()
        };
        let i3 = if i2 < s.len() {
            find_colon(s, i2 + 1)
        } else {
            proof {
                assert(find_byte(s@, 58, i2 + 1) == s@.len());
            }
            s.len()
        };
        if i3 >= s.len() {
            return Err(Error::invalid_input());
        }
        let t0 = vstd::slice::slice_subrange(s, 0, i1);
        let t1 = vstd::slice::slice_subrange(s, i1 + 1, i2);
        let t2 = vstd::slice::slice_subrange(s, i2 + 1, i3);
        let t3 = vstd::slice::slice_subrange(s, i3 + 1, s.len());
        let trace_id = match TraceId::from_hex_bytes(t0) {
            Ok(tid) => tid,
            Err(e) => {
                return Err(e);
            },
        };
        let span_id = match parse_hex_u64(t1) {
            Some(x) => x,
            None => {
                return Err(Error::invalid_input());
            },
        };
        let _parent_span_id = match parse_hex_u64(t2) {
            Some(x) => x,
            None => {
                return Err(Error::invalid_input());
            },
        };
        let flags = match parse_hex_u8(t3) {
            Some(x) => x,
            None => {
                return Err(Error::invalid_input());
            },
        };
        proof {
            assert(s@.take(i1 as int) =~= t0@);
            assert(s@.subrange(i1 + 1, i2 as int) == t1@);
            assert(s@.subrange(i2 + 1, i3 as int) == t2@);
            assert(s@.skip(i3 + 1) =~= t3@);
        }
        Ok(SpanContextState::from_wire_parts(trace_id, span_id, flags))
    }
}


/// Percent-decoding exactly as the `percent-encoding` crate performs it:
/// `%XY` with two hexadecimal digits becomes the byte `XY`; a `%` not
/// followed by two hexadecimal digits passes through unchanged.
pub open spec fn spec_percent_decode(s: Seq<u8>) -> Seq<u8>
    decreases s.len(),
{
    if s.len() == 0 {
        Seq::empty()
    } else if s[0] == 37 && s.len() >= 3 && is_hex_digit(s[1]) && is_hex_digit(s[2]) {
        seq![(hex_digit_value(s[1]) * 16 + hex_digit_value(s[2])) as u8] + spec_percent_decode(
            s.skip(3),
        )
    } else {
        seq![s[0]] + spec_percent_decode(s.skip(1))
    }
}

/// Relies on `percent_encoding::percent_decode`: `%XY` hexadecimal escape
/// sequences decode to single bytes and every other byte passes through,
/// which is what `spec_percent_decode` states.
#[verifier::external_body]
fn percent_decode_bytes(s: &[u8]) -> (r: Vec<u8>)
    ensures
        r@ == spec_percent_decode(s@),
{
    percent_encoding::percent_decode(s).collect::<Vec<u8>>()
}

/// Relies on `str::from_utf8`: it succeeds exactly on well-formed UTF-8 and
/// decodes it to the characters that `decode_utf8` describes.
#[verifier::external_body]
fn utf8_to_string(v: &[u8]) -> (r: Option<String>)
    ensures
        r is Some <==> vstd::utf8::valid_utf8(v@),
        r matches Some(s) ==> s@ == vstd::utf8::decode_utf8(v@),
{
    std::str::from_utf8(v).ok().map(|s| s.to_owned())
}

/// Percent-decoding an input without a percent sign leaves it unchanged.
pub proof fn lemma_percent_decode_plain(s: Seq<u8>)
    requires
        forall|i: int| 0 <= i < s.len() ==> s[i] != 37,
    ensures
        spec_percent_decode(s) == s,
    decreases s.len(),
{
    if s.len() == 0 {
        assert(spec_percent_decode(s) =~= s);
    } else {
        assert(s[0] != 37);
        lemma_percent_decode_plain(s.skip(1));
        assert(seq![s[0]] + s.skip(1) =~= s);
    }
}

/// The ASCII-lowercased code of a character (only letters `A` to `Z` are
/// affected).
pub open spec fn lower_code(c: char) -> u32 {
    if 65 <= c as u32 && c as u32 <= 90 {
        (c as u32 + 32) as u32
    } else {
        c as u32
    }
}

/// ASCII case-insensitive equality of two character strings, as
/// `eq_ignore_ascii_case` decides it.
pub open spec fn eq_ignore_case(a: Seq<char>, b: Seq<char>) -> bool {
    a.len() == b.len() && forall|i: int|
        0 <= i < a.len() ==> lower_code(#[trigger] a[i]) == lower_code(b[i])
}

/// The ASCII-lowercased code of one character.
fn lower_char_code(c: char) -> (r: u32)
    ensures
        r == lower_code(c),
{
    let code = c as u32;
    if 65 <= code && code <= 90 {
        code + 32
    } else {
        code
    }
}

/// Compares two strings ASCII-case-insensitively.
fn eq_ignore_ascii_case_str(a: &str, b: &str) -> (r: bool)
    ensures
        r == eq_ignore_case(a@, b@),
{
    let alen = a.unicode_len();
    let blen = b.unicode_len();
    if alen != blen {
        return false;
    }
    let mut i: usize = 0;
    while i < alen
        invariant
            alen == a@.len(),
            a@.len() == b@.len(),
            0 <= i <= alen,
            forall|j: int| 0 <= j < i ==> lower_code(#[trigger] a@[j]) == lower_code(b@[j]),
        decreases alen - i,
    {
        let ca = a.get_char(i);
        let cb = b.get_char(i);
        if lower_char_code(ca) != lower_char_code(cb) {
            proof {
                assert(lower_code(a@[i as int]) != lower_code(b@[i as int]));
            }
            return false;
        }
        i = i + 1;
    }
    true
}

/// The value under `key` in a text-map carrier; keys are matched
/// case-insensitively on read, and with duplicate entries the last
/// matching one wins (a map carrier holds each key once).
pub open spec fn spec_text_map_lookup(entries: Seq<(String, String)>, key: Seq<char>) -> Option<
    Seq<char>,
>
    decreases entries.len(),
{
    if entries.len() == 0 {
        None
    } else if eq_ignore_case(entries.last().0@, key) {
        Some(entries.last().1@)
    } else {
        spec_text_map_lookup(entries.drop_last(), key)
    }
}

/// A context made of nothing but a debug identifier: zero trace and span
/// identifiers, only the DEBUG bit set.
pub open spec fn spec_debug_only(d: Seq<char>) -> SpanContextValue {
    SpanContextValue {
        trace_id: TraceId { high: 0, low: 0 },
        span_id: 0,
        flags: FLAG_DEBUG,
        debug_id: d,
    }
}

/// Installing a carried debug value into a parsed context: a non-empty
/// debug value replaces the context's (empty) debug identifier and sets the
/// DEBUG bit; an empty one changes nothing.
pub open spec fn spec_apply_debug(ctx: SpanContextValue, debug_val: Option<Seq<char>>) -> SpanContextValue {
    match debug_val {
        Some(d) => if d.len() > 0 {
            SpanContextValue { flags: ctx.flags | FLAG_DEBUG, debug_id: d, ..ctx }
        } else {
            ctx
        },
        None => ctx,
    }
}

/// What extraction yields from the two relevant carrier values: a present
/// trace-context value is percent-decoded and parsed (malformed is an
/// error); without one, a debug value alone still yields a debug-only
/// context; with neither there is no context, which is not an error.
pub open spec fn spec_extract(trace_val: Option<Seq<u8>>, debug_val: Option<Seq<char>>) -> Result<
    Option<SpanContextValue>,
    ErrorKind,
> {
    match trace_val {
        Some(v) => match spec_parse_ctx(spec_percent_decode(v)) {
            None => Err(ErrorKind::InvalidInput),
            Some(ctx) => Ok(Some(spec_apply_debug(ctx, debug_val))),
        },
        None => match debug_val {
            Some(d) => Ok(Some(spec_debug_only(d))),
            None => Ok(None),
        },
    }
}

/// The view of an optionally borrowed string.
pub open spec fn view_opt_str(o: Option<&String>) -> Option<Seq<char>> {
    match o {
        Some(s) => Some(s@),
        None => None,
    }
}

/// The trace-context value of a text-map carrier, as the bytes the parser
/// will see.
pub open spec fn spec_text_map_trace_bytes(entries: Seq<(String, String)>) -> Option<Seq<u8>> {
    match spec_text_map_lookup(entries, "uber-trace-id"@) {
        Some(s) => Some(vstd::utf8::encode_utf8(s)),
        None => None,
    }
}

impl SpanContextState {
    /// Writes this context into a text-map carrier: one entry under the
    /// trace-context key, holding the textual line rendering.  Baggage
    /// items are a known gap of this revision and are not written.
    pub fn inject_to_text_map(&self, carrier: &mut Vec<(String, String)>)
        ensures
            final(carrier)@.len() == old(carrier)@.len() + 1,
            final(carrier)@.drop_last() == old(carrier)@,
            final(carrier)@.last().0@ == "uber-trace-id"@,
            final(carrier)@.last().1@ == bytes_as_chars(spec_ctx_line(self@)),
    {
        let key = crate::constants::tracer_context_header_name().to_owned();
        let value = self.to_string();
        carrier.push((key, value));
        proof {
            assert(final(carrier)@.drop_last() =~= old(carrier)@);
        }
    }

    /// Reads a context out of a text-map carrier.
    ///
    /// The trace-context key and the debug key are matched
    /// case-insensitively (they are written in lower case); the
    /// trace-context value is percent-decoded before parsing.  A carrier
    /// with neither key yields no context, which is not an error.
    pub fn extract_from_text_map(carrier: &Vec<(String, String)>) -> (r: Result<
        Option<SpanContextState>,
        Error,
    >)
        ensures
            ({
                let se = spec_extract(
                    spec_text_map_trace_bytes(carrier@),
                    spec_text_map_lookup(carrier@, "jaeger-debug-id"@),
                );
                &&& (r is Err <==> se is Err)
                &&& (r matches Err(e) ==> e.kind == ErrorKind::InvalidInput)
                &&& (r matches Ok(opt) ==> match (opt, se) {
                    (Some(st), Ok(Some(v))) => st@ == v && st.inv(),
                    (None, Ok(None)) => true,
                    _ => false,
                })
            }),
    {
        let key_trace = crate::constants::tracer_context_header_name();
        let key_debug = crate::constants::jaeger_debug_header();
        let ghost gk_trace: Seq<char> = "uber-trace-id"@;
        let ghost gk_debug: Seq<char> = "jaeger-debug-id"@;
        proof {
            reveal_strlit("uber-trace-id");
            reveal_strlit("jaeger-debug-id");
            assert(gk_trace.len() != gk_debug.len());
        }
        let mut trace_val: Option<&String> = None;
        let mut debug_val: Option<&String> = None;
        let mut i: usize = 0;
        while i < carrier.len()
            invariant
                0 <= i <= carrier@.len(),
                key_trace@ == gk_trace,
                key_debug@ == gk_debug,
                gk_trace.len() != gk_debug.len(),
                view_opt_str(trace_val) == spec_text_map_lookup(carrier@.take(i as int), gk_trace),
                view_opt_str(debug_val) == spec_text_map_lookup(carrier@.take(i as int), gk_debug),
            decreases carrier@.len() - i,
        {
            proof {
                assert(carrier@.take(i + 1).drop_last() =~= carrier@.take(i as int));
                assert(carrier@.take(i + 1).last() == carrier@[i as int]);
            }
            let entry = &carrier[i];
            if eq_ignore_ascii_case_str(entry.0.as_str(), key_trace) {
                trace_val = Some(&entry.1);
                proof {
                    assert(!eq_ignore_case(entry.0@, gk_debug));
                    assert(spec_text_map_lookup(carrier@.take(i + 1), gk_trace) == Some(
                        carrier@[i as int].1@,
                    ));
                    assert(spec_text_map_lookup(carrier@.take(i + 1), gk_debug)
                        == spec_text_map_lookup(carrier@.take(i as int), gk_debug));
                }
            } else if eq_ignore_ascii_case_str(entry.0.as_str(), key_debug) {
                debug_val = Some(&entry.1);
                proof {
                    assert(spec_text_map_lookup(carrier@.take(i + 1), gk_debug) == Some(
                        carrier@[i as int].1@,
                    ));
                    assert(spec_text_map_lookup(carrier@.take(i + 1), gk_trace)
                        == spec_text_map_lookup(carrier@.take(i as int), gk_trace));
                }
            } else {
                proof {
                    assert(spec_text_map_lookup(carrier@.take(i + 1), gk_debug)
                        == spec_text_map_lookup(carrier@.take(i as int), gk_debug));
                    assert(spec_text_map_lookup(carrier@.take(i + 1), gk_trace)
                        == spec_text_map_lookup(carrier@.take(i as int), gk_trace));
                }
            }
            i = i + 1;
        }
        proof {
            assert(carrier@.take(carrier@.len() as int) =~= carrier@);
        }
        match trace_val {
            Some(tv) => {
                let decoded = percent_decode_bytes(tv.as_str().as_bytes());
                match SpanContextState::parse_wire_bytes(decoded.as_slice()) {
                    Ok(mut st) => {
                        if let Some(dv) = debug_val {
                            st.set_debug_id(dv.clone());
                        }
                        Ok(Some(st))
                    },
                    Err(_) => Err(Error::invalid_input()),
                }
            },
            None => {
                match debug_val {
                    Some(dv) => {
                        let mut st = SpanContextState::from_wire_parts(
                            TraceId { high: 0, low: 0 },
                            0,
                            FLAG_DEBUG,
                        );
                        st.set_debug_id(dv.clone());
                        proof {
                            assert(2u8 | 2u8 == 2u8) by (bit_vector);
                            if dv@.len() == 0 {
                                assert(dv@ =~= Seq::<char>::empty());
                            }
                        }
                        Ok(Some(st))
                    },
                    None => Ok(None),
                }
            },
        }
    }
}


/// One pass over the ordered header fields starting at position `i`, with
/// the values gathered so far: the last trace-context value and the last
/// debug value win, and the first malformed value of either kind stops
/// extraction with an error.  Key names match case-insensitively.
pub open spec fn spec_http_scan(
    fields: Seq<(String, Vec<u8>)>,
    i: int,
    st: Option<SpanContextValue>,
    dbg: Option<Seq<char>>,
) -> Result<(Option<SpanContextValue>, Option<Seq<char>>), ErrorKind>
    decreases fields.len() - i,
{
    if i < 0 || i >= fields.len() {
        Ok((st, dbg))
    } else if eq_ignore_case(fields[i].0@, "uber-trace-id"@) {
        match spec_parse_ctx(spec_percent_decode(fields[i].1@)) {
            None => Err(ErrorKind::InvalidInput),
            Some(v) => spec_http_scan(fields, i + 1, Some(v), dbg),
        }
    } else if eq_ignore_case(fields[i].0@, "jaeger-debug-id"@) {
        if vstd::utf8::valid_utf8(fields[i].1@) {
            spec_http_scan(fields, i + 1, st, Some(vstd::utf8::decode_utf8(fields[i].1@)))
        } else {
            Err(ErrorKind::InvalidInput)
        }
    } else {
        spec_http_scan(fields, i + 1, st, dbg)
    }
}

/// What HTTP-header extraction yields from the ordered header fields: the
/// gathered trace context with the gathered debug value applied; a debug
/// value alone still yields a debug-only context; neither yields no
/// context, which is not an error.
pub open spec fn spec_http_extract(fields: Seq<(String, Vec<u8>)>) -> Result<
    Option<SpanContextValue>,
    ErrorKind,
> {
    match spec_http_scan(fields, 0, None, None) {
        Err(e) => Err(e),
        Ok((st, dbg)) => match st {
            Some(ctx) => Ok(Some(spec_apply_debug(ctx, dbg))),
            None => match dbg {
                Some(d) => Ok(Some(spec_debug_only(d))),
                None => Ok(None),
            },
        },
    }
}

/// The view of an optional context state.
pub open spec fn view_opt_state(o: Option<SpanContextState>) -> Option<SpanContextValue> {
    match o {
        Some(st) => Some(st@),
        None => None,
    }
}

/// The view of an optional owned string.
pub open spec fn view_opt_string(o: Option<String>) -> Option<Seq<char>> {
    match o {
        Some(s) => Some(s@),
        None => None,
    }
}

impl SpanContextState {
    /// Writes this context into an HTTP-header carrier: one field under the
    /// (lowercase) trace-context name, holding the textual line rendering.
    /// Baggage items are a known gap of this revision and are not written.
    pub fn inject_to_http_header(&self, carrier: &mut Vec<(String, String)>)
        ensures
            final(carrier)@.len() == old(carrier)@.len() + 1,
            final(carrier)@.drop_last() == old(carrier)@,
            final(carrier)@.last().0@ == "uber-trace-id"@,
            final(carrier)@.last().1@ == bytes_as_chars(spec_ctx_line(self@)),
    {
        let key = crate::constants::tracer_context_header_name().to_owned();
        let value = self.to_string();
        carrier.push((key, value));
        proof {
            assert(final(carrier)@.drop_last() =~= old(carrier)@);
        }
    }

    /// Reads a context out of an ordered sequence of HTTP header fields
    /// (name and value bytes; duplicate names allowed, the last relevant
    /// occurrence wins).  Names are matched case-insensitively; the
    /// trace-context value is percent-decoded before parsing and the debug
    /// value must be UTF-8.  A carrier with neither name yields no context,
    /// which is not an error.
    pub fn extract_from_http_header(carrier: &Vec<(String, Vec<u8>)>) -> (r: Result<
        Option<SpanContextState>,
        Error,
    >)
        ensures
            ({
                let se = spec_http_extract(carrier@);
                &&& (r is Err <==> se is Err)
                &&& (r matches Err(e) ==> e.kind == ErrorKind::InvalidInput)
                &&& (r matches Ok(opt) ==> match (opt, se) {
                    (Some(st), Ok(Some(v))) => st@ == v && st.inv(),
                    (None, Ok(None)) => true,
                    _ => false,
                })
            }),
    {
        let key_trace = crate::constants::tracer_context_header_name();
        let key_debug = crate::constants::jaeger_debug_header();
        let mut state: Option<SpanContextState> = None;
        let mut debug: Option<String> = None;
        let mut i: usize = 0;
        while i < carrier.len()
            invariant
                0 <= i <= carrier@.len(),
                key_trace@ == "uber-trace-id"@,
                key_debug@ == "jaeger-debug-id"@,
                spec_http_scan(carrier@, 0, None, None) == spec_http_scan(
                    carrier@,
                    i as int,
                    view_opt_state(state),
                    view_opt_string(debug),
                ),
                state matches Some(st) ==> st.inv() && st@.debug_id == Seq::<char>::empty(),
            decreases carrier@.len() - i,
        {
            let entry = &carrier[i];
            if eq_ignore_ascii_case_str(entry.0.as_str(), key_trace) {
                let decoded = percent_decode_bytes(entry.1.as_slice());
                match SpanContextState::parse_wire_bytes(decoded.as_slice()) {
                    Ok(st) => {
                        state = Some(st);
                    },
                    Err(_) => {
                        return Err(Error::invalid_input());
                    },
                }
            } else if eq_ignore_ascii_case_str(entry.0.as_str(), key_debug) {
                match utf8_to_string(entry.1.as_slice()) {
                    Some(s) => {
                        debug = Some(s);
                    },
                    None => {
                        return Err(Error::invalid_input());
                    },
                }
            }
            i = i + 1;
        }
        match state {
            Some(mut st) => {
                if let Some(dv) = debug {
                    st.set_debug_id(dv);
                }
                Ok(Some(st))
            },
            None => {
                match debug {
                    Some(dv) => {
                        let mut st = SpanContextState::from_wire_parts(
                            TraceId { high: 0, low: 0 },
                            0,
                            FLAG_DEBUG,
                        );
                        proof {
                            assert(2u8 | 2u8 == 2u8) by (bit_vector);
                        }
                        let ghost gdv = dv@;
                        st.set_debug_id(dv);
                        proof {
                            if gdv.len() == 0 {
                                assert(gdv =~= Seq::<char>::empty());
                            }
                        }
                        Ok(Some(st))
                    },
                    None => Ok(None),
                }
            },
        }
    }
}


/// The eight big-endian bytes of a 64-bit value.
pub open spec fn be_bytes_u64(x: u64) -> Seq<u8> {
    seq![
        ((x >> 56) & 0xFF) as u8,
        ((x >> 48) & 0xFF) as u8,
        ((x >> 40) & 0xFF) as u8,
        ((x >> 32) & 0xFF) as u8,
        ((x >> 24) & 0xFF) as u8,
        ((x >> 16) & 0xFF) as u8,
        ((x >> 8) & 0xFF) as u8,
        (x & 0xFF) as u8,
    ]
}

/// The 64-bit value denoted by eight big-endian bytes.
pub open spec fn be_value_u64(s: Seq<u8>) -> u64
    recommends
        s.len() == 8,
{
    ((s[0] as u64) << 56) | ((s[1] as u64) << 48) | ((s[2] as u64) << 40) | ((s[3] as u64) << 32)
        | ((s[4] as u64) << 24) | ((s[5] as u64) << 16) | ((s[6] as u64) << 8) | (s[7] as u64)
}

/// Big-endian round trip: reading back the eight bytes of a value yields
/// the value.
pub proof fn lemma_be_u64_round_trip(x: u64)
    ensures
        be_value_u64(be_bytes_u64(x)) == x,
{
    let s = be_bytes_u64(x);
    assert((((((x >> 56) & 0xFF) as u8) as u64) << 56) | (((((x >> 48) & 0xFF) as u8) as u64)
        << 48) | (((((x >> 40) & 0xFF) as u8) as u64) << 40) | (((((x >> 32) & 0xFF) as u8) as u64)
        << 32) | (((((x >> 24) & 0xFF) as u8) as u64) << 24) | (((((x >> 16) & 0xFF) as u8) as u64)
        << 16) | (((((x >> 8) & 0xFF) as u8) as u64) << 8) | (((x & 0xFF) as u8) as u64) == x)
        by (bit_vector);
}

/// Appends the eight big-endian bytes of `x`.
pub fn push_be_u64(out: &mut Vec<u8>, x: u64)
    ensures
        final(out)@ == old(out)@ + be_bytes_u64(x),
{
    out.push((#[verifier::truncate] (((x >> 56) & 0xFF) as u8)));
    out.push((#[verifier::truncate] (((x >> 48) & 0xFF) as u8)));
    out.push((#[verifier::truncate] (((x >> 40) & 0xFF) as u8)));
    out.push((#[verifier::truncate] (((x >> 32) & 0xFF) as u8)));
    out.push((#[verifier::truncate] (((x >> 24) & 0xFF) as u8)));
    out.push((#[verifier::truncate] (((x >> 16) & 0xFF) as u8)));
    out.push((#[verifier::truncate] (((x >> 8) & 0xFF) as u8)));
    out.push((#[verifier::truncate] ((x & 0xFF) as u8)));
    proof {
        assert(final(out)@ =~= old(out)@ + be_bytes_u64(x));
    }
}

/// Reads a 64-bit big-endian value at offset `off`.
fn read_be_u64(s: &[u8], off: usize) -> (r: u64)
    requires
        off + 8 <= s@.len(),
    ensures
        r == be_value_u64(s@.subrange(off as int, off + 8)),
{
    let n = s.len();
    proof {
        assert(off + 8 <= n);
    }
    let b0 = *vstd::slice::slice_index_get(s, off);
    let b1 = *vstd::slice::slice_index_get(s, off + 1);
    let b2 = *vstd::slice::slice_index_get(s, off + 2);
    let b3 = *vstd::slice::slice_index_get(s, off + 3);
    let b4 = *vstd::slice::slice_index_get(s, off + 4);
    let b5 = *vstd::slice::slice_index_get(s, off + 5);
    let b6 = *vstd::slice::slice_index_get(s, off + 6);
    let b7 = *vstd::slice::slice_index_get(s, off + 7);
    let r = ((b0 as u64) << 56) | ((b1 as u64) << 48) | ((b2 as u64) << 40) | ((b3 as u64) << 32)
        | ((b4 as u64) << 24) | ((b5 as u64) << 16) | ((b6 as u64) << 8) | (b7 as u64);
    proof {
        let sub = s@.subrange(off as int, off + 8);
        assert(sub[0] == b0 && sub[1] == b1 && sub[2] == b2 && sub[3] == b3 && sub[4] == b4
            && sub[5] == b5 && sub[6] == b6 && sub[7] == b7);
    }
    r
}

/// The fixed 37-byte binary carrier layout, big-endian: the two trace-id
/// halves, the span id, the obsolete parent id written as zero, the flag
/// byte, and the always-zero baggage count.
pub open spec fn spec_binary_bytes(v: SpanContextValue) -> Seq<u8> {
    be_bytes_u64(v.trace_id.high) + be_bytes_u64(v.trace_id.low) + be_bytes_u64(v.span_id)
        + be_bytes_u64(0) + seq![v.flags] + seq![0u8, 0u8, 0u8, 0u8]
}

/// Round-trip law for the binary codec: the layout is exactly 37 bytes;
/// reading it back yields both trace-id halves, the span id and the flags
/// exactly, and the reserved parent-id field is all zeroes whatever the
/// context held.
pub proof fn lemma_binary_round_trip(v: SpanContextValue)
    ensures
        ({
            let enc = spec_binary_bytes(v);
            &&& enc.len() == 37
            &&& be_value_u64(enc.subrange(0, 8)) == v.trace_id.high
            &&& be_value_u64(enc.subrange(8, 16)) == v.trace_id.low
            &&& be_value_u64(enc.subrange(16, 24)) == v.span_id
            &&& enc[32] == v.flags
            &&& forall|i: int| 24 <= i < 32 ==> enc[i] == 0
            &&& forall|i: int| 33 <= i < 37 ==> enc[i] == 0
        }),
{
    let enc = spec_binary_bytes(v);
    assert(enc.subrange(0, 8) =~= be_bytes_u64(v.trace_id.high));
    assert(enc.subrange(8, 16) =~= be_bytes_u64(v.trace_id.low));
    assert(enc.subrange(16, 24) =~= be_bytes_u64(v.span_id));
    assert(enc.subrange(24, 32) =~= be_bytes_u64(0));
    lemma_be_u64_round_trip(v.trace_id.high);
    lemma_be_u64_round_trip(v.trace_id.low);
    lemma_be_u64_round_trip(v.span_id);
    assert(((0u64 >> 56) & 0xFF) as u8 == 0 && ((0u64 >> 48) & 0xFF) as u8 == 0 && ((0u64 >> 40)
        & 0xFF) as u8 == 0 && ((0u64 >> 32) & 0xFF) as u8 == 0 && ((0u64 >> 24) & 0xFF) as u8 == 0
        && ((0u64 >> 16) & 0xFF) as u8 == 0 && ((0u64 >> 8) & 0xFF) as u8 == 0 && (0u64
        & 0xFF) as u8 == 0) by (bit_vector);
    assert(forall|i: int| 24 <= i < 32 ==> enc[i] == be_bytes_u64(0)[i - 24]);
    assert(enc[32] == v.flags);
    assert(forall|i: int| 33 <= i < 37 ==> enc[i] == 0);
}

impl SpanContextState {
    /// Appends this context's fixed 37-byte binary rendering to `carrier`.
    /// The obsolete parent-id field is written as zero, and the baggage
    /// count is zero (baggage is a known gap of this revision).
    pub fn inject_to_binary(&self, carrier: &mut Vec<u8>)
        ensures
            final(carrier)@ == old(carrier)@ + spec_binary_bytes(self@),
            spec_binary_bytes(self@).len() == 37,
    {
        push_be_u64(carrier, self.trace_id().high);
        push_be_u64(carrier, self.trace_id().low);
        push_be_u64(carrier, self.span_id());
        push_be_u64(carrier, 0);
        carrier.push(self.flags());
        carrier.push(0);
        carrier.push(0);
        carrier.push(0);
        carrier.push(0);
        proof {
            assert(final(carrier)@ =~= old(carrier)@ + spec_binary_bytes(self@));
        }
    }

    /// Reads a context out of the fixed 37-byte binary layout at the start
    /// of `carrier`; the reserved parent-id field is discarded and the
    /// flags are taken verbatim.  Fewer than 37 bytes are rejected as
    /// `InvalidInput`.
    pub fn extract_from_binary(carrier: &[u8]) -> (r: Result<Option<SpanContextState>, Error>)
        ensures
            r is Ok <==> carrier@.len() >= 37,
            r matches Err(e) ==> e.kind == ErrorKind::InvalidInput,
            r matches Ok(opt) ==> match opt {
                Some(st) => {
                    &&& st@.trace_id.high == be_value_u64(carrier@.subrange(0, 8))
                    &&& st@.trace_id.low == be_value_u64(carrier@.subrange(8, 16))
                    &&& st@.span_id == be_value_u64(carrier@.subrange(16, 24))
                    &&& st@.flags == carrier@[32]
                    &&& st@.debug_id == Seq::<char>::empty()
                    &&& st.inv()
                },
                None => false,
            },
    {
        if carrier.len() < 37 {
            return Err(Error::invalid_input());
        }
        let trace_id_high = read_be_u64(carrier, 0);
        let trace_id_low = read_be_u64(carrier, 8);
        let span_id = read_be_u64(carrier, 16);
        let flags = *vstd::slice::slice_index_get(carrier, 32);
        let state = SpanContextState::from_wire_parts(
            TraceId { high: trace_id_high, low: trace_id_low },
            span_id,
            flags,
        );
        Ok(Some(state))
    }
}

/// Round-trip law for the text-map codec: extracting from a carrier that
/// holds exactly what injection wrote yields the trace identifier, the
/// span identifier and the flags back; the parent token is re-zeroed and
/// the debug identifier is not carried.
pub proof fn lemma_text_map_round_trip(v: SpanContextValue, carrier: Seq<(String, String)>)
    requires
        carrier.len() == 1,
        carrier[0].0@ == "uber-trace-id"@,
        carrier[0].1@ == bytes_as_chars(spec_ctx_line(v)),
    ensures
        spec_extract(
            spec_text_map_trace_bytes(carrier),
            spec_text_map_lookup(carrier, "jaeger-debug-id"@),
        ) == Ok::<Option<SpanContextValue>, ErrorKind>(
            Some(SpanContextValue { debug_id: Seq::empty(), ..v }),
        ),
{
    reveal_strlit("uber-trace-id");
    reveal_strlit("jaeger-debug-id");
    assert("uber-trace-id"@.len() == 13);
    assert("jaeger-debug-id"@.len() == 15);
    assert("uber-trace-id"@ != "jaeger-debug-id"@);
    let line = spec_ctx_line(v);
    let chars = bytes_as_chars(line);
    lemma_ctx_line_ascii(v);
    assert(carrier.drop_last() =~= Seq::<(String, String)>::empty());
    assert(carrier.last() == carrier[0]);
    assert(spec_text_map_lookup(carrier, "uber-trace-id"@) == Some(chars));
    assert(spec_text_map_lookup(carrier.drop_last(), "jaeger-debug-id"@) is None);
    assert(spec_text_map_lookup(carrier, "jaeger-debug-id"@) is None);
    assert(vstd::utf8::is_ascii_chars(chars)) by {
        assert(forall|i: int|
            0 <= i < chars.len() ==> '\0' <= #[trigger] chars[i] <= '\u{7f}') by {
            assert(forall|i: int|
                0 <= i < line.len() ==> #[trigger] chars[i] == line[i] as char && line[i] < 128);
        }
    }
    vstd::utf8::is_ascii_chars_encode_utf8(chars);
    assert(vstd::utf8::encode_utf8(chars) =~= line) by {
        assert(forall|i: int|
            0 <= i < chars.len() ==> #[trigger] vstd::utf8::encode_utf8(chars)[i] == chars[i] as u8);
        assert(forall|i: int|
            0 <= i < line.len() ==> (((#[trigger] line[i]) as char) as u8) == line[i]);
    }
    lemma_percent_decode_plain(line);
    lemma_ctx_line_round_trip(v);
}

/// Percent-encoding transparency law for header extraction: two single-
/// field carriers under the trace-context name whose values percent-decode
/// to the same bytes yield the same context.
pub proof fn lemma_http_percent_encoding_invariance(
    f1: Seq<(String, Vec<u8>)>,
    f2: Seq<(String, Vec<u8>)>,
)
    requires
        f1.len() == 1,
        f2.len() == 1,
        eq_ignore_case(f1[0].0@, "uber-trace-id"@),
        eq_ignore_case(f2[0].0@, "uber-trace-id"@),
        spec_percent_decode(f1[0].1@) == spec_percent_decode(f2[0].1@),
    ensures
        spec_http_extract(f1) == spec_http_extract(f2),
{
    let d = spec_percent_decode(f1[0].1@);
    match spec_parse_ctx(d) {
        None => {
            assert(spec_http_scan(f1, 0, None, None) == Err::<
                (Option<SpanContextValue>, Option<Seq<char>>),
                ErrorKind,
            >(ErrorKind::InvalidInput));
            assert(spec_http_scan(f2, 0, None, None) == Err::<
                (Option<SpanContextValue>, Option<Seq<char>>),
                ErrorKind,
            >(ErrorKind::InvalidInput));
        },
        Some(ctx) => {
            assert(spec_http_scan(f1, 0, None, None) == spec_http_scan(f1, 1, Some(ctx), None));
            assert(spec_http_scan(f2, 0, None, None) == spec_http_scan(f2, 1, Some(ctx), None));
            assert(spec_http_scan(f1, 1, Some(ctx), None) == Ok::<
                (Option<SpanContextValue>, Option<Seq<char>>),
                ErrorKind,
            >((Some(ctx), None)));
            assert(spec_http_scan(f2, 1, Some(ctx), None) == Ok::<
                (Option<SpanContextValue>, Option<Seq<char>>),
                ErrorKind,
            >((Some(ctx), None)));
        },
    }
}

impl std::str::FromStr for SpanContextState {
    type Err = Error;

    fn from_str(s: &str) -> Result<Self, Error> {
        SpanContextState::parse_wire_bytes(s.as_bytes())
    }
}

} // verus!
