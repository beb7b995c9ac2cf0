//! Shared primitives of the two serializations the agent accepts: the
//! compact protocol (unsigned LEB128 varints, zigzag-mapped signed values,
//! field-id deltas) and the plain binary protocol (big-endian fixed-width
//! values).  Multi-byte scalars are big-endian in the binary protocol;
//! in the compact protocol a double's eight bytes are little-endian, as
//! the deployed implementations (not the written specification) have it.
use crate::error::Error;
use crate::error::ErrorKind;
use crate::propagation::be_bytes_u64;
use vstd::prelude::*;

verus! {

/// The largest length a length-prefixed item (string, binary, list) may
/// have on the wire: the prefix is a non-negative 32-bit value.
pub const MAX_WIRE_LEN: usize = 0x7FFF_FFFF;

/// The unsigned LEB128 rendering of a value: seven bits per byte, least
/// significant group first, the high bit marking a continuation.
pub open spec fn spec_varint(n: nat) -> Seq<u8>
    decreases n,
{
    if n < 128 {
        seq![n as u8]
    } else {
        seq![(n % 128 + 128) as u8] + spec_varint(n / 128)
    }
}

/// The zigzag mapping of a signed 64-bit value: non-negative `v` becomes
/// `2v`, negative `v` becomes `-2v - 1`.
pub open spec fn spec_zigzag64(v: i64) -> nat {
    if v >= 0 {
        (2 * v) as nat
    } else {
        (-2 * v - 1) as nat
    }
}

/// The zigzag mapping of a signed 32-bit value.
pub open spec fn spec_zigzag32(v: i32) -> nat {
    if v >= 0 {
        (2 * v) as nat
    } else {
        (-2 * v - 1) as nat
    }
}

/// The two big-endian bytes of a 16-bit value.
pub open spec fn be_bytes_u16(x: u16) -> Seq<u8> {
    seq![((x >> 8) & 0xFF) as u8, (x & 0xFF) as u8]
}

/// The four big-endian bytes of a 32-bit value.
pub open spec fn be_bytes_u32(x: u32) -> Seq<u8> {
    seq![((x >> 24) & 0xFF) as u8, ((x >> 16) & 0xFF) as u8, ((x >> 8) & 0xFF) as u8, (x
        & 0xFF) as u8]
}

/// The eight little-endian bytes of a 64-bit value (the compact protocol's
/// rendering of a double's bit pattern).
pub open spec fn le_bytes_u64(x: u64) -> Seq<u8> {
    seq![
        (x & 0xFF) as u8,
        ((x >> 8) & 0xFF) as u8,
        ((x >> 16) & 0xFF) as u8,
        ((x >> 24) & 0xFF) as u8,
        ((x >> 32) & 0xFF) as u8,
        ((x >> 40) & 0xFF) as u8,
        ((x >> 48) & 0xFF) as u8,
        ((x >> 56) & 0xFF) as u8,
    ]
}

/// A compact signed 64-bit value: the varint of the zigzag mapping.
pub open spec fn spec_compact_i64(v: i64) -> Seq<u8> {
    spec_varint(spec_zigzag64(v))
}

/// A compact signed 32-bit value: the varint of the zigzag mapping.
pub open spec fn spec_compact_i32(v: i32) -> Seq<u8> {
    spec_varint(spec_zigzag32(v))
}

/// A compact field header: a one-byte delta-and-kind form when the field id
/// exceeds the previous one by 1 to 15, otherwise the kind byte followed by
/// the zigzag varint of the field id itself.
pub open spec fn spec_compact_field_header(prev: int, id: i16, kind: u8) -> Seq<u8> {
    let delta = id - prev;
    if 0 < delta && delta <= 15 {
        seq![(delta * 16 + kind) as u8]
    } else {
        seq![kind] + spec_compact_i32(id as i32)
    }
}

/// A binary-protocol field header: the kind byte and the big-endian id.
pub open spec fn spec_binary_field_header(kind: u8, id: i16) -> Seq<u8> {
    seq![kind] + be_bytes_u16(id as u16)
}

/// A compact list header: size and element kind in one byte for fewer than
/// 15 elements, otherwise a marker byte and a varint size.
pub open spec fn spec_compact_list_header(len: nat, kind: u8) -> Seq<u8> {
    if len < 15 {
        seq![(len * 16 + kind) as u8]
    } else {
        seq![(0xF0 + kind) as u8] + spec_varint(len)
    }
}

/// A binary-protocol list header: the element kind byte and the big-endian
/// 32-bit size.
pub open spec fn spec_binary_list_header(len: nat, kind: u8) -> Seq<u8> {
    seq![kind] + be_bytes_u32(len as u32)
}

/// Appends the unsigned LEB128 rendering of `n`.
pub fn push_varint(out: &mut Vec<u8>, n: u64)
    ensures
        final(out)@ == old(out)@ + spec_varint(n as nat),
    decreases n,
{
    if n < 128 {
        out.push(n as u8);
        proof {
            assert(final(out)@ =~= old(out)@ + spec_varint(n as nat));
        }
    } else {
        out.push((n % 128 + 128) as u8);
        push_varint(out, n / 128);
        proof {
            assert((n / 128) as nat == (n as nat) / 128);
            assert((n % 128) as nat == (n as nat) % 128);
            assert(final(out)@ =~= old(out)@ + spec_varint(n as nat));
        }
    }
}

/// Appends the compact rendering of a signed 64-bit value.
pub fn push_compact_i64(out: &mut Vec<u8>, v: i64)
    ensures
        final(out)@ == old(out)@ + spec_compact_i64(v),
{
    let z: u64 = if v >= 0 {
        (v as u64) * 2
    } else {
        ((-(v + 1)) as u64) * 2 + 1
    };
    proof {
        assert(z as nat == spec_zigzag64(v));
    }
    push_varint(out, z);
}

/// Appends the compact rendering of a signed 32-bit value.
pub fn push_compact_i32(out: &mut Vec<u8>, v: i32)
    ensures
        final(out)@ == old(out)@ + spec_compact_i32(v),
{
    let z: u32 = if v >= 0 {
        (v as u32) * 2
    } else {
        ((-(v + 1)) as u32) * 2 + 1
    };
    proof {
        assert(z as nat == spec_zigzag32(v));
    }
    push_varint(out, z as u64);
}

/// Appends the two big-endian bytes of `x`.
pub fn push_be_u16(out: &mut Vec<u8>, x: u16)
    ensures
        final(out)@ == old(out)@ + be_bytes_u16(x),
{
    out.push((#[verifier::truncate] (((x >> 8) & 0xFF) as u8)));
    out.push((#[verifier::truncate] ((x & 0xFF) as u8)));
    proof {
        assert(final(out)@ =~= old(out)@ + be_bytes_u16(x));
    }
}

/// Appends the four big-endian bytes of `x`.
pub fn push_be_u32(out: &mut Vec<u8>, x: u32)
    ensures
        final(out)@ == old(out)@ + be_bytes_u32(x),
{
    out.push((#[verifier::truncate] (((x >> 24) & 0xFF) as u8)));
    out.push((#[verifier::truncate] (((x >> 16) & 0xFF) as u8)));
    out.push((#[verifier::truncate] (((x >> 8) & 0xFF) as u8)));
    out.push((#[verifier::truncate] ((x & 0xFF) as u8)));
    proof {
        assert(final(out)@ =~= old(out)@ + be_bytes_u32(x));
    }
}

/// Appends the eight big-endian bytes of a signed 64-bit value (its two's
/// complement pattern).
pub fn push_be_i64(out: &mut Vec<u8>, v: i64)
    ensures
        final(out)@ == old(out)@ + be_bytes_u64(v as u64),
{
    let x: u64 = (#[verifier::truncate] (v as u64));
    crate::propagation::push_be_u64(out, x);
}

/// Appends the eight little-endian bytes of `x`.
pub fn push_le_u64(out: &mut Vec<u8>, x: u64)
    ensures
        final(out)@ == old(out)@ + le_bytes_u64(x),
{
    out.push((#[verifier::truncate] ((x & 0xFF) as u8)));
    out.push((#[verifier::truncate] (((x >> 8) & 0xFF) as u8)));
    out.push((#[verifier::truncate] (((x >> 16) & 0xFF) as u8)));
    out.push((#[verifier::truncate] (((x >> 24) & 0xFF) as u8)));
    out.push((#[verifier::truncate] (((x >> 32) & 0xFF) as u8)));
    out.push((#[verifier::truncate] (((x >> 40) & 0xFF) as u8)));
    out.push((#[verifier::truncate] (((x >> 48) & 0xFF) as u8)));
    out.push((#[verifier::truncate] (((x >> 56) & 0xFF) as u8)));
    proof {
        assert(final(out)@ =~= old(out)@ + le_bytes_u64(x));
    }
}

/// Appends a compact field header and reports the new previous-id value.
pub fn push_compact_field_header(out: &mut Vec<u8>, prev: i32, id: i16, kind: u8)
    requires
        -0x8000 <= prev <= 0x7FFF,
        kind <= 15,
    ensures
        final(out)@ == old(out)@ + spec_compact_field_header(prev as int, id, kind),
{
    let delta: i32 = (id as i32) - prev;
    if 0 < delta && delta <= 15 {
        out.push((delta as u8) * 16 + kind);
        proof {
            assert(final(out)@ =~= old(out)@ + spec_compact_field_header(prev as int, id, kind));
        }
    } else {
        out.push(kind);
        push_compact_i32(out, id as i32);
        proof {
            assert(final(out)@ =~= old(out)@ + spec_compact_field_header(prev as int, id, kind));
        }
    }
}

/// Appends a binary-protocol field header.
pub fn push_binary_field_header(out: &mut Vec<u8>, kind: u8, id: i16)
    ensures
        final(out)@ == old(out)@ + spec_binary_field_header(kind, id),
{
    out.push(kind);
    push_be_u16(out, (#[verifier::truncate] (id as u16)));
    proof {
        assert(final(out)@ =~= old(out)@ + spec_binary_field_header(kind, id));
    }
}

/// Appends a compact list header.
pub fn push_compact_list_header(out: &mut Vec<u8>, len: usize, kind: u8)
    requires
        len <= MAX_WIRE_LEN,
        kind <= 15,
    ensures
        final(out)@ == old(out)@ + spec_compact_list_header(len as nat, kind),
{
    if len < 15 {
        out.push((len as u8) * 16 + kind);
        proof {
            assert(final(out)@ =~= old(out)@ + spec_compact_list_header(len as nat, kind));
        }
    } else {
        out.push(0xF0 + kind);
        push_varint(out, len as u64);
        proof {
            assert(final(out)@ =~= old(out)@ + spec_compact_list_header(len as nat, kind));
        }
    }
}

/// Appends a binary-protocol list header.
pub fn push_binary_list_header(out: &mut Vec<u8>, len: usize, kind: u8)
    requires
        len <= MAX_WIRE_LEN,
    ensures
        final(out)@ == old(out)@ + spec_binary_list_header(len as nat, kind),
{
    out.push(kind);
    push_be_u32(out, len as u32);
    proof {
        assert(final(out)@ =~= old(out)@ + spec_binary_list_header(len as nat, kind));
    }
}

/// A compact length-prefixed byte string: varint length, then the bytes.
pub open spec fn spec_compact_binary(b: Seq<u8>) -> Seq<u8> {
    spec_varint(b.len()) + b
}

/// A binary-protocol length-prefixed byte string: big-endian 32-bit
/// length, then the bytes.
pub open spec fn spec_binary_binary(b: Seq<u8>) -> Seq<u8> {
    be_bytes_u32(b.len() as u32) + b
}

/// Appends a compact length-prefixed byte string; a string longer than the
/// wire allows is rejected and nothing is written.
pub fn push_compact_binary(out: &mut Vec<u8>, b: &[u8]) -> (r: Result<(), Error>)
    ensures
        r is Ok <==> b@.len() <= MAX_WIRE_LEN,
        r is Ok ==> final(out)@ == old(out)@ + spec_compact_binary(b@),
        r matches Err(e) ==> e.kind == ErrorKind::InvalidInput && final(out)@ == old(out)@,
{
    if b.len() > MAX_WIRE_LEN {
        return Err(Error::invalid_input());
    }
    push_varint(out, b.len() as u64);
    push_bytes(out, b);
    proof {
        assert(final(out)@ =~= old(out)@ + spec_compact_binary(b@));
    }
    Ok(())
}

/// Appends a binary-protocol length-prefixed byte string; a string longer
/// than the wire allows is rejected and nothing is written.
pub fn push_binary_binary(out: &mut Vec<u8>, b: &[u8]) -> (r: Result<(), Error>)
    ensures
        r is Ok <==> b@.len() <= MAX_WIRE_LEN,
        r is Ok ==> final(out)@ == old(out)@ + spec_binary_binary(b@),
        r matches Err(e) ==> e.kind == ErrorKind::InvalidInput && final(out)@ == old(out)@,
{
    if b.len() > MAX_WIRE_LEN {
        return Err(Error::invalid_input());
    }
    push_be_u32(out, b.len() as u32);
    push_bytes(out, b);
    proof {
        assert(final(out)@ =~= old(out)@ + spec_binary_binary(b@));
    }
    Ok(())
}

/// Appends the bytes of a slice.
pub fn push_bytes(out: &mut Vec<u8>, bytes: &[u8])
    ensures
        final(out)@ == old(out)@ + bytes@,
{
    out.extend_from_slice(bytes);
}

} // verus!
