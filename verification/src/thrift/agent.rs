//! The one-way `emitBatch` message the agent accepts: a batch wrapped in
//! an RPC message envelope (protocol marker, message kind, sequence id,
//! method name, then the argument struct whose field 1 is the batch).
use crate::error::Error;
use crate::error::ErrorKind;
use crate::thrift::jaeger::spec_batch_binary;
use crate::thrift::jaeger::spec_batch_compact;
use crate::thrift::jaeger::spec_batch_ok;
use crate::thrift::jaeger::str_bytes;
use crate::thrift::jaeger::Batch;
use crate::thrift::jaeger::BINARY_STRUCT;
use crate::thrift::jaeger::COMPACT_STRUCT;
use crate::thrift::protocol::be_bytes_u32;
use crate::thrift::protocol::push_be_u32;
use crate::thrift::protocol::push_binary_binary;
use crate::thrift::protocol::push_binary_field_header;
use crate::thrift::protocol::push_compact_binary;
use crate::thrift::protocol::push_compact_field_header;
use crate::thrift::protocol::push_varint;
use crate::thrift::protocol::spec_binary_binary;
use crate::thrift::protocol::spec_binary_field_header;
use crate::thrift::protocol::spec_compact_binary;
use crate::thrift::protocol::spec_compact_field_header;
use crate::thrift::protocol::spec_varint;
use vstd::prelude::*;

verus! {

/// The method name's bytes on the wire.
pub open spec fn spec_method_name_bytes() -> Seq<u8> {
    str_bytes("emitBatch"@)
}

/// The method name is nine ASCII bytes.
pub proof fn lemma_method_name_bytes()
    ensures
        spec_method_name_bytes().len() == 9,
{
    reveal_strlit("emitBatch");
    assert("emitBatch"@.len() == 9);
    assert(vstd::utf8::is_ascii_chars("emitBatch"@));
    vstd::utf8::is_ascii_chars_encode_utf8("emitBatch"@);
}

/// The compact rendering of the one-way `emitBatch` message: the compact
/// protocol marker, the version byte carrying the one-way kind, the
/// sequence id zero as a varint, the method name, and the argument struct
/// whose field 1 is the batch.
pub open spec fn spec_emit_batch_compact(b: Batch) -> Seq<u8> {
    seq![0x82u8, 0x81u8] + spec_varint(0) + spec_compact_binary(spec_method_name_bytes())
        + spec_compact_field_header(0, 1, COMPACT_STRUCT) + spec_batch_compact(b) + seq![0u8]
}

/// The binary-protocol rendering of the one-way `emitBatch` message: the
/// version word with the high bit set, a zero byte, the one-way kind byte,
/// the length-prefixed method name, the sequence id zero, and the argument
/// struct whose field 1 is the batch.
pub open spec fn spec_emit_batch_binary(b: Batch) -> Seq<u8> {
    seq![0x80u8, 0x01u8, 0u8, 4u8] + spec_binary_binary(spec_method_name_bytes()) + be_bytes_u32(0)
        + spec_binary_field_header(BINARY_STRUCT, 1) + spec_batch_binary(b) + seq![0u8]
}

/// The `emitBatch` notification sent to the agent: its sole argument is
/// the batch.
#[derive(Debug, Clone)]
pub struct EmitBatchNotification {
    /// `batch` argument.
    pub batch: Batch,
}

impl EmitBatchNotification {
    /// Serializes this notification with the compact protocol.
    ///
    /// Fails (with `InvalidInput`) exactly when a string or list of the
    /// batch exceeds the wire's 32-bit length prefixes.
    #[verifier::rlimit(60)]
    pub fn encode_compact(&self) -> (r: Result<Vec<u8>, Error>)
        ensures
            r is Ok <==> spec_batch_ok(self.batch),
            r matches Ok(v) ==> v@ == spec_emit_batch_compact(self.batch),
            r matches Err(e) ==> e.kind == ErrorKind::InvalidInput,
    {
        proof {
            lemma_method_name_bytes();
        }
        let mut out: Vec<u8> = Vec::new();
        out.push(0x82);
        out.push(0x81);
        push_varint(&mut out, 0);
        if let Err(e) = push_compact_binary(&mut out, "emitBatch".as_bytes()) {
            return Err(e);
        }
        push_compact_field_header(&mut out, 0, 1, COMPACT_STRUCT);
        if let Err(e) = self.batch.encode_compact(&mut out) {
            return Err(e);
        }
        out.push(0);
        proof {
            assert(out@ =~= spec_emit_batch_compact(self.batch));
        }
        Ok(out)
    }

    /// Serializes this notification with the binary protocol.
    ///
    /// Fails (with `InvalidInput`) exactly when a string or list of the
    /// batch exceeds the wire's 32-bit length prefixes.
    #[verifier::rlimit(60)]
    pub fn encode_binary(&self) -> (r: Result<Vec<u8>, Error>)
        ensures
            r is Ok <==> spec_batch_ok(self.batch),
            r matches Ok(v) ==> v@ == spec_emit_batch_binary(self.batch),
            r matches Err(e) ==> e.kind == ErrorKind::InvalidInput,
    {
        proof {
            lemma_method_name_bytes();
        }
        let mut out: Vec<u8> = Vec::new();
        out.push(0x80);
        out.push(0x01);
        out.push(0);
        out.push(4);
        if let Err(e) = push_binary_binary(&mut out, "emitBatch".as_bytes()) {
            return Err(e);
        }
        push_be_u32(&mut out, 0);
        push_binary_field_header(&mut out, BINARY_STRUCT, 1);
        if let Err(e) = self.batch.encode_binary(&mut out) {
            return Err(e);
        }
        out.push(0);
        proof {
            assert(out@ =~= spec_emit_batch_binary(self.batch));
        }
        Ok(out)
    }
}

} // verus!
