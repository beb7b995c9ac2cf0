//! The computing side of the span reporter: the process description a
//! reporter starts with (client-version tag and best-effort hostname tag),
//! service-tag accumulation, and the serialization of one report into the
//! datagram payload sent to the agent.
//!
//! The surrounding shell owns the socket: it binds an ephemeral local
//! endpoint, hands the finished spans in, and sends the bytes this module
//! produces to the configured agent address in a single datagram.
use crate::error::Error;
use crate::error::ErrorKind;
use crate::span::FinishedSpan;
use crate::thrift::agent::spec_emit_batch_binary;
use crate::thrift::agent::spec_emit_batch_compact;
use crate::thrift::agent::EmitBatchNotification;
use crate::thrift::jaeger::lemma_span_ok_of_matches;
use crate::thrift::jaeger::spec_finished_ok;
use crate::thrift::jaeger::spec_process_ok;
use crate::thrift::jaeger::spec_span_matches;
use crate::thrift::jaeger::Batch;
use crate::thrift::jaeger::Process;
use crate::thrift::jaeger::Tag;
use crate::thrift::protocol::MAX_WIRE_LEN;
use vstd::prelude::*;

verus! {

/// Relies on `hostname::get`: the machine's hostname, when the lookup and
/// the conversion of its result to a string both succeed.  The outcome
/// depends on the environment; nothing is assumed of it.
#[verifier::external_body]
fn lookup_hostname() -> Option<String> {
    hostname::get().ok().and_then(|h| h.into_string().ok())
}

/// The serialization a reporter uses for every report.  The agent accepts
/// the compact protocol and the plain binary protocol on two distinct
/// ports; one reporter instance never mixes the two.
#[derive(Debug, Clone, Copy, PartialEq, Eq, Structural)]
pub enum ReporterEncoding {
    Compact,
    Binary,
}

/// The datagram payload of one report: the batch wrapped in the one-way
/// `emitBatch` message, in the chosen serialization.
pub open spec fn spec_report_bytes(b: Batch, encoding: ReporterEncoding) -> Seq<u8> {
    match encoding {
        ReporterEncoding::Compact => spec_emit_batch_compact(b),
        ReporterEncoding::Binary => spec_emit_batch_binary(b),
    }
}

/// The batch built for one report: the given process description and the
/// given finished spans, each mapped into the wire schema.
pub open spec fn spec_batch_matches(b: Batch, process: Process, spans: Seq<FinishedSpan>) -> bool {
    &&& b.process == process
    &&& b.spans@.len() == spans.len()
    &&& forall|i: int|
        0 <= i < spans.len() ==> spec_span_matches(#[trigger] b.spans@[i], spans[i])
}

/// The process description a new reporter starts with: the service name,
/// a client-version tag, and, when the environment yields one, a hostname
/// tag.  A failed hostname lookup is not an error; the tag is simply
/// omitted.
pub fn initial_process(service_name: &str) -> (r: Process)
    ensures
        r.service_name@ == service_name@,
        1 <= r.tags@.len() <= 2,
        (r.tags@[0] matches Tag::String { key, value } && key@ == "jaeger.version"@ && value@
            == "rustracing_jaeger-0.7.0"@),
        r.tags@.len() == 2 ==> (r.tags@[1] matches Tag::String { key, .. } && key@
            == "hostname"@),
{
    let mut tags: Vec<Tag> = Vec::new();
    tags.push(
        Tag::String {
            key: crate::constants::jaeger_client_version_tag_key().to_owned(),
            value: crate::constants::jaeger_client_version().to_owned(),
        },
    );
    if let Some(h) = lookup_hostname() {
        tags.push(
            Tag::String { key: crate::constants::tracer_hostname_tag_key().to_owned(), value: h },
        );
    }
    Process { service_name: service_name.to_owned(), tags }
}

/// Appends `tag` to the process description's tag list; tags are not
/// deduplicated.
pub fn add_service_tag(process: &mut Process, tag: Tag)
    ensures
        final(process).service_name == old(process).service_name,
        final(process).tags@ == old(process).tags@.push(tag),
{
    process.tags.push(tag);
}

/// Serializes one report: the given finished spans under the given
/// process description, wrapped in the one-way `emitBatch` message, in the
/// chosen serialization.  Succeeds exactly when the process description
/// and every span fit the wire's 32-bit length prefixes; an oversized
/// value is an internal error of the `InvalidInput` kind.  The caller
/// sends the returned bytes as a single datagram; nothing is chunked.
#[verifier::rlimit(100)]
#[verifier::spinoff_prover]
pub fn encode_report(process: Process, spans: &Vec<FinishedSpan>, encoding: ReporterEncoding) -> (r:
    Result<Vec<u8>, Error>)
    ensures
        r is Ok <==> spec_process_ok(process) && spans@.len() <= MAX_WIRE_LEN && (forall|i: int|
            0 <= i < spans@.len() ==> spec_finished_ok(#[trigger] spans@[i])),
        r matches Ok(v) ==> exists|b: Batch|
            #[trigger] spec_batch_matches(b, process, spans@) && v@ == spec_report_bytes(
                b,
                encoding,
            ),
        r matches Err(e) ==> e.kind == ErrorKind::InvalidInput,
{
    let message = EmitBatchNotification { batch: Batch::from_finished_spans(process, spans) };
    proof {
        assert(spec_batch_matches(message.batch, process, spans@));
        assert forall|i: int| 0 <= i < spans@.len() implies (crate::thrift::jaeger::spec_span_ok(
            #[trigger] message.batch.spans@[i],
        ) <==> spec_finished_ok(spans@[i])) by {
            lemma_span_ok_of_matches(message.batch.spans@[i], spans@[i]);
        }
        assert(crate::thrift::jaeger::spec_batch_ok(message.batch) <==> (spec_process_ok(process)
            && spans@.len() <= MAX_WIRE_LEN && (forall|i: int|
            0 <= i < spans@.len() ==> spec_finished_ok(#[trigger] spans@[i])))) by {
            assert(message.batch.process == process);
            assert(message.batch.spans@.len() == spans@.len());
            if crate::thrift::jaeger::spec_spans_ok(message.batch.spans@) {
                assert forall|i: int| 0 <= i < spans@.len() implies spec_finished_ok(
                    #[trigger] spans@[i],
                ) by {
                    assert(crate::thrift::jaeger::spec_span_ok(message.batch.spans@[i]));
                }
            }
            if (forall|i: int| 0 <= i < spans@.len() ==> spec_finished_ok(#[trigger] spans@[i]))
                && spans@.len() <= MAX_WIRE_LEN {
                assert forall|i: int|
                    0 <= i < message.batch.spans@.len() implies crate::thrift::jaeger::spec_span_ok(
                    #[trigger] message.batch.spans@[i],
                ) by {
                    assert(spec_finished_ok(spans@[i]));
                }
            }
        }
    }
    let r = match encoding {
        ReporterEncoding::Compact => message.encode_compact(),
        ReporterEncoding::Binary => message.encode_binary(),
    };
    match r {
        Ok(v) => {
            proof {
                assert(spec_batch_matches(message.batch, process, spans@) && v@
                    == spec_report_bytes(message.batch, encoding));
            }
            Ok(v)
        },
        Err(e) => Err(e),
    }
}

} // verus!
