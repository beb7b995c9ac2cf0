//! Well-known carrier key names and tag keys of the Jaeger wire contract.
//! Carrier keys are matched case-insensitively on read and written in
//! lower case.
use vstd::prelude::*;

verus! {

/// The carrier key (text map or HTTP header) that holds the trace context.
pub fn tracer_context_header_name() -> (r: &'static str)
    ensures
        r@ == "uber-trace-id"@,
{
    "uber-trace-id"
}

/// The carrier key which, when present, forces the trace to be sampled as a
/// "debug" trace; its value is kept as the context's debug identifier.
pub fn jaeger_debug_header() -> (r: &'static str)
    ensures
        r@ == "jaeger-debug-id"@,
{
    "jaeger-debug-id"
}

/// The carrier key reserved for submitting baggage (baggage propagation is
/// a known gap of this revision).
pub fn jaeger_baggage_header() -> (r: &'static str)
    ensures
        r@ == "jaeger-baggage"@,
{
    "jaeger-baggage"
}

/// The carrier key prefix reserved for propagating baggage items.
pub fn trace_baggage_header_prefix() -> (r: &'static str)
    ensures
        r@ == "uberctx-"@,
{
    "uberctx-"
}

/// The version of this client library, reported as a process tag.
pub fn jaeger_client_version() -> (r: &'static str)
    ensures
        r@ == "rustracing_jaeger-0.7.0"@,
{
    "rustracing_jaeger-0.7.0"
}

/// The process tag key that reports the client version.
pub fn jaeger_client_version_tag_key() -> (r: &'static str)
    ensures
        r@ == "jaeger.version"@,
{
    "jaeger.version"
}

/// The process tag key that reports the host name of the process.
pub fn tracer_hostname_tag_key() -> (r: &'static str)
    ensures
        r@ == "hostname"@,
{
    "hostname"
}

/// The process tag key that reports the IP address of the process.
pub fn tracer_ip_tag_key() -> (r: &'static str)
    ensures
        r@ == "ip"@,
{
    "ip"
}

} // verus!
