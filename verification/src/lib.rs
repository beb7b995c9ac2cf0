//! Client-side building blocks for Jaeger-compatible distributed tracing:
//! the span-context codecs (text map, HTTP header and binary carriers), the
//! wire-schema mapping for finished spans, and the serialization used to
//! report span batches to a collector agent.
//!
//! Everything that computes — identifier parsing and formatting, carrier
//! encoding and decoding, the batch serialization — lives here with full
//! functional contracts.  The thin I/O shell (sockets and clocks) stays
//! outside the library.

pub mod constants;
pub mod error;
pub mod hex;
pub mod propagation;
pub mod reporter;
pub mod span;
pub mod thrift;

pub use error::Error;
pub use error::ErrorKind;
pub use span::SpanContextState;
pub use span::SpanContextStateBuilder;
pub use span::TraceId;
