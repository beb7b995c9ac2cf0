//! Error taxonomy of the library.
//!
//! There are exactly two kinds of failure: malformed input handed to one of
//! the codecs, and environment-level failures such as an I/O error reported
//! by the surrounding shell.
use vstd::prelude::*;

verus! {

/// The category of a failure.
#[derive(Debug, Clone, Copy, PartialEq, Eq, Structural, Hash)]
pub enum ErrorKind {
    /// Malformed textual span context, malformed percent-encoded header
    /// bytes, or an oversized value during serialization.
    InvalidInput,
    /// An I/O failure (socket bind or send) reported by the caller's shell.
    Other,
}

/// An error raised by the codecs or by the reporting pipeline.
#[derive(Debug, Clone, Copy, PartialEq, Eq, Structural, Hash)]
pub struct Error {
    pub kind: ErrorKind,
}

impl Error {
    /// The kind of this error.
    pub fn kind(&self) -> (r: ErrorKind)
        ensures
            r == self.kind,
    {
        self.kind
    }

    /// An `InvalidInput` error.
    pub fn invalid_input() -> (r: Error)
        ensures
            r.kind == ErrorKind::InvalidInput,
    {
        Error { kind: ErrorKind::InvalidInput }
    }

    /// An `Other` error.
    pub fn other() -> (r: Error)
        ensures
            r.kind == ErrorKind::Other,
    {
        Error { kind: ErrorKind::Other }
    }
}

/// The standard library's `std::io::Error`, declared so that the adapters
/// below can accept it; the library never looks inside a value of it.
#[verifier::external_type_specification]
#[verifier::external_body]
pub struct ExIoError(std::io::Error);

/// The standard library's `std::num::ParseIntError`, declared so that the
/// adapters below can accept it.
#[verifier::external_type_specification]
#[verifier::external_body]
pub struct ExParseIntError(std::num::ParseIntError);

/// The standard library's `std::str::Utf8Error`, declared so that the
/// adapters below can accept it.
#[verifier::external_type_specification]
#[verifier::external_body]
pub struct ExUtf8Error(std::str::Utf8Error);

/// Classifies an I/O failure as an `Other` error.
pub fn from_io_error(f: std::io::Error) -> (r: Error)
    ensures
        r.kind == ErrorKind::Other,
{
    let _ = f;
    Error::other()
}

/// Classifies an integer-parsing failure as an `InvalidInput` error.
pub fn from_parse_int_error(f: std::num::ParseIntError) -> (r: Error)
    ensures
        r.kind == ErrorKind::InvalidInput,
{
    let _ = f;
    Error::invalid_input()
}

/// Classifies a UTF-8 decoding failure as an `InvalidInput` error.
pub fn from_utf8_error(f: std::str::Utf8Error) -> (r: Error)
    ensures
        r.kind == ErrorKind::InvalidInput,
{
    let _ = f;
    Error::invalid_input()
}

} // verus!
