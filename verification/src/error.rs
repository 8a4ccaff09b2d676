use vstd::prelude::*;

use crate::ceph_version::CephVersion;

verus! {

/// `std::string::FromUtf8Error`, the error of bytes that are not UTF-8.
#[verifier::external_type_specification]
#[verifier::external_body]
pub struct ExFromUtf8Error(std::string::FromUtf8Error);

/// `uuid::Error`, the error of text that is not a UUID.
#[verifier::external_type_specification]
#[verifier::external_body]
pub struct ExUuidError(uuid::Error);

/// Errors produced by the library's own logic.
#[derive(Debug)]
pub enum RadosError {
    /// A free-form error message.
    Error(String),
    /// The cluster runs a release older than the one required:
    /// the minimum release first, then the release found.
    MinVersion(CephVersion, CephVersion),
    /// Text that could not be parsed; holds the offending input.
    Parse(String),
    /// A number that could not be parsed.
    ParseIntError(std::num::ParseIntError),
    /// Bytes that are not UTF-8 where text was expected.
    FromUtf8Error(std::string::FromUtf8Error),
    /// Text that is not a UUID.
    ParseError(uuid::Error),
}

pub type RadosResult<T> = Result<T, RadosError>;

impl RadosError {
    /// Create a new `RadosError` holding a message.
    pub fn new(err: String) -> (r: RadosError)
        ensures
            r matches RadosError::Error(m) && m@ == err@,
    {
        RadosError::Error(err)
    }
}

} // verus!
