//! The error type shared by the client-side operations.

use vstd::prelude::*;

use crate::text::{concat2, owned};

verus! {

/// Declares `std::io::Error` so that the `Io` variant can carry it.
#[verifier::external_type_specification]
#[verifier::external_body]
pub struct ExIoError(std::io::Error);

/// Errors of the client-side operations.
#[derive(Debug)]
pub enum CoreError {
    UnsupportedPlatform,
    NotFound(String),
    AlreadyExists(String),
    InvalidInput(String),
    PermissionDenied,
    CommandFailed(String),
    Io(std::io::Error),
    Other(String),
}

/// The text that the error displays, for the variants that carry text.
pub open spec fn core_error_text(e: CoreError) -> Seq<char> {
    match e {
        CoreError::UnsupportedPlatform => "unsupported platform"@,
        CoreError::NotFound(m) => "not found: "@ + m@,
        CoreError::AlreadyExists(m) => "already exists: "@ + m@,
        CoreError::InvalidInput(m) => "invalid input: "@ + m@,
        CoreError::PermissionDenied => "permission denied"@,
        CoreError::CommandFailed(m) => "command failed: "@ + m@,
        CoreError::Io(_) => "io error: "@,
        CoreError::Other(m) => m@,
    }
}

/// `e` is `InvalidInput` with message `m`.
pub open spec fn is_invalid_input(e: CoreError, m: Seq<char>) -> bool {
    e matches CoreError::InvalidInput(t) && t@ == m
}

impl CoreError {
    /// The message of the error, as its display shows it. For `Io` the
    /// text of the underlying I/O error follows the prefix.
    pub fn message(&self) -> (r: String)
        ensures
            !(self is Io) ==> r@ == core_error_text(*self),
            self is Io ==> r@.len() >= "io error: "@.len() && r@.take("io error: "@.len() as int)
                == "io error: "@,
    {
        match self {
            CoreError::UnsupportedPlatform => owned("unsupported platform"),
            CoreError::NotFound(m) => concat2("not found: ", m.as_str()),
            CoreError::AlreadyExists(m) => concat2("already exists: ", m.as_str()),
            CoreError::InvalidInput(m) => concat2("invalid input: ", m.as_str()),
            CoreError::PermissionDenied => owned("permission denied"),
            CoreError::CommandFailed(m) => concat2("command failed: ", m.as_str()),
            CoreError::Io(e) => {
                let t = io_error_text(e);
                let r = concat2("io error: ", t.as_str());
                assert(r@.take("io error: "@.len() as int) =~= "io error: "@);
                r
            },
            CoreError::Other(m) => owned(m.as_str()),
        }
    }
}

impl From<std::io::Error> for CoreError {
    /// An I/O failure becomes the `Io` variant.
    fn from(e: std::io::Error) -> (r: Self) {
        CoreError::Io(e)
    }
}

impl vstd::std_specs::convert::FromSpecImpl<std::io::Error> for CoreError {
    open spec fn obeys_from_spec() -> bool {
        true
    }

    open spec fn from_spec(v: std::io::Error) -> Self {
        CoreError::Io(v)
    }
}

/// The display text of an I/O error.
///
/// Trusted: calls `ToString::to_string` on `std::io::Error`; nothing is
/// stated of the text, which depends on the operating system.
#[verifier::external_body]
fn io_error_text(e: &std::io::Error) -> String {
    e.to_string()
}

} // verus!
