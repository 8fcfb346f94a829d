//! The ways an invocation can fail.
use vstd::prelude::*;

verus! {

/// Why an operation could not be carried out.
#[derive(Debug, Clone, Copy, PartialEq, Eq, Structural)]
pub enum Error {
    /// The settings source is missing or cannot be read.
    ConfigNotFound,
    /// The explicit or default instance name does not resolve.
    InstanceNotFound,
    /// The command is unrecognized or has no network operation.
    UnsupportedCommand,
    /// The transport failed or did not answer in time.
    RemoteAPIError,
    /// The answer arrived but does not have the expected shape.
    MalformedResponse,
}

/// The one-line message of each error.
pub open spec fn error_message(e: Error) -> Seq<char> {
    match e {
        Error::ConfigNotFound => "Could not open config"@,
        Error::InstanceNotFound => "Could not find the requested app"@,
        Error::UnsupportedCommand => "Command is not supported"@,
        Error::RemoteAPIError => "Error reading remote API"@,
        Error::MalformedResponse => "Could not understand the remote API response"@,
    }
}

impl Error {
    /// The one-line message shown for this error.
    pub fn message(&self) -> (r: &'static str)
        ensures
            r@ == error_message(*self),
    {
        match self {
            Error::ConfigNotFound => "Could not open config",
            Error::InstanceNotFound => "Could not find the requested app",
            Error::UnsupportedCommand => "Command is not supported",
            Error::RemoteAPIError => "Error reading remote API",
            Error::MalformedResponse => "Could not understand the remote API response",
        }
    }
}

} // verus!
