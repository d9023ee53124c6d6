//! The error taxonomy of the client.

use vstd::prelude::*;

verus! {

/// Why a login response could not be turned into a session credential.
#[derive(Debug, Clone, PartialEq, Eq, Structural)]
pub enum AuthenticationFailure {
    /// The login response carried no session-cookie header.
    MissingCredentialHeader,
    /// The session-cookie header had no attribute delimiter (`;`).
    MalformedCredentialHeader,
}

/// Why a response body could not be decoded into the requested record shape.
#[derive(Debug, Clone, PartialEq, Eq, Structural)]
pub enum DecodeReason {
    /// A decoded text value was not valid UTF-8.
    InvalidUtf8,
    /// The body was not well-formed JSON of the requested shape.
    MalformedBody,
    /// A required record field was absent.
    MissingField,
    /// A field was present but held a value of the wrong type.
    WrongFieldType,
    /// A numeric field held something other than an integer in range.
    InvalidInteger,
    /// An enum field held a token the remote service does not define.
    UnknownToken,
}

/// An error surfaced by any operation of the client.
#[derive(Debug, Clone)]
pub enum Error {
    /// The transport could not complete the exchange.
    TransportFailure(String),
    /// The login response did not yield a session credential.
    AuthenticationFailure(AuthenticationFailure),
    /// The response body could not be decoded.
    DecodeFailure(DecodeReason),
    /// The remote service answered with a non-success status.
    RemoteRequestFailed { status: u16, body: String },
    /// A request could not be constructed from the given values.
    ConfigurationError(String),
}

impl Error {
    /// A short human-readable account of the error; never empty.
    pub fn description(&self) -> (r: String)
        ensures
            r@.len() > 0,
    {
        proof {
            reveal_strlit("transport failure");
            reveal_strlit("authentication failed: response carried no session-cookie header");
            reveal_strlit("authentication failed: session-cookie header was malformed");
            reveal_strlit("response body could not be decoded");
            reveal_strlit("remote request failed");
            reveal_strlit("request could not be constructed");
        }
        match self {
            Error::TransportFailure(_) => "transport failure".to_owned(),
            Error::AuthenticationFailure(AuthenticationFailure::MissingCredentialHeader) => {
                "authentication failed: response carried no session-cookie header".to_owned()
            },
            Error::AuthenticationFailure(AuthenticationFailure::MalformedCredentialHeader) => {
                "authentication failed: session-cookie header was malformed".to_owned()
            },
            Error::DecodeFailure(_) => "response body could not be decoded".to_owned(),
            Error::RemoteRequestFailed { .. } => "remote request failed".to_owned(),
            Error::ConfigurationError(_) => "request could not be constructed".to_owned(),
        }
    }
}

} // verus!
