//! A typed client binding for the qBittorrent web API.
//!
//! The crate covers the request/response mapping layer of the client:
//! building endpoint addresses and canonical query strings, extracting and
//! holding the session credential, decoding the JSON response bodies into
//! typed records, and the selection logic of the batch tag-error workflow.
//! The HTTP transport itself is left to the calling program.

pub mod data;
pub mod decode;
pub mod encode;
pub mod error;
pub mod json;
pub mod queries;
pub mod session;
pub mod strutil;
pub mod workflow;

pub use error::AuthenticationFailure;
pub use error::Error;
