//! A client for the ABB Robot Web Services (RWS) HTTP API of a robot
//! controller: request building, digest authentication, cookies, response
//! classification, and decoding of the server's JSON records, all verified.
//! Sending requests and reading JSON text are left to the caller.
use vstd::prelude::*;

pub mod cookies;
pub mod digest_auth_cache;
pub mod envelope;
pub mod error;
pub mod file_service;
pub mod float_bits;
pub mod request;
pub mod session;
pub mod signal;
pub mod text;
pub mod url_encode;

pub use digest_auth_cache::AuthAttempt;
pub use digest_auth_cache::AuthStep;
pub use digest_auth_cache::DigestAuthCache;
pub use envelope::DecodeError;
pub use envelope::Envelope;
pub use envelope::ErrorStatus;
pub use envelope::OneOrNone;
pub use error::ContentType;
pub use error::Error;
pub use error::MalformedContentTypeError;
pub use error::RemoteFailureError;
pub use error::UnexpectedContentTypeError;
pub use file_service::DirEntry;
pub use file_service::Device;
pub use file_service::Directory;
pub use file_service::File;
pub use request::Method;
pub use request::Request;
pub use session::Client;
pub use session::Reply;
pub use signal::Signal;
pub use signal::SignalKind;
pub use signal::SignalValue;
pub use signal::SignalValueFromStrError;
pub use url_encode::url_encode_query_value;
pub use url_encode::UrlEncodeQueryValue;
