//! Requests as plain values, ready for a transport to send.
use vstd::prelude::*;

verus! {

/// The HTTP methods the client sends.
#[derive(Clone, Copy, Debug, PartialEq, Eq, Structural)]
pub enum Method {
    Get,
    Post,
    Put,
}

/// A request to send: method, absolute URL, optional `Content-Type` and body.
pub struct Request {
    pub method: Method,
    pub url: String,
    pub content_type: Option<String>,
    pub body: Vec<u8>,
}

/// The headers of one attempt of a request: the `Cookie` header values (one
/// per cookie) and the `Authorization` header value, if any.
pub struct AttemptHeaders {
    pub cookies: Vec<String>,
    pub authorization: Option<String>,
}

} // verus!
