//! The fixed two-level envelope around every JSON result of the API.
//!
//! The JSON text is read into an [`Envelope`] by the caller; what the
//! envelope means is decided here.
use vstd::prelude::*;

verus! {

/// An error reported by the server inside the envelope.
#[derive(Clone, Debug)]
pub struct ErrorStatus {
    pub code: u32,
    pub message: String,
}

/// The unsigned code whose bit pattern the signed wire value carries.
pub open spec fn code_from_wire(code: i32) -> u32 {
    if code < 0 {
        (code + 0x1_0000_0000) as u32
    } else {
        code as u32
    }
}

impl ErrorStatus {
    /// Builds the status from its wire form. The server sends the code as a
    /// signed 32-bit number; its bits are taken as the unsigned code.
    pub fn from_wire(code: i32, message: String) -> (r: ErrorStatus)
        ensures
            r.code == code_from_wire(code),
            r.message == message,
    {
        let code = if code < 0 {
            (code as i64 + 0x1_0000_0000) as u32
        } else {
            code as u32
        };
        ErrorStatus { code, message }
    }
}

/// Why a response body could not be read as the expected records.
#[derive(Clone, Debug)]
pub enum DecodeError {
    /// A field that the record must hold is absent.
    MissingField(&'static str),
    /// A tag names no known variant.
    UnknownVariant(String),
    /// A value that its field does not allow; names what was expected.
    InvalidValue(&'static str),
}

/// The nested state of an envelope, and the error status it may hold instead.
pub struct Envelope<T> {
    pub state: Option<T>,
    pub status: Option<ErrorStatus>,
}

/// A collection of one record or of none.
pub enum OneOrNone<T> {
    One(T),
    Empty,
}

impl<T> OneOrNone<T> {
    pub fn into_option(self) -> (r: Option<T>)
        ensures
            self matches OneOrNone::One(x) ==> r == Some(x),
            self is Empty ==> r is None,
    {
        match self {
            OneOrNone::One(x) => Some(x),
            OneOrNone::Empty => None,
        }
    }
}

/// Whether a decode error reports the missing `_state` field.
pub open spec fn is_missing_state(e: DecodeError) -> bool {
    e matches DecodeError::MissingField(f) && f@ == "_state"@
}

/// Whether a result has the meaning of the envelope (`_state` missing being reported alike).
pub open spec fn means<T>(
    r: Result<Result<T, ErrorStatus>, DecodeError>,
    state: Option<T>,
    status: Option<ErrorStatus>,
) -> bool {
    match (status, state) {
        (Some(e), _) => r == Ok::<Result<T, ErrorStatus>, DecodeError>(Err(e)),
        (None, Some(x)) => r == Ok::<Result<T, ErrorStatus>, DecodeError>(Ok(x)),
        (None, None) => r matches Err(e) && is_missing_state(e),
    }
}

fn missing_state() -> (e: DecodeError)
    ensures
        is_missing_state(e),
{
    DecodeError::MissingField("_state")
}

/// Unwraps an envelope whose state holds the result directly.
pub fn parse<T>(envelope: Envelope<T>) -> (r: Result<Result<T, ErrorStatus>, DecodeError>)
    ensures
        means(r, envelope.state, envelope.status),
{
    match envelope.status {
        Some(error) => Ok(Err(error)),
        None => match envelope.state {
            Some(inner) => Ok(Ok(inner)),
            None => Err(missing_state()),
        },
    }
}

/// The state of a one-or-none envelope, as an option.
pub open spec fn one_of<T>(state: Option<OneOrNone<T>>) -> Option<T> {
    match state {
        Some(OneOrNone::One(x)) => Some(x),
        _ => None,
    }
}

/// Unwraps an envelope whose state holds one record or none; none counts as missing.
pub fn parse_one<T>(envelope: Envelope<OneOrNone<T>>) -> (r: Result<Result<T, ErrorStatus>, DecodeError>)
    ensures
        means(r, one_of(envelope.state), envelope.status),
{
    match envelope.status {
        Some(error) => Ok(Err(error)),
        None => match envelope.state {
            Some(one) => match one.into_option() {
                Some(inner) => Ok(Ok(inner)),
                None => Err(missing_state()),
            },
            None => Err(missing_state()),
        },
    }
}

} // verus!
