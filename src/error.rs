//! The errors of the client.
use vstd::prelude::*;
use crate::envelope::DecodeError;
use crate::text::{ascii_char, decimal, push_decimal};

verus! {

#[verifier::external_type_specification]
#[verifier::external_body]
pub struct ExInvalidUri(http::uri::InvalidUri);

/// A media type as the logic reads it: its essence (`type/subtype`, without
/// parameters) and the whole text it was read from.
#[derive(Clone, Debug)]
pub struct ContentType {
    pub essence: String,
    pub text: String,
}

/// The essence of a media type, where mime reads the text as one.
pub uninterp spec fn mime_essence(text: Seq<char>) -> Option<Seq<char>>;

/// Relies on mime's `FromStr` for `Mime`, read out with `Mime::essence_str`:
/// the essence of the media type the text names; it depends on the text alone.
#[verifier::external_body]
pub(crate) fn media_type_essence(text: &str) -> (r: Option<String>)
    ensures
        r is Some <==> mime_essence(text@) is Some,
        r matches Some(e) ==> mime_essence(text@) == Some(e@),
{
    text.parse::<mime::Mime>().ok().map(|m| m.essence_str().to_string())
}

/// A failure that the server reported.
#[derive(Clone, Debug)]
pub struct RemoteFailureError {
    pub http_status: u16,
    pub code: Option<u32>,
    pub message: String,
}

/// The code as the server sent it: its bits read as a signed 32-bit number.
pub open spec fn signed_code(code: u32) -> int {
    if code >= 0x8000_0000 {
        code - 0x1_0000_0000
    } else {
        code as int
    }
}

/// Decimal text of an integer, with a leading `-` when negative.
pub open spec fn signed_decimal(x: int) -> Seq<char> {
    if x < 0 {
        seq!['-'] + decimal((-x) as nat)
    } else {
        decimal(x as nat)
    }
}

/// The text of a remote failure: the HTTP status, then the error code (as
/// the server sent it) when there is one, then the message when not empty.
pub open spec fn failure_text(http_status: u16, code: Option<u32>, message: Seq<char>) -> Seq<char> {
    "remote call failed with HTTP status "@ + decimal(http_status as nat) + match code {
        Some(c) => " and error code "@ + signed_decimal(signed_code(c)),
        None => Seq::empty(),
    } + if message.len() == 0 {
        Seq::empty()
    } else {
        ": "@ + message
    }
}

impl RemoteFailureError {
    /// The failure as text.
    pub fn to_string(&self) -> (r: String)
        ensures
            r@ == failure_text(self.http_status, self.code, self.message@),
    {
        let mut out = "remote call failed with HTTP status ".to_owned();
        push_decimal(&mut out, self.http_status as u64);
        let ghost head = out@;
        if let Some(code) = self.code {
            out.append(" and error code ");
            if code >= 0x8000_0000 {
                out.push('-');
                push_decimal(&mut out, (0x1_0000_0000u64 - code as u64));
            } else {
                push_decimal(&mut out, code as u64);
            }
        }
        let ghost middle = out@;
        if self.message.as_str().unicode_len() != 0 {
            out.append(": ");
            out.append(self.message.as_str());
        }
        proof {
            assert(middle == head + match self.code {
                Some(c) => " and error code "@ + signed_decimal(signed_code(c)),
                None => Seq::<char>::empty(),
            });
        }
        out
    }
}

/// A `Content-Type` header that is absent or cannot be read; holds its bytes.
#[derive(Clone, Debug)]
pub struct MalformedContentTypeError {
    pub content_type: Vec<u8>,
}

/// A content type that the operation does not accept.
#[derive(Clone, Debug)]
pub struct UnexpectedContentTypeError {
    pub actual: ContentType,
    pub expected: String,
}

/// An error of the client.
#[derive(Debug)]
pub enum Error {
    RemoteFailure(RemoteFailureError),
    MalformedContentType(MalformedContentTypeError),
    UnexpectedContentType(UnexpectedContentTypeError),
    InvalidUri(http::uri::InvalidUri),
    /// A header value that is not visible ASCII.
    InvalidHeader,
    InvalidCookie(cookie::ParseError),
    Decode(DecodeError),
}

/// A byte that a readable header value may hold: visible ASCII or a tab.
pub open spec fn is_visible_ascii(b: u8) -> bool {
    (32 <= b && b < 127) || b == 9
}

/// The text of a header value, when every byte is visible ASCII.
pub open spec fn visible_text(b: Seq<u8>) -> Option<Seq<char>> {
    if forall|i: int| 0 <= i < b.len() ==> is_visible_ascii(#[trigger] b[i]) {
        Some(b.map_values(|x: u8| ascii_char(x)))
    } else {
        None
    }
}

/// The text of a header value, as `http::HeaderValue::to_str` reads it: only
/// when every byte is visible ASCII or a tab.
pub fn header_text(bytes: &[u8]) -> (r: Option<String>)
    ensures
        r is Some <==> visible_text(bytes@) is Some,
        r matches Some(s) ==> visible_text(bytes@) == Some(s@),
{
    let mut out = String::new();
    let mut i: usize = 0;
    while i < bytes.len()
        invariant
            i <= bytes@.len(),
            forall|k: int| 0 <= k < i ==> is_visible_ascii(#[trigger] bytes@[k]),
            out@ == bytes@.subrange(0, i as int).map_values(|x: u8| ascii_char(x)),
        decreases bytes@.len() - i,
    {
        let b = bytes[i];
        if !((32 <= b && b < 127) || b == 9) {
            return None;
        }
        crate::text::push_ascii(&mut out, b);
        assert(bytes@.subrange(0, i + 1).map_values(|x: u8| ascii_char(x)) =~= bytes@.subrange(0, i as int).map_values(
            |x: u8| ascii_char(x),
        ).push(ascii_char(b)));
        i = i + 1;
    }
    assert(bytes@.subrange(0, i as int) =~= bytes@);
    Some(out)
}

} // verus!
