//! HTTP digest authentication with a cached challenge.
//!
//! The cache decorates each attempt of a request with an `Authorization`
//! header while it holds a challenge, and decides after each response whether
//! the request is sent once more with a fresh challenge. Sending is the
//! caller's: see [`DigestAuthCache::authorization`] and
//! [`DigestAuthCache::on_response`].
use vstd::prelude::*;
use crate::error::{header_text, visible_text};
use crate::request::Method;

verus! {

#[verifier::external_type_specification]
#[verifier::external_body]
pub struct ExWwwAuthenticateHeader(digest_auth::WwwAuthenticateHeader);

/// Whether digest_auth accepts the text as a `WWW-Authenticate` challenge.
pub uninterp spec fn is_digest_challenge(header: Seq<char>) -> bool;

/// Whether every character is ASCII.
pub open spec fn is_ascii_text(s: Seq<char>) -> bool {
    forall|i: int| 0 <= i < s.len() ==> (#[trigger] s[i]) as u32 <= 127
}

/// Relies on `digest_auth::parse`: reads a `WWW-Authenticate` header value
/// into a challenge; whether it succeeds depends on the text alone. Its
/// parser cuts the text at character counts taken as byte offsets, which
/// panics past ASCII, so the text must be ASCII.
#[verifier::external_body]
fn parse_challenge(header: &str) -> (r: Option<digest_auth::WwwAuthenticateHeader>)
    requires
        is_ascii_text(header@),
    ensures
        r is Some <==> is_digest_challenge(header@),
{
    digest_auth::parse(header).ok()
}

/// Text as digest_auth writes it inside quotes: each `\\` and `"` gets a
/// backslash before it.
pub open spec fn digest_quoted(s: Seq<char>) -> Seq<char>
    decreases s.len(),
{
    if s.len() == 0 {
        Seq::empty()
    } else {
        digest_quoted(s.drop_last()) + if s.last() == '\\' || s.last() == '"' {
            seq!['\\', s.last()]
        } else {
            seq![s.last()]
        }
    }
}

/// `part` begins `h`.
pub open spec fn has_prefix(h: Seq<char>, part: Seq<char>) -> bool {
    part.len() <= h.len() && h.subrange(0, part.len() as int) == part
}

/// `part` stands somewhere in `h`.
pub open spec fn has_infix(h: Seq<char>, part: Seq<char>) -> bool {
    exists|i: int| 0 <= i && i + part.len() <= h.len() && #[trigger] h.subrange(i, i + part.len()) == part
}

/// Whether an `Authorization` value answers for this user and request path:
/// it opens with the quoted user name (unless the challenge asked for a
/// hashed one, which the value then announces) and holds the quoted path.
pub open spec fn answers_for(h: Seq<char>, username: Seq<char>, path: Seq<char>) -> bool {
    &&& (has_prefix(h, "Digest username=\""@ + digest_quoted(username) + "\", "@) || has_infix(
        h,
        ", userhash=true"@,
    ))
    &&& has_infix(h, ", uri=\""@ + digest_quoted(path) + "\""@)
}

/// Relies on `WwwAuthenticateHeader::respond` and
/// `AuthorizationHeader::to_header_string`: the `Authorization` header value
/// answering the challenge for these credentials, method and request path.
/// `respond` fails only for a challenge whose qop list names neither `auth`
/// nor `auth-int`, which `digest_auth::parse` never gives, and every
/// challenge held here comes from it. Its `Display` writes the user name
/// first and the path as `uri`, both quoted. The answer carries a fresh
/// random client nonce and the challenge's nonce count goes up, so nothing
/// more is stated of either.
#[verifier::external_body]
fn respond(
    challenge: &mut digest_auth::WwwAuthenticateHeader,
    username: &str,
    password: &str,
    path: &str,
    method: Method,
) -> (r: Option<String>)
    ensures
        r is Some,
        r matches Some(h) ==> answers_for(h@, username@, path@),
{
    let method = match method {
        Method::Get => digest_auth::HttpMethod::GET,
        Method::Post => digest_auth::HttpMethod::POST,
        Method::Put => digest_auth::HttpMethod::OTHER("PUT"),
    };
    let context = digest_auth::AuthContext {
        username: username.into(),
        password: password.into(),
        uri: path.into(),
        body: None,
        method,
        cnonce: None,
    };
    challenge.respond(&context).ok().map(|answer| answer.to_header_string())
}

/// A character that an HTTP header value may hold: a tab, or any character
/// from the space on except DEL (characters past ASCII are taken whole).
pub open spec fn is_header_value_char(c: char) -> bool {
    c == '\t' || (c as u32 >= 32 && c as u32 != 127)
}

pub open spec fn is_header_value(s: Seq<char>) -> bool {
    forall|i: int| 0 <= i < s.len() ==> is_header_value_char(#[trigger] s[i])
}

/// Relies on `http::HeaderValue::from_str`: it accepts exactly the text whose
/// bytes are each a tab, or at least 32 and not 127.
#[verifier::external_body]
pub(crate) fn is_valid_header_value(s: &str) -> (r: bool)
    ensures
        r == is_header_value(s@),
{
    http::HeaderValue::from_str(s).is_ok()
}

/// The answer to a challenge as it can be sent: kept when it is a valid
/// header value, dropped otherwise.
pub fn usable_answer(answer: Option<String>) -> (r: Option<String>)
    ensures
        answer matches Some(h) && is_header_value(h@) ==> r == answer,
        !(answer matches Some(h) && is_header_value(h@)) ==> r is None,
{
    match answer {
        Some(h) => if is_valid_header_value(h.as_str()) {
            Some(h)
        } else {
            None
        },
        None => None,
    }
}

/// What follows a response within one request.
#[derive(Clone, Copy, Debug, PartialEq, Eq, Structural)]
pub enum AuthStep {
    /// The response is the request's result.
    Done,
    /// Send the request again, with a fresh `Authorization` header.
    Retry,
}

/// Where one request stands: its first attempt, or its one retry.
#[derive(Clone, Copy, Debug, PartialEq, Eq, Structural)]
pub struct AuthAttempt {
    pub retried: bool,
}

/// Whether a response leads to a retry: only on the first attempt, only for
/// status 401, and only when the `WWW-Authenticate` header (its text; `None`
/// when absent or unreadable) holds a challenge.
pub open spec fn leads_to_retry(retried: bool, status: u16, www_authenticate: Option<Seq<char>>) -> bool {
    !retried && status == 401 && (www_authenticate matches Some(h) && is_digest_challenge(h))
}

/// digest_auth's answer to the challenge, if one is given.
fn answer_challenge(
    challenge: &mut Option<digest_auth::WwwAuthenticateHeader>,
    username: &str,
    password: &str,
    path: &str,
    method: Method,
) -> (r: Option<String>)
    ensures
        (*old(challenge)) is None ==> r is None && *final(challenge) == *old(challenge),
        (*old(challenge)) is Some ==> (r matches Some(h) && answers_for(h@, username@, path@)),
        (*final(challenge)) is Some == (*old(challenge)) is Some,
{
    match challenge {
        Some(c) => respond(c, username, password, path, method),
        None => None,
    }
}

/// Cache for HTTP digest authentication: the credentials and the last
/// challenge, with the header text it was read from.
pub struct DigestAuthCache {
    username: String,
    password: String,
    challenge: Option<digest_auth::WwwAuthenticateHeader>,
    challenge_text: Ghost<Option<Seq<char>>>,
}

impl DigestAuthCache {
    /// A challenge is cached exactly when its text is, and that text parses.
    pub closed spec fn wf(&self) -> bool {
        &&& self.challenge is Some == self.challenge_text@ is Some
        &&& self.challenge_text@ matches Some(t) ==> is_digest_challenge(t)
    }

    pub closed spec fn username(&self) -> Seq<char> {
        self.username@
    }

    pub closed spec fn password(&self) -> Seq<char> {
        self.password@
    }

    /// The cached challenge.
    pub closed spec fn challenge(&self) -> Option<digest_auth::WwwAuthenticateHeader> {
        self.challenge
    }

    /// The `WWW-Authenticate` text the cached challenge was read from.
    pub closed spec fn challenge_text(&self) -> Option<Seq<char>> {
        self.challenge_text@
    }

    /// An empty cache for these credentials.
    pub fn new(username: String, password: String) -> (r: Self)
        ensures
            r.username() == username@,
            r.password() == password@,
            r.challenge() is None,
            r.challenge_text() is None,
            r.wf(),
    {
        DigestAuthCache { username, password, challenge: None, challenge_text: Ghost(None) }
    }

    /// Whether a challenge is cached.
    pub fn has_challenge(&self) -> (r: bool)
        ensures
            r == self.challenge() is Some,
            self.wf() ==> r == self.challenge_text() is Some,
    {
        self.challenge.is_some()
    }

    /// Where a request stands before its first attempt.
    pub fn start(&self) -> (r: AuthAttempt)
        ensures
            !r.retried,
    {
        AuthAttempt { retried: false }
    }

    /// The `Authorization` header value for an attempt with `method` on the
    /// request path `path`: none without a cached challenge; otherwise
    /// digest_auth's answer to the challenge for the cached user name and
    /// this path, unless it is no valid header value.
    pub fn authorization(&mut self, method: Method, path: &str) -> (r: Option<String>)
        ensures
            old(self).challenge() is None ==> r is None && *final(self) == *old(self),
            old(self).challenge() is Some ==> (r matches Some(h) ==> answers_for(h@, old(self).username(), path@)),
            final(self).challenge() is Some == old(self).challenge() is Some,
            final(self).challenge_text() == old(self).challenge_text(),
            final(self).username() == old(self).username(),
            final(self).password() == old(self).password(),
            r matches Some(h) ==> is_header_value(h@),
            old(self).wf() ==> final(self).wf(),
    {
        let answer = answer_challenge(&mut self.challenge, self.username.as_str(), self.password.as_str(), path, method);
        usable_answer(answer)
    }

    /// Decides what follows a response with `status` and the bytes of its
    /// `WWW-Authenticate` header (`None` when absent). The header is read
    /// only when it is visible ASCII. On a retry the challenge read from it
    /// replaces the cached one, whatever was cached; a retried request is
    /// never retried again.
    pub fn on_response(&mut self, attempt: &mut AuthAttempt, status: u16, www_authenticate: Option<&[u8]>) -> (r: AuthStep)
        ensures
            ({
                let text = match www_authenticate {
                    Some(b) => visible_text(b@),
                    None => None,
                };
                &&& (r is Retry) == leads_to_retry(old(attempt).retried, status, text)
                &&& r is Retry ==> final(self).challenge() is Some && final(self).challenge_text() == text
                    && final(attempt).retried
            }),
            r is Done ==> *final(self) == *old(self) && *final(attempt) == *old(attempt),
            final(self).username() == old(self).username(),
            final(self).password() == old(self).password(),
            old(self).wf() ==> final(self).wf(),
    {
        if attempt.retried || status != 401 {
            return AuthStep::Done;
        }
        let text = match www_authenticate {
            Some(b) => header_text(b),
            None => None,
        };
        let header = match &text {
            Some(h) => h,
            None => return AuthStep::Done,
        };
        assert(is_ascii_text(header@));
        match parse_challenge(header.as_str()) {
            Some(challenge) => {
                self.challenge = Some(challenge);
                self.challenge_text = Ghost(Some(header@));
                attempt.retried = true;
                AuthStep::Retry
            },
            None => AuthStep::Done,
        }
    }
}

/// A request goes through the cache at most twice: after a retry, whatever
/// answer comes back is the result.
pub proof fn lemma_at_most_one_retry(status: u16, www_authenticate: Option<Seq<char>>)
    ensures
        !leads_to_retry(true, status, www_authenticate),
{
}

/// A response other than 401 ends a request at once, on either attempt.
pub proof fn lemma_success_is_final(retried: bool, status: u16, www_authenticate: Option<Seq<char>>)
    requires
        status != 401,
    ensures
        !leads_to_retry(retried, status, www_authenticate),
{
}

} // verus!
