//! The session client: builds the requests of each operation, keeps the
//! cookie jar and the digest-authentication cache, and classifies responses.
//!
//! Sending is the caller's. One request runs as follows: build it with one
//! of the `*_request` methods; for each attempt, take the headers from
//! [`Client::attempt_headers`], send, and ask [`Client::on_response`] whether
//! to send again; then hand the final response's `Set-Cookie` headers to
//! [`Client::store_cookies`] and the response to [`classify`].
use vstd::prelude::*;
use vstd::utf8::{decode_utf8, encode_utf8, valid_utf8};
use crate::cookies::{
    jar_add, jar_contents, jar_pairs, lemma_latest_cookie_replayed, lists_jar, new_jar, no_cookies, pair_views,
    parse_set_cookie, set_cookie_pair,
};
use crate::digest_auth_cache::{AuthAttempt, AuthStep, DigestAuthCache, answers_for, is_header_value, leads_to_retry};
use crate::envelope::ErrorStatus;
use crate::error::{
    ContentType, Error, MalformedContentTypeError, RemoteFailureError, UnexpectedContentTypeError, header_text,
    mime_essence, media_type_essence, visible_text,
};
use crate::request::{AttemptHeaders, Method, Request};
use crate::text::{same_text, utf8_text};
use crate::url_encode::{encoded, url_encode_query_value};

verus! {

/// The normal form that http gives a URI, where it reads the text as one.
pub uninterp spec fn uri_text(s: Seq<char>) -> Option<Seq<char>>;

/// Relies on `http::Uri::try_from` and the `Display` of `http::Uri`: reads
/// the text as a URI and writes it back in normal form; the result depends
/// on the text alone.
#[verifier::external_body]
fn normalize_uri(s: &str) -> (r: Result<String, http::uri::InvalidUri>)
    ensures
        r is Ok <==> uri_text(s@) is Some,
        r matches Ok(t) ==> uri_text(s@) == Some(t@),
{
    http::Uri::try_from(s).map(|u| u.to_string())
}

/// The index of the last `c` in `s` before position `n`.
pub open spec fn last_index_before(s: Seq<char>, c: char, n: int) -> Option<int>
    decreases n,
{
    if n <= 0 {
        None
    } else if s[n - 1] == c {
        Some(n - 1)
    } else {
        last_index_before(s, c, n - 1)
    }
}

/// Splits `input` at the last `pat`: the text before it and the text after
/// it. Without a `pat`, the whole text and an empty one.
pub fn rpartition(input: &str, pat: char) -> (r: (&str, &str))
    ensures
        last_index_before(input@, pat, input@.len() as int) matches Some(n) ==> r.0@ == input@.subrange(0, n)
            && r.1@ == input@.subrange(n + 1, input@.len() as int),
        last_index_before(input@, pat, input@.len() as int) is None ==> r.0@ == input@ && r.1@.len() == 0,
{
    let len = input.unicode_len();
    let mut i = len;
    while i > 0
        invariant
            i <= len == input@.len(),
            last_index_before(input@, pat, len as int) == last_index_before(input@, pat, i as int),
        decreases i,
    {
        if input.get_char(i - 1) == pat {
            return (input.substring_char(0, i - 1), input.substring_char(i, len));
        }
        i = i - 1;
    }
    (input, input.substring_char(len, len))
}

/// The text of one `Cookie` header value: `name=value`.
pub open spec fn cookie_text(p: (Seq<char>, Seq<char>)) -> Seq<char> {
    p.0 + seq!['='] + p.1
}

/// Whether `texts` are the `Cookie` header values of the cookies of `jar`:
/// one `name=value` per cookie.
pub open spec fn replays_jar(texts: Seq<String>, jar: Map<Seq<char>, Seq<char>>) -> bool {
    exists|pairs: Seq<(Seq<char>, Seq<char>)>| {
        &&& lists_jar(pairs, jar)
        &&& texts.len() == pairs.len()
        &&& forall|i: int| 0 <= i < texts.len() ==> #[trigger] texts[i]@ == cookie_text(pairs[i])
    }
}

/// The name and value that a `Set-Cookie` header value stands for.
pub open spec fn cookie_of_header(b: Seq<u8>) -> Option<(Seq<char>, Seq<char>)> {
    match visible_text(b) {
        Some(t) => set_cookie_pair(t),
        None => None,
    }
}

/// The jar after storing the cookies of `headers` in order, up to the first
/// header that does not read as a cookie.
pub open spec fn jar_after(jar: Map<Seq<char>, Seq<char>>, headers: Seq<Seq<u8>>) -> Map<Seq<char>, Seq<char>>
    decreases headers.len(),
{
    if headers.len() == 0 {
        jar
    } else {
        match cookie_of_header(headers[0]) {
            Some(p) => jar_after(jar.insert(p.0, p.1), headers.drop_first()),
            None => jar,
        }
    }
}

pub open spec fn byte_views(v: Seq<Vec<u8>>) -> Seq<Seq<u8>> {
    v.map_values(|b: Vec<u8>| b@)
}

/// Whether the status is a success (2xx).
pub open spec fn is_success(status: u16) -> bool {
    200 <= status && status <= 299
}

/// The essence of the media type in a `Content-Type` header, when the header
/// is present, visible ASCII, and a media type.
pub open spec fn header_essence(header: Option<Seq<u8>>) -> Option<Seq<char>> {
    match header {
        Some(b) => match visible_text(b) {
            Some(t) => mime_essence(t),
            None => None,
        },
        None => None,
    }
}

/// The message of a plain-text failure: the body as text, when it is valid
/// UTF-8 of at most 150 bytes; else empty.
pub open spec fn plain_message(body: Seq<u8>) -> Seq<char> {
    if body.len() <= 150 && valid_utf8(body) {
        decode_utf8(body)
    } else {
        Seq::empty()
    }
}

/// A response that classifies as no error of the client.
pub enum Reply {
    /// A success, with its content type and body.
    Success(ContentType, Vec<u8>),
    /// A failure whose body is a JSON error status, still to be read; with
    /// the HTTP status.
    JsonFailure(u16, Vec<u8>),
}

/// Reads the `Content-Type` header; an absent or unreadable one is malformed.
pub fn get_content_type(header: Option<&[u8]>) -> (r: Result<ContentType, MalformedContentTypeError>)
    ensures
        r is Ok <==> header_essence(match header { Some(b) => Some(b@), None => None }) is Some,
        r matches Ok(c) ==> header_essence(match header { Some(b) => Some(b@), None => None }) == Some(c.essence@)
            && visible_text(header->Some_0@) == Some(c.text@),
        r matches Err(e) ==> e.content_type@ == match header {
            Some(b) => b@,
            None => Seq::empty(),
        },
{
    let bytes = match header {
        Some(b) => b,
        None => return Err(MalformedContentTypeError { content_type: Vec::new() }),
    };
    let text = match header_text(bytes) {
        Some(t) => t,
        None => return Err(MalformedContentTypeError { content_type: vstd::slice::slice_to_vec(bytes) }),
    };
    match media_type_essence(text.as_str()) {
        Some(essence) => Ok(ContentType { essence, text }),
        None => Err(MalformedContentTypeError { content_type: vstd::slice::slice_to_vec(bytes) }),
    }
}

/// Checks that a content type has the expected essence.
pub fn check_content_type(actual: ContentType, expected: &str) -> (r: Result<(), UnexpectedContentTypeError>)
    ensures
        r is Ok <==> actual.essence@ == expected@,
        r matches Err(e) ==> e.actual == actual && e.expected@ == expected@,
{
    if same_text(actual.essence.as_str(), expected) {
        Ok(())
    } else {
        Err(UnexpectedContentTypeError { actual, expected: expected.to_owned() })
    }
}

/// The failure of a plain-text response: the body is the message when it is
/// valid UTF-8 of at most 150 bytes, else the message is empty.
pub fn plain_text_to_error(http_status: u16, body: Vec<u8>) -> (r: RemoteFailureError)
    ensures
        r.http_status == http_status,
        r.code is None,
        r.message@ == plain_message(body@),
{
    let message = if body.len() <= 150 {
        match utf8_text(body) {
            Some(text) => text,
            None => String::new(),
        }
    } else {
        String::new()
    };
    RemoteFailureError { http_status, code: None, message }
}

/// The failure of a response whose JSON body holds an error status.
pub fn remote_failure(http_status: u16, status: ErrorStatus) -> (r: Error)
    ensures
        r matches Error::RemoteFailure(f) && f.http_status == http_status && f.code == Some(status.code)
            && f.message == status.message,
{
    Error::RemoteFailure(RemoteFailureError { http_status, code: Some(status.code), message: status.message })
}

/// How a response with `status`, content-type essence `essence` (`None`
/// when malformed) and `body` classifies.
pub open spec fn classified(r: Result<Reply, Error>, status: u16, essence: Option<Seq<char>>, body: Seq<u8>) -> bool {
    match essence {
        None => r matches Err(Error::MalformedContentType(_)),
        Some(e) => if is_success(status) {
            r matches Ok(Reply::Success(c, b)) && c.essence@ == e && b@ == body
        } else if e == "text/plain"@ {
            r matches Err(Error::RemoteFailure(f)) && f.http_status == status && f.code is None && f.message@
                == plain_message(body)
        } else if e == "application/json"@ {
            r matches Ok(Reply::JsonFailure(s, b)) && s == status && b@ == body
        } else {
            r matches Err(Error::UnexpectedContentType(u)) && u.actual.essence@ == e && u.expected@
                == "application/json or text/plain"@
        },
    }
}

/// Classifies a response by status and content type. A malformed content type
/// fails first. A 2xx status is a success. Otherwise a `text/plain` body is
/// the failure's message; an `application/json` body is an error status left
/// to read; any other content type is unexpected.
pub fn classify(status: u16, content_type: Option<&[u8]>, body: Vec<u8>) -> (r: Result<Reply, Error>)
    ensures
        classified(r, status, header_essence(match content_type { Some(b) => Some(b@), None => None }), body@),
{
    let content_type = match get_content_type(content_type) {
        Ok(c) => c,
        Err(e) => return Err(Error::MalformedContentType(e)),
    };
    if 200 <= status && status <= 299 {
        Ok(Reply::Success(content_type, body))
    } else if same_text(content_type.essence.as_str(), "text/plain") {
        Err(Error::RemoteFailure(plain_text_to_error(status, body)))
    } else if same_text(content_type.essence.as_str(), "application/json") {
        Ok(Reply::JsonFailure(status, body))
    } else {
        Err(Error::UnexpectedContentType(UnexpectedContentTypeError {
            actual: content_type,
            expected: "application/json or text/plain".to_owned(),
        }))
    }
}

/// The bytes of form text.
pub open spec fn form_bytes(text: Seq<char>) -> Seq<u8> {
    encode_utf8(text)
}

/// Whether `r` is a GET of `url`.
pub open spec fn is_get(r: Request, url: Seq<char>) -> bool {
    r.method == Method::Get && r.url@ == url && r.content_type is None && r.body@.len() == 0
}

/// Whether `r` POSTs the form `form` to `url`.
pub open spec fn is_form_post(r: Request, url: Seq<char>, form: Seq<char>) -> bool {
    &&& r.method == Method::Post
    &&& r.url@ == url
    &&& r.content_type matches Some(c) && c@ == "application/x-www-form-urlencoded"@
    &&& r.body@ == form_bytes(form)
}

fn get_request(url: String) -> (r: Request)
    ensures
        is_get(r, url@),
{
    Request { method: Method::Get, url, content_type: None, body: Vec::new() }
}

fn post_form(url: String, form: String) -> (r: Request)
    ensures
        is_form_post(r, url@, form@),
{
    let body = form.as_str().as_bytes_vec();
    Request { method: Method::Post, url, content_type: Some("application/x-www-form-urlencoded".to_owned()), body }
}

fn join3(a: &str, b: &str, c: &str) -> (r: String)
    ensures
        r@ == a@ + b@ + c@,
{
    let mut s = a.to_owned();
    s.append(b);
    s.append(c);
    s
}

/// An ABB RWS client: a session with a robot controller.
pub struct Client {
    root_url: String,
    auth_cache: DigestAuthCache,
    cookies: cookie::CookieJar,
}

impl Client {
    /// The root URL, in the normal form http gives it.
    pub closed spec fn root(&self) -> Seq<char> {
        self.root_url@
    }

    /// The cookies of the session.
    pub closed spec fn jar(&self) -> Map<Seq<char>, Seq<char>> {
        jar_contents(self.cookies)
    }

    /// The authentication cache of the session.
    pub closed spec fn auth(&self) -> DigestAuthCache {
        self.auth_cache
    }

    /// A client for the controller at `host`, which must make a valid URI
    /// after `http://`; no cookies and no challenge yet.
    pub fn new(host: &str, user: String, password: String) -> (r: Result<Client, Error>)
        ensures
            r is Ok <==> uri_text("http://"@ + host@) is Some,
            r matches Ok(c) ==> {
                &&& uri_text("http://"@ + host@) == Some(c.root())
                &&& c.jar() == no_cookies()
                &&& c.auth().challenge() is None
                &&& c.auth().wf()
                &&& c.auth().username() == user@
                &&& c.auth().password() == password@
            },
            r matches Err(e) ==> e is InvalidUri,
    {
        let mut text = "http://".to_owned();
        text.append(host);
        match normalize_uri(text.as_str()) {
            Ok(root_url) => Ok(Client { root_url, auth_cache: DigestAuthCache::new(user, password), cookies: new_jar() }),
            Err(e) => Err(Error::InvalidUri(e)),
        }
    }

    fn url(&self, tail: &str) -> (r: String)
        ensures
            r@ == self.root() + tail@,
    {
        let mut url = self.root_url.clone();
        url.append(tail);
        url
    }

    fn url3(&self, a: &str, b: &str, c: &str) -> (r: String)
        ensures
            r@ == self.root() + a@ + b@ + c@,
    {
        let mut url = self.root_url.clone();
        url.append(a);
        url.append(b);
        url.append(c);
        url
    }

    /// The request that establishes a session.
    pub fn login_request(&self) -> (r: Request)
        ensures
            is_get(r, self.root() + "/?json=1"@),
    {
        get_request(self.url("/?json=1"))
    }

    /// The request for the list of all signals.
    pub fn get_signals_request(&self) -> (r: Request)
        ensures
            is_get(r, self.root() + "/rw/iosystem/signals?json=1"@),
    {
        get_request(self.url("/rw/iosystem/signals?json=1"))
    }

    /// The request for one signal.
    pub fn get_signal_request(&self, signal: &str) -> (r: Request)
        ensures
            is_get(r, self.root() + "/rw/iosystem/signals/"@ + signal@ + "/?json=1"@),
    {
        get_request(self.url3("/rw/iosystem/signals/", signal, "/?json=1"))
    }

    /// The request that sets a signal to the value written as `value_text`
    /// (see [`crate::signal::SignalValue::to_text`]).
    pub fn set_signal_request(&self, signal: &str, value_text: &str) -> (r: Request)
        ensures
            is_form_post(
                r,
                self.root() + "/rw/iosystem/signals/"@ + signal@ + "/?action=set&json=1"@,
                "lvalue="@ + value_text@,
            ),
    {
        let url = self.url3("/rw/iosystem/signals/", signal, "/?action=set&json=1");
        let mut form = "lvalue=".to_owned();
        form.append(value_text);
        post_form(url, form)
    }

    /// The request for the entries of a directory.
    pub fn list_files_request(&self, directory: &str) -> (r: Request)
        ensures
            is_get(r, self.root() + "/fileservice/"@ + directory@ + "/?json=1"@),
    {
        get_request(self.url3("/fileservice/", directory, "/?json=1"))
    }

    /// The request that creates a directory: the path is split at its last
    /// `/` into the parent, to which the form is posted, and the new name,
    /// which the form carries percent-encoded.
    pub fn create_directory_request(&self, directory: &str) -> (r: Request)
        ensures
            ({
                let s = directory@;
                let parent = match last_index_before(s, '/', s.len() as int) {
                    Some(n) => s.subrange(0, n),
                    None => s,
                };
                let child = match last_index_before(s, '/', s.len() as int) {
                    Some(n) => s.subrange(n + 1, s.len() as int),
                    None => Seq::empty(),
                };
                is_form_post(
                    r,
                    self.root() + "/fileservice/"@ + parent + "/?json=1"@,
                    "fs-newname="@ + encoded(encode_utf8(child)) + "&fs-action=create"@,
                )
            }),
    {
        let (parent, child) = rpartition(directory, '/');
        let url = self.url3("/fileservice/", parent, "/?json=1");
        let name = url_encode_query_value(child.as_bytes()).to_string();
        let form = join3("fs-newname=", name.as_str(), "&fs-action=create");
        post_form(url, form)
    }

    /// The request that downloads a file. The response comes back as it is,
    /// with its content type: the server answers a directory path with its
    /// JSON listing, so a caller that asked for a file and gets
    /// `application/json` should treat the path as a directory, not a file.
    pub fn download_file_request(&self, path: &str) -> (r: Request)
        ensures
            is_get(r, self.root() + "/fileservice/"@ + path@ + "/?json=1"@),
    {
        get_request(self.url3("/fileservice/", path, "/?json=1"))
    }

    /// The request that uploads `data` as a file of the given content type.
    pub fn upload_file_request(&self, path: &str, content_type: &str, data: Vec<u8>) -> (r: Request)
        ensures
            r.method == Method::Put,
            r.url@ == self.root() + "/fileservice/"@ + path@ + "/?json=1"@,
            r.content_type matches Some(c) && c@ == content_type@,
            r.body@ == data@,
    {
        Request {
            method: Method::Put,
            url: self.url3("/fileservice/", path, "/?json=1"),
            content_type: Some(content_type.to_owned()),
            body: data,
        }
    }

    /// The `Cookie` header values that replay the jar: one `name=value` per cookie.
    pub fn cookie_headers(&self) -> (r: Vec<String>)
        ensures
            replays_jar(r@, self.jar()),
    {
        let pairs = jar_pairs(&self.cookies);
        let ghost views = pair_views(pairs@);
        let mut texts: Vec<String> = Vec::new();
        let mut i: usize = 0;
        while i < pairs.len()
            invariant
                i <= pairs@.len(),
                views == pair_views(pairs@),
                texts@.len() == i,
                forall|k: int| 0 <= k < i ==> #[trigger] texts@[k]@ == cookie_text(views[k]),
            decreases pairs@.len() - i,
        {
            let text = join3(pairs[i].0.as_str(), "=", pairs[i].1.as_str());
            proof {
                reveal_strlit("=");
                assert("="@ =~= seq!['=']);
            }
            texts.push(text);
            i = i + 1;
        }
        assert(lists_jar(views, self.jar()));
        assert(texts@.len() == views.len());
        assert(forall|k: int| 0 <= k < texts@.len() ==> #[trigger] texts@[k]@ == cookie_text(views[k]));
        texts
    }

    /// The headers of one attempt of a request with `method` on the request
    /// path `path`: the cookies, and an answer to the cached challenge.
    pub fn attempt_headers(&mut self, method: Method, path: &str) -> (r: AttemptHeaders)
        ensures
            replays_jar(r.cookies@, old(self).jar()),
            final(self).jar() == old(self).jar(),
            final(self).root() == old(self).root(),
            old(self).auth().challenge() is None ==> r.authorization is None && final(self).auth() == old(self).auth(),
            old(self).auth().challenge() is Some ==> (r.authorization matches Some(h) ==> answers_for(
                h@,
                old(self).auth().username(),
                path@,
            )),
            r.authorization matches Some(h) ==> is_header_value(h@),
            final(self).auth().challenge() is Some == old(self).auth().challenge() is Some,
            final(self).auth().challenge_text() == old(self).auth().challenge_text(),
            old(self).auth().wf() ==> final(self).auth().wf(),
            final(self).auth().username() == old(self).auth().username(),
            final(self).auth().password() == old(self).auth().password(),
    {
        let cookies = self.cookie_headers();
        let authorization = self.auth_cache.authorization(method, path);
        AttemptHeaders { cookies, authorization }
    }

    /// Where a request stands before its first attempt.
    pub fn auth_start(&self) -> (r: AuthAttempt)
        ensures
            !r.retried,
    {
        self.auth_cache.start()
    }

    /// Decides what follows a response with `status` and the bytes of its
    /// `WWW-Authenticate` header: a retry with the challenge read from it,
    /// replacing any cached one, or the end.
    pub fn on_response(&mut self, attempt: &mut AuthAttempt, status: u16, www_authenticate: Option<&[u8]>) -> (r: AuthStep)
        ensures
            ({
                let text = match www_authenticate {
                    Some(b) => visible_text(b@),
                    None => None,
                };
                &&& (r is Retry) == leads_to_retry(old(attempt).retried, status, text)
                &&& r is Retry ==> final(self).auth().challenge() is Some && final(self).auth().challenge_text() == text
                    && final(attempt).retried
            }),
            r is Done ==> final(self).auth() == old(self).auth() && *final(attempt) == *old(attempt),
            old(self).auth().wf() ==> final(self).auth().wf(),
            final(self).jar() == old(self).jar(),
            final(self).root() == old(self).root(),
            final(self).auth().username() == old(self).auth().username(),
            final(self).auth().password() == old(self).auth().password(),
    {
        self.auth_cache.on_response(attempt, status, www_authenticate)
    }

    /// Stores the cookies of the `Set-Cookie` headers in order, each
    /// replacing a cookie of the same name. The first header that is not
    /// visible ASCII is an invalid header, the first that is no cookie an
    /// invalid cookie; the headers before it are stored.
    pub fn store_cookies(&mut self, set_cookie: &Vec<Vec<u8>>) -> (r: Result<(), Error>)
        ensures
            final(self).jar() == jar_after(old(self).jar(), byte_views(set_cookie@)),
            final(self).root() == old(self).root(),
            final(self).auth() == old(self).auth(),
            r is Ok <==> forall|i: int| 0 <= i < set_cookie@.len() ==> cookie_of_header(#[trigger] set_cookie@[i]@) is Some,
            r matches Err(e) ==> exists|i: int| {
                &&& 0 <= i < set_cookie@.len()
                &&& forall|j: int| 0 <= j < i ==> cookie_of_header(#[trigger] set_cookie@[j]@) is Some
                &&& cookie_of_header(#[trigger] set_cookie@[i]@) is None
                &&& visible_text(set_cookie@[i]@) is None ==> e is InvalidHeader
                &&& visible_text(set_cookie@[i]@) is Some ==> e is InvalidCookie
            },
    {
        let ghost headers = byte_views(set_cookie@);
        let ghost goal = jar_after(self.jar(), headers);
        assert(headers.subrange(0, headers.len() as int) == headers);
        let mut i: usize = 0;
        while i < set_cookie.len()
            invariant
                i <= set_cookie@.len(),
                headers == byte_views(set_cookie@),
                jar_after(self.jar(), headers.subrange(i as int, headers.len() as int)) == goal,
                goal == jar_after(old(self).jar(), byte_views(set_cookie@)),
                self.root() == old(self).root(),
                self.auth() == old(self).auth(),
                forall|j: int| 0 <= j < i ==> cookie_of_header(#[trigger] set_cookie@[j]@) is Some,
            decreases set_cookie@.len() - i,
        {
            let ghost rest = headers.subrange(i as int, headers.len() as int);
            assert(rest[0] == set_cookie@[i as int]@);
            assert(rest.drop_first() =~= headers.subrange(i + 1, headers.len() as int));
            let text = match header_text(set_cookie[i].as_slice()) {
                Some(t) => t,
                None => return Err(Error::InvalidHeader),
            };
            match parse_set_cookie(text.as_str()) {
                Ok((name, value)) => {
                    jar_add(&mut self.cookies, name, value);
                },
                Err(e) => {
                    return Err(Error::InvalidCookie(e));
                },
            }
            i = i + 1;
        }
        assert(headers.subrange(i as int, headers.len() as int).len() == 0);
        Ok(())
    }
}

/// Headers that do not name a cookie leave it as it was.
proof fn lemma_jar_after_keeps(jar: Map<Seq<char>, Seq<char>>, headers: Seq<Seq<u8>>, name: Seq<char>)
    requires
        forall|j: int| 0 <= j < headers.len() ==> (cookie_of_header(#[trigger] headers[j]) matches Some(p) ==> p.0 != name),
    ensures
        jar_after(jar, headers).contains_key(name) == jar.contains_key(name),
        jar.contains_key(name) ==> jar_after(jar, headers)[name] == jar[name],
    decreases headers.len(),
{
    if headers.len() > 0 {
        if let Some(p) = cookie_of_header(headers[0]) {
            let rest = headers.drop_first();
            assert forall|j: int| 0 <= j < rest.len() implies (cookie_of_header(#[trigger] rest[j]) matches Some(q) ==> q.0
                != name) by {
                assert(rest[j] == headers[j + 1]);
            }
            assert(p.0 != name) by {
                assert(cookie_of_header(headers[0]) matches Some(q) ==> q.0 != name);
            }
            lemma_jar_after_keeps(jar.insert(p.0, p.1), rest, name);
        }
    }
}

/// Of the headers stored, the last one that names a cookie decides its value.
proof fn lemma_jar_after_last(
    jar: Map<Seq<char>, Seq<char>>,
    headers: Seq<Seq<u8>>,
    k: int,
    name: Seq<char>,
    value: Seq<char>,
)
    requires
        0 <= k < headers.len(),
        forall|j: int| 0 <= j < k ==> cookie_of_header(#[trigger] headers[j]) is Some,
        cookie_of_header(headers[k]) == Some((name, value)),
        forall|j: int| k < j < headers.len() ==> (cookie_of_header(#[trigger] headers[j]) matches Some(p) ==> p.0 != name),
    ensures
        jar_after(jar, headers).contains_key(name),
        jar_after(jar, headers)[name] == value,
    decreases headers.len(),
{
    let rest = headers.drop_first();
    if k == 0 {
        assert forall|j: int| 0 <= j < rest.len() implies (cookie_of_header(#[trigger] rest[j]) matches Some(p) ==> p.0
            != name) by {
            assert(rest[j] == headers[j + 1]);
        }
        lemma_jar_after_keeps(jar.insert(name, value), rest, name);
    } else {
        assert(cookie_of_header(headers[0]) is Some);
        let p = cookie_of_header(headers[0])->Some_0;
        assert forall|j: int| 0 <= j < k - 1 implies cookie_of_header(#[trigger] rest[j]) is Some by {
            assert(rest[j] == headers[j + 1]);
        }
        assert forall|j: int| k - 1 < j < rest.len() implies (cookie_of_header(#[trigger] rest[j]) matches Some(q) ==> q.0
            != name) by {
            assert(rest[j] == headers[j + 1]);
        }
        assert(rest[k - 1] == headers[k]);
        lemma_jar_after_last(jar.insert(p.0, p.1), rest, k - 1, name, value);
    }
}

/// A `Set-Cookie` for a name that the jar already holds overwrites it:
/// after storing headers that all read as cookies up to the one at `k`,
/// none later naming the same cookie, the cookies replayed hold that name
/// once, with the value from `k`; the earlier value is not kept beside it.
pub proof fn lemma_set_cookie_overwrites(
    before: Map<Seq<char>, Seq<char>>,
    headers: Seq<Seq<u8>>,
    k: int,
    pairs: Seq<(Seq<char>, Seq<char>)>,
)
    requires
        0 <= k < headers.len(),
        forall|j: int| 0 <= j <= k ==> cookie_of_header(#[trigger] headers[j]) is Some,
        forall|j: int| k < j < headers.len() ==> (cookie_of_header(#[trigger] headers[j]) matches Some(p) ==> p.0
            != cookie_of_header(headers[k])->Some_0.0),
        lists_jar(pairs, jar_after(before, headers)),
    ensures
        ({
            let (name, value) = cookie_of_header(headers[k])->Some_0;
            &&& exists|i: int| 0 <= i < pairs.len() && #[trigger] pairs[i] == (name, value)
            &&& forall|i: int| 0 <= i < pairs.len() && #[trigger] pairs[i].0 == name ==> pairs[i].1 == value
            &&& forall|i: int, j: int|
                0 <= i < pairs.len() && 0 <= j < pairs.len() && #[trigger] pairs[i].0 == name && #[trigger] pairs[j].0
                    == name ==> i == j
        }),
{
    let (name, value) = cookie_of_header(headers[k])->Some_0;
    lemma_jar_after_last(before, headers, k, name, value);
    let jar = jar_after(before, headers);
    assert(jar.insert(name, value) =~= jar);
    lemma_latest_cookie_replayed(jar, name, value, pairs);
}

} // verus!
