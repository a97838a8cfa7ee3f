//! Request descriptors, the request factory, and response post-processing.

use vstd::prelude::*;
use vstd::string::StringExecFns;
use vstd::string::StrSliceExecFns;

verus! {

/// Timeout applied to a request whose caller did not pick one.
pub const DEFAULT_TIMEOUT_MS: u64 = 10_000;

/// Marker carried by a cancelled outcome, so that a caller can tell a
/// deliberate abort from every other failure.
#[derive(Debug)]
pub struct CancelErr;

/// Describes all the ways a REST request can fail.
#[derive(Debug)]
pub enum Error {
    /// The dispatch service abandoned the request (reset or cancellation).
    Cancelled(CancelErr),
    /// The request's deadline elapsed before the transport call finished.
    TimedOut,
    /// The transport layer failed; the text is its report.
    TransportError(String),
    /// A header value (the bearer token line) is not representable.
    InvalidHeader,
    /// The composed URI cannot be parsed.
    InvalidUri,
    /// An outgoing body could not be encoded as JSON.
    SerializationError,
    /// An incoming body could not be decoded.
    DeserializationError,
    /// The server answered with an unexpected status; carries the status and
    /// the server's error code.
    ApiError(u16, String),
    /// The command queue to the dispatch service is closed.
    SendError,
    /// The dispatch service dropped the completion channel without a result.
    ReceiveError,
}

/// HTTP methods the control-plane calls use.
#[derive(Clone, Copy, PartialEq, Eq, Structural, Debug)]
pub enum Method {
    Get,
    Post,
    Put,
    Delete,
}

/// The set of strings that `http::HeaderValue::from_str` accepts: every
/// byte a legal header value byte.
pub uninterp spec fn header_value_valid(s: Seq<char>) -> bool;

/// Whether `http::Uri::from_str` accepts the string.
pub uninterp spec fn uri_valid(s: Seq<char>) -> bool;

/// The host component that `http::Uri::host` reports for a string that
/// `http::Uri::from_str` accepts.
pub uninterp spec fn uri_host_of(s: Seq<char>) -> Option<Seq<char>>;

/// Relies on http::HeaderValue::from_str: it accepts a string exactly when
/// every byte is a legal header value byte (32..=255 except 127, plus tab),
/// a property of the string alone.
#[verifier::external_body]
fn header_value_ok(s: &str) -> (r: bool)
    ensures
        r == header_value_valid(s@),
{
    http::HeaderValue::from_str(s).is_ok()
}

/// Relies on http::Uri::from_str, which accepts or rejects the string, and
/// on http::Uri::host, which reports the host component of an accepted one;
/// both depend on the string alone. `None` means the string was rejected;
/// `Some(h)` means it parsed, with `h` its optional host.
#[verifier::external_body]
fn parse_uri_host(s: &str) -> (r: Option<Option<String>>)
    ensures
        r is Some <==> uri_valid(s@),
        r matches Some(h) ==> {
            &&& (h is Some <==> uri_host_of(s@) is Some)
            &&& (h matches Some(hs) ==> (uri_host_of(s@) matches Some(v) && hs@ == v))
        },
{
    match <http::Uri as std::str::FromStr>::from_str(s) {
        Ok(uri) => match uri.host() {
            Some(h) => Some(Some(h.to_string())),
            None => Some(None),
        },
        Err(_) => None,
    }
}

/// The immutable description of one HTTP call: target URI, method, optional
/// JSON body, the values of its headers, and a timeout.
#[derive(Debug)]
pub struct RestRequest {
    method: Method,
    uri: String,
    host: Option<String>,
    body: Vec<u8>,
    json_body: bool,
    auth: Option<String>,
    timeout_ms: u64,
}

impl RestRequest {
    pub closed spec fn spec_method(self) -> Method {
        self.method
    }

    pub closed spec fn spec_uri(self) -> Seq<char> {
        self.uri@
    }

    pub closed spec fn spec_host(self) -> Option<Seq<char>> {
        match self.host {
            Some(h) => Some(h@),
            None => None,
        }
    }

    pub closed spec fn spec_body(self) -> Seq<u8> {
        self.body@
    }

    pub closed spec fn spec_json_body(self) -> bool {
        self.json_body
    }

    /// The full authorization header value, if a token was attached.
    pub closed spec fn spec_auth(self) -> Option<Seq<char>> {
        match self.auth {
            Some(a) => Some(a@),
            None => None,
        }
    }

    pub closed spec fn spec_timeout_ms(self) -> u64 {
        self.timeout_ms
    }

    /// Well-formedness: the URI parses, and an attached authorization value
    /// is a legal header value.
    pub open spec fn wf(self) -> bool {
        &&& uri_valid(self.spec_uri())
        &&& (self.spec_auth() matches Some(a) ==> header_value_valid(a))
    }

    /// Everything but the authorization value is the same in both requests.
    pub open spec fn same_but_auth(self, other: RestRequest) -> bool {
        &&& self.spec_method() == other.spec_method()
        &&& self.spec_uri() == other.spec_uri()
        &&& self.spec_host() == other.spec_host()
        &&& self.spec_body() == other.spec_body()
        &&& self.spec_json_body() == other.spec_json_body()
        &&& self.spec_timeout_ms() == other.spec_timeout_ms()
    }

    /// Attaches (or clears) the bearer token. The header value is
    /// `Token <auth>`; a token that does not form a legal header value is
    /// rejected and leaves the request unchanged.
    pub fn set_auth(&mut self, auth: Option<String>) -> (r: Result<(), Error>)
        ensures
            old(self).same_but_auth(*final(self)),
            match auth {
                Some(a) => {
                    if header_value_valid("Token "@ + a@) {
                        r is Ok && final(self).spec_auth() == Some("Token "@ + a@)
                    } else {
                        r == Err::<(), Error>(Error::InvalidHeader)
                            && final(self).spec_auth() == old(self).spec_auth()
                    }
                },
                None => r is Ok && final(self).spec_auth() is None,
            },
            old(self).wf() && (auth matches Some(a) ==> header_value_valid("Token "@ + a@))
                ==> final(self).wf(),
    {
        match auth {
            Some(auth) => {
                let mut header = String::from_str("Token ");
                header.append(auth.as_str());
                if header_value_ok(header.as_str()) {
                    self.auth = Some(header);
                    Ok(())
                } else {
                    Err(Error::InvalidHeader)
                }
            },
            None => {
                self.auth = None;
                Ok(())
            },
        }
    }

    /// Replaces the request's deadline.
    pub fn set_timeout(&mut self, timeout_ms: u64)
        ensures
            final(self).spec_timeout_ms() == timeout_ms,
            old(self).same_but_timeout(*final(self)),
            final(self).spec_auth() == old(self).spec_auth(),
    {
        self.timeout_ms = timeout_ms;
    }

    /// Everything but the timeout is the same in both requests.
    pub open spec fn same_but_timeout(self, other: RestRequest) -> bool {
        &&& self.spec_method() == other.spec_method()
        &&& self.spec_uri() == other.spec_uri()
        &&& self.spec_host() == other.spec_host()
        &&& self.spec_body() == other.spec_body()
        &&& self.spec_json_body() == other.spec_json_body()
    }

    pub fn get_timeout(&self) -> (t: u64)
        ensures
            t == self.spec_timeout_ms(),
    {
        self.timeout_ms
    }

    pub fn uri(&self) -> (u: &String)
        ensures
            u@ == self.spec_uri(),
    {
        &self.uri
    }

    pub fn method(&self) -> (m: Method)
        ensures
            m == self.spec_method(),
    {
        self.method
    }

    pub fn body(&self) -> (b: &Vec<u8>)
        ensures
            b@ == self.spec_body(),
    {
        &self.body
    }

    pub fn host(&self) -> (h: &Option<String>)
        ensures
            match h {
                Some(s) => self.spec_host() == Some(s@),
                None => self.spec_host() is None,
            },
    {
        &self.host
    }

    pub fn auth(&self) -> (a: &Option<String>)
        ensures
            match a {
                Some(s) => self.spec_auth() == Some(s@),
                None => self.spec_auth() is None,
            },
    {
        &self.auth
    }

    pub fn has_json_body(&self) -> (j: bool)
        ensures
            j == self.spec_json_body(),
    {
        self.json_body
    }

    /// Builds a GET request for a complete URI string: the URI must parse;
    /// the `Host` header value is whatever host the URI carries.
    pub fn get(uri: &str) -> (r: Result<RestRequest, Error>)
        ensures
            uri_valid(uri@) ==> (r matches Ok(req) && {
                &&& req.spec_method() == Method::Get
                &&& req.spec_uri() == uri@
                &&& req.spec_host() == uri_host_of(uri@)
                &&& req.spec_body() == Seq::<u8>::empty()
                &&& !req.spec_json_body()
                &&& req.spec_auth() is None
                &&& req.spec_timeout_ms() == DEFAULT_TIMEOUT_MS
                &&& req.wf()
            }),
            !uri_valid(uri@) ==> (r matches Err(e) && e == Error::InvalidUri),
    {
        match parse_uri_host(uri) {
            Some(host) => {
                let req = RestRequest {
                    method: Method::Get,
                    uri: String::from_str(uri),
                    host,
                    body: Vec::new(),
                    json_body: false,
                    auth: None,
                    timeout_ms: DEFAULT_TIMEOUT_MS,
                };
                proof {
                    assert(req.spec_body() =~= Seq::<u8>::empty());
                }
                Ok(req)
            },
            None => Err(Error::InvalidUri),
        }
    }

    fn new(method: Method, uri: String, host: Option<String>) -> (r: RestRequest)
        ensures
            r.spec_method() == method,
            r.spec_uri() == uri@,
            r.spec_host() == (match host {
                Some(h) => Some(h@),
                None => None::<Seq<char>>,
            }),
            r.spec_body() == Seq::<u8>::empty(),
            !r.spec_json_body(),
            r.spec_auth() is None,
            r.spec_timeout_ms() == DEFAULT_TIMEOUT_MS,
    {
        let r = RestRequest {
            method,
            uri,
            host,
            body: Vec::new(),
            json_body: false,
            auth: None,
            timeout_ms: DEFAULT_TIMEOUT_MS,
        };
        proof {
            assert(r.spec_body() =~= Seq::<u8>::empty());
        }
        r
    }
}

/// Builds request descriptors for a configured API host: a logical host
/// name, an optional pinned network address (used in place of the host when
/// composing the URI, while the `Host` header keeps the logical name), and
/// an optional path prefix inserted between the authority and the path.
#[derive(Clone)]
pub struct RequestFactory {
    host: String,
    address: Option<String>,
    path_prefix: Option<String>,
}

impl RequestFactory {
    pub closed spec fn spec_hostname(self) -> Seq<char> {
        self.host@
    }

    pub closed spec fn spec_address(self) -> Option<Seq<char>> {
        match self.address {
            Some(a) => Some(a@),
            None => None,
        }
    }

    pub closed spec fn spec_prefix(self) -> Option<Seq<char>> {
        match self.path_prefix {
            Some(p) => Some(p@),
            None => None,
        }
    }

    /// The authority the composed URI is addressed to: the pinned address if
    /// one is configured, the logical host otherwise.
    pub open spec fn spec_authority(self) -> Seq<char> {
        match self.spec_address() {
            Some(a) => a,
            None => self.spec_hostname(),
        }
    }

    /// The URI composed for a path: `https://<authority>/<prefix><path>`.
    pub open spec fn spec_uri_for(self, path: Seq<char>) -> Seq<char> {
        "https://"@ + self.spec_authority() + "/"@ + (match self.spec_prefix() {
            Some(p) => p,
            None => Seq::<char>::empty(),
        }) + path
    }

    pub fn new(host: String, address: Option<String>, path_prefix: Option<String>) -> (r:
        RequestFactory)
        ensures
            r.spec_hostname() == host@,
            r.spec_address() == (match address {
                Some(a) => Some(a@),
                None => None::<Seq<char>>,
            }),
            r.spec_prefix() == (match path_prefix {
                Some(p) => Some(p@),
                None => None::<Seq<char>>,
            }),
    {
        RequestFactory { host, address, path_prefix }
    }

    /// Composes and validates the URI for a path.
    fn get_uri(&self, path: &str) -> (r: Result<String, Error>)
        ensures
            uri_valid(self.spec_uri_for(path@)) ==> (r matches Ok(u) && u@ == self.spec_uri_for(
                path@,
            )),
            !uri_valid(self.spec_uri_for(path@)) ==> (r matches Err(e) && e == Error::InvalidUri),
    {
        let mut uri = String::from_str("https://");
        match &self.address {
            Some(addr) => uri.append(addr.as_str()),
            None => uri.append(self.host.as_str()),
        }
        uri.append("/");
        match &self.path_prefix {
            Some(prefix) => uri.append(prefix.as_str()),
            None => (),
        }
        uri.append(path);
        match parse_uri_host(uri.as_str()) {
            Some(_) => Ok(uri),
            None => Err(Error::InvalidUri),
        }
    }

    /// What every request built by this factory for a path satisfies, aside
    /// from its method: composed URI, `Host` header set to the logical host,
    /// empty body, no token, default timeout.
    pub open spec fn spec_built(self, path: Seq<char>, req: RestRequest) -> bool {
        &&& req.spec_uri() == self.spec_uri_for(path)
        &&& req.spec_host() == Some(self.spec_hostname())
        &&& req.spec_body() == Seq::<u8>::empty()
        &&& !req.spec_json_body()
        &&& req.spec_auth() is None
        &&& req.spec_timeout_ms() == DEFAULT_TIMEOUT_MS
        &&& req.wf()
    }

    /// Builds a bodyless request for a path with the given method.
    pub fn request(&self, path: &str, method: Method) -> (r: Result<RestRequest, Error>)
        ensures
            uri_valid(self.spec_uri_for(path@)) ==> (r matches Ok(req) && req.spec_method()
                == method && self.spec_built(path@, req)),
            !uri_valid(self.spec_uri_for(path@)) ==> (r matches Err(e) && e == Error::InvalidUri),
    {
        match self.get_uri(path) {
            Ok(uri) => Ok(RestRequest::new(method, uri, Some(self.host.clone()))),
            Err(e) => Err(e),
        }
    }

    pub fn get(&self, path: &str) -> (r: Result<RestRequest, Error>)
        ensures
            uri_valid(self.spec_uri_for(path@)) ==> (r matches Ok(req) && req.spec_method()
                == Method::Get && self.spec_built(path@, req)),
            !uri_valid(self.spec_uri_for(path@)) ==> (r matches Err(e) && e == Error::InvalidUri),
    {
        self.request(path, Method::Get)
    }

    pub fn post(&self, path: &str) -> (r: Result<RestRequest, Error>)
        ensures
            uri_valid(self.spec_uri_for(path@)) ==> (r matches Ok(req) && req.spec_method()
                == Method::Post && self.spec_built(path@, req)),
            !uri_valid(self.spec_uri_for(path@)) ==> (r matches Err(e) && e == Error::InvalidUri),
    {
        self.request(path, Method::Post)
    }

    pub fn delete(&self, path: &str) -> (r: Result<RestRequest, Error>)
        ensures
            uri_valid(self.spec_uri_for(path@)) ==> (r matches Ok(req) && req.spec_method()
                == Method::Delete && self.spec_built(path@, req)),
            !uri_valid(self.spec_uri_for(path@)) ==> (r matches Err(e) && e == Error::InvalidUri),
    {
        self.request(path, Method::Delete)
    }

    /// Builds a POST carrying JSON text as its body. Encoding the caller's
    /// value to JSON text is the caller's step (it needs the caller's
    /// serializer); this attaches the text as the body, UTF-8 encoded, and
    /// marks the content type as JSON. The content length is the body's
    /// byte length.
    pub fn post_json(&self, path: &str, json_body: String) -> (r: Result<RestRequest, Error>)
        ensures
            uri_valid(self.spec_uri_for(path@)) ==> (r matches Ok(req) && {
                &&& req.spec_method() == Method::Post
                &&& req.spec_uri() == self.spec_uri_for(path@)
                &&& req.spec_host() == Some(self.spec_hostname())
                &&& req.spec_body() == vstd::utf8::encode_utf8(json_body@)
                &&& req.spec_json_body()
                &&& req.spec_auth() is None
                &&& req.spec_timeout_ms() == DEFAULT_TIMEOUT_MS
                &&& req.wf()
            }),
            !uri_valid(self.spec_uri_for(path@)) ==> (r matches Err(e) && e == Error::InvalidUri),
    {
        match self.get_uri(path) {
            Ok(uri) => {
                let mut req = RestRequest::new(Method::Post, uri, Some(self.host.clone()));
                req.body = json_body.as_str().as_bytes_vec();
                req.json_body = true;
                Ok(req)
            },
            Err(e) => Err(e),
        }
    }
}

/// A request made ready for the transport layer: the header list is
/// materialized, with the authorization value attached exactly once, at the
/// end, when a token was set. The content length of a body is its byte
/// length.
pub struct PreparedRequest {
    pub method: Method,
    pub uri: String,
    pub headers: Vec<(String, String)>,
    pub body: Vec<u8>,
    pub timeout_ms: u64,
}

/// The header list a request carries on the wire, in order: `accept`
/// always; `host` when the URI had one or the factory set one;
/// `content-type` for a JSON body; `authorization` when a token was
/// attached — each at most once.
pub open spec fn spec_headers(req: RestRequest) -> Seq<(Seq<char>, Seq<char>)> {
    seq![("accept"@, "application/json"@)] + (match req.spec_host() {
        Some(h) => seq![("host"@, h)],
        None => Seq::empty(),
    }) + (if req.spec_json_body() {
        seq![("content-type"@, "application/json"@)]
    } else {
        Seq::empty()
    }) + (match req.spec_auth() {
        Some(a) => seq![("authorization"@, a)],
        None => Seq::empty(),
    })
}

pub open spec fn spec_header_views(headers: Seq<(String, String)>) -> Seq<(Seq<char>, Seq<char>)> {
    headers.map_values(|p: (String, String)| (p.0@, p.1@))
}

impl RestRequest {
    /// Finishes the descriptor for the transport layer: every header the
    /// request owes, each exactly once, the authorization value last.
    pub fn into_request(self) -> (r: PreparedRequest)
        ensures
            r.method == self.spec_method(),
            r.uri@ == self.spec_uri(),
            r.body@ == self.spec_body(),
            r.timeout_ms == self.spec_timeout_ms(),
            spec_header_views(r.headers@) == spec_headers(self),
    {
        let ghost this = self;
        let mut headers: Vec<(String, String)> = Vec::new();
        headers.push((String::from_str("accept"), String::from_str("application/json")));
        match self.host {
            Some(h) => headers.push((String::from_str("host"), h)),
            None => (),
        }
        if self.json_body {
            headers.push((String::from_str("content-type"), String::from_str("application/json")));
        }
        match self.auth {
            Some(a) => headers.push((String::from_str("authorization"), a)),
            None => (),
        }
        proof {
            assert(spec_header_views(headers@) =~= spec_headers(this));
        }
        PreparedRequest {
            method: self.method,
            uri: self.uri,
            headers,
            body: self.body,
            timeout_ms: self.timeout_ms,
        }
    }
}

/// A completed HTTP response: the status code, the value of the
/// content-length header if the server sent one, and the fully accumulated
/// body.
#[derive(Debug)]
pub struct Response {
    pub status: u16,
    pub content_length: Option<String>,
    pub body: Vec<u8>,
}

/// The error body the API sends along a non-matching status.
pub struct ErrorResponse {
    pub code: String,
}

/// The `code` field that serde_json finds in a body of the shape
/// `{"code": <string>}`; nothing for any other body.
pub uninterp spec fn json_error_code(body: Seq<u8>) -> Option<Seq<char>>;

/// Relies on serde_json::from_slice to decode the body as a JSON value and
/// on serde_json::Value::get / Value::as_str to read the string under
/// "code"; all three depend on the bytes alone.
#[verifier::external_body]
fn decode_error_body(body: &Vec<u8>) -> (r: Option<ErrorResponse>)
    ensures
        r is Some <==> json_error_code(body@) is Some,
        r matches Some(e) ==> (json_error_code(body@) matches Some(c) && e.code@ == c),
{
    match serde_json::from_slice::<serde_json::Value>(body) {
        Ok(value) => match value.get("code") {
            Some(field) => match field.as_str() {
                Some(code) => Some(ErrorResponse { code: code.to_string() }),
                None => None,
            },
            None => None,
        },
        Err(_) => None,
    }
}

/// The error a response with the given status and body resolves to when the
/// status does not match the expected one.
pub open spec fn spec_error_of(status: u16, body: Seq<u8>, e: Error) -> bool {
    if status == 404 {
        e matches Error::ApiError(s, m) && s == 404 && m@ == "Not found"@
    } else if status == 405 {
        e matches Error::ApiError(s, m) && s == 405 && m@ == "Method not allowed"@
    } else {
        match json_error_code(body) {
            Some(c) => e matches Error::ApiError(s, m) && s == status && m@ == c,
            None => e == Error::DeserializationError,
        }
    }
}

/// Resolves a response with a status that did not match: the two fixed
/// mappings first, otherwise the server's error code decoded from the body;
/// a body that does not decode surfaces as a deserialization error.
fn handle_error_response(response: Response) -> (r: Result<Response, Error>)
    ensures
        r matches Err(e) && spec_error_of(response.status, response.body@, e),
{
    if response.status == 404 {
        Err(Error::ApiError(404, String::from_str("Not found")))
    } else if response.status == 405 {
        Err(Error::ApiError(405, String::from_str("Method not allowed")))
    } else {
        match decode_error_body(&response.body) {
            Some(err) => Err(Error::ApiError(response.status, err.code)),
            None => Err(Error::DeserializationError),
        }
    }
}

/// Checks a response against the status the call expects: a match hands the
/// response back unchanged, body untouched; anything else resolves the body
/// into a structured API error.
pub fn parse_rest_response(response: Response, expected_status: u16) -> (r: Result<Response, Error>)
    ensures
        response.status == expected_status ==> (r matches Ok(resp) && resp == response),
        response.status != expected_status ==> (r matches Err(e) && spec_error_of(
            response.status,
            response.body@,
            e,
        )),
{
    if response.status != expected_status {
        return handle_error_response(response);
    }
    Ok(response)
}

pub open spec fn is_digit(c: char) -> bool {
    '0' <= c && c <= '9'
}

pub open spec fn all_digits(s: Seq<char>) -> bool {
    forall|i: int| 0 <= i < s.len() ==> is_digit(#[trigger] s[i])
}

/// The value of one decimal digit; anything else counts zero (such a string
/// never passes `all_digits`).
pub open spec fn digit_of(c: char) -> nat {
    if is_digit(c) {
        (c as int - '0' as int) as nat
    } else {
        0
    }
}

/// The number a string of decimal digits denotes.
pub open spec fn digits_value(s: Seq<char>) -> nat
    decreases s.len(),
{
    if s.len() == 0 {
        0
    } else {
        digits_value(s.drop_last()) * 10 + digit_of(s.last())
    }
}

/// What the content-length header contributes: its decimal value when it is
/// a plain digit string whose value fits the machine, otherwise the default
/// of zero. The hint only sizes the buffer the body is accumulated into.
pub open spec fn spec_length_hint(header: Option<Seq<char>>) -> nat {
    match header {
        Some(s) => if s.len() > 0 && all_digits(s) && digits_value(s) <= usize::MAX as nat {
            digits_value(s)
        } else {
            0
        },
        None => 0,
    }
}

/// A longer digit string denotes at least as large a number.
proof fn lemma_digits_value_prefix_le(s: Seq<char>, i: int)
    requires
        0 <= i <= s.len(),
    ensures
        digits_value(s.take(i)) <= digits_value(s),
    decreases s.len() - i,
{
    if i < s.len() {
        lemma_digits_value_prefix_le(s, i + 1);
        assert(s.take(i + 1).drop_last() =~= s.take(i));
        assert(digits_value(s.take(i)) <= digits_value(s.take(i + 1)));
    } else {
        assert(s.take(i) =~= s);
    }
}

/// Reads the body length hint from the content-length header value: the
/// decimal value of a digit string, zero for anything else.
pub fn body_length_hint(header: &Option<String>) -> (n: usize)
    ensures
        n == spec_length_hint(match header {
            Some(s) => Some(s@),
            None => None::<Seq<char>>,
        }),
{
    match header {
        Some(s) => {
            let len = s.as_str().unicode_len();
            if len == 0 {
                return 0;
            }
            let mut acc: u128 = 0;
            let mut i: usize = 0;
            while i < len
                invariant
                    header matches Some(hs) && hs@ == s@,
                    0 <= i <= len,
                    len == s@.len(),
                    all_digits(s@.take(i as int)),
                    acc == digits_value(s@.take(i as int)),
                    acc <= usize::MAX,
                decreases len - i,
            {
                let c = s.as_str().get_char(i);
                if c < '0' || c > '9' {
                    proof {
                        assert(!is_digit(s@[i as int]));
                        assert(!all_digits(s@));
                    }
                    return 0;
                }
                let d: u128 = (c as u128) - ('0' as u128);
                proof {
                    assert(is_digit(s@[i as int]));
                    assert(d == digit_of(s@[i as int]));
                    assert(s@.take(i + 1).drop_last() =~= s@.take(i as int));
                    assert(s@.take(i + 1).last() == s@[i as int]);
                    assert(digits_value(s@.take(i + 1)) == digits_value(s@.take(i as int)) * 10
                        + digit_of(s@[i as int]));
                    assert(forall|j: int|
                        0 <= j < i + 1 ==> is_digit(#[trigger] s@.take(i + 1)[j]));
                }
                acc = acc * 10 + d;
                i = i + 1;
                if acc > usize::MAX as u128 {
                    proof {
                        lemma_digits_value_prefix_le(s@, i as int);
                        assert(digits_value(s@) > usize::MAX as nat);
                    }
                    return 0;
                }
            }
            proof {
                assert(s@.take(len as int) =~= s@);
            }
            acc as usize
        },
        None => 0,
    }
}

/// The chunks' contents, in order.
pub open spec fn spec_collected(chunks: Seq<Vec<u8>>) -> Seq<u8> {
    chunks.flat_map(|c: Vec<u8>| c@)
}

/// Accumulates the body chunks the transport delivered, in order, into one
/// buffer; the hint only preallocates.
pub fn collect_body(hint: usize, chunks: &Vec<Vec<u8>>) -> (r: Vec<u8>)
    ensures
        r@ == spec_collected(chunks@),
{
    let mut body: Vec<u8> = Vec::with_capacity(hint);
    let n = chunks.len();
    let mut i: usize = 0;
    while i < n
        invariant
            0 <= i <= n,
            n == chunks@.len(),
            body@ == chunks@.take(i as int).flat_map(|c: Vec<u8>| c@),
        decreases n - i,
    {
        body.extend_from_slice(chunks[i].as_slice());
        proof {
            broadcast use vstd::prelude::Seq::lemma_flat_map_take_append;
        }
        i = i + 1;
    }
    proof {
        assert(chunks@.take(n as int) =~= chunks@);
    }
    body
}

/// The factory half of the caller-facing handle: the other half, the
/// dispatch endpoint with its channels, lives with the runtime that owns
/// the actor loop.
#[derive(Clone)]
pub struct MullvadRestHandle {
    factory: RequestFactory,
}

impl MullvadRestHandle {
    pub closed spec fn spec_factory(self) -> RequestFactory {
        self.factory
    }

    pub fn new(factory: RequestFactory) -> (r: MullvadRestHandle)
        ensures
            r.spec_factory() == factory,
    {
        MullvadRestHandle { factory }
    }

    pub fn factory(&self) -> (f: &RequestFactory)
        ensures
            f == &self.spec_factory(),
    {
        &self.factory
    }
}

/// What a fully prepared call descriptor satisfies: built by the factory
/// for the path, carrying the method, authorized exactly as asked.
pub open spec fn spec_prepared(
    factory: RequestFactory,
    path: Seq<char>,
    method: Method,
    auth: Option<Seq<char>>,
    req: RestRequest,
) -> bool {
    &&& req.spec_method() == method
    &&& req.spec_uri() == factory.spec_uri_for(path)
    &&& req.spec_host() == Some(factory.spec_hostname())
    &&& req.spec_body() == Seq::<u8>::empty()
    &&& !req.spec_json_body()
    &&& req.spec_timeout_ms() == DEFAULT_TIMEOUT_MS
    &&& req.spec_auth() == (match auth {
        Some(a) => Some("Token "@ + a),
        None => None::<Seq<char>>,
    })
    &&& req.wf()
}

/// The synchronous half of issuing a call: build the descriptor for the
/// path and method and attach the token. The caller then submits the result
/// to the dispatch service and checks the response against the status it
/// expects. Fails exactly when the composed URI does not parse
/// (`InvalidUri`) or the token does not form a legal header value
/// (`InvalidHeader`).
pub fn prepare_request(factory: &RequestFactory, path: &str, method: Method, auth: Option<String>) -> (r:
    Result<RestRequest, Error>)
    ensures
        !uri_valid(factory.spec_uri_for(path@)) ==> (r matches Err(e) && e == Error::InvalidUri),
        uri_valid(factory.spec_uri_for(path@)) && (auth matches Some(a) && !header_value_valid(
            "Token "@ + a@,
        )) ==> (r matches Err(e) && e == Error::InvalidHeader),
        uri_valid(factory.spec_uri_for(path@)) && (match auth {
            Some(a) => header_value_valid("Token "@ + a@),
            None => true,
        }) ==> (r matches Ok(req) && spec_prepared(*factory, path@, method, match auth {
            Some(a) => Some(a@),
            None => None::<Seq<char>>,
        }, req)),
{
    match factory.request(path, method) {
        Ok(mut request) => match request.set_auth(auth) {
            Ok(_) => Ok(request),
            Err(e) => Err(e),
        },
        Err(e) => Err(e),
    }
}

/// Collapses a nested result, as awaiting a timeout around a fallible
/// operation produces one: an outer error wins, otherwise the inner
/// result stands.
pub fn flatten_result<T, E>(result: Result<Result<T, E>, E>) -> (r: Result<T, E>)
    ensures
        match result {
            Ok(inner) => r == inner,
            Err(e) => r == Result::<T, E>::Err(e),
        },
{
    match result {
        Ok(value) => value,
        Err(err) => Err(err),
    }
}

} // verus!
