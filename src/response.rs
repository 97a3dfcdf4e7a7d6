use vstd::prelude::*;
use vstd::utf8::encode_utf8;

verus! {

/// An HTTP status code, from 100 to 999.
#[derive(Clone, Copy, Debug, PartialEq, Eq, Structural, Hash)]
pub struct StatusCode {
    code: u16,
}

impl StatusCode {

    pub open spec fn valid_code(code: int) -> bool {
        100 <= code <= 999
    }

    pub closed spec fn code(&self) -> u16 {
        self.code
    }

    pub open spec fn wf(&self) -> bool {
        Self::valid_code(self.code() as int)
    }

    pub fn ok() -> (r: StatusCode)
        ensures
            r.code() == 200,
    {
        StatusCode { code: 200 }
    }

    pub fn bad_request() -> (r: StatusCode)
        ensures
            r.code() == 400,
    {
        StatusCode { code: 400 }
    }

    pub fn not_found() -> (r: StatusCode)
        ensures
            r.code() == 404,
    {
        StatusCode { code: 404 }
    }

    pub fn method_not_allowed() -> (r: StatusCode)
        ensures
            r.code() == 405,
    {
        StatusCode { code: 405 }
    }

    pub fn internal_server_error() -> (r: StatusCode)
        ensures
            r.code() == 500,
    {
        StatusCode { code: 500 }
    }

    pub fn from_u16(code: u16) -> (r: Option<StatusCode>)
        ensures
            r is Some <==> Self::valid_code(code as int),
            r matches Some(s) ==> s.code() == code,
    {
        if 100 <= code && code <= 999 {
            Some(StatusCode { code })
        } else {
            None
        }
    }

    pub fn as_u16(&self) -> (r: u16)
        ensures
            r == self.code(),
    {
        self.code
    }
}

/// A response as handed to the transport: status, headers and body bytes.
pub struct Response {
    pub status: StatusCode,
    pub headers: Vec<(String, String)>,
    pub body: Vec<u8>,
}

/// The mathematical value of a response.
pub struct ResponseView {
    pub status: u16,
    pub headers: Seq<(Seq<char>, Seq<char>)>,
    pub body: Seq<u8>,
}

impl View for Response {
    type V = ResponseView;

    open spec fn view(&self) -> ResponseView {
        ResponseView {
            status: self.status.code(),
            headers: self.headers@.map_values(|h: (String, String)| (h.0@, h.1@)),
            body: self.body@,
        }
    }
}

pub open spec fn content_type_header(value: Seq<char>) -> Seq<(Seq<char>, Seq<char>)> {
    seq![("content-type"@, value)]
}

/// A response with the given status, one content-type header and a body.
pub open spec fn typed_response(status: u16, content_type: Seq<char>, body: Seq<u8>) -> ResponseView {
    ResponseView { status, headers: content_type_header(content_type), body }
}

/// An empty response with the given status and no headers.
pub open spec fn empty_response(status: u16) -> ResponseView {
    ResponseView { status, headers: seq![], body: seq![] }
}

/// Builds a 200 response with the given content type and body.
pub fn typed_ok(content_type: &str, body: Vec<u8>) -> (r: Response)
    ensures
        r@ == typed_response(200, content_type@, body@),
{
    let mut headers: Vec<(String, String)> = Vec::new();
    headers.push(("content-type".to_owned(), content_type.to_owned()));
    let r = Response { status: StatusCode::ok(), headers, body };
    proof {
        reveal_strlit("content-type");
    }
    assert(r@.headers =~= content_type_header(content_type@));
    r
}

/// Builds an empty response with the given status.
pub fn empty_with(status: StatusCode) -> (r: Response)
    ensures
        r@ == empty_response(status.code()),
{
    let r = Response { status, headers: Vec::new(), body: Vec::new() };
    assert(r@.headers =~= Seq::<(Seq<char>, Seq<char>)>::empty());
    r
}

/// A JSON body, framed as a 200 `application/json` response.
pub fn json_response(body: Vec<u8>) -> (r: Response)
    ensures
        r@ == typed_response(200, "application/json"@, body@),
{
    typed_ok("application/json", body)
}

/// A url-encoded form body, framed as a 200
/// `application/x-www-form-urlencoded` response.
pub fn form_response(body: Vec<u8>) -> (r: Response)
    ensures
        r@ == typed_response(200, "application/x-www-form-urlencoded"@, body@),
{
    typed_ok("application/x-www-form-urlencoded", body)
}

/// The kinds of extraction failure, each with its default answer.
#[derive(Debug, Clone, Copy, PartialEq, Eq, Structural)]
pub enum Rejection {
    /// The body could not be decoded.
    MalformedBody,
    /// The query, a header or another part of the request head is malformed.
    MalformedHead,
    /// The handler asks for a state that was never registered.
    MissingState,
    /// The route's captures do not fit the handler's path parameters.
    PathMismatch,
}

/// Client errors are answered 400; configuration defects 500.
pub open spec fn rejection_code(k: Rejection) -> u16 {
    match k {
        Rejection::MissingState | Rejection::PathMismatch => 500,
        Rejection::MalformedBody | Rejection::MalformedHead => 400,
    }
}

/// The status that an extraction failure of kind `k` is answered with.
pub fn rejection_status(k: Rejection) -> (r: StatusCode)
    ensures
        r.code() == rejection_code(k),
{
    match k {
        Rejection::MissingState | Rejection::PathMismatch => StatusCode::internal_server_error(),
        Rejection::MalformedBody | Rejection::MalformedHead => StatusCode::bad_request(),
    }
}

/// A value that turns into a response.
pub trait Responder: Sized {
    spec fn response_spec(&self) -> ResponseView;

    fn respond_to(self) -> (r: Response)
        ensures
            r@ == self.response_spec(),
    ;

    /// Wraps the value so that its response carries status `S`.
    fn status<const S: u16>(self) -> (r: Status<Self, S>)
        requires
            StatusCode::valid_code(S as int),
        ensures
            r.inner() == self,
    {
        Status::new(self)
    }
}

/// A responder whose response carries status `S`, body and headers unchanged.
pub struct Status<R, const S: u16>(R);

impl<R, const S: u16> Status<R, S> {
    #[verifier::type_invariant]
    spec fn inv(&self) -> bool {
        StatusCode::valid_code(S as int)
    }

    pub closed spec fn inner(&self) -> R {
        self.0
    }

    pub fn new(responder: R) -> (r: Self)
        requires
            StatusCode::valid_code(S as int),
        ensures
            r.inner() == responder,
    {
        Status(responder)
    }

    /// The status that the response will carry.
    pub fn status_code(&self) -> (r: StatusCode)
        ensures
            r.code() == S,
            r.wf(),
    {
        proof {
            use_type_invariant(self);
        }
        StatusCode { code: S }
    }

    pub fn into_inner(self) -> (r: R)
        ensures
            r == self.inner(),
    {
        self.0
    }
}

impl<R: Responder, const S: u16> Responder for Status<R, S> {
    open spec fn response_spec(&self) -> ResponseView {
        ResponseView { status: S, ..self.inner().response_spec() }
    }

    fn respond_to(self) -> (r: Response) {
        proof {
            use_type_invariant(&self);
        }
        let Status(inner) = self;
        let mut response = inner.respond_to();
        response.status = StatusCode { code: S };
        response
    }
}

impl Responder for String {
    open spec fn response_spec(&self) -> ResponseView {
        typed_response(200, "text/plain"@, encode_utf8(self@))
    }

    fn respond_to(self) -> (r: Response) {
        let body = self.as_str().as_bytes_vec();
        typed_ok("text/plain", body)
    }
}

impl Responder for Vec<u8> {
    open spec fn response_spec(&self) -> ResponseView {
        typed_response(200, "application/octet-stream"@, self@)
    }

    fn respond_to(self) -> (r: Response) {
        typed_ok("application/octet-stream", self)
    }
}

impl Responder for StatusCode {
    open spec fn response_spec(&self) -> ResponseView {
        empty_response(self.code())
    }

    fn respond_to(self) -> (r: Response) {
        empty_with(self)
    }
}

impl Responder for Response {
    open spec fn response_spec(&self) -> ResponseView {
        self@
    }

    fn respond_to(self) -> (r: Response) {
        self
    }
}

impl<T: Responder> Responder for Option<T> {
    open spec fn response_spec(&self) -> ResponseView {
        match self {
            Some(t) => t.response_spec(),
            None => empty_response(404),
        }
    }

    fn respond_to(self) -> (r: Response) {
        match self {
            Some(t) => t.respond_to(),
            None => empty_with(StatusCode::not_found()),
        }
    }
}

impl<T: Responder, E: Responder> Responder for Result<T, E> {
    open spec fn response_spec(&self) -> ResponseView {
        match self {
            Ok(t) => t.response_spec(),
            Err(e) => e.response_spec(),
        }
    }

    fn respond_to(self) -> (r: Response) {
        match self {
            Ok(t) => t.respond_to(),
            Err(e) => e.respond_to(),
        }
    }
}

} // verus!
