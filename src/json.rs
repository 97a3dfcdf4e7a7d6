use vstd::prelude::*;
use vstd::utf8::{decode_utf8, encode_utf8, valid_utf8};
use crate::response::{typed_response, Response, ResponseView, StatusCode};

verus! {

#[verifier::external_type_specification]
#[verifier::external_body]
pub struct ExJsonError(serde_json::Error);

/// Relies on `serde_json::Error::line`: where the error was found.
pub assume_specification[ serde_json::Error::line ](e: &serde_json::Error) -> usize;

/// Relies on `serde_json::Error::column`: where the error was found.
pub assume_specification[ serde_json::Error::column ](e: &serde_json::Error) -> usize;

/// What kind of failure a JSON body met.
#[derive(Debug, Clone, Copy, PartialEq, Eq, Structural)]
pub enum JsonErrorClass {
    Io,
    Syntax,
    Data,
    Eof,
}

/// Relies on `serde_json::Error::classify`: the category of the error, one
/// variant for each of serde_json's.
#[verifier::external_body]
fn error_class(e: &serde_json::Error) -> JsonErrorClass {
    match e.classify() {
        serde_json::error::Category::Io => JsonErrorClass::Io,
        serde_json::error::Category::Syntax => JsonErrorClass::Syntax,
        serde_json::error::Category::Data => JsonErrorClass::Data,
        serde_json::error::Category::Eof => JsonErrorClass::Eof,
    }
}

/// The JSON string literal that serde_json writes for `s`, quotes included.
pub uninterp spec fn json_string_literal(s: Seq<char>) -> Seq<char>;

/// Relies on `serde_json::to_string` on a `str`: the quoted, escaped string.
#[verifier::external_body]
fn json_quote(s: &str) -> (r: String)
    ensures
        r@ == json_string_literal(s@),
{
    match serde_json::to_string(s) {
        Ok(t) => t,
        Err(_) => String::new(),
    }
}

/// The text that lossy UTF-8 decoding gives for `b`.
pub uninterp spec fn lossy_text(b: Seq<u8>) -> Seq<char>;

/// Relies on `String::from_utf8_lossy`: valid UTF-8 is decoded as it is,
/// invalid sequences become U+FFFD.
#[verifier::external_body]
fn utf8_lossy(b: &[u8]) -> (r: String)
    ensures
        r@ == lossy_text(b@),
        valid_utf8(b@) ==> r@ == decode_utf8(b@),
{
    String::from_utf8_lossy(b).into_owned()
}

pub open spec fn class_name(c: JsonErrorClass) -> Seq<char> {
    match c {
        JsonErrorClass::Io => "IO"@,
        JsonErrorClass::Syntax => "SYNTAX"@,
        JsonErrorClass::Data => "DATA"@,
        JsonErrorClass::Eof => "EOF"@,
    }
}

pub open spec fn digit_char(d: nat) -> char {
    seq!['0', '1', '2', '3', '4', '5', '6', '7', '8', '9'][d as int]
}

/// The decimal digits of `n`.
pub open spec fn decimal(n: nat) -> Seq<char>
    decreases n,
{
    if n < 10 {
        seq![digit_char(n)]
    } else {
        decimal(n / 10).push(digit_char(n % 10))
    }
}

/// The body that answers a JSON body that could not be decoded: an object
/// with the keys in serde_json's order.
pub open spec fn rejection_text(echoed: Seq<char>, class: JsonErrorClass, line: nat, column: nat) -> Seq<char> {
    "{\"column\":"@ + decimal(column) + ",\"error_class\":\""@ + class_name(class)
        + "\",\"line\":"@ + decimal(line) + ",\"original_request\":"@ + json_string_literal(
        echoed,
    ) + "}"@
}

pub open spec fn rejection_response(echoed: Seq<char>, class: JsonErrorClass, line: nat, column: nat) -> ResponseView {
    typed_response(400, "application/json"@, encode_utf8(rejection_text(echoed, class, line, column)))
}

fn class_text(c: JsonErrorClass) -> (r: &'static str)
    ensures
        r@ == class_name(c),
{
    match c {
        JsonErrorClass::Io => "IO",
        JsonErrorClass::Syntax => "SYNTAX",
        JsonErrorClass::Data => "DATA",
        JsonErrorClass::Eof => "EOF",
    }
}

fn digit_text(d: usize) -> (r: &'static str)
    requires
        d < 10,
    ensures
        r@ == seq![digit_char(d as nat)],
{
    let r = match d {
        0 => "0",
        1 => "1",
        2 => "2",
        3 => "3",
        4 => "4",
        5 => "5",
        6 => "6",
        7 => "7",
        8 => "8",
        _ => "9",
    };
    proof {
        reveal_strlit("0");
        reveal_strlit("1");
        reveal_strlit("2");
        reveal_strlit("3");
        reveal_strlit("4");
        reveal_strlit("5");
        reveal_strlit("6");
        reveal_strlit("7");
        reveal_strlit("8");
        reveal_strlit("9");
    }
    assert(r@ =~= seq![digit_char(d as nat)]);
    r
}

/// The decimal digits of `n`.
pub fn decimal_string(n: usize) -> (r: String)
    ensures
        r@ == decimal(n as nat),
    decreases n,
{
    if n < 10 {
        String::from_str(digit_text(n))
    } else {
        let mut s = decimal_string(n / 10);
        s.append(digit_text(n % 10));
        s
    }
}

/// The 400 response for a JSON body that could not be decoded: it names the
/// kind of failure, where it happened, and echoes the body.
pub fn json_rejection(request_body: &[u8], class: JsonErrorClass, line: usize, column: usize) -> (r: Response)
    ensures
        r@ == rejection_response(lossy_text(request_body@), class, line as nat, column as nat),
        valid_utf8(request_body@) ==> r@ == rejection_response(
            decode_utf8(request_body@),
            class,
            line as nat,
            column as nat,
        ),
{
    let text = utf8_lossy(request_body);
    let mut s = String::from_str("{\"column\":");
    s.append(decimal_string(column).as_str());
    s.append(",\"error_class\":\"");
    s.append(class_text(class));
    s.append("\",\"line\":");
    s.append(decimal_string(line).as_str());
    s.append(",\"original_request\":");
    s.append(json_quote(text.as_str()).as_str());
    s.append("}");
    assert(s@ =~= rejection_text(lossy_text(request_body@), class, line as nat, column as nat));
    let body = s.as_str().as_bytes_vec();
    let mut headers: Vec<(String, String)> = Vec::new();
    headers.push(("content-type".to_owned(), "application/json".to_owned()));
    let r = Response { status: StatusCode::bad_request(), headers, body };
    proof {
        reveal_strlit("content-type");
    }
    assert(r@.headers =~= seq![("content-type"@, "application/json"@)]);
    r
}

/// Answers a request whose JSON body failed to decode.
#[derive(Debug, Clone, Copy)]
pub struct JsonInterceptor;

impl JsonInterceptor {
    /// The rejection for `err`, met while decoding `body`.
    pub fn intercept(&self, body: &[u8], err: &serde_json::Error) -> (r: Response)
        ensures
            exists|c: JsonErrorClass, line: nat, column: nat|
                r@ == rejection_response(lossy_text(body@), c, line, column),
    {
        let class = error_class(err);
        let line = err.line();
        let column = err.column();
        json_rejection(body, class, line, column)
    }
}

} // verus!
