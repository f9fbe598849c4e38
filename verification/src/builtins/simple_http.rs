//! HTTP requests: the methods and the shape of a request.

use crate::errors::BuiltinExecutionError;
use vstd::prelude::*;
use vstd::string::*;

verus! {

/// The callable `simple_http_get`.
pub struct SimpleHttpGet;

/// The callable `simple_http_post`.
pub struct SimpleHttpPost;

/// The callable `simple_http_put`.
pub struct SimpleHttpPut;

/// The callable `simple_http_delete`.
pub struct SimpleHttpDelete;

/// The callable `send_http_request`.
pub struct SendHttpRequest;

impl SimpleHttpGet {
    /// The name under which the callable is installed.
    pub fn get_name(&self) -> (name: &'static str)
        ensures
            name@ == "simple_http_get"@,
    {
        "simple_http_get"
    }
}

impl SimpleHttpPost {
    /// The name under which the callable is installed.
    pub fn get_name(&self) -> (name: &'static str)
        ensures
            name@ == "simple_http_post"@,
    {
        "simple_http_post"
    }
}

impl SimpleHttpPut {
    /// The name under which the callable is installed.
    pub fn get_name(&self) -> (name: &'static str)
        ensures
            name@ == "simple_http_put"@,
    {
        "simple_http_put"
    }
}

impl SimpleHttpDelete {
    /// The name under which the callable is installed.
    pub fn get_name(&self) -> (name: &'static str)
        ensures
            name@ == "simple_http_delete"@,
    {
        "simple_http_delete"
    }
}

impl SendHttpRequest {
    /// The name under which the callable is installed.
    pub fn get_name(&self) -> (name: &'static str)
        ensures
            name@ == "send_http_request"@,
    {
        "send_http_request"
    }
}

/// The method of an HTTP request.
#[derive(Debug, PartialEq, Eq, Structural, Clone, Copy)]
pub enum MllHttpMethod {
    GET,
    POST,
    PUT,
    DELETE,
}

/// `c`, or its capital where `c` is an ASCII letter from `a` to `z`.
pub open spec fn upper(c: char) -> char {
    if 'a' <= c && c <= 'z' {
        ((c as u8) - 32) as u8 as char
    } else {
        c
    }
}

/// `text` with each ASCII letter from `a` to `z` replaced by its capital.
pub open spec fn upper_text(text: Seq<char>) -> Seq<char> {
    text.map_values(|c: char| upper(c))
}

/// The method that a text names, whatever the case of its letters.
pub open spec fn method_of(text: Seq<char>) -> Option<MllHttpMethod> {
    if upper_text(text) == "GET"@ {
        Some(MllHttpMethod::GET)
    } else if upper_text(text) == "POST"@ {
        Some(MllHttpMethod::POST)
    } else if upper_text(text) == "PUT"@ {
        Some(MllHttpMethod::PUT)
    } else if upper_text(text) == "DELETE"@ {
        Some(MllHttpMethod::DELETE)
    } else {
        None
    }
}

/// The name of a method, in capitals.
pub open spec fn method_name(method: MllHttpMethod) -> Seq<char> {
    match method {
        MllHttpMethod::GET => "GET"@,
        MllHttpMethod::POST => "POST"@,
        MllHttpMethod::PUT => "PUT"@,
        MllHttpMethod::DELETE => "DELETE"@,
    }
}

/// Calls `str::to_ascii_uppercase`: a copy of the text in which each ASCII
/// letter from `a` to `z` is replaced by its capital and every other
/// character is kept.
#[verifier::external_body]
fn to_upper(text: &str) -> (capitals: String)
    ensures
        capitals@ == upper_text(text@),
{
    text.to_ascii_uppercase()
}

impl MllHttpMethod {
    /// The method that `text` names, whatever the case of its letters. A
    /// text that names none of the four methods is refused.
    pub fn parse(text: &str) -> (method: Result<MllHttpMethod, BuiltinExecutionError>)
        ensures
            match method_of(text@) {
                Some(named) => method == Ok::<MllHttpMethod, BuiltinExecutionError>(named),
                None => method == Err::<MllHttpMethod, BuiltinExecutionError>(
                    BuiltinExecutionError::UnsupportedMethod,
                ),
            },
    {
        let capitals = to_upper(text);
        if capitals == "GET".to_owned() {
            Ok(MllHttpMethod::GET)
        } else if capitals == "POST".to_owned() {
            Ok(MllHttpMethod::POST)
        } else if capitals == "PUT".to_owned() {
            Ok(MllHttpMethod::PUT)
        } else if capitals == "DELETE".to_owned() {
            Ok(MllHttpMethod::DELETE)
        } else {
            Err(BuiltinExecutionError::UnsupportedMethod)
        }
    }

    /// The name of the method, in capitals.
    pub fn to_string(&self) -> (name: String)
        ensures
            name@ == method_name(*self),
    {
        match self {
            MllHttpMethod::GET => "GET".to_owned(),
            MllHttpMethod::POST => "POST".to_owned(),
            MllHttpMethod::PUT => "PUT".to_owned(),
            MllHttpMethod::DELETE => "DELETE".to_owned(),
        }
    }
}

impl Default for MllHttpMethod {
    fn default() -> (method: MllHttpMethod)
        ensures
            method == MllHttpMethod::GET,
    {
        MllHttpMethod::GET
    }
}

/// An HTTP request in its generic form.
#[derive(Debug, Clone, PartialEq)]
pub struct HttpRequest {
    url: String,
    method: MllHttpMethod,
    header: Vec<(String, String)>,
    body: String,
}

impl HttpRequest {
    /// The request to `url` with the method that `method` names, the given
    /// header fields and the given body. A method that is none of the four
    /// is refused.
    pub fn new(url: String, method: &str, header: Vec<(String, String)>, body: String) -> (request:
        Result<HttpRequest, BuiltinExecutionError>)
        ensures
            match method_of(method@) {
                Some(named) => request is Ok && request->Ok_0.spec_url() == url
                    && request->Ok_0.spec_method() == named && request->Ok_0.spec_header()
                    == header && request->Ok_0.spec_body() == body,
                None => request is Err && request->Err_0
                    == BuiltinExecutionError::UnsupportedMethod,
            },
    {
        match MllHttpMethod::parse(method) {
            Ok(method) => Ok(HttpRequest { url, method, header, body }),
            Err(e) => Err(e),
        }
    }

    /// The address.
    pub closed spec fn spec_url(&self) -> String {
        self.url
    }

    /// The method.
    pub closed spec fn spec_method(&self) -> MllHttpMethod {
        self.method
    }

    /// The header fields, in order.
    pub closed spec fn spec_header(&self) -> Vec<(String, String)> {
        self.header
    }

    /// The body.
    pub closed spec fn spec_body(&self) -> String {
        self.body
    }

    /// The address.
    pub fn url(&self) -> (url: &String)
        ensures
            *url == self.spec_url(),
    {
        &self.url
    }

    /// The method.
    pub fn method(&self) -> (method: &MllHttpMethod)
        ensures
            *method == self.spec_method(),
    {
        &self.method
    }

    /// The header fields, in order.
    pub fn header(&self) -> (header: &Vec<(String, String)>)
        ensures
            *header == self.spec_header(),
    {
        &self.header
    }

    /// The body.
    pub fn body(&self) -> (body: &String)
        ensures
            *body == self.spec_body(),
    {
        &self.body
    }
}

impl Default for HttpRequest {
    fn default() -> (request: HttpRequest)
        ensures
            request.spec_url()@.len() == 0,
            request.spec_method() == MllHttpMethod::GET,
            request.spec_header()@.len() == 0,
            request.spec_body()@.len() == 0,
    {
        HttpRequest {
            url: String::new(),
            method: MllHttpMethod::GET,
            header: Vec::new(),
            body: String::new(),
        }
    }
}

} // verus!
