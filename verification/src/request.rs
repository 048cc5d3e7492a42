//! The request/response side of the relay: method validation, error
//! construction, and assembly of the buffered response with the headers the
//! relay synthesizes.

use crate::text::{dec_of, prefixed, u64_to_dec};
use std::collections::HashMap;
use vstd::prelude::*;
use vstd::string::{StrSliceExecFns, StringExecFns};

verus! {

/// One relayed request, as the caller hands it over.
#[derive(Debug)]
pub struct ApiRequest {
    pub url: String,
    pub method: String,
    pub headers: Option<HashMap<String, String>>,
    pub body: Option<String>,
}

/// A fully buffered upstream response.
#[derive(Debug)]
pub struct ApiResponse {
    pub status: u16,
    pub headers: HashMap<String, String>,
    pub body: String,
}

/// A relay failure: a human-readable message, and the upstream status when
/// a response arrived but its body could not be read.
#[derive(Debug, Clone)]
pub struct ApiError {
    pub message: String,
    pub status: Option<u16>,
}

/// The HTTP methods the relay accepts.
#[derive(Debug, Clone, Copy, PartialEq, Eq, Structural)]
pub enum Method {
    Get,
    Post,
    Put,
    Delete,
    Patch,
    Head,
    Options,
}

/// The two characters are equal up to ASCII case.
pub open spec fn chars_eq_icase(a: char, b: char) -> bool {
    ||| a == b
    ||| (65 <= a as u32 <= 90 && a as u32 + 32 == b as u32)
    ||| (65 <= b as u32 <= 90 && b as u32 + 32 == a as u32)
}

/// The two texts are equal up to ASCII case.
pub open spec fn eq_icase(a: Seq<char>, b: Seq<char>) -> bool {
    a.len() == b.len() && forall|i: int| 0 <= i < a.len() ==> chars_eq_icase(a[i], b[i])
}

/// The method named by `s`, compared case-insensitively, if any.
pub open spec fn parsed_method(s: Seq<char>) -> Option<Method> {
    if eq_icase(s, "GET"@) {
        Some(Method::Get)
    } else if eq_icase(s, "POST"@) {
        Some(Method::Post)
    } else if eq_icase(s, "PUT"@) {
        Some(Method::Put)
    } else if eq_icase(s, "DELETE"@) {
        Some(Method::Delete)
    } else if eq_icase(s, "PATCH"@) {
        Some(Method::Patch)
    } else if eq_icase(s, "HEAD"@) {
        Some(Method::Head)
    } else if eq_icase(s, "OPTIONS"@) {
        Some(Method::Options)
    } else {
        None
    }
}

/// The streaming path accepts a narrower set than the buffered one.
pub open spec fn streaming_allowed(m: Method) -> bool {
    match m {
        Method::Head => false,
        Method::Options => false,
        _ => true,
    }
}

fn char_eq_icase(a: char, b: char) -> (r: bool)
    ensures
        r == chars_eq_icase(a, b),
{
    if a == b {
        true
    } else {
        let au = a as u32;
        let bu = b as u32;
        (65 <= au && au <= 90 && au + 32 == bu) || (65 <= bu && bu <= 90 && bu + 32 == au)
    }
}

fn eq_ignore_case(s: &str, t: &str) -> (r: bool)
    ensures
        r == eq_icase(s@, t@),
{
    let n = s.unicode_len();
    let m = t.unicode_len();
    if n != m {
        return false;
    }
    let mut i: usize = 0;
    while i < n
        invariant
            i <= n,
            n == s@.len(),
            n == t@.len(),
            forall|j: int| 0 <= j < i ==> chars_eq_icase(s@[j], t@[j]),
        decreases n - i,
    {
        if !char_eq_icase(s.get_char(i), t.get_char(i)) {
            return false;
        }
        i += 1;
    }
    true
}

/// Recognize a supported method name, case-insensitively.
pub fn parse_method(s: &str) -> (r: Option<Method>)
    ensures
        r == parsed_method(s@),
{
    if eq_ignore_case(s, "GET") {
        Some(Method::Get)
    } else if eq_ignore_case(s, "POST") {
        Some(Method::Post)
    } else if eq_ignore_case(s, "PUT") {
        Some(Method::Put)
    } else if eq_ignore_case(s, "DELETE") {
        Some(Method::Delete)
    } else if eq_ignore_case(s, "PATCH") {
        Some(Method::Patch)
    } else if eq_ignore_case(s, "HEAD") {
        Some(Method::Head)
    } else if eq_ignore_case(s, "OPTIONS") {
        Some(Method::Options)
    } else {
        None
    }
}

/// The canonical upper-case name of a method.
pub open spec fn method_name(m: Method) -> Seq<char> {
    match m {
        Method::Get => "GET"@,
        Method::Post => "POST"@,
        Method::Put => "PUT"@,
        Method::Delete => "DELETE"@,
        Method::Patch => "PATCH"@,
        Method::Head => "HEAD"@,
        Method::Options => "OPTIONS"@,
    }
}

impl Method {
    /// The canonical name, for handing to a transport.
    pub fn as_str(&self) -> (r: &'static str)
        ensures
            r@ == method_name(*self),
    {
        match self {
            Method::Get => "GET",
            Method::Post => "POST",
            Method::Put => "PUT",
            Method::Delete => "DELETE",
            Method::Patch => "PATCH",
            Method::Head => "HEAD",
            Method::Options => "OPTIONS",
        }
    }
}

pub open spec fn unsupported_method_msg(m: Seq<char>) -> Seq<char> {
    "Unsupported HTTP method: "@ + m
}

pub open spec fn transport_error_msg(d: Seq<char>) -> Seq<char> {
    "HTTP request failed: "@ + d
}

pub open spec fn client_build_msg(d: Seq<char>) -> Seq<char> {
    "Failed to create HTTP client: "@ + d
}

pub open spec fn body_read_msg(d: Seq<char>) -> Seq<char> {
    "Failed to read response body: "@ + d
}

impl ApiError {
    /// The error for a method outside the supported set; no I/O happened.
    pub fn unsupported_method(method: &str) -> (r: ApiError)
        ensures
            r.message@ == unsupported_method_msg(method@),
            r.status is None,
    {
        ApiError { message: prefixed("Unsupported HTTP method: ", method), status: None }
    }

    /// The error for a transport failure, wrapping its description.
    pub fn transport(detail: &str) -> (r: ApiError)
        ensures
            r.message@ == transport_error_msg(detail@),
            r.status is None,
    {
        ApiError { message: prefixed("HTTP request failed: ", detail), status: None }
    }

    /// The error for a transport client that could not be built.
    pub fn client_build(detail: &str) -> (r: ApiError)
        ensures
            r.message@ == client_build_msg(detail@),
            r.status is None,
    {
        ApiError { message: prefixed("Failed to create HTTP client: ", detail), status: None }
    }

    /// The error for a response whose body could not be read; the status
    /// that did arrive is kept.
    pub fn body_read(detail: &str, status: u16) -> (r: ApiError)
        ensures
            r.message@ == body_read_msg(detail@),
            r.status == Some(status),
    {
        ApiError { message: prefixed("Failed to read response body: ", detail), status: Some(status) }
    }
}

/// Validate the method of a buffered request: every supported method is
/// allowed; anything else is a validation error, reported before any I/O.
pub fn validate_buffered_method(method: &str) -> (r: Result<Method, ApiError>)
    ensures
        match r {
            Ok(m) => parsed_method(method@) == Some(m),
            Err(e) => {
                &&& parsed_method(method@) is None
                &&& e.message@ == unsupported_method_msg(method@)
                &&& e.status is None
            },
        },
{
    match parse_method(method) {
        Some(m) => Ok(m),
        None => Err(ApiError::unsupported_method(method)),
    }
}

/// Validate the method of a streaming request: the buffered set without
/// HEAD and OPTIONS.
pub fn validate_stream_method(method: &str) -> (r: Result<Method, ApiError>)
    ensures
        match r {
            Ok(m) => parsed_method(method@) == Some(m) && streaming_allowed(m),
            Err(e) => {
                &&& !(parsed_method(method@) matches Some(m) && streaming_allowed(m))
                &&& e.message@ == unsupported_method_msg(method@)
                &&& e.status is None
            },
        },
{
    match parse_method(method) {
        Some(m) => if matches!(m, Method::Head | Method::Options) {
            Err(ApiError::unsupported_method(method))
        } else {
            Ok(m)
        },
        None => Err(ApiError::unsupported_method(method)),
    }
}

/// Accept a buffered request: validate its method before any I/O.
pub fn prepare_request(request: &ApiRequest) -> (r: Result<Method, ApiError>)
    ensures
        match r {
            Ok(m) => parsed_method(request.method@) == Some(m),
            Err(e) => {
                &&& parsed_method(request.method@) is None
                &&& e.message@ == unsupported_method_msg(request.method@)
                &&& e.status is None
            },
        },
{
    validate_buffered_method(request.method.as_str())
}

/// The two headers the relay adds to every outbound request: its
/// identification marker and the correlation identifier.
pub fn proxy_request_headers(request_id: &str) -> (r: Vec<(String, String)>)
    ensures
        r@.len() == 2,
        r@[0].0@ == "X-Tauri-Proxy"@ && r@[0].1@ == "true"@,
        r@[1].0@ == "X-Tauri-Request-ID"@ && r@[1].1@ == request_id@,
{
    let mut v: Vec<(String, String)> = Vec::new();
    v.push((String::from_str("X-Tauri-Proxy"), String::from_str("true")));
    v.push((String::from_str("X-Tauri-Request-ID"), String::from_str(request_id)));
    v
}

/// The headers of the buffered response, as ordered pairs: every upstream
/// header, followed by the three entries the relay synthesizes — its
/// identification marker, the correlation identifier, and the elapsed time
/// in milliseconds, rendered in decimal — and nothing else. Folding the
/// pairs into a mapping in this order lets a synthesized entry overwrite
/// an upstream header of the same name, as intended.
pub fn response_headers(upstream: Vec<(String, String)>, request_id: &str, elapsed_ms: u64) -> (r:
    Vec<(String, String)>)
    ensures
        r@.len() == upstream@.len() + 3,
        forall|i: int| 0 <= i < upstream@.len() ==> r@[i] == upstream@[i],
        r@[upstream@.len() as int].0@ == "X-Tauri-Proxied"@,
        r@[upstream@.len() as int].1@ == "true"@,
        r@[upstream@.len() as int + 1].0@ == "X-Tauri-Request-ID"@,
        r@[upstream@.len() as int + 1].1@ == request_id@,
        r@[upstream@.len() as int + 2].0@ == "X-Tauri-Elapsed-Ms"@,
        r@[upstream@.len() as int + 2].1@ == dec_of(elapsed_ms as nat),
{
    let mut r = upstream;
    r.push((String::from_str("X-Tauri-Proxied"), String::from_str("true")));
    r.push((String::from_str("X-Tauri-Request-ID"), String::from_str(request_id)));
    r.push((String::from_str("X-Tauri-Elapsed-Ms"), u64_to_dec(elapsed_ms)));
    r
}

/// Mint the correlation identifier for one buffered request.
pub fn new_request_id() -> (r: String)
    ensures
        r@.len() == 36,
{
    crate::ids::fresh_uuid()
}

/// Reduce a full outcome to the body on success and the message on
/// failure.
pub fn simplify_result(r: Result<ApiResponse, ApiError>) -> (s: Result<String, String>)
    ensures
        match r {
            Ok(resp) => s matches Ok(b) && b == resp.body,
            Err(e) => s matches Err(m) && m == e.message,
        },
{
    match r {
        Ok(resp) => Ok(resp.body),
        Err(e) => Err(e.message),
    }
}

} // verus!

