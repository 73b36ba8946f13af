//! The fixed responses: errors and the two health endpoints, built once.

use crate::bytes::{decimal, push_decimal, push_text, text};
use vstd::prelude::*;

verus! {

/// Status line and headers of a fixed response whose body has `length`
/// bytes, up to and including the empty line.
pub open spec fn status_head(status: &str, content_type: &str, length: nat) -> Seq<u8> {
    text("HTTP/1.1 ") + text(status) + text("\r\nContent-Type: ") + text(content_type) + text(
        "\r\nContent-Length: ",
    ) + decimal(length) + text(
        "\r\nX-Content-Type-Options: nosniff\r\nConnection: keep-alive\r\n\r\n",
    )
}

/// A fixed response with its body. `Content-Length` is the length of the
/// body.
pub open spec fn status_response(status: &str, content_type: &str, body: &str) -> Seq<u8> {
    status_head(status, content_type, text(body).len()) + text(body)
}

/// The body of the liveness endpoint.
pub open spec fn health_body() -> &'static str {
    "{\"status\":\"healthy\",\"timestamp\":\"0\"}"
}

/// The body of the readiness endpoint.
pub open spec fn ready_body() -> &'static str {
    "{\"status\":\"ready\",\"timestamp\":\"0\"}"
}

/// The responses that do not depend on any file.
#[derive(Clone, Debug, PartialEq, Eq)]
pub struct HeaderTemplates {
    pub not_found: Vec<u8>,
    pub method_not_allowed: Vec<u8>,
    pub request_too_large: Vec<u8>,
    pub bad_request: Vec<u8>,
    pub request_timeout: Vec<u8>,
    pub health_complete: Vec<u8>,
    pub health_headers_only: Vec<u8>,
    pub ready_complete: Vec<u8>,
    pub ready_headers_only: Vec<u8>,
}

fn fixed_head(status: &str, content_type: &str, body: &str) -> (head: Vec<u8>)
    ensures
        head@ == status_head(status, content_type, text(body).len()),
{
    let mut head: Vec<u8> = Vec::new();
    push_text(&mut head, "HTTP/1.1 ");
    push_text(&mut head, status);
    push_text(&mut head, "\r\nContent-Type: ");
    push_text(&mut head, content_type);
    push_text(&mut head, "\r\nContent-Length: ");
    let length: usize = body.as_bytes().len();
    push_decimal(&mut head, length as u64);
    push_text(&mut head, "\r\nX-Content-Type-Options: nosniff\r\nConnection: keep-alive\r\n\r\n");
    head
}

fn fixed_response(status: &str, content_type: &str, body: &str) -> (response: Vec<u8>)
    ensures
        response@ == status_response(status, content_type, body),
{
    let mut response = fixed_head(status, content_type, body);
    push_text(&mut response, body);
    response
}

impl HeaderTemplates {
    /// Every template holds the response that its name says.
    pub open spec fn wf(&self) -> bool {
        &&& self.not_found@ == status_response("404 Not Found", "text/plain", "File not found")
        &&& self.method_not_allowed@ == status_response(
            "405 Method Not Allowed",
            "text/plain",
            "Method not allowed",
        )
        &&& self.request_too_large@ == status_response(
            "413 Request Entity Too Large",
            "text/plain",
            "Request too large",
        )
        &&& self.bad_request@ == status_response(
            "400 Bad Request",
            "text/plain",
            "Malformed request",
        )
        &&& self.request_timeout@ == status_response(
            "408 Request Timeout",
            "text/plain",
            "Request timeout",
        )
        &&& self.health_complete@ == status_response("200 OK", "application/json", health_body())
        &&& self.health_headers_only@ == status_head(
            "200 OK",
            "application/json",
            text(health_body()).len(),
        )
        &&& self.ready_complete@ == status_response("200 OK", "application/json", ready_body())
        &&& self.ready_headers_only@ == status_head(
            "200 OK",
            "application/json",
            text(ready_body()).len(),
        )
    }

    /// Builds all the fixed responses.
    pub fn new() -> (templates: HeaderTemplates)
        ensures
            templates.wf(),
    {
        let (health_complete, health_headers_only) = Self::create_health_response();
        let (ready_complete, ready_headers_only) = Self::create_ready_response();
        HeaderTemplates {
            not_found: fixed_response("404 Not Found", "text/plain", "File not found"),
            method_not_allowed: fixed_response(
                "405 Method Not Allowed",
                "text/plain",
                "Method not allowed",
            ),
            request_too_large: fixed_response(
                "413 Request Entity Too Large",
                "text/plain",
                "Request too large",
            ),
            bad_request: fixed_response("400 Bad Request", "text/plain", "Malformed request"),
            request_timeout: fixed_response(
                "408 Request Timeout",
                "text/plain",
                "Request timeout",
            ),
            health_complete,
            health_headers_only,
            ready_complete,
            ready_headers_only,
        }
    }

    /// The liveness response, with its body and without.
    pub fn create_health_response() -> (pair: (Vec<u8>, Vec<u8>))
        ensures
            pair.0@ == status_response("200 OK", "application/json", health_body()),
            pair.1@ == status_head("200 OK", "application/json", text(health_body()).len()),
    {
        let body = "{\"status\":\"healthy\",\"timestamp\":\"0\"}";
        let complete = fixed_response("200 OK", "application/json", body);
        let headers = fixed_head("200 OK", "application/json", body);
        (complete, headers)
    }

    /// The readiness response, with its body and without.
    pub fn create_ready_response() -> (pair: (Vec<u8>, Vec<u8>))
        ensures
            pair.0@ == status_response("200 OK", "application/json", ready_body()),
            pair.1@ == status_head("200 OK", "application/json", text(ready_body()).len()),
    {
        let body = "{\"status\":\"ready\",\"timestamp\":\"0\"}";
        let complete = fixed_response("200 OK", "application/json", body);
        let headers = fixed_head("200 OK", "application/json", body);
        (complete, headers)
    }
}

} // verus!
