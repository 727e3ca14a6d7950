//! A request body once received: its bytes and what kind of body it is.
use vstd::prelude::*;
use vstd::utf8::*;
use crate::body_content_type::{BodyContentType, ContentKind, kind_of_body};
use crate::output::{HttpFailResult, text_output};
use crate::text::{utf8_str, lemma_str_of_bytes};

verus! {

/// The `Debug` rendering of the error `std::str::from_utf8` reports for
/// `bytes`.
pub uninterp spec fn utf8_error_debug(bytes: Seq<u8>) -> Seq<char>;

/// `format!("{:?}", err)` of the error `std::str::from_utf8(bytes)` gives; the
/// rendering (which names where the bytes stop being UTF-8) is left unstated.
#[verifier::external_body]
fn utf8_error_text(bytes: &[u8]) -> (r: String)
    requires
        !valid_utf8(bytes@),
    ensures
        r@ == utf8_error_debug(bytes@),
{
    match std::str::from_utf8(bytes) {
        Err(err) => format!("{:?}", err),
        Ok(_) => String::new(),
    }
}

/// The answer to a body that should have been text and is not, given the
/// description of what is wrong with it.
pub fn body_not_text(err_text: &str) -> (r: HttpFailResult)
    ensures
        r.output@ == text_output(500, "Can not convert body to str. Err: "@ + err_text@),
        r.write_to_log,
        r.write_telemetry,
{
    let mut text = String::from_str("Can not convert body to str. Err: ");
    text.append(err_text);
    HttpFailResult::as_fatal_error(text.as_str())
}

/// The kind a body is taken to be: the declared kind, unless that says
/// nothing (unknown or empty) and the bytes are recognisable.
pub open spec fn settled_kind(body: Seq<u8>, declared: ContentKind) -> ContentKind {
    if declared is Unknown || declared is Empty {
        match kind_of_body(body) {
            Some(k) => k,
            None => declared,
        }
    } else {
        declared
    }
}

/// The header value that announces a body kind.
pub open spec fn content_type_of(kind: ContentKind) -> Option<Seq<char>> {
    match kind {
        ContentKind::Json => Some("application/json"@),
        ContentKind::UrlEncoded => Some("application/x-www-form-urlencoded"@),
        ContentKind::FormData(b) => Some("multipart/form-data; boundary="@ + b),
        ContentKind::Unknown => None,
        ContentKind::Empty => None,
    }
}

/// A received request body and its kind.
pub struct HttpRequestBodyContent {
    raw_body: Vec<u8>,
    body_content_type: BodyContentType,
}

impl View for HttpRequestBodyContent {
    type V = (Seq<u8>, ContentKind);

    closed spec fn view(&self) -> (Seq<u8>, ContentKind) {
        (self.raw_body@, self.body_content_type@)
    }
}

impl HttpRequestBodyContent {
    /// Holds `body`; when the declared kind says nothing, the kind is
    /// recognised from the bytes where possible.
    pub fn new(body: Vec<u8>, body_content_type: BodyContentType) -> (r: Result<Self, HttpFailResult>)
        ensures
            r matches Ok(c) && c@ == (body@, settled_kind(body@, body_content_type@)),
    {
        let body_content_type = if body_content_type.is_unknown_or_empty() {
            match BodyContentType::detect_from_body(body.as_slice()) {
                Some(body_type) => body_type,
                None => body_content_type,
            }
        } else {
            body_content_type
        };
        Ok(HttpRequestBodyContent { raw_body: body, body_content_type })
    }

    pub fn as_slice(&self) -> (r: &[u8])
        ensures
            r@ == self@.0,
    {
        self.raw_body.as_slice()
    }

    pub fn get_body(self) -> (r: Vec<u8>)
        ensures
            r@ == self@.0,
    {
        self.raw_body
    }

    /// The body as text: `500` when it is not UTF-8.
    pub fn as_str(&self) -> (r: Result<&str, HttpFailResult>)
        ensures
            match r {
                Ok(s) => valid_utf8(self@.0) && s@ == decode_utf8(self@.0),
                Err(e) => !valid_utf8(self@.0) && e.output@ == text_output(
                    500,
                    "Can not convert body to str. Err: "@ + utf8_error_debug(self@.0),
                ),
            },
    {
        match utf8_str(self.raw_body.as_slice()) {
            Some(s) => {
                proof {
                    lemma_str_of_bytes(s, self.raw_body@);
                }
                Ok(s)
            },
            None => {
                let err = utf8_error_text(self.raw_body.as_slice());
                Err(body_not_text(err.as_str()))
            },
        }
    }

    /// A `Content-Type` value that announces the body's kind, if it has one.
    pub fn content_type_header(&self) -> (r: Option<String>)
        ensures
            match content_type_of(self@.1) {
                Some(t) => r matches Some(s) && s@ == t,
                None => r is None,
            },
    {
        match &self.body_content_type {
            BodyContentType::Json => Some(String::from_str("application/json")),
            BodyContentType::UrlEncoded => Some(
                String::from_str("application/x-www-form-urlencoded"),
            ),
            BodyContentType::FormData(boundary) => {
                let mut text = String::from_str("multipart/form-data; boundary=");
                text.append(boundary.as_str());
                Some(text)
            },
            BodyContentType::Unknown => None,
            BodyContentType::Empty => None,
        }
    }
}

} // verus!
