//! Building a response output step by step, and the ready-made error answers.
use vstd::prelude::*;
use vstd::utf8::*;
use vstd::string::*;
use crate::cookies::{Cookie, CookieJar, CookieModel};
use crate::output::{
    HttpOutput, OutputModel, HeadersModel, HttpResponseHeaders, WebContentType, RedirectType,
    HttpOkResult, HttpFailResult, bare_headers, text_output,
};
use crate::text::str_bytes;

verus! {

/// The content of a fresh output that only carries headers: `204 No Content`.
pub open spec fn headers_only(h: HeadersModel) -> OutputModel {
    OutputModel::Content { status_code: 204, headers: h, content: Seq::empty() }
}

/// `o` with its content type set.
pub open spec fn with_content_type(o: OutputModel, ct: WebContentType) -> OutputModel {
    match o {
        OutputModel::Empty => headers_only(bare_headers(Some(ct))),
        OutputModel::Content { status_code, headers, content } => OutputModel::Content {
            status_code,
            headers: HeadersModel { content_type: Some(ct), ..headers },
            content,
        },
        OutputModel::File { file_name, content, headers } => OutputModel::File {
            file_name,
            content,
            headers: HeadersModel { content_type: Some(ct), ..headers },
        },
        OutputModel::Redirect { .. } => o,
    }
}

pub open spec fn push_header(h: HeadersModel, k: Seq<char>, v: Seq<char>) -> HeadersModel {
    HeadersModel { headers: h.headers.push((k, v)), ..h }
}

/// `o` with one more header.
pub open spec fn with_header(o: OutputModel, k: Seq<char>, v: Seq<char>) -> OutputModel {
    match o {
        OutputModel::Empty => headers_only(push_header(bare_headers(None), k, v)),
        OutputModel::Content { status_code, headers, content } => OutputModel::Content {
            status_code,
            headers: push_header(headers, k, v),
            content,
        },
        OutputModel::Redirect { headers, url, redirect_type } => OutputModel::Redirect {
            headers: push_header(headers, k, v),
            url,
            redirect_type,
        },
        OutputModel::File { file_name, content, headers } => OutputModel::File {
            file_name,
            content,
            headers: push_header(headers, k, v),
        },
    }
}

pub open spec fn add_cookies(h: HeadersModel, cs: Seq<CookieModel>) -> HeadersModel {
    HeadersModel {
        cookies: Some(
            match h.cookies {
                Some(c) => c,
                None => Seq::empty(),
            } + cs,
        ),
        ..h
    }
}

/// `o` with more cookies.
pub open spec fn with_cookies(o: OutputModel, cs: Seq<CookieModel>) -> OutputModel {
    match o {
        OutputModel::Empty => headers_only(add_cookies(bare_headers(None), cs)),
        OutputModel::Content { status_code, headers, content } => OutputModel::Content {
            status_code,
            headers: add_cookies(headers, cs),
            content,
        },
        OutputModel::Redirect { headers, url, redirect_type } => OutputModel::Redirect {
            headers: add_cookies(headers, cs),
            url,
            redirect_type,
        },
        OutputModel::File { file_name, content, headers } => OutputModel::File {
            file_name,
            content,
            headers: add_cookies(headers, cs),
        },
    }
}

/// The status a body brings: an output without a body (204) becomes 200.
pub open spec fn status_with_body(status_code: u16) -> u16 {
    if status_code == 204 {
        200
    } else {
        status_code
    }
}

/// `o` with a text body.
pub open spec fn with_text(o: OutputModel, t: Seq<char>) -> OutputModel {
    match o {
        OutputModel::Empty => text_output(200, t),
        OutputModel::Content { status_code, headers, .. } => OutputModel::Content {
            status_code: status_with_body(status_code),
            headers: HeadersModel { content_type: Some(WebContentType::Text), ..headers },
            content: encode_utf8(t),
        },
        OutputModel::File { file_name, headers, .. } => OutputModel::File {
            file_name,
            content: encode_utf8(t),
            headers,
        },
        OutputModel::Redirect { .. } => o,
    }
}

/// `o` with a status code.
pub open spec fn with_status(o: OutputModel, code: u16) -> OutputModel {
    match o {
        OutputModel::Empty => OutputModel::Content {
            status_code: code,
            headers: bare_headers(None),
            content: Seq::empty(),
        },
        OutputModel::Content { headers, content, .. } => OutputModel::Content {
            status_code: code,
            headers,
            content,
        },
        _ => o,
    }
}

/// `o` with a body.
pub open spec fn with_content(o: OutputModel, c: Seq<u8>) -> OutputModel {
    match o {
        OutputModel::Empty => OutputModel::Content {
            status_code: 200,
            headers: bare_headers(None),
            content: c,
        },
        OutputModel::Content { status_code, headers, .. } => OutputModel::Content {
            status_code: status_with_body(status_code),
            headers,
            content: c,
        },
        OutputModel::File { file_name, headers, .. } => OutputModel::File {
            file_name,
            content: c,
            headers,
        },
        OutputModel::Redirect { .. } => o,
    }
}

/// The body of an output that has one.
pub open spec fn body_of(o: OutputModel) -> Option<Seq<u8>> {
    match o {
        OutputModel::Content { content, .. } => Some(content),
        OutputModel::File { content, .. } => Some(content),
        _ => None,
    }
}

/// The body is replaced by its compressed form when that saves at least a fifth.
pub open spec fn compression_pays(plain: Seq<u8>, compressed: Seq<u8>) -> bool {
    compressed.len() * 100 <= plain.len() * 80
}

/// `o` with its body replaced by `c` and a `Content-Encoding: zstd` header.
pub open spec fn with_compressed_body(o: OutputModel, c: Seq<u8>) -> OutputModel {
    match o {
        OutputModel::Content { status_code, headers, .. } => OutputModel::Content {
            status_code,
            headers: push_header(headers, "Content-Encoding"@, "zstd"@),
            content: c,
        },
        OutputModel::File { file_name, headers, .. } => OutputModel::File {
            file_name,
            content: c,
            headers: push_header(headers, "Content-Encoding"@, "zstd"@),
        },
        _ => o,
    }
}

/// What `zstd::encode_all` returns for `body` at compression `level`
/// (`None` when it fails).
pub uninterp spec fn zstd_encoded(body: Seq<u8>, level: i32) -> Option<Seq<u8>>;

/// The compression level responses are compressed with.
pub const ZSTD_LEVEL: i32 = 11;

/// `zstd::encode_all`: compresses `body` at `level`. Its result is named,
/// not described: it is `zstd_encoded(body, level)`.
#[verifier::external_body]
fn zstd_encode_all(body: &[u8], level: i32) -> (r: Option<Vec<u8>>)
    ensures
        match r {
            Some(v) => zstd_encoded(body@, level) == Some(v@),
            None => zstd_encoded(body@, level) is None,
        },
{
    zstd::encode_all(body, level).ok()
}

proof fn lemma_push_is_concat<T>(x: Seq<T>, c: T)
    ensures
        x.push(c) == x + seq![c],
{
    assert(x.push(c) =~= x + seq![c]);
}

/// An output under construction.
pub struct HttpResultBuilder {
    pub output: HttpOutput,
}

impl HttpResultBuilder {
    pub fn new() -> (r: Self)
        ensures
            r.output@ == OutputModel::Empty,
    {
        HttpResultBuilder { output: HttpOutput::Empty }
    }

    pub fn set_content_type(self, new_content_type: WebContentType) -> (r: Self)
        requires
            !(self.output@ is Redirect),
        ensures
            r.output@ == with_content_type(self.output@, new_content_type),
    {
        let mut s = self;
        match &mut s.output {
            HttpOutput::Empty => {
                s.output = HttpOutput::Content {
                    status_code: 204,
                    headers: HttpResponseHeaders::new(Some(new_content_type)),
                    content: Vec::new(),
                };
                assert(s.output@ == with_content_type(self.output@, new_content_type)) by {
                    assert(s.output@->Content_content =~= Seq::<u8>::empty());
                }
            },
            HttpOutput::Content { headers, .. } => {
                headers.set_content_type(new_content_type);
            },
            HttpOutput::File { headers, .. } => {
                headers.set_content_type(new_content_type);
            },
            HttpOutput::Redirect { .. } => {},
        }
        s
    }

    pub fn set_content_type_opt(self, content_type: Option<WebContentType>) -> (r: Self)
        requires
            content_type is Some ==> !(self.output@ is Redirect),
        ensures
            r.output@ == match content_type {
                Some(ct) => with_content_type(self.output@, ct),
                None => self.output@,
            },
    {
        match content_type {
            Some(ct) => self.set_content_type(ct),
            None => self,
        }
    }

    pub fn add_header(self, key: String, value: String) -> (r: Self)
        ensures
            r.output@ == with_header(self.output@, key@, value@),
    {
        let mut s = self;
        match &mut s.output {
            HttpOutput::Empty => {
                s.output = HttpOutput::Content {
                    status_code: 204,
                    headers: HttpResponseHeaders::new_with_header(key, value),
                    content: Vec::new(),
                };
                assert(s.output@ == with_header(self.output@, key@, value@)) by {
                    assert(s.output@->Content_content =~= Seq::<u8>::empty());
                    assert(push_header(bare_headers(None), key@, value@).headers =~= seq![(key@, value@)]);
                }
            },
            HttpOutput::Content { headers, .. } => {
                headers.add_header(key, value);
            },
            HttpOutput::Redirect { headers, .. } => {
                headers.add_header(key, value);
            },
            HttpOutput::File { headers, .. } => {
                headers.add_header(key, value);
            },
        }
        s
    }

    pub fn add_header_if_some(self, key: String, value: Option<String>) -> (r: Self)
        ensures
            r.output@ == match value {
                Some(v) => with_header(self.output@, key@, v@),
                None => self.output@,
            },
    {
        match value {
            Some(v) => self.add_header(key, v),
            None => self,
        }
    }

    /// Adds the headers in order.
    pub fn add_headers(self, headers: Vec<(String, String)>) -> (r: Self)
        ensures
            r.output@ == headers@.fold_left(
                self.output@,
                |o: OutputModel, p: (String, String)| with_header(o, p.0@, p.1@),
            ),
    {
        let ghost start = self.output@;
        let ghost all = headers@;
        let mut s = self;
        let mut rest = headers;
        let n = rest.len();
        let mut i: usize = 0;
        while i < n
            invariant
                n == all.len(),
                i <= n,
                rest@ == all.subrange(i as int, n as int),
                s.output@ == all.subrange(0, i as int).fold_left(
                    start,
                    |o: OutputModel, p: (String, String)| with_header(o, p.0@, p.1@),
                ),
            decreases n - i,
        {
            let ghost before = rest@;
            let (k, v) = rest.remove(0);
            s = s.add_header(k, v);
            proof {
                assert(rest@ =~= all.subrange(i + 1, n as int));
                let f = |o: OutputModel, p: (String, String)| with_header(o, p.0@, p.1@);
                assert(all.subrange(0, i + 1).drop_last() =~= all.subrange(0, i as int));
                assert(all.subrange(0, i + 1).last() == all[i as int]);
            }
            i = i + 1;
        }
        assert(all.subrange(0, n as int) =~= all);
        s
    }

    pub fn add_headers_opt(self, headers: Option<Vec<(String, String)>>) -> (r: Self)
        ensures
            r.output@ == match headers {
                Some(h) => h@.fold_left(
                    self.output@,
                    |o: OutputModel, p: (String, String)| with_header(o, p.0@, p.1@),
                ),
                None => self.output@,
            },
    {
        match headers {
            Some(h) => self.add_headers(h),
            None => self,
        }
    }

    pub fn set_cookie(self, cookie: Cookie) -> (r: Self)
        ensures
            r.output@ == with_cookies(self.output@, seq![cookie@]),
    {
        let ghost c = cookie@;
        let mut s = self;
        match &mut s.output {
            HttpOutput::Empty => {
                s.output = HttpOutput::Content {
                    status_code: 204,
                    headers: HttpResponseHeaders::new_with_cookie(cookie),
                    content: Vec::new(),
                };
                assert(s.output@ == with_cookies(self.output@, seq![c])) by {
                    assert(s.output@->Content_content =~= Seq::<u8>::empty());
                    assert(Seq::<CookieModel>::empty() + seq![c] =~= seq![c]);
                }
            },
            HttpOutput::Content { headers, .. } => {
                let ghost h0 = headers@;
                headers.set_cookie(cookie);
                proof { lemma_push_is_concat(match h0.cookies { Some(x) => x, None => Seq::empty() }, c); }
            },
            HttpOutput::Redirect { headers, .. } => {
                let ghost h0 = headers@;
                headers.set_cookie(cookie);
                proof { lemma_push_is_concat(match h0.cookies { Some(x) => x, None => Seq::empty() }, c); }
            },
            HttpOutput::File { headers, .. } => {
                let ghost h0 = headers@;
                headers.set_cookie(cookie);
                proof { lemma_push_is_concat(match h0.cookies { Some(x) => x, None => Seq::empty() }, c); }
            },
        }
        s
    }

    pub fn set_cookies(self, cookies: Vec<Cookie>) -> (r: Self)
        ensures
            r.output@ == with_cookies(self.output@, cookies@.map_values(|c: Cookie| c@)),
    {
        let ghost cs = cookies@.map_values(|c: Cookie| c@);
        let mut s = self;
        match &mut s.output {
            HttpOutput::Empty => {
                let jar = CookieJar::new().set_cookies(cookies);
                s.output = HttpOutput::Content {
                    status_code: 204,
                    headers: HttpResponseHeaders::new_with_cookies(jar),
                    content: Vec::new(),
                };
                assert(s.output@ == with_cookies(self.output@, cs)) by {
                    assert(s.output@->Content_content =~= Seq::<u8>::empty());
                    assert(Seq::<CookieModel>::empty() + cs =~= cs);
                }
            },
            HttpOutput::Content { headers, .. } => {
                headers.set_cookies(cookies);
            },
            HttpOutput::Redirect { headers, .. } => {
                headers.set_cookies(cookies);
            },
            HttpOutput::File { headers, .. } => {
                headers.set_cookies(cookies);
            },
        }
        s
    }

    pub fn set_content_as_text(self, content: String) -> (r: Self)
        requires
            !(self.output@ is Redirect),
        ensures
            r.output@ == with_text(self.output@, content@),
    {
        let text_content = str_bytes(content.as_str());
        let mut s = self;
        match &mut s.output {
            HttpOutput::Empty => {
                s.output = HttpOutput::Content {
                    status_code: 200,
                    headers: HttpResponseHeaders::new(Some(WebContentType::Text)),
                    content: text_content,
                };
            },
            HttpOutput::Content { headers, content, status_code } => {
                if *status_code == 204 {
                    *status_code = 200;
                }
                headers.set_content_type(WebContentType::Text);
                *content = text_content;
            },
            HttpOutput::File { content, .. } => {
                *content = text_content;
            },
            HttpOutput::Redirect { .. } => {},
        }
        s
    }

    pub fn set_status_code(self, status_code_to_set: u16) -> (r: Self)
        requires
            self.output@ is Empty || self.output@ is Content,
        ensures
            r.output@ == with_status(self.output@, status_code_to_set),
    {
        let mut s = self;
        match &mut s.output {
            HttpOutput::Empty => {
                s.output = HttpOutput::Content {
                    status_code: status_code_to_set,
                    headers: HttpResponseHeaders::default(),
                    content: Vec::new(),
                };
                assert(s.output@->Content_content =~= Seq::<u8>::empty());
            },
            HttpOutput::Content { status_code, .. } => {
                *status_code = status_code_to_set;
            },
            _ => {},
        }
        s
    }

    pub fn set_content(self, content_to_set: Vec<u8>) -> (r: Self)
        requires
            !(self.output@ is Redirect),
        ensures
            r.output@ == with_content(self.output@, content_to_set@),
    {
        let mut s = self;
        match &mut s.output {
            HttpOutput::Empty => {
                s.output = HttpOutput::Content {
                    status_code: 200,
                    headers: HttpResponseHeaders::default(),
                    content: content_to_set,
                };
            },
            HttpOutput::Content { content, status_code, .. } => {
                if *status_code == 204 {
                    *status_code = 200;
                }
                *content = content_to_set;
            },
            HttpOutput::File { content, .. } => {
                *content = content_to_set;
            },
            HttpOutput::Redirect { .. } => {},
        }
        s
    }

    /// Replaces the body by `compressed` (and announces it) when that saves at
    /// least a fifth of the bytes; keeps the output as it is otherwise.
    pub fn use_compressed(self, compressed: Option<Vec<u8>>) -> (r: Self)
        ensures
            r.output@ == match (body_of(self.output@), compressed) {
                (Some(b), Some(c)) => if compression_pays(b, c@) {
                    with_compressed_body(self.output@, c@)
                } else {
                    self.output@
                },
                _ => self.output@,
            },
    {
        let c = match compressed {
            Some(c) => c,
            None => return self,
        };
        let body_len = match &self.output {
            HttpOutput::Content { content, .. } => content.len(),
            HttpOutput::File { content, .. } => content.len(),
            _ => return self,
        };
        if (c.len() as u128) * 100 > (body_len as u128) * 80 {
            return self;
        }
        let mut s = self;
        match &mut s.output {
            HttpOutput::Content { content, .. } => {
                *content = c;
            },
            HttpOutput::File { content, .. } => {
                *content = c;
            },
            _ => {},
        }
        s.add_header(String::from_str("Content-Encoding"), String::from_str("zstd"))
    }

    /// Compresses a body larger than `threshold` bytes with zstd, when that
    /// saves at least a fifth of it.
    pub fn with_compression(self, threshold: usize) -> (r: Self)
        ensures
            r.output@ == match body_of(self.output@) {
                Some(b) => if b.len() <= threshold {
                    self.output@
                } else {
                    match zstd_encoded(b, ZSTD_LEVEL) {
                        Some(c) => if compression_pays(b, c) {
                            with_compressed_body(self.output@, c)
                        } else {
                            self.output@
                        },
                        None => self.output@,
                    }
                },
                None => self.output@,
            },
    {
        let compressed = match &self.output {
            HttpOutput::Content { content, .. } | HttpOutput::File { content, .. } => {
                if content.len() <= threshold {
                    return self;
                }
                zstd_encode_all(content.as_slice(), ZSTD_LEVEL)
            },
            _ => return self,
        };
        self.use_compressed(compressed)
    }

    pub fn build(self) -> (r: HttpOutput)
        ensures
            r@ == self.output@,
    {
        self.output
    }

    pub fn into_ok_result(self, write_telemetry: bool) -> (r: Result<HttpOkResult, HttpFailResult>)
        ensures
            r matches Ok(ok) && ok.output@ == self.output@ && ok.write_telemetry == write_telemetry,
    {
        Ok(HttpOkResult { write_telemetry, output: self.build() })
    }

    pub fn into_err<TResult>(self, write_log: bool, write_telemetry: bool) -> (r: Result<TResult, HttpFailResult>)
        ensures
            r matches Err(e) && e.output@ == self.output@ && e.write_to_log == write_log
                && e.write_telemetry == write_telemetry,
    {
        Err(HttpFailResult::new(self.build(), write_log, write_telemetry))
    }

    pub fn into_http_fail_result(self, write_log: bool, write_telemetry: bool) -> (r: HttpFailResult)
        ensures
            r.output@ == self.output@,
            r.write_to_log == write_log,
            r.write_telemetry == write_telemetry,
    {
        HttpFailResult::new(self.build(), write_log, write_telemetry)
    }
}

/// A builder holding a text body with the given status.
fn text_builder(status_code: u16, text: &str) -> (r: HttpResultBuilder)
    ensures
        r.output@ == text_output(status_code, text@),
{
    HttpResultBuilder {
        output: HttpOutput::Content {
            status_code,
            headers: HttpResponseHeaders::new(Some(WebContentType::Text)),
            content: str_bytes(text),
        },
    }
}

/// The text of an answer to an unauthorized request.
pub open spec fn unauthorized_text(text: Option<Seq<char>>) -> Seq<char> {
    match text {
        Some(t) => "Unauthorized request: "@ + t,
        None => "Unauthorized request"@,
    }
}

/// The text of an answer to a forbidden request.
pub open spec fn forbidden_text(text: Option<Seq<char>>) -> Seq<char> {
    match text {
        Some(t) => t,
        None => "Forbidden"@,
    }
}

/// The text of an answer to a request that misses a parameter.
pub open spec fn missing_parameter_text(param_name: Seq<char>, where_is_parameter: Seq<char>) -> Seq<char> {
    "Required parameter ["@ + param_name + "] is missing in "@ + where_is_parameter
}

pub open spec fn opt_view(o: Option<&str>) -> Option<Seq<char>> {
    match o {
        Some(s) => Some(s@),
        None => None,
    }
}

impl HttpOutput {
    pub fn from_builder() -> (r: HttpResultBuilder)
        ensures
            r.output@ == OutputModel::Empty,
    {
        HttpResultBuilder::new()
    }

    /// `200` with a text body.
    pub fn as_text(text: &str) -> (r: HttpResultBuilder)
        ensures
            r.output@ == text_output(200, text@),
    {
        text_builder(200, text)
    }

    /// `200` with an HTML body.
    pub fn as_html(text: &str) -> (r: HttpResultBuilder)
        ensures
            r.output@ == (OutputModel::Content {
                status_code: 200,
                headers: bare_headers(Some(WebContentType::Html)),
                content: encode_utf8(text@),
            }),
    {
        HttpResultBuilder {
            output: HttpOutput::Content {
                status_code: 200,
                headers: HttpResponseHeaders::new(Some(WebContentType::Html)),
                content: str_bytes(text),
            },
        }
    }

    /// A redirect to `url`: `301` when permanent, `302` otherwise.
    pub fn as_redirect(url: &str, permanent: bool) -> (r: HttpResultBuilder)
        ensures
            r.output@ == (OutputModel::Redirect {
                headers: bare_headers(None),
                url: url@,
                redirect_type: if permanent { RedirectType::Permanent } else { RedirectType::Temporary },
            }),
    {
        HttpResultBuilder {
            output: HttpOutput::Redirect {
                headers: HttpResponseHeaders::new(None),
                url: String::from_str(url),
                redirect_type: if permanent { RedirectType::Permanent } else { RedirectType::Temporary },
            },
        }
    }

    /// `404` with the given text.
    pub fn as_not_found(text: &str) -> (r: HttpResultBuilder)
        ensures
            r.output@ == text_output(404, text@),
    {
        text_builder(404, text)
    }

    /// `401`.
    pub fn as_unauthorized(text: Option<&str>) -> (r: HttpResultBuilder)
        ensures
            r.output@ == text_output(401, unauthorized_text(opt_view(text))),
    {
        match text {
            Some(t) => {
                let mut m = String::from_str("Unauthorized request: ");
                m.append(t);
                text_builder(401, m.as_str())
            },
            None => text_builder(401, "Unauthorized request"),
        }
    }

    /// `400` reporting a validation error.
    pub fn as_validation_error(text: &str) -> (r: HttpResultBuilder)
        ensures
            r.output@ == text_output(400, "Validation error: "@ + text@),
    {
        let mut m = String::from_str("Validation error: ");
        m.append(text);
        text_builder(400, m.as_str())
    }

    /// `403`.
    pub fn as_forbidden(text: Option<&str>) -> (r: HttpResultBuilder)
        ensures
            r.output@ == text_output(403, forbidden_text(opt_view(text))),
    {
        match text {
            Some(t) => text_builder(403, t),
            None => text_builder(403, "Forbidden"),
        }
    }

    /// `400` with the reason a value could not be parsed.
    pub fn invalid_value_to_parse(reason: &str) -> (r: HttpResultBuilder)
        ensures
            r.output@ == text_output(400, reason@),
    {
        text_builder(400, reason)
    }

    /// `400` naming a missing parameter and where it was looked for.
    pub fn required_parameter_is_missing(param_name: &str, where_is_parameter: &str) -> (r: HttpResultBuilder)
        ensures
            r.output@ == text_output(400, missing_parameter_text(param_name@, where_is_parameter@)),
    {
        let mut m = String::from_str("Required parameter [");
        m.append(param_name);
        m.append("] is missing in ");
        m.append(where_is_parameter);
        text_builder(400, m.as_str())
    }

    /// `500`.
    pub fn as_fatal_error(text: &str) -> (r: HttpResultBuilder)
        ensures
            r.output@ == text_output(500, text@),
    {
        text_builder(500, text)
    }

    /// `415`.
    pub fn as_not_supported_content_type(text: &str) -> (r: HttpResultBuilder)
        ensures
            r.output@ == text_output(415, text@),
    {
        text_builder(415, text)
    }
}

impl HttpFailResult {
    pub fn as_not_found(text: &str, write_telemetry: bool) -> (r: Self)
        ensures
            r.output@ == text_output(404, text@),
            !r.write_to_log,
            r.write_telemetry == write_telemetry,
    {
        HttpOutput::as_not_found(text).into_http_fail_result(false, write_telemetry)
    }

    pub fn as_unauthorized(text: Option<&str>) -> (r: Self)
        ensures
            r.output@ == text_output(401, unauthorized_text(opt_view(text))),
            !r.write_to_log,
            !r.write_telemetry,
    {
        HttpOutput::as_unauthorized(text).into_http_fail_result(false, false)
    }

    pub fn as_validation_error(text: &str) -> (r: Self)
        ensures
            r.output@ == text_output(400, "Validation error: "@ + text@),
            !r.write_to_log,
            r.write_telemetry,
    {
        HttpOutput::as_validation_error(text).into_http_fail_result(false, true)
    }

    pub fn as_forbidden(text: Option<&str>) -> (r: Self)
        ensures
            r.output@ == text_output(403, forbidden_text(opt_view(text))),
            !r.write_to_log,
            r.write_telemetry,
    {
        HttpOutput::as_forbidden(text).into_http_fail_result(false, true)
    }

    pub fn invalid_value_to_parse(reason: &str) -> (r: Self)
        ensures
            r.output@ == text_output(400, reason@),
            r.write_to_log,
            r.write_telemetry,
    {
        HttpOutput::invalid_value_to_parse(reason).into_http_fail_result(true, true)
    }

    pub fn required_parameter_is_missing(param_name: &str, where_is_parameter: &str) -> (r: Self)
        ensures
            r.output@ == text_output(400, missing_parameter_text(param_name@, where_is_parameter@)),
            !r.write_to_log,
            r.write_telemetry,
    {
        HttpOutput::required_parameter_is_missing(param_name, where_is_parameter).into_http_fail_result(
            false,
            true,
        )
    }

    pub fn as_fatal_error(text: &str) -> (r: Self)
        ensures
            r.output@ == text_output(500, text@),
            r.write_to_log,
            r.write_telemetry,
    {
        HttpOutput::as_fatal_error(text).into_http_fail_result(true, true)
    }

    pub fn as_not_supported_content_type(text: &str) -> (r: Self)
        ensures
            r.output@ == text_output(415, text@),
            r.write_to_log,
            r.write_telemetry,
    {
        HttpOutput::as_not_supported_content_type(text).into_http_fail_result(true, true)
    }
}


/// Compressing a body keeps the status it is answered with.
pub proof fn law_compression_keeps_status(o: OutputModel, c: Seq<u8>)
    ensures
        crate::output::output_status(with_compressed_body(o, c)) == crate::output::output_status(o),
{
}

/// A body is only ever replaced by one at most four fifths its size.
pub proof fn law_compression_saves_a_fifth(plain: Seq<u8>, compressed: Seq<u8>)
    requires
        compression_pays(plain, compressed),
    ensures
        compressed.len() * 5 <= plain.len() * 4,
{
}

/// Setting cookies on any output, a redirect included, keeps its status and
/// body and adds one `Set-Cookie` line per cookie, in order, after every line
/// the response already had.
pub proof fn law_cookies_follow_every_other_line(o: OutputModel, cs: Seq<CookieModel>)
    ensures
        crate::output::response_of(with_cookies(o, cs)).0 == crate::output::response_of(o).0,
        crate::output::response_of(with_cookies(o, cs)).2 == crate::output::response_of(o).2,
        crate::output::response_of(with_cookies(o, cs)).1 == crate::output::response_of(o).1
            + cs.map_values(|c: CookieModel| ("Set-Cookie"@, crate::cookies::cookie_text(c))),
{
    let f = |c: CookieModel| ("Set-Cookie"@, crate::cookies::cookie_text(c));
    let added = cs.map_values(f);
    match o {
        OutputModel::Empty => {
            let h = add_cookies(bare_headers(None), cs);
            assert(Seq::<CookieModel>::empty() + cs =~= cs);
            assert(crate::output::header_lines(h) =~= added);
            assert(Seq::<(Seq<char>, Seq<char>)>::empty() + added =~= added);
        },
        OutputModel::Content { headers, .. } => {
            lemma_cookie_lines_appended(headers, cs);
        },
        OutputModel::Redirect { headers, url, .. } => {
            lemma_cookie_lines_appended(headers, cs);
            assert(seq![("Location"@, url)] + crate::output::header_lines(add_cookies(headers, cs))
                =~= seq![("Location"@, url)] + crate::output::header_lines(headers) + added);
        },
        OutputModel::File { file_name, headers, .. } => {
            lemma_cookie_lines_appended(headers, cs);
            assert(seq![crate::output::attachment_header(file_name)] + crate::output::header_lines(
                add_cookies(headers, cs),
            ) =~= seq![crate::output::attachment_header(file_name)] + crate::output::header_lines(
                headers,
            ) + added);
        },
    }
}

proof fn lemma_cookie_lines_appended(h: HeadersModel, cs: Seq<CookieModel>)
    ensures
        crate::output::header_lines(add_cookies(h, cs)) == crate::output::header_lines(h)
            + cs.map_values(|c: CookieModel| ("Set-Cookie"@, crate::cookies::cookie_text(c))),
{
    let f = |c: CookieModel| ("Set-Cookie"@, crate::cookies::cookie_text(c));
    let old_cs = match h.cookies {
        Some(c) => c,
        None => Seq::empty(),
    };
    assert((old_cs + cs).map_values(f) =~= old_cs.map_values(f) + cs.map_values(f));
    let ct = match h.content_type {
        Some(t) => seq![("content-type"@, t.mime())],
        None => Seq::<(Seq<char>, Seq<char>)>::empty(),
    };
    match h.cookies {
        Some(c) => {},
        None => {
            assert(old_cs.map_values(f) =~= Seq::<(Seq<char>, Seq<char>)>::empty());
        },
    }
    assert(ct + h.headers + (old_cs + cs).map_values(f) =~= ct + h.headers + old_cs.map_values(f)
        + cs.map_values(f));
}

} // verus!
