//! What a request handler answers: the response output, the ok and fail
//! results that carry it, and the header list a response is written with.
use vstd::prelude::*;
use vstd::utf8::*;
use vstd::string::*;
use crate::cookies::{Cookie, CookieJar, CookieModel, cookie_text};
use crate::text::{str_bytes, utf8_str, lemma_str_of_bytes, push_decimal, decimal, eq_ignore_case, ascii_equals_ignore_case};

verus! {

/// The media type of a response body.
#[derive(Clone, Copy, Debug, PartialEq, Eq, Structural)]
pub enum WebContentType {
    Text,
    Html,
    Json,
    Yaml,
    Css,
    JavaScript,
    Png,
}

impl WebContentType {
    /// The `Content-Type` header value.
    pub open spec fn mime(self) -> Seq<char> {
        match self {
            WebContentType::Text => "text/plain; charset=utf-8"@,
            WebContentType::Html => "text/html; charset=utf-8"@,
            WebContentType::Json => "application/json"@,
            WebContentType::Yaml => "application/yaml"@,
            WebContentType::Css => "text/css"@,
            WebContentType::JavaScript => "text/javascript"@,
            WebContentType::Png => "image/png"@,
        }
    }

    pub fn as_str(&self) -> (r: &'static str)
        ensures
            r@ == self.mime(),
    {
        match self {
            WebContentType::Text => "text/plain; charset=utf-8",
            WebContentType::Html => "text/html; charset=utf-8",
            WebContentType::Json => "application/json",
            WebContentType::Yaml => "application/yaml",
            WebContentType::Css => "text/css",
            WebContentType::JavaScript => "text/javascript",
            WebContentType::Png => "image/png",
        }
    }
}

/// Permanent (301) or temporary (302) redirect.
#[derive(Clone, Copy, Debug, PartialEq, Eq, Structural)]
pub enum RedirectType {
    Permanent,
    Temporary,
}

impl RedirectType {
    pub open spec fn status(self) -> u16 {
        match self {
            RedirectType::Permanent => 301,
            RedirectType::Temporary => 302,
        }
    }

    pub fn get_status_code(&self) -> (r: u16)
        ensures
            r == self.status(),
    {
        match self {
            RedirectType::Permanent => 301,
            RedirectType::Temporary => 302,
        }
    }
}

/// The abstract value of a list of header lines.
pub open spec fn pairs_view(v: Seq<(String, String)>) -> Seq<(Seq<char>, Seq<char>)> {
    v.map_values(|p: (String, String)| (p.0@, p.1@))
}

/// Headers set on a response besides its status and body.
#[derive(Debug)]
pub struct HttpResponseHeaders {
    pub headers: Vec<(String, String)>,
    pub content_type: Option<WebContentType>,
    pub set_cookie: Option<CookieJar>,
}

/// The abstract value of [`HttpResponseHeaders`].
pub struct HeadersModel {
    pub headers: Seq<(Seq<char>, Seq<char>)>,
    pub content_type: Option<WebContentType>,
    pub cookies: Option<Seq<CookieModel>>,
}

pub open spec fn jar_view(j: Option<CookieJar>) -> Option<Seq<CookieModel>> {
    match j {
        Some(j) => Some(j@),
        None => None,
    }
}

impl View for HttpResponseHeaders {
    type V = HeadersModel;

    open spec fn view(&self) -> HeadersModel {
        HeadersModel {
            headers: pairs_view(self.headers@),
            content_type: self.content_type,
            cookies: jar_view(self.set_cookie),
        }
    }
}

/// Headers carrying nothing but (possibly) a content type.
pub open spec fn bare_headers(ct: Option<WebContentType>) -> HeadersModel {
    HeadersModel { headers: Seq::empty(), content_type: ct, cookies: None }
}

/// The header lines a response is written with: the content type first, then
/// the headers in the order they were added, then one `Set-Cookie` per cookie.
pub open spec fn header_lines(h: HeadersModel) -> Seq<(Seq<char>, Seq<char>)> {
    let ct = match h.content_type {
        Some(t) => seq![("content-type"@, t.mime())],
        None => Seq::empty(),
    };
    let cookies = match h.cookies {
        Some(c) => c.map_values(|m: CookieModel| ("Set-Cookie"@, cookie_text(m))),
        None => Seq::empty(),
    };
    ct + h.headers + cookies
}

impl HttpResponseHeaders {
    pub fn new(content_type: Option<WebContentType>) -> (r: Self)
        ensures
            r@ == bare_headers(content_type),
    {
        let r = HttpResponseHeaders { headers: Vec::new(), content_type, set_cookie: None };
        assert(r@.headers =~= Seq::<(Seq<char>, Seq<char>)>::empty());
        r
    }

    pub fn new_with_header(name: String, value: String) -> (r: Self)
        ensures
            r@ == (HeadersModel { headers: seq![(name@, value@)], content_type: None, cookies: None }),
    {
        let mut r = Self::new(None);
        r.add_header(name, value);
        assert(r@.headers =~= seq![(name@, value@)]);
        r
    }

    pub fn new_with_cookie(cookie: Cookie) -> (r: Self)
        ensures
            r@ == (HeadersModel { cookies: Some(seq![cookie@]), ..bare_headers(None) }),
    {
        let ghost c = cookie@;
        let jar = CookieJar::new().set_cookie(cookie);
        assert(jar@ =~= seq![c]);
        let r = HttpResponseHeaders { headers: Vec::new(), content_type: None, set_cookie: Some(jar) };
        assert(r@.headers =~= Seq::<(Seq<char>, Seq<char>)>::empty());
        r
    }

    pub fn new_with_cookies(cookies: CookieJar) -> (r: Self)
        ensures
            r@ == (HeadersModel { cookies: Some(cookies@), ..bare_headers(None) }),
    {
        let r = HttpResponseHeaders { headers: Vec::new(), content_type: None, set_cookie: Some(cookies) };
        assert(r@.headers =~= Seq::<(Seq<char>, Seq<char>)>::empty());
        r
    }

    pub fn add_header(&mut self, key: String, value: String)
        ensures
            final(self)@ == (HeadersModel {
                headers: old(self)@.headers.push((key@, value@)),
                ..old(self)@
            }),
    {
        self.headers.push((key, value));
        assert(pairs_view(self.headers@) =~= pairs_view(old(self).headers@).push((key@, value@)));
    }

    pub fn set_content_type(&mut self, content_type: WebContentType)
        ensures
            final(self)@ == (HeadersModel { content_type: Some(content_type), ..old(self)@ }),
    {
        self.content_type = Some(content_type);
    }

    /// Adds a cookie, starting a jar when there is none yet.
    pub fn set_cookie(&mut self, cookie: Cookie)
        ensures
            final(self)@ == (HeadersModel {
                cookies: Some(
                    match old(self)@.cookies {
                        Some(c) => c,
                        None => Seq::empty(),
                    }.push(cookie@),
                ),
                ..old(self)@
            }),
    {
        let cookies = match self.set_cookie.take() {
            Some(c) => c,
            None => CookieJar::new(),
        };
        self.set_cookie = Some(cookies.set_cookie(cookie));
    }

    /// Adds cookies in order, starting a jar when there is none yet.
    pub fn set_cookies(&mut self, cookies_to_set: Vec<Cookie>)
        ensures
            final(self)@ == (HeadersModel {
                cookies: Some(
                    match old(self)@.cookies {
                        Some(c) => c,
                        None => Seq::empty(),
                    } + cookies_to_set@.map_values(|c: Cookie| c@),
                ),
                ..old(self)@
            }),
    {
        let cookies = match self.set_cookie.take() {
            Some(c) => c,
            None => CookieJar::new(),
        };
        self.set_cookie = Some(cookies.set_cookies(cookies_to_set));
    }

    /// The header lines to write, in order (see [`header_lines`]).
    pub fn into_header_lines(self) -> (r: Vec<(String, String)>)
        ensures
            pairs_view(r@) == header_lines(self@),
    {
        let ghost model = self@;
        let mut result: Vec<(String, String)> = Vec::new();
        let ghost ct_part = match model.content_type {
            Some(t) => seq![("content-type"@, t.mime())],
            None => Seq::<(Seq<char>, Seq<char>)>::empty(),
        };
        if let Some(ct) = self.content_type {
            result.push((String::from_str("content-type"), String::from_str(ct.as_str())));
        }
        assert(pairs_view(result@) =~= ct_part);
        let mut headers = self.headers;
        let n = headers.len();
        let mut i: usize = 0;
        while i < n
            invariant
                n == model.headers.len(),
                i <= n,
                headers@.len() == n - i,
                pairs_view(headers@) == model.headers.subrange(i as int, n as int),
                pairs_view(result@) == ct_part + model.headers.subrange(0, i as int),
            decreases n - i,
        {
            let ghost before = headers@;
            let ghost before_result = result@;
            assert(pairs_view(before)[0] == model.headers[i as int]);
            let h = headers.remove(0);
            result.push(h);
            i = i + 1;
            assert forall|k: int| 0 <= k < headers@.len() implies #[trigger] pairs_view(headers@)[k]
                == model.headers[i + k] by {
                assert(headers@[k] == before[k + 1]);
                assert(pairs_view(before)[k + 1] == model.headers[i + k]);
            }
            assert(pairs_view(headers@) =~= model.headers.subrange(i as int, n as int));
            assert(pairs_view(result@) =~= pairs_view(before_result).push(model.headers[i - 1]));
            assert(pairs_view(result@) =~= ct_part + model.headers.subrange(0, i as int));
        }
        assert(model.headers.subrange(0, n as int) =~= model.headers);
        let ghost prefix = pairs_view(result@);
        if let Some(jar) = self.set_cookie {
            let ghost cm = jar@;
            let cookies = jar.get_cookies();
            let m = cookies.len();
            let mut j: usize = 0;
            while j < m
                invariant
                    m == cookies@.len(),
                    cookies@.map_values(|c: Cookie| c@) == cm,
                    j <= m,
                    pairs_view(result@) == prefix + cm.subrange(0, j as int).map_values(
                        |mm: CookieModel| ("Set-Cookie"@, cookie_text(mm)),
                    ),
                decreases m - j,
            {
                let ghost before_result = result@;
                let text = cookies[j].to_string();
                assert(cm[j as int] == cookies@[j as int]@);
                result.push((String::from_str("Set-Cookie"), text));
                j = j + 1;
                assert(cm.subrange(0, j as int) =~= cm.subrange(0, j - 1).push(cm[j - 1]));
                assert(pairs_view(result@) =~= pairs_view(before_result).push(
                    ("Set-Cookie"@, cookie_text(cm[j - 1])),
                ));
                assert(cm.subrange(0, j as int).map_values(
                    |mm: CookieModel| ("Set-Cookie"@, cookie_text(mm)),
                ) =~= cm.subrange(0, j - 1).map_values(
                    |mm: CookieModel| ("Set-Cookie"@, cookie_text(mm)),
                ).push(("Set-Cookie"@, cookie_text(cm[j - 1]))));
                assert(pairs_view(result@) =~= prefix + cm.subrange(0, j as int).map_values(
                    |mm: CookieModel| ("Set-Cookie"@, cookie_text(mm)),
                ));
            }
            assert(cm.subrange(0, m as int) =~= cm);
        } else {
            assert(pairs_view(result@) =~= prefix + Seq::<(Seq<char>, Seq<char>)>::empty());
        }
        result
    }
}

impl Default for HttpResponseHeaders {
    fn default() -> (r: Self)
        ensures
            r@ == bare_headers(None),
    {
        HttpResponseHeaders::new(None)
    }
}

/// The body of a response and what goes with it.
#[derive(Debug)]
pub enum HttpOutput {
    /// No body: `204 No Content`.
    Empty,
    Content { status_code: u16, headers: HttpResponseHeaders, content: Vec<u8> },
    Redirect { headers: HttpResponseHeaders, url: String, redirect_type: RedirectType },
    /// A download: sent as an attachment under `file_name`.
    File { file_name: String, content: Vec<u8>, headers: HttpResponseHeaders },
}

/// The abstract value of [`HttpOutput`].
pub enum OutputModel {
    Empty,
    Content { status_code: u16, headers: HeadersModel, content: Seq<u8> },
    Redirect { headers: HeadersModel, url: Seq<char>, redirect_type: RedirectType },
    File { file_name: Seq<char>, content: Seq<u8>, headers: HeadersModel },
}

impl View for HttpOutput {
    type V = OutputModel;

    open spec fn view(&self) -> OutputModel {
        match self {
            HttpOutput::Empty => OutputModel::Empty,
            HttpOutput::Content { status_code, headers, content } => OutputModel::Content {
                status_code: *status_code,
                headers: headers@,
                content: content@,
            },
            HttpOutput::Redirect { headers, url, redirect_type } => OutputModel::Redirect {
                headers: headers@,
                url: url@,
                redirect_type: *redirect_type,
            },
            HttpOutput::File { file_name, content, headers } => OutputModel::File {
                file_name: file_name@,
                content: content@,
                headers: headers@,
            },
        }
    }
}

/// The status code a response with this output is sent with.
pub open spec fn output_status(o: OutputModel) -> u16 {
    match o {
        OutputModel::Empty => 204,
        OutputModel::Content { status_code, .. } => status_code,
        OutputModel::Redirect { redirect_type, .. } => redirect_type.status(),
        OutputModel::File { .. } => 200,
    }
}

/// The size of the body of an output (the URL, for a redirect).
pub open spec fn output_size(o: OutputModel) -> nat {
    match o {
        OutputModel::Empty => 0,
        OutputModel::Content { content, .. } => content.len(),
        OutputModel::Redirect { url, .. } => encode_utf8(url).len(),
        OutputModel::File { content, .. } => content.len(),
    }
}

/// A text body with the text content type.
pub open spec fn text_output(status_code: u16, text: Seq<char>) -> OutputModel {
    OutputModel::Content {
        status_code,
        headers: bare_headers(Some(WebContentType::Text)),
        content: encode_utf8(text),
    }
}

/// The debug name of a redirect type.
pub open spec fn redirect_name(t: RedirectType) -> Seq<char> {
    match t {
        RedirectType::Permanent => "Permanent"@,
        RedirectType::Temporary => "Temporary"@,
    }
}

/// The first bytes of a body that an error message shows.
pub open spec fn message_prefix(content: Seq<u8>) -> Seq<u8> {
    if content.len() > 256 {
        content.subrange(0, 256)
    } else {
        content
    }
}

/// A short description of an output for logs.
pub open spec fn error_text(o: OutputModel) -> Seq<char> {
    match o {
        OutputModel::Empty => "Empty response"@,
        OutputModel::Content { content, .. } => {
            if valid_utf8(message_prefix(content)) {
                decode_utf8(message_prefix(content))
            } else {
                "Can not get Error message. Content is not UTF8"@
            }
        },
        OutputModel::Redirect { url, redirect_type, .. } => "Redirect to '"@ + url + "' with type '"@
            + redirect_name(redirect_type) + "'"@,
        OutputModel::File { file_name, content, .. } => "File '"@ + file_name + "' with size "@
            + decimal(content.len()) + " bytes"@,
    }
}

/// A response as it goes on the wire: status, header lines and body.
pub struct ResponseParts {
    pub status_code: u16,
    pub headers: Vec<(String, String)>,
    pub body: Vec<u8>,
}

/// The header and body a download is sent with.
pub open spec fn attachment_header(file_name: Seq<char>) -> (Seq<char>, Seq<char>) {
    (
        "content-disposition"@,
        "attachment; filename=\""@ + file_name + "\"; filename*=UTF-8''"@ + file_name,
    )
}

/// What a response with output `o` is sent as.
pub open spec fn response_of(o: OutputModel) -> (u16, Seq<(Seq<char>, Seq<char>)>, Seq<u8>) {
    match o {
        OutputModel::Empty => (204, Seq::empty(), Seq::empty()),
        OutputModel::Content { status_code, headers, content } => (
            status_code,
            header_lines(headers),
            content,
        ),
        OutputModel::Redirect { headers, url, redirect_type } => (
            redirect_type.status(),
            seq![("Location"@, url)] + header_lines(headers),
            Seq::empty(),
        ),
        OutputModel::File { file_name, content, headers } => (
            200,
            seq![attachment_header(file_name)] + header_lines(headers),
            content,
        ),
    }
}

impl HttpOutput {
    /// A body of `content` with status 200 and the given content type.
    pub fn as_content(content: Vec<u8>, content_type: Option<WebContentType>) -> (r: Self)
        ensures
            r@ == (OutputModel::Content {
                status_code: 200,
                headers: bare_headers(content_type),
                content: content@,
            }),
    {
        HttpOutput::Content { status_code: 200, headers: HttpResponseHeaders::new(content_type), content }
    }

    /// The decimal rendering of `number` as a text body.
    pub fn as_usize(number: usize) -> (r: Self)
        ensures
            r@ == text_output(200, decimal(number as nat)),
    {
        let mut text = String::new();
        push_decimal(&mut text, number as u64);
        assert(text@ =~= decimal(number as nat));
        HttpOutput::Content {
            status_code: 200,
            headers: HttpResponseHeaders::new(Some(WebContentType::Text)),
            content: str_bytes(text.as_str()),
        }
    }

    pub fn as_file(file_name: String, content: Vec<u8>) -> (r: Self)
        ensures
            r@ == (OutputModel::File { file_name: file_name@, content: content@, headers: bare_headers(None) }),
    {
        HttpOutput::File { file_name, content, headers: HttpResponseHeaders::new(None) }
    }

    pub fn get_content_size(&self) -> (r: usize)
        ensures
            r == output_size(self@),
    {
        match self {
            HttpOutput::Empty => 0,
            HttpOutput::Content { content, .. } => content.len(),
            HttpOutput::Redirect { url, .. } => url.as_str().as_bytes().len(),
            HttpOutput::File { content, .. } => content.len(),
        }
    }

    /// The content type a response with this output reports.
    pub fn get_content_type_as_str(&self) -> (r: Option<&str>)
        ensures
            match self@ {
                OutputModel::Empty => r matches Some(s) && s@ == "text/plain"@,
                OutputModel::Content { headers, .. } => match headers.content_type {
                    Some(t) => r matches Some(s) && s@ == t.mime(),
                    None => r is None,
                },
                OutputModel::Redirect { .. } => r is None,
                OutputModel::File { .. } => r matches Some(s) && s@ == "application/octet-stream"@,
            },
    {
        match self {
            HttpOutput::Empty => Some("text/plain"),
            HttpOutput::Content { headers, .. } => match &headers.content_type {
                Some(t) => Some(t.as_str()),
                None => None,
            },
            HttpOutput::Redirect { .. } => None,
            HttpOutput::File { .. } => Some("application/octet-stream"),
        }
    }

    pub fn get_status_code(&self) -> (r: u16)
        ensures
            r == output_status(self@),
    {
        match self {
            HttpOutput::Empty => 204,
            HttpOutput::Content { status_code, .. } => *status_code,
            HttpOutput::Redirect { redirect_type, .. } => redirect_type.get_status_code(),
            HttpOutput::File { .. } => 200,
        }
    }

    pub fn into_http_fail_result(self, write_log: bool, write_telemetry: bool) -> (r: HttpFailResult)
        ensures
            r.output@ == self@,
            r.write_to_log == write_log,
            r.write_telemetry == write_telemetry,
    {
        HttpFailResult::new(self, write_log, write_telemetry)
    }

    pub fn into_err<TResult>(self, write_log: bool, write_telemetry: bool) -> (r: Result<TResult, HttpFailResult>)
        ensures
            r matches Err(e) && e.output@ == self@ && e.write_to_log == write_log
                && e.write_telemetry == write_telemetry,
    {
        Err(self.into_http_fail_result(write_log, write_telemetry))
    }

    pub fn into_ok_result(self, write_telemetry: bool) -> (r: Result<HttpOkResult, HttpFailResult>)
        ensures
            r matches Ok(ok) && ok.output@ == self@ && ok.write_telemetry == write_telemetry,
    {
        Ok(HttpOkResult { write_telemetry, output: self })
    }

    /// Turns an output into a failed result with the given status code: the body
    /// is kept, headers and cookies are dropped, and the content type is that of
    /// the body (text when unknown; guessed from the extension for a file).
    pub fn into_fail_result(self, status_code: u16, write_telemetry: bool) -> (r: Result<HttpOkResult, HttpFailResult>)
        requires
            !(self@ is Redirect),
        ensures
            r matches Err(e) && !e.write_to_log && e.write_telemetry == write_telemetry && e.output@
                == (OutputModel::Content {
                status_code,
                headers: bare_headers(
                    Some(
                        match self@ {
                            OutputModel::Content { headers, .. } => match headers.content_type {
                                Some(t) => t,
                                None => WebContentType::Text,
                            },
                            OutputModel::File { file_name, .. } => match content_type_of_file(file_name) {
                                Some(t) => t,
                                None => WebContentType::Text,
                            },
                            _ => WebContentType::Text,
                        },
                    ),
                ),
                content: match self@ {
                    OutputModel::Content { content, .. } => content,
                    OutputModel::File { content, .. } => content,
                    _ => Seq::empty(),
                },
            }),
    {
        let (content_type, content) = match self {
            HttpOutput::Empty => (WebContentType::Text, Vec::new()),
            HttpOutput::Content { headers, content, .. } => (
                match headers.content_type {
                    Some(t) => t,
                    None => WebContentType::Text,
                },
                content,
            ),
            HttpOutput::File { file_name, content, .. } => (
                match WebContentType::detect_by_extension(file_name.as_str()) {
                    Some(t) => t,
                    None => WebContentType::Text,
                },
                content,
            ),
            HttpOutput::Redirect { .. } => {
                proof {
                    assert(false);
                }
                (WebContentType::Text, Vec::new())
            },
        };
        Err(
            HttpFailResult {
                write_to_log: false,
                write_telemetry,
                output: HttpOutput::Content {
                    status_code,
                    headers: HttpResponseHeaders::new(Some(content_type)),
                    content,
                },
            },
        )
    }

    /// A short description of this output for logs.
    pub fn get_text_as_error(&self) -> (r: String)
        ensures
            r@ == error_text(self@),
    {
        match self {
            HttpOutput::Empty => String::from_str("Empty response"),
            HttpOutput::Content { content, .. } => {
                let prefix = if content.len() > 256 {
                    vstd::slice::slice_subrange(content.as_slice(), 0, 256)
                } else {
                    content.as_slice()
                };
                match utf8_str(prefix) {
                    Some(text) => {
                        proof {
                            lemma_str_of_bytes(text, prefix@);
                        }
                        String::from_str(text)
                    },
                    None => String::from_str("Can not get Error message. Content is not UTF8"),
                }
            },
            HttpOutput::Redirect { url, redirect_type, .. } => {
                let mut r = String::from_str("Redirect to '");
                r.append(url.as_str());
                r.append("' with type '");
                match redirect_type {
                    RedirectType::Permanent => r.append("Permanent"),
                    RedirectType::Temporary => r.append("Temporary"),
                }
                r.append("'");
                r
            },
            HttpOutput::File { file_name, content, .. } => {
                let mut r = String::from_str("File '");
                r.append(file_name.as_str());
                r.append("' with size ");
                push_decimal(&mut r, content.len() as u64);
                r.append(" bytes");
                r
            },
        }
    }

    /// The status, header lines and body this output is sent as.
    pub fn into_response_parts(self) -> (r: ResponseParts)
        ensures
            (r.status_code, pairs_view(r.headers@), r.body@) == response_of(self@),
    {
        match self {
            HttpOutput::Empty => {
                let r = ResponseParts { status_code: 204, headers: Vec::new(), body: Vec::new() };
                assert(pairs_view(r.headers@) =~= Seq::<(Seq<char>, Seq<char>)>::empty());
                r
            },
            HttpOutput::Content { status_code, headers, content } => {
                let lines = headers.into_header_lines();
                ResponseParts { status_code, headers: lines, body: content }
            },
            HttpOutput::Redirect { headers, url, redirect_type } => {
                let ghost h = headers@;
                let ghost u = url@;
                let status_code = redirect_type.get_status_code();
                let mut lines = Vec::new();
                lines.push((String::from_str("Location"), url));
                let mut rest = headers.into_header_lines();
                lines.append(&mut rest);
                assert(pairs_view(lines@) =~= seq![("Location"@, u)] + header_lines(h));
                ResponseParts { status_code, headers: lines, body: Vec::new() }
            },
            HttpOutput::File { file_name, content, headers } => {
                let ghost h = headers@;
                let ghost f = file_name@;
                let mut value = String::from_str("attachment; filename=\"");
                value.append(file_name.as_str());
                value.append("\"; filename*=UTF-8''");
                value.append(file_name.as_str());
                let mut lines = Vec::new();
                lines.push((String::from_str("content-disposition"), value));
                let mut rest = headers.into_header_lines();
                lines.append(&mut rest);
                assert(pairs_view(lines@) =~= seq![attachment_header(f)] + header_lines(h));
                ResponseParts { status_code: 200, headers: lines, body: content }
            },
        }
    }
}

impl WebContentType {
    /// The content type a file name's extension announces, if it is one we serve.
    pub fn detect_by_extension(file_name: &str) -> (r: Option<WebContentType>)
        ensures
            r == content_type_of_file(file_name@),
    {
        let n = file_name.unicode_len();
        let mut i: usize = n;
        while i > 0 && file_name.get_char(i - 1) != '.'
            invariant
                n == file_name@.len(),
                i <= n,
                forall|k: int| i <= k < n ==> file_name@[k] != '.',
            decreases i,
        {
            i = i - 1;
        }
        if i == 0 {
            assert(last_dot(file_name@) is None);
            return None;
        }
        assert(last_dot(file_name@) == Some((i - 1) as int));
        let ext = file_name.substring_char(i, n);
        if ascii_equals_ignore_case(ext, "html") || ascii_equals_ignore_case(ext, "htm") {
            Some(WebContentType::Html)
        } else if ascii_equals_ignore_case(ext, "css") {
            Some(WebContentType::Css)
        } else if ascii_equals_ignore_case(ext, "js") {
            Some(WebContentType::JavaScript)
        } else if ascii_equals_ignore_case(ext, "json") {
            Some(WebContentType::Json)
        } else if ascii_equals_ignore_case(ext, "yaml") || ascii_equals_ignore_case(ext, "yml") {
            Some(WebContentType::Yaml)
        } else if ascii_equals_ignore_case(ext, "png") {
            Some(WebContentType::Png)
        } else if ascii_equals_ignore_case(ext, "txt") {
            Some(WebContentType::Text)
        } else {
            None
        }
    }
}

/// Index of the last `.` of a file name.
pub open spec fn last_dot(s: Seq<char>) -> Option<int> {
    if exists|i: int| 0 <= i < s.len() && s[i] == '.' {
        Some(choose|i: int| 0 <= i < s.len() && s[i] == '.' && forall|k: int| i < k < s.len() ==> s[k] != '.')
    } else {
        None
    }
}

/// The content type announced by the extension (after the last `.`) of a file name.
pub open spec fn content_type_of_file(s: Seq<char>) -> Option<WebContentType> {
    match last_dot(s) {
        None => None,
        Some(d) => {
            let ext = s.subrange(d + 1, s.len() as int);
            if eq_ignore_case(ext, "html"@) || eq_ignore_case(ext, "htm"@) {
                Some(WebContentType::Html)
            } else if eq_ignore_case(ext, "css"@) {
                Some(WebContentType::Css)
            } else if eq_ignore_case(ext, "js"@) {
                Some(WebContentType::JavaScript)
            } else if eq_ignore_case(ext, "json"@) {
                Some(WebContentType::Json)
            } else if eq_ignore_case(ext, "yaml"@) || eq_ignore_case(ext, "yml"@) {
                Some(WebContentType::Yaml)
            } else if eq_ignore_case(ext, "png"@) {
                Some(WebContentType::Png)
            } else if eq_ignore_case(ext, "txt"@) {
                Some(WebContentType::Text)
            } else {
                None
            }
        },
    }
}

/// A failed request: the output to answer with, and whether to log it.
#[derive(Debug)]
pub struct HttpFailResult {
    pub write_to_log: bool,
    pub write_telemetry: bool,
    pub output: HttpOutput,
}

impl HttpFailResult {
    pub fn new(output: HttpOutput, write_to_log: bool, write_telemetry: bool) -> (r: Self)
        ensures
            r.output@ == output@,
            r.write_to_log == write_to_log,
            r.write_telemetry == write_telemetry,
    {
        HttpFailResult { write_to_log, write_telemetry, output }
    }

    pub fn into_err<T>(self) -> (r: Result<T, HttpFailResult>)
        ensures
            r matches Err(e) && e == self,
    {
        Err(self)
    }

    /// `400`: a required path parameter is missing.
    pub fn as_path_parameter_required(param_name: &str) -> (r: Self)
        ensures
            r.output@ == text_output(400, "Path parameter '"@ + param_name@ + "' is required"@),
            !r.write_to_log,
            r.write_telemetry,
    {
        let mut text = String::from_str("Path parameter '");
        text.append(param_name);
        text.append("' is required");
        Self::new(
            HttpOutput::Content {
                status_code: 400,
                headers: HttpResponseHeaders::new(Some(WebContentType::Text)),
                content: str_bytes(text.as_str()),
            },
            false,
            true,
        )
    }

    /// `501` describing a failure of the connection itself (the transport
    /// error's description is given).
    pub fn from_transport_error(description: &str) -> (r: Self)
        ensures
            r.output@ == text_output(501, description@),
            r.write_to_log,
            r.write_telemetry,
    {
        Self::new(
            HttpOutput::Content {
                status_code: 501,
                headers: HttpResponseHeaders::new(Some(WebContentType::Text)),
                content: str_bytes(description),
            },
            true,
            true,
        )
    }

    /// A text answer with the given status code.
    pub fn from_status_and_text(status_code: u16, text: String) -> (r: Self)
        ensures
            r.output@ == text_output(status_code, text@),
            !r.write_to_log,
            r.write_telemetry,
    {
        Self::new(
            HttpOutput::Content {
                status_code,
                headers: HttpResponseHeaders::new(Some(WebContentType::Text)),
                content: str_bytes(text.as_str()),
            },
            false,
            true,
        )
    }
}

/// A successful request: the output to answer with.
#[derive(Debug)]
pub struct HttpOkResult {
    pub write_telemetry: bool,
    pub output: HttpOutput,
}

impl HttpOkResult {
    /// A `200` text answer, traced.
    pub fn from_text(text: String) -> (r: Self)
        ensures
            r.output@ == text_output(200, text@),
            r.write_telemetry,
    {
        HttpOkResult {
            write_telemetry: true,
            output: HttpOutput::Content {
                status_code: 200,
                headers: HttpResponseHeaders::new(Some(WebContentType::Text)),
                content: str_bytes(text.as_str()),
            },
        }
    }

    pub fn get_status_code(&self) -> (r: u16)
        ensures
            r == output_status(self.output@),
    {
        self.output.get_status_code()
    }
}

/// What tech middlewares are told about a response.
pub struct ResponseData {
    pub status_code: u16,
    pub content_type: Option<String>,
    pub content_length: usize,
    pub has_error: bool,
}

impl ResponseData {
    pub fn from_result(result: &Result<HttpOkResult, HttpFailResult>) -> (r: Self)
        ensures
            ({
                let o = match result {
                    Ok(ok) => ok.output@,
                    Err(err) => err.output@,
                };
                &&& r.status_code == output_status(o)
                &&& r.content_length == output_size(o)
                &&& !r.has_error
                &&& match o {
                    OutputModel::Empty => r.content_type matches Some(s) && s@ == "text/plain"@,
                    OutputModel::Content { headers, .. } => match headers.content_type {
                        Some(t) => r.content_type matches Some(s) && s@ == t.mime(),
                        None => r.content_type is None,
                    },
                    OutputModel::Redirect { .. } => r.content_type is None,
                    OutputModel::File { .. } => r.content_type matches Some(s) && s@
                        == "application/octet-stream"@,
                }
            }),
    {
        let output = match result {
            Ok(ok) => &ok.output,
            Err(err) => &err.output,
        };
        ResponseData {
            status_code: output.get_status_code(),
            content_type: match output.get_content_type_as_str() {
                Some(s) => Some(String::from_str(s)),
                None => None,
            },
            content_length: output.get_content_size(),
            has_error: false,
        }
    }
}

} // verus!
