//! What kind of body a request carries: from its `Content-Type` header, or,
//! failing that, from the body itself.
use vstd::prelude::*;
use vstd::utf8::*;
use vstd::string::*;
use crate::output::{HttpFailResult, text_output};
use crate::text::{
    trimmed, trim_str, next_index_of, lemma_next_index_of, find_char_from, seq_starts_with,
    str_starts_with, strip_all_prefixes, trim_start_matches, contains_ignore_case,
    str_contains_ignore_case, utf8_str, lemma_str_of_bytes,
};

verus! {

/// The kind of a request body.
#[derive(Clone, Debug)]
pub enum BodyContentType {
    Json,
    UrlEncoded,
    /// Multipart form data, with its boundary.
    FormData(String),
    Unknown,
    Empty,
}

/// The abstract value of a [`BodyContentType`].
pub enum ContentKind {
    Json,
    UrlEncoded,
    FormData(Seq<char>),
    Unknown,
    Empty,
}

impl View for BodyContentType {
    type V = ContentKind;

    open spec fn view(&self) -> ContentKind {
        match self {
            BodyContentType::Json => ContentKind::Json,
            BodyContentType::UrlEncoded => ContentKind::UrlEncoded,
            BodyContentType::FormData(b) => ContentKind::FormData(b@),
            BodyContentType::Unknown => ContentKind::Unknown,
            BodyContentType::Empty => ContentKind::Empty,
        }
    }
}

/// The boundary of the first `;`-separated item of `s[start..]` that, trimmed,
/// starts with `boundary=` (every leading `boundary=` removed).
pub open spec fn boundary_from(s: Seq<char>, start: int) -> Option<Seq<char>>
    decreases s.len() - start,
{
    if start < 0 || start > s.len() {
        None
    } else {
        let end = next_index_of(s, ';', start);
        let item = trimmed(s.subrange(start, end));
        proof {
            lemma_next_index_of(s, ';', start);
        }
        if seq_starts_with(item, "boundary="@) {
            Some(strip_all_prefixes(item, "boundary="@))
        } else if end >= s.len() {
            None
        } else {
            boundary_from(s, end + 1)
        }
    }
}

/// The boundary a multipart `Content-Type` header value announces.
pub open spec fn web_form_boundary(content_type: Seq<char>) -> Option<Seq<char>> {
    boundary_from(content_type, 0)
}

/// The boundary of a `multipart/form-data; boundary=...` content type.
pub fn extract_web_form_boundary(content_type: &str) -> (r: Option<&str>)
    ensures
        match r {
            Some(b) => web_form_boundary(content_type@) == Some(b@),
            None => web_form_boundary(content_type@) is None,
        },
{
    let n = content_type.unicode_len();
    let mut start: usize = 0;
    loop
        invariant
            n == content_type@.len(),
            start <= n,
            boundary_from(content_type@, start as int) == web_form_boundary(content_type@),
        decreases n - start,
    {
        proof {
            lemma_next_index_of(content_type@, ';', start as int);
        }
        let end = find_char_from(content_type, ';', start);
        let item = trim_str(content_type.substring_char(start, end));
        if str_starts_with(item, "boundary=") {
            return Some(trim_start_matches(item, "boundary="));
        }
        if end >= n {
            return None;
        }
        start = end + 1;
    }
}

/// The kind of body a `Content-Type` header value announces; `None` for a
/// multipart type without a boundary. The type names are matched with ASCII
/// case ignored.
pub open spec fn kind_of_content_type(ct: Seq<char>) -> Option<ContentKind> {
    if ct.len() == 0 {
        Some(ContentKind::Unknown)
    } else if contains_ignore_case(ct, "json"@) {
        Some(ContentKind::Json)
    } else if contains_ignore_case(ct, "x-www-form-urlencoded"@) {
        Some(ContentKind::UrlEncoded)
    } else if contains_ignore_case(ct, "multipart/form-data"@) {
        match web_form_boundary(ct) {
            Some(b) => Some(ContentKind::FormData(b)),
            None => None,
        }
    } else {
        Some(ContentKind::Unknown)
    }
}

/// Index of the first byte of `b` that is not a control character or space.
pub open spec fn first_significant(b: Seq<u8>) -> Option<int> {
    if exists|i: int| 0 <= i < b.len() && b[i] > 32 {
        Some(choose|i: int| 0 <= i < b.len() && b[i] > 32 && forall|k: int| 0 <= k < i ==> b[k] <= 32)
    } else {
        None
    }
}

pub open spec fn is_hex_digit(c: char) -> bool {
    ('0' <= c && c <= '9') || ('a' <= c && c <= 'f') || ('A' <= c && c <= 'F')
}

/// Every `%` of a URL-encoded text starts an escape of two hex digits. This is
/// the library's own stand-in for a full URL-encoded reader, which it does not
/// hold: it is the check that body detection relies on, not a parser.
pub open spec fn url_encoded_well_formed(s: Seq<char>) -> bool {
    forall|i: int|
        0 <= i < s.len() && #[trigger] s[i] == '%' ==> i + 2 < s.len() && is_hex_digit(s[i + 1])
            && is_hex_digit(s[i + 2])
}

/// The kind of a body recognised from its bytes: JSON when its first
/// significant byte opens an object or an array, URL-encoded when it is text
/// holding a `=` and well-formed escapes.
pub open spec fn kind_of_body(b: Seq<u8>) -> Option<ContentKind> {
    if first_significant(b) matches Some(i) && (b[i] == 123 || b[i] == 91) {
        Some(ContentKind::Json)
    } else if valid_utf8(b) && decode_utf8(b).contains('=') && url_encoded_well_formed(
        decode_utf8(b),
    ) {
        Some(ContentKind::UrlEncoded)
    } else {
        None
    }
}

fn char_is_hex_digit(c: char) -> (r: bool)
    ensures
        r == is_hex_digit(c),
{
    ('0' <= c && c <= '9') || ('a' <= c && c <= 'f') || ('A' <= c && c <= 'F')
}

/// Whether a text holds a `=` and every `%` in it starts a two-hex-digit escape.
fn looks_url_encoded(s: &str) -> (r: bool)
    ensures
        r == (s@.contains('=') && url_encoded_well_formed(s@)),
{
    let n = s.unicode_len();
    let mut has_eq = false;
    let mut i: usize = 0;
    while i < n
        invariant
            n == s@.len(),
            i <= n,
            has_eq == (exists|k: int| 0 <= k < i && s@[k] == '='),
            forall|k: int|
                0 <= k < i && #[trigger] s@[k] == '%' ==> k + 2 < n && is_hex_digit(s@[k + 1])
                    && is_hex_digit(s@[k + 2]),
        decreases n - i,
    {
        let c = s.get_char(i);
        if c == '=' {
            has_eq = true;
        }
        if c == '%' {
            if n - i <= 2 || !char_is_hex_digit(s.get_char(i + 1)) || !char_is_hex_digit(
                s.get_char(i + 2),
            ) {
                assert(!url_encoded_well_formed(s@));
                return false;
            }
        }
        i = i + 1;
    }
    has_eq
}

impl BodyContentType {
    pub fn is_unknown_or_empty(&self) -> (r: bool)
        ensures
            r == (self@ is Unknown || self@ is Empty),
    {
        match self {
            BodyContentType::Json => false,
            BodyContentType::UrlEncoded => false,
            BodyContentType::FormData(_) => false,
            BodyContentType::Unknown => true,
            BodyContentType::Empty => true,
        }
    }

    /// The kind of body a `Content-Type` header value announces.
    pub fn from_content_type(content_type: &str) -> (r: Result<Self, HttpFailResult>)
        ensures
            match kind_of_content_type(content_type@) {
                Some(k) => r matches Ok(t) && t@ == k,
                None => r matches Err(e) && e.output@ == text_output(
                    500,
                    "Can not extract FromData boundary from content type '"@ + content_type@ + "'"@,
                ) && e.write_to_log && e.write_telemetry,
            },
    {
        if content_type.is_empty() {
            return Ok(BodyContentType::Unknown);
        }
        if str_contains_ignore_case(content_type, "json") {
            return Ok(BodyContentType::Json);
        }
        if str_contains_ignore_case(content_type, "x-www-form-urlencoded") {
            return Ok(BodyContentType::UrlEncoded);
        }
        if str_contains_ignore_case(content_type, "multipart/form-data") {
            return match extract_web_form_boundary(content_type) {
                Some(boundary) => Ok(BodyContentType::FormData(String::from_str(boundary))),
                None => {
                    let mut text = String::from_str("Can not extract FromData boundary from content type '");
                    text.append(content_type);
                    text.append("'");
                    Err(HttpFailResult::as_fatal_error(text.as_str()))
                },
            };
        }
        Ok(BodyContentType::Unknown)
    }

    /// The kind of a body whose `Content-Type` said nothing useful, recognised
    /// from the body itself.
    pub fn detect_from_body(raw_body: &[u8]) -> (r: Option<Self>)
        ensures
            match kind_of_body(raw_body@) {
                Some(k) => r matches Some(t) && t@ == k,
                None => r is None,
            },
    {
        let n = raw_body.len();
        let mut i: usize = 0;
        while i < n && raw_body[i] <= 32
            invariant
                n == raw_body@.len(),
                i <= n,
                forall|k: int| 0 <= k < i ==> raw_body@[k] <= 32,
            decreases n - i,
        {
            i = i + 1;
        }
        if i < n {
            assert(first_significant(raw_body@) == Some(i as int));
            if raw_body[i] == 123 || raw_body[i] == 91 {
                return Some(BodyContentType::Json);
            }
        } else {
            assert(first_significant(raw_body@) is None);
        }
        match utf8_str(raw_body) {
            Some(text) => {
                proof {
                    lemma_str_of_bytes(text, raw_body@);
                }
                if looks_url_encoded(text) {
                    Some(BodyContentType::UrlEncoded)
                } else {
                    None
                }
            },
            None => None,
        }
    }
}

} // verus!
