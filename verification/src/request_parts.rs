//! What the server reads out of a request's head: its host, scheme, path,
//! body length and kind, and cookies.
use vstd::prelude::*;
use vstd::utf8::*;
use vstd::string::*;
use crate::body_content_type::{BodyContentType, kind_of_content_type};
use crate::cookies_reader::CookiesReader;
use crate::output::{HttpFailResult, text_output};
use crate::text::{decimal, digit_char, trimmed, trim_str, eq_ignore_case, ascii_equals_ignore_case, utf8_str, lemma_str_of_bytes};

verus! {

/// A byte a header value may hold and still read as text: visible ASCII or a
/// tab.
pub open spec fn is_visible_ascii(b: u8) -> bool {
    (32 <= b && b < 127) || b == 9
}

pub open spec fn all_visible_ascii(bytes: Seq<u8>) -> bool {
    forall|i: int| 0 <= i < bytes.len() ==> #[trigger] is_visible_ascii(bytes[i])
}

/// Bytes below 128 are UTF-8, each one character.
pub proof fn lemma_ascii_valid_utf8(bytes: Seq<u8>)
    requires
        forall|i: int| 0 <= i < bytes.len() ==> #[trigger] bytes[i] < 128,
    ensures
        valid_utf8(bytes),
    decreases bytes.len(),
{
    if bytes.len() > 0 {
        let rest = bytes.subrange(1, bytes.len() as int);
        assert(pop_first_scalar(bytes) =~= rest);
        assert forall|i: int| 0 <= i < rest.len() implies #[trigger] rest[i] < 128 by {
            assert(rest[i] == bytes[i + 1]);
        }
        lemma_ascii_valid_utf8(rest);
    }
}

/// A header value as text, as `HeaderValue::to_str` reads it: text exactly
/// when every byte is visible ASCII or a tab.
pub fn header_text(value: &[u8]) -> (r: Option<&str>)
    ensures
        r is Some <==> all_visible_ascii(value@),
        r matches Some(s) ==> s.spec_bytes() == value@,
{
    let n = value.len();
    let mut i: usize = 0;
    while i < n
        invariant
            n == value@.len(),
            i <= n,
            forall|k: int| 0 <= k < i ==> #[trigger] is_visible_ascii(value@[k]),
        decreases n - i,
    {
        if !((32 <= value[i] && value[i] < 127) || value[i] == 9) {
            assert(!is_visible_ascii(value@[i as int]));
            return None;
        }
        i = i + 1;
    }
    proof {
        assert forall|k: int| 0 <= k < value@.len() implies #[trigger] value@[k] < 128 by {
            assert(is_visible_ascii(value@[k]));
        }
        lemma_ascii_valid_utf8(value@);
    }
    utf8_str(value)
}

pub open spec fn is_digit(c: char) -> bool {
    '0' <= c && c <= '9'
}

/// The number a string of decimal digits spells.
pub open spec fn digits_value(d: Seq<char>) -> nat
    decreases d.len(),
{
    if d.len() == 0 {
        0
    } else {
        digits_value(d.drop_last()) * 10 + ((d.last() as u32) - 48) as nat
    }
}

/// A number spelled by more digits is no smaller than one spelled by a prefix
/// of them.
pub proof fn lemma_digits_value_grows(d: Seq<char>, j: int)
    requires
        0 <= j <= d.len(),
        forall|i: int| 0 <= i < d.len() ==> #[trigger] is_digit(d[i]),
    ensures
        digits_value(d.subrange(0, j)) <= digits_value(d),
    decreases d.len() - j,
{
    if j < d.len() {
        let p = d.subrange(0, j + 1);
        assert(p.drop_last() =~= d.subrange(0, j));
        assert(is_digit(d[j]));
        lemma_digits_value_grows(d, j + 1);
        assert(d.subrange(0, d.len() as int) =~= d);
    } else {
        assert(d.subrange(0, j) =~= d);
    }
}

/// `s` without one leading `+`.
pub open spec fn unsigned_part(s: Seq<char>) -> Seq<char> {
    if s.len() > 0 && s[0] == '+' {
        s.subrange(1, s.len() as int)
    } else {
        s
    }
}

pub open spec fn all_digits(d: Seq<char>) -> bool {
    forall|i: int| 0 <= i < d.len() ==> #[trigger] is_digit(d[i])
}

/// What `str::parse::<u64>` gives: an optional `+`, then one or more decimal
/// digits spelling a number that fits in 64 bits.
pub open spec fn u64_of(s: Seq<char>) -> Option<u64> {
    let d = unsigned_part(s);
    if d.len() == 0 {
        None
    } else if !all_digits(d) {
        None
    } else if digits_value(d) > u64::MAX {
        None
    } else {
        Some(digits_value(d) as u64)
    }
}

/// `s.parse::<u64>().ok()`.
pub fn parse_u64(s: &str) -> (r: Option<u64>)
    ensures
        r == u64_of(s@),
{
    let n = s.unicode_len();
    let mut start: usize = 0;
    if n > 0 && s.get_char(0) == '+' {
        start = 1;
    }
    let ghost d = unsigned_part(s@);
    assert(d =~= s@.subrange(start as int, n as int));
    if start >= n {
        return None;
    }
    let mut i: usize = start;
    let mut acc: u64 = 0;
    while i < n
        invariant
            n == s@.len(),
            start <= i <= n,
            d == s@.subrange(start as int, n as int),
            d == unsigned_part(s@),
            forall|k: int| 0 <= k < i - start ==> #[trigger] is_digit(d[k]),
            acc == digits_value(d.subrange(0, i - start)),
        decreases n - i,
    {
        let c = s.get_char(i);
        if !('0' <= c && c <= '9') {
            assert(!is_digit(d[i - start]));
            assert(!all_digits(d));
            return None;
        }
        let digit = (c as u32 - 48) as u64;
        let ghost p = d.subrange(0, i + 1 - start);
        assert(p.drop_last() =~= d.subrange(0, i - start));
        assert(p.last() == c);
        assert(digits_value(p) == acc * 10 + digit);
        let next = match acc.checked_mul(10) {
            Some(m) => m.checked_add(digit),
            None => None,
        };
        match next {
            Some(v) => {
                acc = v;
            },
            None => {
                proof {
                    assert(digits_value(p) > u64::MAX);
                    if all_digits(d) {
                        lemma_digits_value_grows(d, i + 1 - start);
                        assert(digits_value(d) > u64::MAX);
                    }
                }
                return None;
            },
        }
        i = i + 1;
    }
    assert(d.subrange(0, i - start) =~= d);
    Some(acc)
}

/// The `Content-Length` a request announced: `None` when it sent none, or one
/// that is not text or not a number (surrounding white space is allowed).
pub open spec fn content_length_of_spec(value: Option<Seq<u8>>) -> Option<u64> {
    match value {
        Some(v) => if all_visible_ascii(v) {
            u64_of(trimmed(decode_utf8(v)))
        } else {
            None
        },
        None => None,
    }
}

/// The `Content-Length` a request announced, from the header's raw value.
pub fn content_length_of(value: Option<&[u8]>) -> (r: Option<u64>)
    ensures
        r == content_length_of_spec(
            match value {
                Some(v) => Some(v@),
                None => None,
            },
        ),
{
    match value {
        Some(v) => match header_text(v) {
            Some(text) => {
                proof {
                    lemma_str_of_bytes(text, v@);
                }
                parse_u64(trim_str(text))
            },
            None => None,
        },
        None => None,
    }
}

/// The kind of body a request announced by its `Content-Type` header (given
/// raw): no header reads as an empty type; a value that is not text is
/// refused.
pub fn body_content_type_of(value: Option<&[u8]>) -> (r: Result<BodyContentType, HttpFailResult>)
    ensures
        match value {
            None => match kind_of_content_type(Seq::empty()) {
                Some(k) => r matches Ok(t) && t@ == k,
                None => r is Err,
            },
            Some(v) => if all_visible_ascii(v@) {
                match kind_of_content_type(decode_utf8(v@)) {
                    Some(k) => r matches Ok(t) && t@ == k,
                    None => r is Err,
                }
            } else {
                r matches Err(e) && e.output@ == text_output(
                    400,
                    "Validation error: "@ + "header content-type has response is not as string"@,
                )
            },
        },
{
    match value {
        None => {
            proof {
                reveal_strlit("");
            }
            BodyContentType::from_content_type("")
        },
        Some(v) => match header_text(v) {
            Some(text) => {
                proof {
                    lemma_str_of_bytes(text, v@);
                }
                BodyContentType::from_content_type(text)
            },
            None => Err(
                HttpFailResult::as_validation_error(
                    "header content-type has response is not as string",
                ),
            ),
        },
    }
}

/// The host a request was sent to: its `Host` header, else `X-Forwarded-Host`,
/// else the URI's authority (where HTTP/2 carries it); `None` when it has none.
pub fn host_of<'a>(host: Option<&'a str>, forwarded_host: Option<&'a str>, authority: Option<&'a str>) -> (r:
    Option<&'a str>)
    ensures
        r == (if host is Some {
            host
        } else if forwarded_host is Some {
            forwarded_host
        } else {
            authority
        }),
{
    if host.is_some() {
        host
    } else if forwarded_host.is_some() {
        forwarded_host
    } else {
        authority
    }
}

/// The scheme a request came with: `X-Forwarded-Proto` when a proxy set it,
/// else the URI's scheme, else `http`.
pub fn scheme_of<'a>(forwarded_proto: Option<&'a str>, uri_scheme: Option<&'a str>) -> (r: &'a str)
    ensures
        r@ == match forwarded_proto {
            Some(p) => p@,
            None => match uri_scheme {
                Some(s) => s@,
                None => "http"@,
            },
        },
{
    match forwarded_proto {
        Some(p) => p,
        None => match uri_scheme {
            Some(s) => s,
            None => "http",
        },
    }
}

/// The path and query of a request's URI; a URI without them reads as its
/// path, and an empty path as `/`.
pub fn path_and_query_of<'a>(path_and_query: Option<&'a str>, path: &'a str) -> (r: &'a str)
    ensures
        r@ == match path_and_query {
            Some(pq) => pq@,
            None => if path@.len() == 0 {
                "/"@
            } else {
                path@
            },
        },
{
    match path_and_query {
        Some(pq) => pq,
        None => {
            if path.unicode_len() == 0 {
                "/"
            } else {
                path
            }
        },
    }
}

/// A request opens a WebSocket over HTTP/2: a `CONNECT` whose `:protocol` is
/// `websocket` (in any ASCII case).
pub fn is_websocket_connect(is_connect: bool, protocol: Option<&str>) -> (r: bool)
    ensures
        r == (is_connect && match protocol {
            Some(p) => eq_ignore_case(p@, "websocket"@),
            None => false,
        }),
{
    if !is_connect {
        return false;
    }
    match protocol {
        Some(p) => ascii_equals_ignore_case(p, "websocket"),
        None => false,
    }
}

/// The cookies of a request, from its raw `Cookie` header: a header that is
/// not UTF-8 reads as no cookies.
pub fn cookies_of<'a>(cookie_header: Option<&'a [u8]>) -> (r: CookiesReader<'a>)
    ensures
        match cookie_header {
            Some(h) => if valid_utf8(h@) {
                r.src matches Some(s) && s@ == decode_utf8(h@)
            } else {
                r.src is None
            },
            None => r.src is None,
        },
{
    match cookie_header {
        Some(h) => match utf8_str(h) {
            Some(s) => {
                proof {
                    lemma_str_of_bytes(s, h@);
                }
                CookiesReader::new(Some(s))
            },
            None => CookiesReader::new(None),
        },
        None => CookiesReader::new(None),
    }
}


proof fn lemma_decimal_digits(n: nat)
    ensures
        decimal(n).len() > 0,
        all_digits(decimal(n)),
        digits_value(decimal(n)) == n,
    decreases n,
{
    if n < 10 {
        let d = decimal(n);
        assert(d.drop_last() =~= Seq::<char>::empty());
        assert(d.last() == digit_char(n));
        assert((digit_char(n) as u32) == 48 + n);
        assert(digits_value(Seq::<char>::empty()) == 0);
    } else {
        lemma_decimal_digits(n / 10);
        let d = decimal(n);
        let p = decimal(n / 10);
        assert(d.drop_last() =~= p);
        assert(d.last() == digit_char(n % 10));
        assert((digit_char(n % 10) as u32) == 48 + n % 10);
        assert((n / 10) * 10 + n % 10 == n) by (nonlinear_arith);
        assert forall|i: int| 0 <= i < d.len() implies #[trigger] is_digit(d[i]) by {
            if i < p.len() {
                assert(d[i] == p[i]);
                assert(is_digit(p[i]));
            }
        }
    }
}

/// A number written out in decimal reads back as itself: what a response
/// writes as a length, a request's `Content-Length` reads back.
pub proof fn law_decimal_parses_back(n: u64)
    ensures
        u64_of(decimal(n as nat)) == Some(n),
{
    lemma_decimal_digits(n as nat);
    let d = decimal(n as nat);
    assert(is_digit(d[0]));
    assert(unsigned_part(d) == d);
}

} // verus!
