//! Request header values, a request's header table, and adding headers to a
//! response under construction.
use vstd::prelude::*;
use vstd::utf8::*;
use vstd::string::*;
use crate::output::{HttpFailResult, text_output};
use crate::result_builder::{HttpResultBuilder, with_header};
use crate::text::{utf8_str, str_equals, eq_ignore_case, ascii_equals_ignore_case};
use crate::content_encoding::{ContentEncoding, encoding_named};
use crate::request_parts::{header_text, all_visible_ascii};
use crate::result_builder::missing_parameter_text;

verus! {

/// A raw header value, as received.
pub struct HeaderValue<'s> {
    pub name: &'static str,
    pub value: &'s [u8],
}

impl<'s> HeaderValue<'s> {
    pub fn new(name: &'static str, value: &'s [u8]) -> (r: Self)
        ensures
            r.name == name,
            r.value@ == value@,
    {
        HeaderValue { name, value }
    }

    /// The value as text; a value that is not UTF-8 is refused as unparsable.
    pub fn as_str(&self) -> (r: Result<&'s str, HttpFailResult>)
        ensures
            match r {
                Ok(s) => valid_utf8(self.value@) && s@ == decode_utf8(self.value@),
                Err(e) => {
                    &&& !valid_utf8(self.value@)
                    &&& e.output@ == text_output(400, "Can not parse header value in header"@)
                    &&& e.write_to_log
                    &&& e.write_telemetry
                },
            },
    {
        match utf8_str(self.value) {
            Some(s) => {
                proof {
                    crate::text::lemma_str_of_bytes(s, self.value@);
                }
                Ok(s)
            },
            None => Err(HttpFailResult::invalid_value_to_parse("Can not parse header value in header")),
        }
    }
}

/// The value of the last pair named `name` in `pairs`: a later header of the
/// same name replaces an earlier one.
pub open spec fn last_value(pairs: Seq<(&str, &str)>, name: Seq<char>) -> Option<Seq<char>>
    decreases pairs.len(),
{
    if pairs.len() == 0 {
        None
    } else if pairs.last().0@ == name {
        Some(pairs.last().1@)
    } else {
        last_value(pairs.drop_last(), name)
    }
}

/// The headers of a request, by name.
pub struct HttpHeaders<'s> {
    data: Vec<(&'s str, &'s str)>,
}

impl<'s> HttpHeaders<'s> {
    /// The header pairs in the order they were received.
    pub closed spec fn pairs(&self) -> Seq<(&'s str, &'s str)> {
        self.data@
    }

    pub fn new(headers: Vec<(&'s str, &'s str)>) -> (r: Self)
        ensures
            r.pairs() == headers@,
    {
        HttpHeaders { data: headers }
    }

    /// The value of header `header_name` (names compared exactly).
    pub fn get(&self, header_name: &str) -> (r: Option<&&'s str>)
        ensures
            match r {
                Some(v) => last_value(self.pairs(), header_name@) == Some((*v)@),
                None => last_value(self.pairs(), header_name@) is None,
            },
    {
        let mut i: usize = self.data.len();
        assert(self.data@.subrange(0, i as int) =~= self.data@);
        while i > 0
            invariant
                i <= self.data@.len(),
                last_value(self.data@, header_name@) == last_value(
                    self.data@.subrange(0, i as int),
                    header_name@,
                ),
            decreases i,
        {
            let ghost pre = self.data@.subrange(0, i as int);
            assert(pre.drop_last() =~= self.data@.subrange(0, i - 1));
            if str_equals(self.data[i - 1].0, header_name) {
                return Some(&self.data[i - 1].1);
            }
            i = i - 1;
        }
        assert(self.data@.subrange(0, 0) =~= Seq::<(&'s str, &'s str)>::empty());
        None
    }
}

/// Something that response headers can be added to.
pub trait AddHttpHeaders {
    fn add_header(&mut self, header_name: String, header_value: String);
}

impl AddHttpHeaders for HttpResultBuilder {
    fn add_header(&mut self, header_name: String, header_value: String)
        ensures
            final(self).output@ == with_header(old(self).output@, header_name@, header_value@),
    {
        let mut b = HttpResultBuilder::new();
        std::mem::swap(self, &mut b);
        *self = b.add_header(header_name, header_value);
    }
}


/// Of two headers with one name, the later one is read.
pub proof fn law_later_header_wins<'a>(pairs: Seq<(&'a str, &'a str)>, name: &'a str, value: &'a str)
    ensures
        last_value(pairs.push((name, value)), name@) == Some(value@),
{
    assert(pairs.push((name, value)).last() == (name, value));
}

/// A header does not change what other names read.
pub proof fn law_other_headers_kept<'a>(
    pairs: Seq<(&'a str, &'a str)>,
    name: &'a str,
    value: &'a str,
    other: Seq<char>,
)
    requires
        name@ != other,
    ensures
        last_value(pairs.push((name, value)), other) == last_value(pairs, other),
{
    assert(pairs.push((name, value)).drop_last() =~= pairs);
}

/// The index of the first header line named `name` (ASCII case ignored, as
/// header names are), if any.
pub open spec fn first_line_named(lines: Seq<(Seq<char>, Seq<u8>)>, name: Seq<char>) -> Option<int> {
    if exists|i: int| 0 <= i < lines.len() && eq_ignore_case(#[trigger] lines[i].0, name) {
        Some(
            choose|i: int|
                0 <= i < lines.len() && eq_ignore_case(#[trigger] lines[i].0, name) && forall|j: int|
                    0 <= j < i ==> !eq_ignore_case(#[trigger] lines[j].0, name),
        )
    } else {
        None
    }
}

/// The text of the refusal of a header value that is not text.
pub open spec fn not_text_header(name: Seq<char>) -> Seq<char> {
    "Validation error: "@ + ("Header value is not a valid string. Header name: "@ + name)
}

/// The header lines of a request as received, in order: names with their raw
/// values.
pub struct RequestHeaders<'s> {
    data: Vec<(&'s str, &'s [u8])>,
}

impl<'s> View for RequestHeaders<'s> {
    type V = Seq<(Seq<char>, Seq<u8>)>;

    closed spec fn view(&self) -> Seq<(Seq<char>, Seq<u8>)> {
        self.data@.map_values(|p: (&'s str, &'s [u8])| (p.0@, p.1@))
    }
}

impl<'s> RequestHeaders<'s> {
    pub fn new(lines: Vec<(&'s str, &'s [u8])>) -> (r: Self)
        ensures
            r@ == lines@.map_values(|p: (&'s str, &'s [u8])| (p.0@, p.1@)),
    {
        RequestHeaders { data: lines }
    }

    fn find(&self, name: &str) -> (r: Option<usize>)
        ensures
            match r {
                Some(i) => first_line_named(self@, name@) == Some(i as int) && i < self@.len(),
                None => first_line_named(self@, name@) is None,
            },
    {
        let mut i: usize = 0;
        while i < self.data.len()
            invariant
                i <= self.data@.len(),
                self@.len() == self.data@.len(),
                forall|j: int| 0 <= j < i ==> !eq_ignore_case(#[trigger] self@[j].0, name@),
            decreases self.data@.len() - i,
        {
            assert(self@[i as int].0 == self.data@[i as int].0@);
            if ascii_equals_ignore_case(self.data[i].0, name) {
                let ghost k = i as int;
                assert(eq_ignore_case(self@[k].0, name@));
                let ghost c = choose|m: int|
                    0 <= m < self@.len() && eq_ignore_case(#[trigger] self@[m].0, name@) && forall|j: int|
                        0 <= j < m ==> !eq_ignore_case(#[trigger] self@[j].0, name@);
                assert(c == k) by {
                    if c < k {
                        assert(!eq_ignore_case(self@[c].0, name@));
                    } else if c > k {
                        assert(!eq_ignore_case(self@[k].0, name@));
                    }
                }
                return Some(i);
            }
            i = i + 1;
        }
        None
    }

    /// The first value of header `header_name`.
    pub fn try_get_case_insensitive(&self, header_name: &'static str) -> (r: Option<HeaderValue<'s>>)
        ensures
            match first_line_named(self@, header_name@) {
                Some(i) => r matches Some(v) && v.name == header_name && v.value@ == self@[i].1,
                None => r is None,
            },
    {
        match self.find(header_name) {
            Some(i) => Some(HeaderValue::new(header_name, self.data[i].1)),
            None => None,
        }
    }

    /// The first value of header `header_name`; names are matched as the HTTP
    /// library matches them, without regard to ASCII case.
    pub fn try_get_case_sensitive(&self, header_name: &'static str) -> (r: Option<HeaderValue<'s>>)
        ensures
            match first_line_named(self@, header_name@) {
                Some(i) => r matches Some(v) && v.name == header_name && v.value@ == self@[i].1,
                None => r is None,
            },
    {
        self.try_get_case_insensitive(header_name)
    }

    /// The first value of header `header_name` as text; `400` when it is not
    /// visible ASCII.
    pub fn try_get_case_insensitive_as_str(&self, header_name: &str) -> (r: Result<
        Option<&'s str>,
        HttpFailResult,
    >)
        ensures
            match first_line_named(self@, header_name@) {
                Some(i) => if all_visible_ascii(self@[i].1) {
                    r matches Ok(Some(s)) && s.spec_bytes() == self@[i].1
                } else {
                    r matches Err(e) && e.output@ == text_output(400, not_text_header(header_name@))
                },
                None => r matches Ok(None),
            },
    {
        match self.find(header_name) {
            Some(i) => {
                let value = self.data[i].1;
                match header_text(value) {
                    Some(s) => Ok(Some(s)),
                    None => {
                        let mut text = String::from_str("Header value is not a valid string. Header name: ");
                        text.append(header_name);
                        Err(HttpFailResult::as_validation_error(text.as_str()))
                    },
                }
            },
            None => Ok(None),
        }
    }

    /// As [`RequestHeaders::try_get_case_insensitive_as_str`]: header names are
    /// matched without regard to ASCII case either way.
    pub fn try_get_case_sensitive_as_str(&self, header_name: &str) -> (r: Result<
        Option<&'s str>,
        HttpFailResult,
    >)
        ensures
            match first_line_named(self@, header_name@) {
                Some(i) => if all_visible_ascii(self@[i].1) {
                    r matches Ok(Some(s)) && s.spec_bytes() == self@[i].1
                } else {
                    r matches Err(e) && e.output@ == text_output(400, not_text_header(header_name@))
                },
                None => r matches Ok(None),
            },
    {
        self.try_get_case_insensitive_as_str(header_name)
    }

    /// The first value of a header the request must carry; `400` naming it
    /// when it is missing.
    pub fn get_required_case_insensitive(&self, header_name: &'static str) -> (r: Result<
        HeaderValue<'s>,
        HttpFailResult,
    >)
        ensures
            match first_line_named(self@, header_name@) {
                Some(i) => r matches Ok(v) && v.name == header_name && v.value@ == self@[i].1,
                None => r matches Err(e) && e.output@ == text_output(
                    400,
                    missing_parameter_text(header_name@, "header"@),
                ),
            },
    {
        match self.try_get_case_insensitive(header_name) {
            Some(value) => Ok(value),
            None => Err(HttpFailResult::required_parameter_is_missing(header_name, "header")),
        }
    }

    /// As [`RequestHeaders::get_required_case_insensitive`].
    pub fn get_required_case_sensitive(&self, header_name: &'static str) -> (r: Result<
        HeaderValue<'s>,
        HttpFailResult,
    >)
        ensures
            match first_line_named(self@, header_name@) {
                Some(i) => r matches Ok(v) && v.name == header_name && v.value@ == self@[i].1,
                None => r matches Err(e) && e.output@ == text_output(
                    400,
                    missing_parameter_text(header_name@, "header"@),
                ),
            },
    {
        self.get_required_case_insensitive(header_name)
    }

    /// The encoding the request's `Content-Encoding` header announces.
    pub fn get_content_encoding(&self) -> (r: Result<ContentEncoding, HttpFailResult>)
        ensures
            match first_line_named(self@, "content-encoding"@) {
                None => r == Ok::<ContentEncoding, HttpFailResult>(ContentEncoding::Identity),
                Some(i) => if !all_visible_ascii(self@[i].1) {
                    r is Err
                } else {
                    match encoding_named(Some(decode_utf8(self@[i].1))) {
                        Some(e) => r == Ok::<ContentEncoding, HttpFailResult>(e),
                        None => r is Err,
                    }
                },
            },
    {
        let value = self.try_get_case_insensitive_as_str("content-encoding")?;
        proof {
            if let Some(s) = value {
                crate::text::lemma_str_of_bytes(s, s.spec_bytes());
            }
        }
        ContentEncoding::new(value)
    }
}

} // verus!
