//! `multipart/form-data` bodies: splitting a body into its parts, and reading
//! one part's headers and content.
//!
//! A part is a block of header lines, each `Name: value` and ended by CR LF,
//! then an empty line, then the content, then CR LF. Of the headers only
//! `Content-Disposition` (whose `name` and `filename` parameters name the
//! part) and `Content-Type` (whose presence makes the part a file) are read;
//! header names are matched without regard to ASCII case.
use vstd::prelude::*;
use vstd::utf8::*;
use vstd::string::*;
use crate::output::{HttpFailResult, text_output};
use crate::result_builder::missing_parameter_text;
use crate::text::{eq_ignore_case, utf8_str, str_equals, ascii_equals_ignore_case, lemma_str_of_bytes};

verus! {

/// The first index in `[i, e)` holding byte `b`, or `e` when there is none.
pub open spec fn find_byte(s: Seq<u8>, b: u8, i: int, e: int) -> int
    decreases e - i,
{
    if i < 0 || i >= e {
        i
    } else if s[i] == b {
        i
    } else {
        find_byte(s, b, i + 1, e)
    }
}

/// The first index in `[i, e)` holding a byte above the space, or `e`.
pub open spec fn skip_blank(s: Seq<u8>, i: int, e: int) -> int
    decreases e - i,
{
    if i < 0 || i >= e {
        i
    } else if s[i] > 32 {
        i
    } else {
        skip_blank(s, i + 1, e)
    }
}

/// The end of `[i, j)` once bytes up to the space are dropped from its end.
pub open spec fn trim_back(s: Seq<u8>, i: int, j: int) -> int
    decreases j - i,
{
    if j <= i {
        j
    } else if s[j - 1] <= 32 {
        trim_back(s, i, j - 1)
    } else {
        j
    }
}

pub proof fn lemma_find_byte(s: Seq<u8>, b: u8, i: int, e: int)
    requires
        0 <= i <= e <= s.len(),
    ensures
        i <= find_byte(s, b, i, e) <= e,
        find_byte(s, b, i, e) < e ==> s[find_byte(s, b, i, e)] == b,
    decreases e - i,
{
    if i < e && s[i] != b {
        lemma_find_byte(s, b, i + 1, e);
    }
}

pub proof fn lemma_skip_blank(s: Seq<u8>, i: int, e: int)
    requires
        0 <= i <= e <= s.len(),
    ensures
        i <= skip_blank(s, i, e) <= e,
    decreases e - i,
{
    if i < e && s[i] <= 32 {
        lemma_skip_blank(s, i + 1, e);
    }
}

pub proof fn lemma_trim_back(s: Seq<u8>, i: int, j: int)
    requires
        0 <= i <= j <= s.len(),
    ensures
        i <= trim_back(s, i, j) <= j,
    decreases j - i,
{
    if i < j && s[j - 1] <= 32 {
        lemma_trim_back(s, i, j - 1);
    }
}

/// `[a, b)` with one pair of surrounding double quotes removed.
pub open spec fn unquote(s: Seq<u8>, a: int, b: int) -> (int, int) {
    if b - a >= 2 && s[a] == 34 && s[b - 1] == 34 {
        (a + 1, b - 1)
    } else {
        (a, b)
    }
}

/// The bytes `[a, b)` are the UTF-8 text `lit`.
pub open spec fn range_is(s: Seq<u8>, a: int, b: int, lit: Seq<char>) -> bool {
    valid_utf8(s.subrange(a, b)) && decode_utf8(s.subrange(a, b)) == lit
}

/// A byte range, as integers.
pub open spec fn rng(r: Option<(usize, usize)>) -> Option<(int, int)> {
    match r {
        Some((a, b)) => Some((a as int, b as int)),
        None => None,
    }
}

/// `r` lies within a sequence of length `n`.
pub open spec fn range_ok(r: Option<(usize, usize)>, n: int) -> bool {
    r matches Some((a, b)) ==> a <= b && b <= n
}

/// What a `Content-Disposition` parameter `[i, j)` does to the `name` and
/// `filename` read so far. The parameter is trimmed and split at its first
/// `=`; its key is what stands before, trimmed; its value what stands after,
/// trimmed and unquoted, or nothing when there is no `=`.
pub open spec fn param_step(
    s: Seq<u8>,
    i: int,
    j: int,
    name: Option<(int, int)>,
    file: Option<(int, int)>,
) -> (Option<(int, int)>, Option<(int, int)>) {
    let ti = skip_blank(s, i, j);
    let tj = trim_back(s, ti, j);
    let eq = find_byte(s, 61, ti, tj);
    let kj = trim_back(s, ti, eq);
    let value = if eq < tj {
        Some(unquote(s, skip_blank(s, eq + 1, tj), tj))
    } else {
        None
    };
    (
        if range_is(s, ti, kj, "name"@) {
            value
        } else {
            name
        },
        if range_is(s, ti, kj, "filename"@) {
            value
        } else {
            file
        },
    )
}

/// The `name` and `filename` after reading the `;`-separated parameters in
/// `[i, e)`, later parameters replacing earlier ones.
pub open spec fn disposition(
    s: Seq<u8>,
    i: int,
    e: int,
    name: Option<(int, int)>,
    file: Option<(int, int)>,
) -> (Option<(int, int)>, Option<(int, int)>)
    decreases e - i,
{
    if i < 0 || i > e || e > s.len() {
        (name, file)
    } else {
        let j = find_byte(s, 59, i, e);
        proof {
            lemma_find_byte(s, 59, i, e);
        }
        let st = param_step(s, i, j, name, file);
        if j >= e {
            st
        } else {
            disposition(s, j + 1, e, st.0, st.1)
        }
    }
}

/// The headers of a part read from `pos` on, given what was read before: the
/// `name`, `filename` and content-type ranges, and where the content starts;
/// `None` for a part that is not well formed.
pub open spec fn scan(
    s: Seq<u8>,
    pos: int,
    st: (Option<(int, int)>, Option<(int, int)>, Option<(int, int)>),
) -> Option<((Option<(int, int)>, Option<(int, int)>, Option<(int, int)>), int)>
    decreases s.len() - pos,
{
    if pos < 0 || pos + 4 > s.len() {
        None
    } else if s[pos] == 13 && s[pos + 1] == 10 && s[pos + 2] == 13 && s[pos + 3] == 10 {
        Some((st, pos + 4))
    } else {
        let p = skip_blank(s, pos, s.len() as int);
        let colon = find_byte(s, 58, p, s.len() as int);
        proof {
            lemma_skip_blank(s, pos, s.len() as int);
            lemma_find_byte(s, 58, p, s.len() as int);
        }
        if colon >= s.len() || !valid_utf8(s.subrange(p, colon)) {
            None
        } else if eq_ignore_case(decode_utf8(s.subrange(p, colon)), "content-disposition"@) {
            let e = find_byte(s, 13, colon + 1, s.len() as int);
            proof {
                lemma_find_byte(s, 13, colon + 1, s.len() as int);
            }
            if e >= s.len() {
                None
            } else {
                let nf = disposition(s, colon + 1, e, st.0, st.1);
                scan(s, e, (nf.0, nf.1, st.2))
            }
        } else if eq_ignore_case(decode_utf8(s.subrange(p, colon)), "content-type"@) {
            let start = skip_blank(s, colon + 1, s.len() as int);
            proof {
                lemma_skip_blank(s, colon + 1, s.len() as int);
            }
            let end = find_byte(s, 13, start, s.len() as int);
            proof {
                lemma_find_byte(s, 13, start, s.len() as int);
            }
            if end >= s.len() || !valid_utf8(s.subrange(start, end)) {
                None
            } else {
                scan(s, end, (st.0, st.1, Some((start, end))))
            }
        } else {
            let e = find_byte(s, 13, colon + 1, s.len() as int);
            proof {
                lemma_find_byte(s, 13, colon + 1, s.len() as int);
            }
            if e >= s.len() {
                None
            } else {
                scan(s, e, st)
            }
        }
    }
}

/// What one part holds, as bytes.
pub enum PartModel {
    Value { name: Seq<u8>, value: Option<Seq<u8>> },
    File { name: Seq<u8>, file_name: Seq<u8>, content_type: Seq<u8>, content: Seq<u8> },
}

pub open spec fn part_bytes(s: Seq<u8>, r: (int, int)) -> Seq<u8> {
    s.subrange(r.0, r.1)
}

/// The part `s` reads as: a file when it has a content type, else a value
/// (none when its content is empty); `None` when it is not well formed, has
/// no name (or, for a file, no file name), or holds text that is not UTF-8
/// where text is read.
pub open spec fn part_model(s: Seq<u8>) -> Option<PartModel> {
    match scan(s, 0, (None, None, None)) {
        None => None,
        Some((st, c)) => {
            if c > s.len() - 2 {
                None
            } else {
                let content = s.subrange(c, s.len() - 2);
                match st.2 {
                    Some(ct) => match (st.1, st.0) {
                        (Some(f), Some(n)) => {
                            if valid_utf8(part_bytes(s, f)) && valid_utf8(part_bytes(s, n)) {
                                Some(
                                    PartModel::File {
                                        name: part_bytes(s, n),
                                        file_name: part_bytes(s, f),
                                        content_type: part_bytes(s, ct),
                                        content,
                                    },
                                )
                            } else {
                                None
                            }
                        },
                        _ => None,
                    },
                    None => match st.0 {
                        Some(n) => {
                            if valid_utf8(part_bytes(s, n)) && (content.len() == 0 || valid_utf8(
                                content,
                            )) {
                                Some(
                                    PartModel::Value {
                                        name: part_bytes(s, n),
                                        value: if content.len() == 0 {
                                            None
                                        } else {
                                            Some(content)
                                        },
                                    },
                                )
                            } else {
                                None
                            }
                        },
                        None => None,
                    },
                }
            }
        },
    }
}

fn find_byte_exec(s: &[u8], b: u8, i: usize, e: usize) -> (r: usize)
    requires
        i <= e <= s@.len(),
    ensures
        r == find_byte(s@, b, i as int, e as int),
        i <= r <= e,
{
    proof {
        lemma_find_byte(s@, b, i as int, e as int);
    }
    let mut k = i;
    while k < e && s[k] != b
        invariant
            i <= k <= e <= s@.len(),
            find_byte(s@, b, k as int, e as int) == find_byte(s@, b, i as int, e as int),
        decreases e - k,
    {
        k = k + 1;
    }
    k
}

fn skip_blank_exec(s: &[u8], i: usize, e: usize) -> (r: usize)
    requires
        i <= e <= s@.len(),
    ensures
        r == skip_blank(s@, i as int, e as int),
        i <= r <= e,
{
    proof {
        lemma_skip_blank(s@, i as int, e as int);
    }
    let mut k = i;
    while k < e && s[k] <= 32
        invariant
            i <= k <= e <= s@.len(),
            skip_blank(s@, k as int, e as int) == skip_blank(s@, i as int, e as int),
        decreases e - k,
    {
        k = k + 1;
    }
    k
}

fn trim_back_exec(s: &[u8], i: usize, j: usize) -> (r: usize)
    requires
        i <= j <= s@.len(),
    ensures
        r == trim_back(s@, i as int, j as int),
        i <= r <= j,
{
    proof {
        lemma_trim_back(s@, i as int, j as int);
    }
    let mut k = j;
    while k > i && s[k - 1] <= 32
        invariant
            i <= k <= j <= s@.len(),
            trim_back(s@, i as int, k as int) == trim_back(s@, i as int, j as int),
        decreases k,
    {
        k = k - 1;
    }
    k
}

fn range_is_exec(s: &[u8], a: usize, b: usize, lit: &str) -> (r: bool)
    requires
        a <= b <= s@.len(),
    ensures
        r == range_is(s@, a as int, b as int, lit@),
{
    match utf8_str(&s[a..b]) {
        Some(k) => {
            proof {
                lemma_str_of_bytes(k, s@.subrange(a as int, b as int));
            }
            str_equals(k, lit)
        },
        None => false,
    }
}

fn param_step_exec(
    s: &[u8],
    i: usize,
    j: usize,
    name: Option<(usize, usize)>,
    file: Option<(usize, usize)>,
) -> (r: (Option<(usize, usize)>, Option<(usize, usize)>))
    requires
        i <= j <= s@.len(),
        range_ok(name, s@.len() as int),
        range_ok(file, s@.len() as int),
    ensures
        (rng(r.0), rng(r.1)) == param_step(s@, i as int, j as int, rng(name), rng(file)),
        range_ok(r.0, s@.len() as int),
        range_ok(r.1, s@.len() as int),
{
    let ti = skip_blank_exec(s, i, j);
    let tj = trim_back_exec(s, ti, j);
    let eq = find_byte_exec(s, 61, ti, tj);
    let kj = trim_back_exec(s, ti, eq);
    let value = if eq < tj {
        let vi = skip_blank_exec(s, eq + 1, tj);
        if tj - vi >= 2 && s[vi] == 34 && s[tj - 1] == 34 {
            Some((vi + 1, tj - 1))
        } else {
            Some((vi, tj))
        }
    } else {
        None
    };
    let new_name = if range_is_exec(s, ti, kj, "name") {
        value
    } else {
        name
    };
    let new_file = if range_is_exec(s, ti, kj, "filename") {
        value
    } else {
        file
    };
    (new_name, new_file)
}

fn disposition_exec(
    s: &[u8],
    i: usize,
    e: usize,
    name: Option<(usize, usize)>,
    file: Option<(usize, usize)>,
) -> (r: (Option<(usize, usize)>, Option<(usize, usize)>))
    requires
        i <= e <= s@.len(),
        range_ok(name, s@.len() as int),
        range_ok(file, s@.len() as int),
    ensures
        (rng(r.0), rng(r.1)) == disposition(s@, i as int, e as int, rng(name), rng(file)),
        range_ok(r.0, s@.len() as int),
        range_ok(r.1, s@.len() as int),
{
    let mut k = i;
    let mut n = name;
    let mut f = file;
    loop
        invariant
            i <= k <= e <= s@.len(),
            range_ok(n, s@.len() as int),
            range_ok(f, s@.len() as int),
            disposition(s@, k as int, e as int, rng(n), rng(f)) == disposition(
                s@,
                i as int,
                e as int,
                rng(name),
                rng(file),
            ),
        decreases e - k,
    {
        let j = find_byte_exec(s, 59, k, e);
        let st = param_step_exec(s, k, j, n, f);
        if j >= e {
            return st;
        }
        k = j + 1;
        n = st.0;
        f = st.1;
    }
}

/// The headers of part `s`, as [`scan`] reads them from its start.
fn scan_exec(s: &[u8]) -> (r: Option<
    ((Option<(usize, usize)>, Option<(usize, usize)>, Option<(usize, usize)>), usize),
>)
    ensures
        match r {
            Some((st, c)) => {
                &&& scan(s@, 0, (None, None, None)) == Some(
                    ((rng(st.0), rng(st.1), rng(st.2)), c as int),
                )
                &&& range_ok(st.0, s@.len() as int)
                &&& range_ok(st.1, s@.len() as int)
                &&& range_ok(st.2, s@.len() as int)
                &&& st.2 matches Some((a, b)) ==> valid_utf8(s@.subrange(a as int, b as int))
                &&& c <= s@.len()
            },
            None => scan(s@, 0, (None, None, None)) is None,
        },
{
    let len = s.len();
    let mut pos: usize = 0;
    let mut name: Option<(usize, usize)> = None;
    let mut file: Option<(usize, usize)> = None;
    let mut ct: Option<(usize, usize)> = None;
    loop
        invariant
            len == s@.len(),
            pos <= len,
            range_ok(name, len as int),
            range_ok(file, len as int),
            range_ok(ct, len as int),
            ct matches Some((a, b)) ==> valid_utf8(s@.subrange(a as int, b as int)),
            scan(s@, pos as int, (rng(name), rng(file), rng(ct))) == scan(
                s@,
                0,
                (None, None, None),
            ),
        decreases len - pos,
    {
        if len - pos < 4 {
            return None;
        }
        if s[pos] == 13 && s[pos + 1] == 10 && s[pos + 2] == 13 && s[pos + 3] == 10 {
            return Some(((name, file, ct), pos + 4));
        }
        let p = skip_blank_exec(s, pos, len);
        let colon = find_byte_exec(s, 58, p, len);
        if colon >= len {
            return None;
        }
        let header = match utf8_str(&s[p..colon]) {
            Some(h) => h,
            None => {
                return None;
            },
        };
        proof {
            lemma_str_of_bytes(header, s@.subrange(p as int, colon as int));
        }
        if ascii_equals_ignore_case(header, "content-disposition") {
            let e = find_byte_exec(s, 13, colon + 1, len);
            if e >= len {
                return None;
            }
            let nf = disposition_exec(s, colon + 1, e, name, file);
            name = nf.0;
            file = nf.1;
            pos = e;
        } else if ascii_equals_ignore_case(header, "content-type") {
            let start = skip_blank_exec(s, colon + 1, len);
            let end = find_byte_exec(s, 13, start, len);
            if end >= len {
                return None;
            }
            if utf8_str(&s[start..end]).is_none() {
                return None;
            }
            ct = Some((start, end));
            pos = end;
        } else {
            let e = find_byte_exec(s, 13, colon + 1, len);
            if e >= len {
                return None;
            }
            pos = e;
        }
    }
}

/// One part of a form.
#[derive(Debug)]
pub enum FormDataItem<'s> {
    ValueAsString { name: &'s str, value: Option<&'s str> },
    File { name: &'s str, file_name: &'s str, content_type: &'s str, content: &'s [u8] },
}

impl<'s> FormDataItem<'s> {
    /// What the item holds, as bytes.
    pub open spec fn model(&self) -> PartModel {
        match self {
            FormDataItem::ValueAsString { name, value } => PartModel::Value {
                name: name.spec_bytes(),
                value: match value {
                    Some(v) => Some(v.spec_bytes()),
                    None => None,
                },
            },
            FormDataItem::File { name, file_name, content_type, content } => PartModel::File {
                name: name.spec_bytes(),
                file_name: file_name.spec_bytes(),
                content_type: content_type.spec_bytes(),
                content: content@,
            },
        }
    }

    /// The item's name.
    pub open spec fn name_view(&self) -> Seq<char> {
        match self {
            FormDataItem::ValueAsString { name, .. } => name@,
            FormDataItem::File { name, .. } => name@,
        }
    }

    /// The text of a value item: `400` for a value item without a value, or for
    /// a file.
    pub fn unwrap_as_string(&'s self) -> (r: Result<&'s str, HttpFailResult>)
        ensures
            match self {
                FormDataItem::ValueAsString { name, value } => match value {
                    Some(v) => r matches Ok(x) && x@ == v@,
                    None => r matches Err(e) && e.output@ == text_output(
                        400,
                        missing_parameter_text(name@, "FormData"@),
                    ),
                },
                FormDataItem::File { .. } => r matches Err(e) && e.output@ == text_output(
                    400,
                    "Validation error: "@ + "Can not unwrap FormDataItem as string. It is file"@,
                ),
            },
    {
        match self {
            FormDataItem::ValueAsString { name, value } => match value {
                Some(v) => Ok(*v),
                None => Err(HttpFailResult::required_parameter_is_missing(name, "FormData")),
            },
            FormDataItem::File { .. } => Err(
                HttpFailResult::as_validation_error(
                    "Can not unwrap FormDataItem as string. It is file",
                ),
            ),
        }
    }

    /// The file name of a file item.
    pub fn unwrap_as_file_name(&'s self) -> (r: &'s str)
        requires
            self is File,
        ensures
            self matches FormDataItem::File { file_name, .. } && r == file_name,
    {
        match self {
            FormDataItem::File { file_name, .. } => *file_name,
            FormDataItem::ValueAsString { name, .. } => *name,
        }
    }

    pub fn get_name(&'s self) -> (r: &'s str)
        ensures
            r@ == self.name_view(),
    {
        match self {
            FormDataItem::ValueAsString { name, .. } => *name,
            FormDataItem::File { name, .. } => *name,
        }
    }

    /// Reads part `src`, or `None` when it is not a well-formed part.
    pub fn try_parse(src: &'s [u8]) -> (r: Option<Self>)
        ensures
            match r {
                Some(item) => part_model(src@) == Some(item.model()),
                None => part_model(src@) is None,
            },
    {
        let (st, c) = match scan_exec(src) {
            Some(x) => x,
            None => {
                return None;
            },
        };
        let len = src.len();
        if c > len - 2 {
            return None;
        }
        let content = &src[c..len - 2];
        match st.2 {
            Some((ct0, ct1)) => {
                let (f0, f1) = match st.1 {
                    Some(f) => f,
                    None => {
                        return None;
                    },
                };
                let (n0, n1) = match st.0 {
                    Some(n) => n,
                    None => {
                        return None;
                    },
                };
                let file_name = match utf8_str(&src[f0..f1]) {
                    Some(x) => x,
                    None => {
                        return None;
                    },
                };
                let name = match utf8_str(&src[n0..n1]) {
                    Some(x) => x,
                    None => {
                        return None;
                    },
                };
                let content_type = match utf8_str(&src[ct0..ct1]) {
                    Some(x) => x,
                    None => {
                        return None;
                    },
                };
                Some(FormDataItem::File { name, file_name, content_type, content })
            },
            None => {
                let (n0, n1) = match st.0 {
                    Some(n) => n,
                    None => {
                        return None;
                    },
                };
                let name = match utf8_str(&src[n0..n1]) {
                    Some(x) => x,
                    None => {
                        return None;
                    },
                };
                if content.len() == 0 {
                    Some(FormDataItem::ValueAsString { name, value: None })
                } else {
                    match utf8_str(content) {
                        Some(v) => Some(FormDataItem::ValueAsString { name, value: Some(v) }),
                        None => None,
                    }
                }
            },
        }
    }

    /// Reads a well-formed part.
    pub fn parse(src: &'s [u8]) -> (r: Self)
        requires
            part_model(src@) is Some,
        ensures
            part_model(src@) == Some(r.model()),
    {
        match Self::try_parse(src) {
            Some(item) => item,
            None => FormDataItem::ValueAsString { name: "", value: None },
        }
    }
}

/// The first index at or after `i` where `d` occurs in `s`, or `s.len()`.
pub open spec fn find_seq(s: Seq<u8>, d: Seq<u8>, i: int) -> int
    decreases s.len() - i,
{
    if i < 0 || i >= s.len() || i + d.len() > s.len() {
        s.len() as int
    } else if s.subrange(i, i + d.len()) == d {
        i
    } else {
        find_seq(s, d, i + 1)
    }
}

pub proof fn lemma_find_seq(s: Seq<u8>, d: Seq<u8>, i: int)
    requires
        0 <= i <= s.len(),
    ensures
        i <= find_seq(s, d, i) <= s.len(),
        find_seq(s, d, i) < s.len() ==> find_seq(s, d, i) + d.len() <= s.len(),
    decreases s.len() - i,
{
    if i < s.len() && i + d.len() <= s.len() && s.subrange(i, i + d.len()) != d {
        lemma_find_seq(s, d, i + 1);
    }
}

/// The parts of a form body from `i` on, `i` just past a delimiter: a part
/// starts after the CR LF that follows a delimiter and runs up to the next
/// delimiter. A delimiter followed by anything else (`--` at the end of the
/// body) ends the parts, and so does a part no delimiter closes.
pub open spec fn parts_from(s: Seq<u8>, d: Seq<u8>, i: int) -> Seq<(int, int)>
    decreases s.len() - i,
{
    if i < 0 || i + 2 > s.len() || s[i] != 13 || s[i + 1] != 10 {
        Seq::empty()
    } else {
        let start = i + 2;
        let next = find_seq(s, d, start);
        proof {
            lemma_find_seq(s, d, start);
        }
        if next >= s.len() {
            Seq::empty()
        } else {
            seq![(start, next)] + parts_from(s, d, next + d.len())
        }
    }
}

/// The parts of a form body, as byte ranges. The body's first line is the
/// delimiter that separates them.
pub open spec fn form_parts(s: Seq<u8>) -> Seq<(int, int)> {
    let d = find_byte(s, 13, 0, s.len() as int);
    if d <= 0 || d >= s.len() {
        Seq::empty()
    } else {
        parts_from(s, s.subrange(0, d), d)
    }
}

/// Every part of form body `s` is well formed.
pub open spec fn form_well_formed(s: Seq<u8>) -> bool {
    forall|k: int| 0 <= k < form_parts(s).len() ==> #[trigger] part_model(
        part_bytes(s, form_parts(s)[k]),
    ) is Some
}

/// A reader's items read as the parts `done` of `s`, and these are all of
/// them: then every part of `s` is well formed.
proof fn lemma_all_parts_read<'s>(s: Seq<u8>, done: Seq<(int, int)>, data: Seq<FormDataItem<'s>>)
    requires
        form_parts(s) == done,
        data.len() == done.len(),
        forall|k: int|
            0 <= k < done.len() ==> part_model(part_bytes(s, done[k])) == Some(
                #[trigger] data[k].model(),
            ),
    ensures
        form_well_formed(s),
{
    assert forall|k: int| 0 <= k < form_parts(s).len() implies #[trigger] part_model(
        part_bytes(s, form_parts(s)[k]),
    ) is Some by {
        assert(part_model(part_bytes(s, done[k])) == Some(data[k].model()));
    }
}

/// `d` occurs in `s` at `k`.
fn occurs_exec(s: &[u8], d: &[u8], k: usize) -> (r: bool)
    requires
        k + d@.len() <= s@.len(),
    ensures
        r == (s@.subrange(k as int, k + d@.len()) == d@),
{
    let n = d.len();
    let len = s.len();
    let mut j: usize = 0;
    while j < n
        invariant
            n == d@.len(),
            len == s@.len(),
            k + n <= len,
            j <= n,
            forall|m: int| 0 <= m < j ==> s@[k + m] == d@[m],
        decreases n - j,
    {
        if s[k + j] != d[j] {
            assert(s@.subrange(k as int, k + n)[j as int] != d@[j as int]);
            return false;
        }
        j = j + 1;
    }
    assert(s@.subrange(k as int, k + n) =~= d@);
    true
}

fn find_seq_exec(s: &[u8], d: &[u8], i: usize) -> (r: usize)
    requires
        i <= s@.len(),
    ensures
        r == find_seq(s@, d@, i as int),
{
    let len = s.len();
    let n = d.len();
    let mut k = i;
    while k < len && n <= len - k
        invariant
            len == s@.len(),
            n == d@.len(),
            i <= k <= len,
            find_seq(s@, d@, k as int) == find_seq(s@, d@, i as int),
        decreases len - k,
    {
        if occurs_exec(s, d, k) {
            return k;
        }
        k = k + 1;
    }
    len
}

/// The parts of a `multipart/form-data` body.
pub struct FormDataReader<'s> {
    data: Vec<FormDataItem<'s>>,
}

impl<'s> FormDataReader<'s> {
    /// The parts, in the order they come in the body.
    pub closed spec fn items(&self) -> Seq<FormDataItem<'s>> {
        self.data@
    }

    /// The reader holds one item for each part of `s`, read as [`part_model`] reads it.
    pub open spec fn reads(&self, s: Seq<u8>) -> bool {
        &&& self.items().len() == form_parts(s).len()
        &&& forall|k: int|
            0 <= k < self.items().len() ==> part_model(part_bytes(s, form_parts(s)[k])) == Some(
                #[trigger] self.items()[k].model(),
            )
    }

    /// Reads a form body, or `None` when one of its parts is not well formed.
    pub fn try_new(content: &'s [u8]) -> (r: Option<Self>)
        ensures
            r is Some <==> form_well_formed(content@),
            r matches Some(reader) ==> reader.reads(content@),
    {
        let ghost s = content@;
        let len = content.len();
        let d = find_byte_exec(content, 13, 0, len);
        if d == 0 || d >= len {
            let empty = FormDataReader { data: Vec::new() };
            assert(empty.items() =~= Seq::<FormDataItem<'s>>::empty());
            return Some(empty);
        }
        let delim = &content[0..d];
        let ghost ds = s.subrange(0, d as int);
        let mut data: Vec<FormDataItem<'s>> = Vec::new();
        let mut i: usize = d;
        let ghost mut done: Seq<(int, int)> = Seq::empty();
        assert(form_parts(s) =~= done + parts_from(s, ds, i as int));
        loop
            invariant
                s == content@,
                len == s.len(),
                delim@ == ds,
                ds.len() == d,
                i <= len,
                form_parts(s) == done + parts_from(s, ds, i as int),
                data@.len() == done.len(),
                forall|k: int|
                    0 <= k < done.len() ==> part_model(part_bytes(s, done[k])) == Some(
                        #[trigger] data@[k].model(),
                    ),
            decreases len - i,
        {
            if len - i < 2 || content[i] != 13 || content[i + 1] != 10 {
                assert(parts_from(s, ds, i as int) =~= Seq::<(int, int)>::empty());
                assert(form_parts(s) =~= done);
                proof {
                    lemma_all_parts_read(s, done, data@);
                }
                let reader = FormDataReader { data };
                assert(reader.items() == data@);
                return Some(reader);
            }
            let start = i + 2;
            proof {
                lemma_find_seq(s, ds, start as int);
            }
            let next = find_seq_exec(content, delim, start);
            if next >= len {
                assert(parts_from(s, ds, i as int) =~= Seq::<(int, int)>::empty());
                assert(form_parts(s) =~= done);
                proof {
                    lemma_all_parts_read(s, done, data@);
                }
                let reader = FormDataReader { data };
                assert(reader.items() == data@);
                return Some(reader);
            }
            let part = &content[start..next];
            assert(parts_from(s, ds, i as int) == seq![(start as int, next as int)] + parts_from(
                s,
                ds,
                next + d,
            ));
            match FormDataItem::try_parse(part) {
                Some(item) => {
                    data.push(item);
                    proof {
                        done = done.push((start as int, next as int));
                        assert(form_parts(s) =~= done + parts_from(s, ds, next + d));
                    }
                    i = next + d;
                },
                None => {
                    assert(form_parts(s)[done.len() as int] == (start as int, next as int));
                    assert(part@ == part_bytes(s, (start as int, next as int)));
                    assert(!(part_model(part_bytes(s, form_parts(s)[done.len() as int])) is Some));
                    return None;
                },
            }
        }
    }

    /// Reads a form body whose parts are all well formed.
    pub fn new(content: &'s [u8]) -> (r: Self)
        requires
            form_well_formed(content@),
        ensures
            r.reads(content@),
    {
        match Self::try_new(content) {
            Some(reader) => reader,
            None => FormDataReader { data: Vec::new() },
        }
    }

    /// The first item named `name`; `400` when there is none.
    pub fn get_required(&'s self, name: &str) -> (r: Result<&'s FormDataItem<'s>, HttpFailResult>)
        ensures
            match r {
                Ok(item) => exists|i: int|
                    0 <= i < self.items().len() && *item == self.items()[i]
                        && self.items()[i].name_view() == name@ && forall|j: int|
                        0 <= j < i ==> #[trigger] self.items()[j].name_view() != name@,
                Err(e) => {
                    &&& forall|j: int|
                        0 <= j < self.items().len() ==> #[trigger] self.items()[j].name_view()
                            != name@
                    &&& e.output@ == text_output(400, missing_parameter_text(name@, "form data"@))
                },
            },
    {
        match self.get_optional(name) {
            Some(item) => Ok(item),
            None => HttpFailResult::required_parameter_is_missing(name, "form data").into_err(),
        }
    }

    /// The first item named `name`, if any.
    pub fn get_optional(&'s self, name: &str) -> (r: Option<&'s FormDataItem<'s>>)
        ensures
            match r {
                Some(item) => exists|i: int|
                    0 <= i < self.items().len() && *item == self.items()[i]
                        && self.items()[i].name_view() == name@ && forall|j: int|
                        0 <= j < i ==> #[trigger] self.items()[j].name_view() != name@,
                None => forall|j: int|
                    0 <= j < self.items().len() ==> #[trigger] self.items()[j].name_view()
                        != name@,
            },
    {
        let mut i: usize = 0;
        while i < self.data.len()
            invariant
                i <= self.data@.len(),
                forall|j: int| 0 <= j < i ==> #[trigger] self.data@[j].name_view() != name@,
            decreases self.data@.len() - i,
        {
            if str_equals(self.data[i].get_name(), name) {
                assert(self.items()[i as int].name_view() == name@);
                return Some(&self.data[i]);
            }
            i = i + 1;
        }
        None
    }
}


/// The bytes of `Content-Disposition: form-data; name="`.
pub open spec fn name_prefix() -> Seq<u8> {
    seq![
        67u8, 111, 110, 116, 101, 110, 116, 45, 68, 105, 115, 112, 111, 115, 105, 116, 105, 111,
        110, 58, 32, 102, 111, 114, 109, 45, 100, 97, 116, 97, 59, 32, 110, 97, 109, 101, 61, 34,
    ]
}

/// A form field named `name` holding `value`, written as a part.
pub open spec fn value_part(name: Seq<u8>, value: Seq<u8>) -> Seq<u8> {
    name_prefix() + name + seq![34u8, 13, 10, 13, 10] + value + seq![13u8, 10]
}

proof fn lemma_find_byte_at(s: Seq<u8>, b: u8, i: int, e: int, k: int)
    requires
        0 <= i <= k <= e <= s.len(),
        forall|j: int| i <= j < k ==> #[trigger] s[j] != b,
        k < e ==> s[k] == b,
    ensures
        find_byte(s, b, i, e) == k,
    decreases k - i,
{
    if i < k {
        lemma_find_byte_at(s, b, i + 1, e, k);
    }
}

/// Bytes that encode an ASCII text read as that text.
proof fn lemma_range_is_text(s: Seq<u8>, a: int, b: int, lit: Seq<char>)
    requires
        0 <= a <= b <= s.len(),
        s.subrange(a, b) == encode_utf8(lit),
    ensures
        range_is(s, a, b, lit),
{
    encode_utf8_valid_utf8(lit);
    encode_utf8_decode_utf8(lit);
}

/// Bytes of another length than a text's encoding do not read as it.
proof fn lemma_range_is_not_text(s: Seq<u8>, a: int, b: int, lit: Seq<char>)
    requires
        0 <= a <= b <= s.len(),
        b - a != encode_utf8(lit).len(),
    ensures
        !range_is(s, a, b, lit),
{
    if range_is(s, a, b, lit) {
        decode_utf8_encode_utf8(s.subrange(a, b));
    }
}

/// A field written as a part reads back as that field: its name, and its
/// value unless the value is empty. The name must be text with no white space,
/// control character or `;` in it.
#[verifier::rlimit(40)]
pub proof fn law_value_part_reads_back(name: Seq<u8>, value: Seq<u8>)
    requires
        forall|i: int| 0 <= i < name.len() ==> #[trigger] name[i] > 32 && name[i] != 59,
        valid_utf8(name),
        value.len() == 0 || valid_utf8(value),
    ensures
        part_model(value_part(name, value)) == Some(
            PartModel::Value {
                name,
                value: if value.len() == 0 {
                    None
                } else {
                    Some(value)
                },
            },
        ),
{
    let p = name_prefix();
    let s = value_part(name, value);
    let nl = name.len() as int;
    let len = s.len() as int;
    let e = 39 + nl;
    assert(len == 45 + nl + value.len());
    assert forall|i: int| 0 <= i < 38 implies #[trigger] s[i] == p[i] by {}
    assert forall|i: int| 38 <= i < 38 + nl implies #[trigger] s[i] == name[i - 38] by {}
    assert(s[e - 1] == 34 && s[e] == 13 && s[e + 1] == 10 && s[e + 2] == 13 && s[e + 3] == 10);
    assert(s.subrange(e + 4, len - 2) =~= value);
    assert(s.subrange(38, e - 1) =~= name);

    // the first line is named `Content-Disposition`
    assert(s[0] == 67);
    assert(skip_blank(s, 0, len) == 0);
    lemma_find_byte_at(s, 58, 0, len, 19);
    reveal_strlit("Content-Disposition");
    reveal_strlit("content-disposition");
    is_ascii_chars_encode_utf8("Content-Disposition"@);
    assert(s.subrange(0, 19) =~= encode_utf8("Content-Disposition"@));
    lemma_range_is_text(s, 0, 19, "Content-Disposition"@);
    assert(eq_ignore_case("Content-Disposition"@, "content-disposition"@));
    assert forall|j: int| 20 <= j < e implies #[trigger] s[j] != 13 by {
        if j >= 38 && j < e - 1 {
            assert(name[j - 38] > 32);
        }
    }
    lemma_find_byte_at(s, 13, 20, len, e);

    // its first parameter, `form-data`, names nothing
    lemma_find_byte_at(s, 59, 20, e, 30);
    assert(skip_blank(s, 21, 30) == 21);
    assert(skip_blank(s, 20, 30) == 21);
    assert(trim_back(s, 21, 30) == 30);
    lemma_find_byte_at(s, 61, 21, 30, 30);
    reveal_strlit("name");
    reveal_strlit("filename");
    is_ascii_chars_encode_utf8("name"@);
    is_ascii_chars_encode_utf8("filename"@);
    lemma_range_is_not_text(s, 21, 30, "name"@);
    lemma_range_is_not_text(s, 21, 30, "filename"@);
    assert(param_step(s, 20, 30, None, None) == (None::<(int, int)>, None::<(int, int)>));

    // its second, `name="..."`, gives the name
    assert forall|j: int| 31 <= j < e implies #[trigger] s[j] != 59 by {
        if j >= 38 && j < e - 1 {
            assert(name[j - 38] != 59);
        }
    }
    lemma_find_byte_at(s, 59, 31, e, e);
    assert(skip_blank(s, 32, e) == 32);
    assert(skip_blank(s, 31, e) == 32);
    assert(trim_back(s, 32, e) == e);
    lemma_find_byte_at(s, 61, 32, e, 36);
    assert(trim_back(s, 32, 36) == 36);
    assert(skip_blank(s, 37, e) == 37);
    assert(unquote(s, 37, e) == (38int, e - 1));
    assert(s.subrange(32, 36) =~= encode_utf8("name"@));
    lemma_range_is_text(s, 32, 36, "name"@);
    lemma_range_is_not_text(s, 32, 36, "filename"@);
    assert(param_step(s, 31, e, None, None) == (Some((38int, e - 1)), None::<(int, int)>));
    assert(disposition(s, 31, e, None, None) == (Some((38int, e - 1)), None::<(int, int)>));
    assert(disposition(s, 20, e, None, None) == (Some((38int, e - 1)), None::<(int, int)>));

    // then the empty line, and the content
    assert(scan(s, e, (Some((38int, e - 1)), None, None)) == Some(
        ((Some((38int, e - 1)), None::<(int, int)>, None::<(int, int)>), e + 4),
    ));
    assert(scan(s, 0, (None, None, None)) == Some(
        ((Some((38int, e - 1)), None::<(int, int)>, None::<(int, int)>), e + 4),
    ));
}


/// No byte before the one [`find_byte`] finds is the byte looked for.
proof fn lemma_find_byte_first(s: Seq<u8>, b: u8, i: int, e: int)
    requires
        0 <= i <= e <= s.len(),
    ensures
        forall|j: int| i <= j < find_byte(s, b, i, e) ==> #[trigger] s[j] != b,
    decreases e - i,
{
    if i < e && s[i] != b {
        lemma_find_byte_first(s, b, i + 1, e);
    }
}

/// `s` holds an empty line (CR LF CR LF) at `k`, and at no earlier index.
pub open spec fn first_blank_line(s: Seq<u8>, k: int) -> bool {
    &&& 0 <= k
    &&& k + 4 <= s.len()
    &&& s[k] == 13 && s[k + 1] == 10 && s[k + 2] == 13 && s[k + 3] == 10
    &&& forall|j: int|
        0 <= j < k ==> !(#[trigger] s[j] == 13 && s[j + 1] == 10 && s[j + 2] == 13 && s[j + 3] == 10)
}

/// A header line starts at `p`: at the start of the part, or after CR LF.
pub open spec fn line_start(s: Seq<u8>, p: int) -> bool {
    p == 0 || (p >= 2 && s[p - 2] == 13 && s[p - 1] == 10)
}

/// The lines before the empty line at `k` are header lines `Name: value`: the
/// first starts the part, every CR among them ends a line and is followed by
/// LF and the next line's first visible byte, and every line has a colon and a
/// non-blank value before its CR.
pub open spec fn header_lines_well_formed(s: Seq<u8>, k: int) -> bool {
    &&& (k == 0 || s[0] > 32)
    &&& forall|i: int|
        0 <= i < k && #[trigger] s[i] == 13 ==> i + 2 < s.len() && s[i + 1] == 10 && s[i + 2] > 32
    &&& forall|p: int|
        0 <= p < k && line_start(s, p) && #[trigger] s[p] > 32 ==> {
            &&& find_byte(s, 58, p, s.len() as int) < find_byte(s, 13, p, s.len() as int)
            &&& skip_blank(s, find_byte(s, 58, p, s.len() as int) + 1, s.len() as int) < find_byte(
                s,
                13,
                p,
                s.len() as int,
            )
        }
}

/// Where the name of the header line starting at `p` ends: its first colon.
pub open spec fn header_colon(s: Seq<u8>, p: int) -> int {
    find_byte(s, 58, p, s.len() as int)
}

/// A header line named `Content-Type`, in any ASCII case, starts at `p`.
pub open spec fn content_type_line(s: Seq<u8>, p: int) -> bool {
    &&& 0 <= p < s.len()
    &&& line_start(s, p)
    &&& s[p] > 32
    &&& valid_utf8(s.subrange(p, header_colon(s, p)))
    &&& eq_ignore_case(decode_utf8(s.subrange(p, header_colon(s, p))), "content-type"@)
}

/// The value of the header line starting at `p`: from the first visible byte
/// after its colon up to its CR.
pub open spec fn header_value(s: Seq<u8>, p: int) -> (int, int) {
    let start = skip_blank(s, header_colon(s, p) + 1, s.len() as int);
    (start, find_byte(s, 13, start, s.len() as int))
}

/// Some line in `[a, b)` is a `Content-Type` header line.
pub open spec fn content_type_line_in(s: Seq<u8>, a: int, b: int) -> bool {
    exists|q: int| a <= q < b && #[trigger] content_type_line(s, q)
}

#[verifier::rlimit(40)]
proof fn lemma_scan_stops_at_blank_line(
    s: Seq<u8>,
    k: int,
    pos: int,
    st: (Option<(int, int)>, Option<(int, int)>, Option<(int, int)>),
)
    requires
        first_blank_line(s, k),
        header_lines_well_formed(s, k),
        0 <= pos <= k,
        pos == 0 || s[pos] == 13,
    ensures
        scan(s, pos, st) matches Some((st2, c)) ==> {
            &&& c == k + 4
            &&& (st2.2 is Some <==> (st.2 is Some || content_type_line_in(s, pos, k)))
            &&& (st2.2 matches Some(r) ==> ((st.2 == Some(r) && !content_type_line_in(s, pos, k))
                || exists|q: int|
                pos <= q < k && #[trigger] content_type_line(s, q) && r == header_value(s, q)
                    && !content_type_line_in(s, q + 1, k)))
        },
    decreases s.len() - pos,
{
    let len = s.len() as int;
    if pos < k {
        assert(!(s[pos] == 13 && s[pos + 1] == 10 && s[pos + 2] == 13 && s[pos + 3] == 10));
        let p = skip_blank(s, pos, len);
        if s[pos] == 13 {
            assert(s[pos + 1] == 10 && s[pos + 2] > 32);
            assert(skip_blank(s, pos + 2, len) == pos + 2);
            assert(skip_blank(s, pos + 1, len) == pos + 2);
            assert(p == pos + 2);
        } else {
            assert(pos == 0 && s[0] > 32);
            assert(p == 0);
        }
        assert(line_start(s, p));
        assert(s[p] > 32);
        assert(p < k) by {
            if p >= k {
                assert(p == pos + 2);
            }
        }
        let e = find_byte(s, 13, p, len);
        lemma_find_byte(s, 13, p, len);
        lemma_find_byte_first(s, 13, p, len);
        assert(e <= k) by {
            if e > k {
                assert(s[k] != 13);
            }
        }
        let colon = find_byte(s, 58, p, len);
        lemma_find_byte(s, 58, p, len);
        assert(colon < e);
        assert forall|j: int| colon + 1 <= j < e implies #[trigger] s[j] != 13 by {}
        lemma_find_byte_at(s, 13, colon + 1, len, e);
        let start = skip_blank(s, colon + 1, len);
        lemma_skip_blank(s, colon + 1, len);
        assert(start < e);
        assert forall|j: int| start <= j < e implies #[trigger] s[j] != 13 by {}
        lemma_find_byte_at(s, 13, start, len, e);
        assert(s[e] == 13);
        assert(header_value(s, p) == (start, e));
        // no other line of `[pos, e)` starts a header line
        assert forall|q: int| pos <= q < e && q != p implies !#[trigger] content_type_line(s, q) by {
            if content_type_line(s, q) {
                if q < p {
                    assert(q == pos || q == pos + 1);
                } else if q == p + 1 {
                    assert(s[q - 1] == s[p]);
                } else {
                    assert(s[q - 2] != 13);
                }
            }
        }
        reveal_strlit("content-disposition");
        reveal_strlit("content-type");
        let name = decode_utf8(s.subrange(p, colon));
        assert(eq_ignore_case(name, "content-disposition"@) ==> !eq_ignore_case(name, "content-type"@));
        let nf = disposition(s, colon + 1, e, st.0, st.1);
        lemma_scan_stops_at_blank_line(s, k, e, (nf.0, nf.1, st.2));
        lemma_scan_stops_at_blank_line(s, k, e, st);
        if valid_utf8(s.subrange(start, e)) {
            lemma_scan_stops_at_blank_line(s, k, e, (st.0, st.1, Some((start, e))));
        }
        if content_type_line_in(s, pos, k) {
            let q = choose|q: int| pos <= q < k && #[trigger] content_type_line(s, q);
            if q != p {
                assert(e <= q < k && content_type_line(s, q));
            }
        }
        if content_type_line_in(s, e, k) {
            let q = choose|q: int| e <= q < k && #[trigger] content_type_line(s, q);
            assert(pos <= q < k && content_type_line(s, q));
        }
        if content_type_line(s, p) {
            assert(pos <= p < k && content_type_line(s, p));
            if !content_type_line_in(s, e, k) {
                assert(!content_type_line_in(s, p + 1, k)) by {
                    if content_type_line_in(s, p + 1, k) {
                        let q = choose|q: int| p + 1 <= q < k && #[trigger] content_type_line(s, q);
                        assert(e <= q < k && content_type_line(s, q));
                    }
                }
            }
        } else if !content_type_line_in(s, e, k) {
            assert(!content_type_line_in(s, pos, k)) by {
                if content_type_line_in(s, pos, k) {
                    let q = choose|q: int| pos <= q < k && #[trigger] content_type_line(s, q);
                    assert(e <= q < k && content_type_line(s, q));
                }
            }
        }
    }
}

/// What a part's content reads as: a value's text (empty when it has none),
/// or a file's bytes.
pub open spec fn part_content(m: PartModel) -> Seq<u8> {
    match m {
        PartModel::Value { value, .. } => match value {
            Some(v) => v,
            None => Seq::empty(),
        },
        PartModel::File { content, .. } => content,
    }
}

/// For a part whose header lines are well formed, the content a read part
/// holds is what lies between the first empty line and the closing CR LF.
pub proof fn law_content_follows_first_blank_line(s: Seq<u8>, k: int)
    requires
        first_blank_line(s, k),
        header_lines_well_formed(s, k),
    ensures
        part_model(s) matches Some(m) ==> part_content(m) == s.subrange(k + 4, s.len() - 2),
{
    lemma_scan_stops_at_blank_line(s, k, 0, (None, None, None));
}

/// A part read from `s`, whose header lines are well formed and end at the
/// empty line at `k`, holds what lies between that line and the closing
/// CR LF; it is a file exactly when one of its header lines is named
/// `Content-Type` in any ASCII case, and then its content type is the value of
/// the last such line; as a value it has none exactly when that content is empty.
pub proof fn law_part_reads_by_its_headers(s: Seq<u8>, k: int)
    requires
        first_blank_line(s, k),
        header_lines_well_formed(s, k),
    ensures
        part_model(s) matches Some(m) ==> {
            &&& part_content(m) == s.subrange(k + 4, s.len() - 2)
            &&& (m is File <==> content_type_line_in(s, 0, k))
            &&& (m matches PartModel::File { content_type, .. } ==> exists|q: int|
                0 <= q < k && #[trigger] content_type_line(s, q) && !content_type_line_in(s, q + 1, k)
                    && content_type == s.subrange(header_value(s, q).0, header_value(s, q).1))
            &&& (m matches PartModel::Value { value, .. } ==> (value is None <==> k + 4 == s.len()
                - 2))
        },
{
    lemma_scan_stops_at_blank_line(s, k, 0, (None, None, None));
}

} // verus!
