//! The path of a request, compared as routes compare it.
use vstd::prelude::*;
use vstd::string::*;
use crate::text::{lower_code, starts_with_ignore_case, eq_ignore_case, char_lower_code, str_equals};
use vstd::utf8::*;

verus! {

/// Read access to the path of a request.
pub struct HttpPathReader<'s> {
    data: &'s str,
}

impl<'s> View for HttpPathReader<'s> {
    type V = Seq<char>;

    closed spec fn view(&self) -> Seq<char> {
        self.data@
    }
}

impl<'s> HttpPathReader<'s> {
    /// The length of the path in bytes.
    pub closed spec fn byte_len(&self) -> nat {
        self.data.spec_bytes().len()
    }

    pub fn new(data: &'s str) -> (r: Self)
        ensures
            r@ == data@,
            r.byte_len() == data.spec_bytes().len(),
    {
        HttpPathReader { data }
    }

    pub fn as_str(&self) -> (r: &'s str)
        ensures
            r@ == self@,
    {
        self.data
    }

    pub fn to_string(&self) -> (r: String)
        ensures
            r@ == self@,
    {
        String::from_str(self.data)
    }

    pub fn equals_to(&self, path: &str) -> (r: bool)
        ensures
            r == (self@ == path@),
    {
        str_equals(self.data, path)
    }

    /// Whether `path` is this path with ASCII case ignored. (The lengths in
    /// bytes are compared first, which decides nothing the characters would
    /// not: see [`law_equal_ignoring_case_means_equal_length`].)
    pub fn equals_to_case_insensitive(&self, path: &str) -> (r: bool)
        ensures
            r == eq_ignore_case(self@, path@),
    {
        proof {
            law_equal_ignoring_case_means_equal_length(self.data@, path@);
            if starts_with_ignore_case(self.data@, path@) && path@.len() < self.data@.len() {
                lemma_prefix_is_shorter(self.data@, path@);
            }
        }
        if path.as_bytes().len() != self.data.as_bytes().len() {
            return false;
        }
        self.chars_match(path)
    }

    /// Whether this path starts with `path`, ASCII case ignored.
    pub fn starts_with_case_insensitive(&self, path: &str) -> (r: bool)
        ensures
            r == starts_with_ignore_case(self@, path@),
    {
        proof {
            if starts_with_ignore_case(self.data@, path@) {
                if path@.len() < self.data@.len() {
                    lemma_prefix_is_shorter(self.data@, path@);
                } else {
                    law_equal_ignoring_case_means_equal_length(self.data@, path@);
                }
            }
        }
        if path.as_bytes().len() > self.data.as_bytes().len() {
            return false;
        }
        self.chars_match(path)
    }

    /// Whether the characters of `path` match the first ones of this path,
    /// ASCII case ignored.
    fn chars_match(&self, path: &str) -> (r: bool)
        ensures
            r == starts_with_ignore_case(self@, path@),
    {
        let n = self.data.unicode_len();
        let m = path.unicode_len();
        let mut i: usize = 0;
        while i < m
            invariant
                n == self.data@.len(),
                m == path@.len(),
                i <= m,
                i <= n,
                forall|k: int| 0 <= k < i ==> #[trigger] lower_code(self.data@[k]) == lower_code(path@[k]),
            decreases m - i,
        {
            if i >= n {
                return false;
            }
            if char_lower_code(self.data.get_char(i)) != char_lower_code(path.get_char(i)) {
                return false;
            }
            i = i + 1;
            if i > n {
                return false;
            }
        }
        true
    }
}

/// Two characters equal but for ASCII case take as many bytes.
proof fn lemma_scalar_len_same(a: char, b: char)
    requires
        lower_code(a) == lower_code(b),
    ensures
        encode_scalar(a as u32).len() == encode_scalar(b as u32).len(),
{
    if a != b {
        assert((a as u32) < 128 && (b as u32) < 128);
    }
}

/// Texts equal but for ASCII case take as many bytes.
proof fn lemma_encode_len_same(s: Seq<char>, p: Seq<char>)
    requires
        s.len() == p.len(),
        forall|i: int| 0 <= i < s.len() ==> #[trigger] lower_code(s[i]) == lower_code(p[i]),
    ensures
        encode_utf8(s).len() == encode_utf8(p).len(),
    decreases s.len(),
{
    if s.len() > 0 {
        assert(lower_code(s[0]) == lower_code(p[0]));
        lemma_scalar_len_same(s[0], p[0]);
        let s1 = s.drop_first();
        let p1 = p.drop_first();
        assert forall|i: int| 0 <= i < s1.len() implies #[trigger] lower_code(s1[i]) == lower_code(p1[i]) by {
            assert(lower_code(s[i + 1]) == lower_code(p[i + 1]));
        }
        lemma_encode_len_same(s1, p1);
    }
}

/// Every character takes at least one byte.
proof fn lemma_encode_len_at_least(s: Seq<char>, k: int)
    requires
        0 <= k <= s.len(),
    ensures
        encode_utf8(s).len() >= encode_utf8(s.take(k)).len() + (s.len() - k),
    decreases s.len(),
{
    if s.len() > 0 {
        let rest = s.drop_first();
        if k == 0 {
            assert(s.take(0) =~= Seq::<char>::empty());
            lemma_encode_len_at_least(rest, 0);
            assert(rest.take(0) =~= Seq::<char>::empty());
        } else {
            lemma_encode_len_at_least(rest, k - 1);
            assert(s.take(k).drop_first() =~= rest.take(k - 1));
            assert(s.take(k)[0] == s[0]);
        }
    } else {
        assert(s.take(k) =~= s);
    }
}

/// A text that a longer one starts with (ASCII case ignored) takes fewer bytes.
proof fn lemma_prefix_is_shorter(s: Seq<char>, p: Seq<char>)
    requires
        starts_with_ignore_case(s, p),
        p.len() < s.len(),
    ensures
        encode_utf8(p).len() < encode_utf8(s).len(),
{
    let t = s.take(p.len() as int);
    assert forall|i: int| 0 <= i < t.len() implies #[trigger] lower_code(t[i]) == lower_code(p[i]) by {
        assert(lower_code(s[i]) == lower_code(p[i]));
    }
    lemma_encode_len_same(t, p);
    lemma_encode_len_at_least(s, p.len() as int);
}

/// Paths equal but for ASCII case are equally long in bytes: comparing byte
/// lengths first never turns away a path that matches.
pub proof fn law_equal_ignoring_case_means_equal_length(s: Seq<char>, p: Seq<char>)
    ensures
        eq_ignore_case(s, p) ==> encode_utf8(s).len() == encode_utf8(p).len(),
        eq_ignore_case(s, p) <==> starts_with_ignore_case(s, p) && s.len() == p.len(),
{
    if eq_ignore_case(s, p) {
        lemma_encode_len_same(s, p);
    }
}


/// Comparing paths with ASCII case ignored does not depend on which one is
/// the reader's.
pub proof fn law_equality_ignoring_case_is_symmetric(a: Seq<char>, b: Seq<char>)
    ensures
        eq_ignore_case(a, b) == eq_ignore_case(b, a),
{
}

/// Equal paths are equal with case ignored; a path equal to another with case
/// ignored starts with it; every path starts with the empty one.
pub proof fn law_equal_paths_match_ignoring_case(a: Seq<char>, b: Seq<char>)
    ensures
        a == b ==> eq_ignore_case(a, b),
        eq_ignore_case(a, b) ==> starts_with_ignore_case(a, b),
        starts_with_ignore_case(a, Seq::empty()),
{
}


/// A byte after ASCII lower-casing.
pub open spec fn lower_byte(b: u8) -> int {
    if 65 <= b && b <= 90 {
        b + 32
    } else {
        b as int
    }
}

/// The bytes `s` start with the bytes `p`, ASCII case ignored.
pub open spec fn bytes_start_with_ignore_case(s: Seq<u8>, p: Seq<u8>) -> bool {
    &&& p.len() <= s.len()
    &&& forall|i: int| 0 <= i < p.len() ==> #[trigger] lower_byte(s[i]) == lower_byte(p[i])
}

/// The encoding of a character below 128 is that one byte.
proof fn lemma_ascii_scalar(c: char)
    requires
        (c as u32) < 128,
    ensures
        encode_scalar(c as u32).len() == 1,
        encode_scalar(c as u32)[0] as u32 == c as u32,
{
    vstd::utf8::is_ascii_chars_encode_utf8(seq![c]);
    assert(seq![c].drop_first() =~= Seq::<char>::empty());
    assert(encode_utf8(seq![c]) =~= encode_scalar(c as u32));
}

/// Characters equal but for ASCII case have encodings equal but for ASCII case.
proof fn lemma_scalar_bytes(a: char, b: char)
    requires
        lower_code(a) == lower_code(b),
    ensures
        encode_scalar(a as u32).len() == encode_scalar(b as u32).len(),
        forall|j: int|
            0 <= j < encode_scalar(a as u32).len() ==> #[trigger] lower_byte(encode_scalar(a as u32)[j])
                == lower_byte(encode_scalar(b as u32)[j]),
{
    if a != b {
        lemma_ascii_scalar(a);
        lemma_ascii_scalar(b);
    }
}

proof fn lemma_prefix_bytes_forward(s: Seq<char>, p: Seq<char>)
    requires
        starts_with_ignore_case(s, p),
    ensures
        bytes_start_with_ignore_case(encode_utf8(s), encode_utf8(p)),
    decreases p.len(),
{
    if p.len() > 0 {
        let s1 = s.drop_first();
        let p1 = p.drop_first();
        assert(lower_code(s[0]) == lower_code(p[0]));
        assert forall|i: int| 0 <= i < p1.len() implies #[trigger] lower_code(s1[i]) == lower_code(p1[i]) by {
            assert(lower_code(s[i + 1]) == lower_code(p[i + 1]));
        }
        lemma_prefix_bytes_forward(s1, p1);
        lemma_scalar_bytes(s[0], p[0]);
        let a = encode_scalar(s[0] as u32);
        let b = encode_scalar(p[0] as u32);
        let es = encode_utf8(s);
        let ep = encode_utf8(p);
        assert(es == a + encode_utf8(s1));
        assert(ep == b + encode_utf8(p1));
        assert forall|i: int| 0 <= i < ep.len() implies #[trigger] lower_byte(es[i]) == lower_byte(ep[i]) by {
            if i < b.len() {
                assert(es[i] == a[i] && ep[i] == b[i]);
            } else {
                assert(es[i] == encode_utf8(s1)[i - a.len()]);
                assert(ep[i] == encode_utf8(p1)[i - b.len()]);
                assert(lower_byte(encode_utf8(s1)[i - b.len()]) == lower_byte(encode_utf8(p1)[i - b.len()]));
            }
        }
    }
}

proof fn lemma_prefix_bytes_backward(s: Seq<char>, p: Seq<char>)
    requires
        bytes_start_with_ignore_case(encode_utf8(s), encode_utf8(p)),
    ensures
        starts_with_ignore_case(s, p),
    decreases p.len(),
{
    if p.len() > 0 {
        let es = encode_utf8(s);
        let ep = encode_utf8(p);
        encode_utf8_first_scalar(p);
        if s.len() == 0 {
            assert(es.len() == 0);
            assert(false);
        }
        encode_utf8_first_scalar(s);
        let s1 = s.drop_first();
        let p1 = p.drop_first();
        let a = encode_scalar(s[0] as u32);
        let b = encode_scalar(p[0] as u32);
        assert(es == a + encode_utf8(s1));
        assert(ep == b + encode_utf8(p1));
        let wp = b.len() as int;
        assert(lower_byte(es[0]) == lower_byte(ep[0]));
        if (p[0] as u32) < 128 {
            lemma_ascii_scalar(p[0]);
            assert(ep[0] as u32 == p[0] as u32);
            assert(es[0] < 128);
            assert(is_leading_byte_width_1(es[0]));
            let e0 = es[0];
            assert(e0 & 0x7f == e0) by (bit_vector)
                requires
                    e0 < 128,
            ;
            assert(s[0] as u32 == e0 as u32);
            lemma_ascii_scalar(s[0]);
            assert(lower_code(s[0]) == lower_code(p[0]));
        } else {
            let p0 = ep[0];
            if is_leading_byte_width_1(p0) {
                assert(p0 & 0x7f <= 0x7f) by (bit_vector);
                assert(false);
            }
            assert(wp >= 2);
            assert forall|j: int| 0 <= j < wp implies #[trigger] es[j] == ep[j] by {
                assert(ep[j] >= 128);
                assert(lower_byte(es[j]) == lower_byte(ep[j]));
            }
            assert(decode_first_scalar(es) == decode_first_scalar(ep));
            assert(s[0] as u32 == p[0] as u32);
            vstd::utf8::char_u32_cast(s[0], s[0] as u32);
            vstd::utf8::char_u32_cast(p[0], p[0] as u32);
            assert(s[0] == p[0]);
        }
        lemma_scalar_len_same(s[0], p[0]);
        assert(a.len() == wp);
        assert forall|i: int| 0 <= i < encode_utf8(p1).len() implies #[trigger] lower_byte(
            encode_utf8(s1)[i],
        ) == lower_byte(encode_utf8(p1)[i]) by {
            assert(es[i + wp] == encode_utf8(s1)[i]);
            assert(ep[i + wp] == encode_utf8(p1)[i]);
            assert(lower_byte(es[i + wp]) == lower_byte(ep[i + wp]));
        }
        lemma_prefix_bytes_backward(s1, p1);
        assert forall|i: int| 0 <= i < p.len() implies #[trigger] lower_code(s[i]) == lower_code(p[i]) by {
            if i > 0 {
                assert(s[i] == s1[i - 1] && p[i] == p1[i - 1]);
                assert(lower_code(s1[i - 1]) == lower_code(p1[i - 1]));
            }
        }
    }
}

/// Starting with a path, ASCII case ignored, is the same on characters as on
/// their UTF-8 bytes: the reader's prefix test is the byte test
/// `data.as_bytes()[..path.len()].eq_ignore_ascii_case(path.as_bytes())`
/// together with `path.len() <= data.len()`.
pub proof fn law_prefix_ignoring_case_is_bytewise(s: Seq<char>, p: Seq<char>)
    ensures
        starts_with_ignore_case(s, p) <==> bytes_start_with_ignore_case(encode_utf8(s), encode_utf8(p)),
{
    if starts_with_ignore_case(s, p) {
        lemma_prefix_bytes_forward(s, p);
    }
    if bytes_start_with_ignore_case(encode_utf8(s), encode_utf8(p)) {
        lemma_prefix_bytes_backward(s, p);
    }
}


/// Equality with ASCII case ignored is the same on characters as on their
/// UTF-8 bytes: the reader's test is `data.eq_ignore_ascii_case(path)`.
pub proof fn law_equality_ignoring_case_is_bytewise(s: Seq<char>, p: Seq<char>)
    ensures
        eq_ignore_case(s, p) <==> (encode_utf8(s).len() == encode_utf8(p).len()
            && bytes_start_with_ignore_case(encode_utf8(s), encode_utf8(p))),
{
    law_prefix_ignoring_case_is_bytewise(s, p);
    law_equal_ignoring_case_means_equal_length(s, p);
    if starts_with_ignore_case(s, p) && p.len() < s.len() {
        lemma_prefix_is_shorter(s, p);
    }
}

} // verus!
