//! Character-level helpers shared by the header, path and cookie readers.
//!
//! Strings are modelled by their view, a `Seq<char>`. ASCII case folding is
//! modelled on code points (`lower_code`), which is exactly what
//! `char::to_ascii_lowercase` does.
use vstd::prelude::*;
use vstd::utf8::*;
use vstd::string::*;

verus! {

/// `char::is_whitespace`: the Unicode `White_Space` property.
pub open spec fn is_ws(c: char) -> bool {
    ||| c == ' '
    ||| ('\t' <= c && c <= '\r')
    ||| c == '\u{85}'
    ||| c == '\u{a0}'
    ||| c == '\u{1680}'
    ||| ('\u{2000}' <= c && c <= '\u{200a}')
    ||| c == '\u{2028}'
    ||| c == '\u{2029}'
    ||| c == '\u{202f}'
    ||| c == '\u{205f}'
    ||| c == '\u{3000}'
}

/// The code point of `c` after ASCII lower-casing.
pub open spec fn lower_code(c: char) -> u32 {
    if 65 <= (c as u32) && (c as u32) <= 90 {
        ((c as u32) + 32) as u32
    } else {
        c as u32
    }
}

/// A sequence of characters, ASCII lower-cased, as code points.
pub open spec fn lower_seq(s: Seq<char>) -> Seq<u32> {
    s.map_values(|c: char| lower_code(c))
}

/// `p` is a prefix of `s` when ASCII case is ignored.
pub open spec fn starts_with_ignore_case(s: Seq<char>, p: Seq<char>) -> bool {
    &&& p.len() <= s.len()
    &&& forall|i: int| 0 <= i < p.len() ==> #[trigger] lower_code(s[i]) == lower_code(p[i])
}

/// `a` and `b` are equal when ASCII case is ignored.
pub open spec fn eq_ignore_case(a: Seq<char>, b: Seq<char>) -> bool {
    &&& a.len() == b.len()
    &&& forall|i: int| 0 <= i < a.len() ==> #[trigger] lower_code(a[i]) == lower_code(b[i])
}

/// `n` occurs in `h` starting at index `i`.
pub open spec fn occurs_at<T>(h: Seq<T>, n: Seq<T>, i: int) -> bool {
    &&& 0 <= i
    &&& i + n.len() <= h.len()
    &&& h.subrange(i, i + n.len()) == n
}

/// `n` occurs somewhere in `h`.
pub open spec fn seq_contains<T>(h: Seq<T>, n: Seq<T>) -> bool {
    exists|i: int| #[trigger] occurs_at(h, n, i)
}

/// `p` is a prefix of `s`.
pub open spec fn seq_starts_with<T>(s: Seq<T>, p: Seq<T>) -> bool {
    p.len() <= s.len() && s.subrange(0, p.len() as int) == p
}

/// Index of the first character of `s` at or after `i` that is not white space
/// (`s.len()` when there is none).
pub open spec fn ws_start(s: Seq<char>, i: int) -> int
    decreases s.len() - i,
{
    if 0 <= i < s.len() && is_ws(s[i]) {
        ws_start(s, i + 1)
    } else {
        i
    }
}

/// One past the last character of `s[..j]` that is not white space (0 when there is none).
pub open spec fn ws_end(s: Seq<char>, j: int) -> int
    decreases j,
{
    if 0 < j <= s.len() && is_ws(s[j - 1]) {
        ws_end(s, j - 1)
    } else {
        j
    }
}

/// `str::trim`: `s` without leading and trailing white space.
pub open spec fn trimmed(s: Seq<char>) -> Seq<char> {
    let a = ws_start(s, 0);
    let b = ws_end(s, s.len() as int);
    if a < b {
        s.subrange(a, b)
    } else {
        Seq::empty()
    }
}

/// Index of the first occurrence of `c` in `s`, if any.
pub open spec fn first_index_of<T>(s: Seq<T>, c: T) -> Option<int> {
    if exists|i: int| 0 <= i < s.len() && s[i] == c {
        Some(choose|i: int| 0 <= i < s.len() && s[i] == c && forall|j: int| 0 <= j < i ==> s[j] != c)
    } else {
        None
    }
}

pub proof fn lemma_ws_start_bounds(s: Seq<char>, i: int)
    requires
        0 <= i <= s.len(),
    ensures
        i <= ws_start(s, i) <= s.len(),
        forall|k: int| i <= k < ws_start(s, i) ==> is_ws(#[trigger] s[k]),
        ws_start(s, i) < s.len() ==> !is_ws(s[ws_start(s, i)]),
    decreases s.len() - i,
{
    if i < s.len() && is_ws(s[i]) {
        lemma_ws_start_bounds(s, i + 1);
    }
}

pub proof fn lemma_ws_end_bounds(s: Seq<char>, j: int)
    requires
        0 <= j <= s.len(),
    ensures
        0 <= ws_end(s, j) <= j,
        forall|k: int| ws_end(s, j) <= k < j ==> is_ws(#[trigger] s[k]),
        ws_end(s, j) > 0 ==> !is_ws(s[ws_end(s, j) - 1]),
    decreases j,
{
    if 0 < j && is_ws(s[j - 1]) {
        lemma_ws_end_bounds(s, j - 1);
    }
}

/// `char::is_whitespace`.
pub fn char_is_ws(c: char) -> (r: bool)
    ensures
        r == is_ws(c),
{
    c == ' ' || ('\t' <= c && c <= '\r') || c == '\u{85}' || c == '\u{a0}' || c == '\u{1680}'
        || ('\u{2000}' <= c && c <= '\u{200a}') || c == '\u{2028}' || c == '\u{2029}'
        || c == '\u{202f}' || c == '\u{205f}' || c == '\u{3000}'
}

/// ASCII lower-cased code point of `c`.
pub fn char_lower_code(c: char) -> (r: u32)
    ensures
        r == lower_code(c),
{
    let x = c as u32;
    if 65 <= x && x <= 90 {
        x + 32
    } else {
        x
    }
}

/// `s == t` as character sequences.
pub fn str_equals(s: &str, t: &str) -> (r: bool)
    ensures
        r == (s@ == t@),
{
    let n = s.unicode_len();
    let m = t.unicode_len();
    if n != m {
        return false;
    }
    let mut i: usize = 0;
    while i < n
        invariant
            n == s@.len(),
            m == t@.len(),
            n == m,
            i <= n,
            forall|k: int| 0 <= k < i ==> s@[k] == t@[k],
        decreases n - i,
    {
        if s.get_char(i) != t.get_char(i) {
            return false;
        }
        i = i + 1;
    }
    assert(s@ =~= t@);
    true
}

/// `str::eq_ignore_ascii_case`, on characters.
pub fn ascii_equals_ignore_case(s: &str, t: &str) -> (r: bool)
    ensures
        r == eq_ignore_case(s@, t@),
{
    let n = s.unicode_len();
    let m = t.unicode_len();
    if n != m {
        return false;
    }
    let mut i: usize = 0;
    while i < n
        invariant
            n == s@.len(),
            m == t@.len(),
            n == m,
            i <= n,
            forall|k: int| 0 <= k < i ==> #[trigger] lower_code(s@[k]) == lower_code(t@[k]),
        decreases n - i,
    {
        if char_lower_code(s.get_char(i)) != char_lower_code(t.get_char(i)) {
            return false;
        }
        i = i + 1;
    }
    true
}

/// Index of the first `c` in `s` at or after `i` (`s.len()` when there is none).
pub open spec fn next_index_of(s: Seq<char>, c: char, i: int) -> int
    decreases s.len() - i,
{
    if i < 0 {
        0
    } else if i >= s.len() {
        s.len() as int
    } else if s[i] == c {
        i
    } else {
        next_index_of(s, c, i + 1)
    }
}

pub proof fn lemma_next_index_of(s: Seq<char>, c: char, i: int)
    requires
        0 <= i <= s.len(),
    ensures
        i <= next_index_of(s, c, i) <= s.len(),
        forall|k: int| i <= k < next_index_of(s, c, i) ==> #[trigger] s[k] != c,
        next_index_of(s, c, i) < s.len() ==> s[next_index_of(s, c, i)] == c,
    decreases s.len() - i,
{
    if i < s.len() && s[i] != c {
        lemma_next_index_of(s, c, i + 1);
    }
}

/// Index of the first `c` in `s` at or after `start` (`s.len()` when there is none).
pub fn find_char_from(s: &str, c: char, start: usize) -> (r: usize)
    requires
        start <= s@.len(),
    ensures
        r == next_index_of(s@, c, start as int),
{
    let n = s.unicode_len();
    let mut i = start;
    while i < n && s.get_char(i) != c
        invariant
            n == s@.len(),
            start <= i <= n,
            next_index_of(s@, c, i as int) == next_index_of(s@, c, start as int),
        decreases n - i,
    {
        i = i + 1;
    }
    i
}

/// `n` occurs in `h` when ASCII case is ignored.
pub open spec fn contains_ignore_case(h: Seq<char>, n: Seq<char>) -> bool {
    seq_contains(lower_seq(h), lower_seq(n))
}

/// Whether `n` occurs in `h` when ASCII case is ignored.
pub fn str_contains_ignore_case(h: &str, n: &str) -> (r: bool)
    ensures
        r == contains_ignore_case(h@, n@),
{
    let hl = h.unicode_len();
    let nl = n.unicode_len();
    let ghost hs = lower_seq(h@);
    let ghost ns = lower_seq(n@);
    if nl > hl {
        assert forall|i: int| !occurs_at(hs, ns, i) by {}
        return false;
    }
    let mut i: usize = 0;
    while i <= hl - nl
        invariant
            hl == h@.len(),
            nl == n@.len(),
            nl <= hl,
            i <= hl - nl + 1,
            hs == lower_seq(h@),
            ns == lower_seq(n@),
            forall|k: int| 0 <= k < i ==> !occurs_at(hs, ns, k),
        decreases hl - nl + 1 - i,
    {
        let mut j: usize = 0;
        while j < nl && char_lower_code(h.get_char(i + j)) == char_lower_code(n.get_char(j))
            invariant
                hl == h@.len(),
                nl == n@.len(),
                i + nl <= hl,
                j <= nl,
                forall|k: int| 0 <= k < j ==> lower_code(#[trigger] h@[i + k]) == lower_code(n@[k]),
            decreases nl - j,
        {
            j = j + 1;
        }
        if j == nl {
            assert forall|k: int| 0 <= k < nl implies #[trigger] hs.subrange(i as int, i + nl)[k] == ns[k] by {
                assert(hs[i + k] == lower_code(h@[i + k]));
                assert(ns[k] == lower_code(n@[k]));
            }
            assert(hs.subrange(i as int, i + nl) =~= ns);
            assert(occurs_at(hs, ns, i as int));
            return true;
        }
        assert(!occurs_at(hs, ns, i as int)) by {
            if occurs_at(hs, ns, i as int) {
                assert(hs.subrange(i as int, i + nl)[j as int] == ns[j as int]);
                assert(hs[i + j] == lower_code(h@[i + j]));
                assert(ns[j as int] == lower_code(n@[j as int]));
            }
        }
        i = i + 1;
    }
    assert forall|k: int| !occurs_at(hs, ns, k) by {
        if 0 <= k && k + ns.len() <= hs.len() {
            assert(k < i);
        }
    }
    false
}

/// Whether `p` is a prefix of `s`.
pub fn str_starts_with(s: &str, p: &str) -> (r: bool)
    ensures
        r == seq_starts_with(s@, p@),
{
    let n = s.unicode_len();
    let m = p.unicode_len();
    if m > n {
        return false;
    }
    let mut i: usize = 0;
    while i < m
        invariant
            n == s@.len(),
            m == p@.len(),
            m <= n,
            i <= m,
            forall|k: int| 0 <= k < i ==> s@[k] == p@[k],
        decreases m - i,
    {
        if s.get_char(i) != p.get_char(i) {
            assert(s@.subrange(0, m as int)[i as int] != p@[i as int]);
            return false;
        }
        i = i + 1;
    }
    assert(s@.subrange(0, m as int) =~= p@);
    true
}

/// `str::trim_start_matches` with a string pattern: every leading copy of `p` removed.
pub open spec fn strip_all_prefixes(s: Seq<char>, p: Seq<char>) -> Seq<char>
    decreases s.len(),
{
    if p.len() > 0 && seq_starts_with(s, p) {
        strip_all_prefixes(s.subrange(p.len() as int, s.len() as int), p)
    } else {
        s
    }
}

/// `str::trim_start_matches` with a string pattern.
pub fn trim_start_matches<'a>(s: &'a str, p: &str) -> (r: &'a str)
    ensures
        r@ == strip_all_prefixes(s@, p@),
    decreases s@.len(),
{
    let m = p.unicode_len();
    if m > 0 && str_starts_with(s, p) {
        let n = s.unicode_len();
        let rest = s.substring_char(m, n);
        trim_start_matches(rest, p)
    } else {
        s
    }
}

/// The `sep`-separated items of `s[start..]`, each trimmed.
pub open spec fn split_trimmed_from(s: Seq<char>, sep: char, start: int) -> Seq<Seq<char>>
    decreases s.len() - start,
{
    if start < 0 || start > s.len() {
        Seq::empty()
    } else {
        let end = next_index_of(s, sep, start);
        let item = trimmed(s.subrange(start, end));
        proof {
            lemma_next_index_of(s, sep, start);
        }
        if end >= s.len() {
            seq![item]
        } else {
            seq![item] + split_trimmed_from(s, sep, end + 1)
        }
    }
}

/// `s.split(sep).map(str::trim)`.
pub open spec fn split_trimmed(s: Seq<char>, sep: char) -> Seq<Seq<char>> {
    split_trimmed_from(s, sep, 0)
}

/// The abstract value of a list of borrowed strings.
pub open spec fn strs_view(v: Seq<&str>) -> Seq<Seq<char>> {
    v.map_values(|x: &str| x@)
}

/// `s.split(sep).map(str::trim).collect()`.
pub fn split_trim<'a>(s: &'a str, sep: char) -> (r: Vec<&'a str>)
    ensures
        strs_view(r@) == split_trimmed(s@, sep),
        r@.len() > 0,
{
    let mut result: Vec<&'a str> = Vec::new();
    let n = s.unicode_len();
    let mut start: usize = 0;
    assert(strs_view(result@) + split_trimmed_from(s@, sep, 0) =~= split_trimmed(s@, sep));
    loop
        invariant
            n == s@.len(),
            start <= n,
            strs_view(result@) + split_trimmed_from(s@, sep, start as int) == split_trimmed(s@, sep),
        decreases n - start,
    {
        proof {
            lemma_next_index_of(s@, sep, start as int);
        }
        let ghost before = strs_view(result@);
        let end = find_char_from(s, sep, start);
        let item = trim_str(s.substring_char(start, end));
        result.push(item);
        assert(strs_view(result@) =~= before.push(item@));
        if end >= n {
            assert(split_trimmed_from(s@, sep, start as int) == seq![item@]);
            assert(strs_view(result@) =~= before + split_trimmed_from(s@, sep, start as int));
            return result;
        }
        assert(strs_view(result@) + split_trimmed_from(s@, sep, end + 1) =~= before
            + split_trimmed_from(s@, sep, start as int));
        start = end + 1;
    }
}

/// `str::trim`.
pub fn trim_str(s: &str) -> (r: &str)
    ensures
        r@ == trimmed(s@),
{
    let n = s.unicode_len();
    let mut a: usize = 0;
    proof {
        lemma_ws_start_bounds(s@, 0);
    }
    while a < n && char_is_ws(s.get_char(a))
        invariant
            n == s@.len(),
            a <= n,
            ws_start(s@, a as int) == ws_start(s@, 0),
        decreases n - a,
    {
        a = a + 1;
    }
    let mut b: usize = n;
    while b > 0 && char_is_ws(s.get_char(b - 1))
        invariant
            n == s@.len(),
            b <= n,
            ws_end(s@, b as int) == ws_end(s@, n as int),
        decreases b,
    {
        b = b - 1;
    }
    if a < b {
        s.substring_char(a, b)
    } else {
        let r = s.substring_char(0, 0);
        assert(r@ =~= Seq::<char>::empty());
        r
    }
}

/// The ASCII digit for `d < 10`.
pub open spec fn digit_char(d: nat) -> char {
    ((48 + d) as u32) as char
}

/// The decimal rendering of `n`, as `u64::to_string` produces it.
pub open spec fn decimal(n: nat) -> Seq<char>
    decreases n,
{
    if n < 10 {
        seq![digit_char(n)]
    } else {
        decimal(n / 10).push(digit_char(n % 10))
    }
}

fn digit_str(d: u64) -> (r: &'static str)
    requires
        d < 10,
    ensures
        r@ == seq![digit_char(d as nat)],
{
    match d {
        0 => {
            proof { reveal_strlit("0"); }
            "0"
        },
        1 => {
            proof { reveal_strlit("1"); }
            "1"
        },
        2 => {
            proof { reveal_strlit("2"); }
            "2"
        },
        3 => {
            proof { reveal_strlit("3"); }
            "3"
        },
        4 => {
            proof { reveal_strlit("4"); }
            "4"
        },
        5 => {
            proof { reveal_strlit("5"); }
            "5"
        },
        6 => {
            proof { reveal_strlit("6"); }
            "6"
        },
        7 => {
            proof { reveal_strlit("7"); }
            "7"
        },
        8 => {
            proof { reveal_strlit("8"); }
            "8"
        },
        _ => {
            proof { reveal_strlit("9"); }
            "9"
        },
    }
}

/// Appends the decimal rendering of `n` to `s`.
pub fn push_decimal(s: &mut String, n: u64)
    ensures
        final(s)@ == old(s)@ + decimal(n as nat),
    decreases n,
{
    if n >= 10 {
        push_decimal(s, n / 10);
    }
    s.append(digit_str(n % 10));
}

/// `std::str::from_utf8`, with its error dropped: `Some` exactly when `bytes`
/// is valid UTF-8, and then a string made of those very bytes.
#[verifier::external_body]
pub(crate) fn utf8_str(bytes: &[u8]) -> (r: Option<&str>)
    ensures
        r is Some <==> valid_utf8(bytes@),
        r matches Some(s) ==> s.spec_bytes() == bytes@,
{
    std::str::from_utf8(bytes).ok()
}

/// A string whose bytes are `bytes` reads as their UTF-8 decoding.
pub proof fn lemma_str_of_bytes(s: &str, bytes: Seq<u8>)
    requires
        s.spec_bytes() == bytes,
    ensures
        s@ == decode_utf8(bytes),
        valid_utf8(bytes),
{
    encode_utf8_decode_utf8(s@);
    encode_utf8_valid_utf8(s@);
}

/// The UTF-8 bytes of a string.
pub fn str_bytes(s: &str) -> (r: Vec<u8>)
    ensures
        r@ == encode_utf8(s@),
{
    vstd::slice::slice_to_vec(s.as_bytes())
}

} // verus!
