//! Reading the `Cookie` header of a request.
use vstd::prelude::*;
use vstd::string::*;
use crate::text::{
    trimmed, trim_str, next_index_of, lemma_next_index_of, find_char_from, first_index_of,
    str_equals,
};

verus! {

/// A `name=value` item split at its first `=`: the name trimmed of white
/// space, the value exactly as it stands; an item without `=` is a name with
/// an empty value.
pub open spec fn cookie_pair(kv: Seq<char>) -> (Seq<char>, Seq<char>) {
    match first_index_of(kv, '=') {
        Some(i) => (trimmed(kv.subrange(0, i)), kv.subrange(i + 1, kv.len() as int)),
        None => (trimmed(kv), Seq::empty()),
    }
}

/// The cookies of `s[start..]`: its `;`-separated items, each split.
pub open spec fn cookie_pairs_from(s: Seq<char>, start: int) -> Seq<(Seq<char>, Seq<char>)>
    decreases s.len() - start,
{
    if start < 0 || start > s.len() {
        Seq::empty()
    } else {
        let end = next_index_of(s, ';', start);
        let pair = cookie_pair(s.subrange(start, end));
        proof {
            lemma_next_index_of(s, ';', start);
        }
        if end >= s.len() {
            seq![pair]
        } else {
            seq![pair] + cookie_pairs_from(s, end + 1)
        }
    }
}

/// The cookies a `Cookie` header value holds, in order.
pub open spec fn cookie_pairs(s: Seq<char>) -> Seq<(Seq<char>, Seq<char>)> {
    cookie_pairs_from(s, 0)
}

/// The value of the first cookie named `name`.
pub open spec fn cookie_value(pairs: Seq<(Seq<char>, Seq<char>)>, name: Seq<char>) -> Option<Seq<char>>
    decreases pairs.len(),
{
    if pairs.len() == 0 {
        None
    } else if pairs[0].0 == name {
        Some(pairs[0].1)
    } else {
        cookie_value(pairs.drop_first(), name)
    }
}

/// The abstract value of a list of borrowed pairs.
pub open spec fn str_pairs(v: Seq<(&str, &str)>) -> Seq<(Seq<char>, Seq<char>)> {
    v.map_values(|p: (&str, &str)| (p.0@, p.1@))
}

/// The cookies of a request, read from its `Cookie` header (when it has one).
pub struct CookiesReader<'s> {
    pub src: Option<&'s str>,
}

/// The cookies a reader holds.
pub open spec fn reader_pairs(src: Option<&str>) -> Seq<(Seq<char>, Seq<char>)> {
    match src {
        Some(s) => cookie_pairs(s@),
        None => Seq::empty(),
    }
}

/// Splits one item at its first `=`.
fn split_pair<'s>(kv: &'s str) -> (r: (&'s str, &'s str))
    ensures
        (r.0@, r.1@) == cookie_pair(kv@),
{
    let n = kv.unicode_len();
    let i = find_char_from(kv, '=', 0);
    proof {
        lemma_next_index_of(kv@, '=', 0);
    }
    if i < n {
        assert(first_index_of(kv@, '=') == Some(i as int));
        (trim_str(kv.substring_char(0, i)), kv.substring_char(i + 1, n))
    } else {
        assert(first_index_of(kv@, '=') is None);
        let empty = kv.substring_char(n, n);
        assert(empty@ =~= Seq::<char>::empty());
        (trim_str(kv), empty)
    }
}

impl<'s> CookiesReader<'s> {
    pub fn new(src: Option<&'s str>) -> (r: Self)
        ensures
            r.src == src,
    {
        CookiesReader { src }
    }

    /// The value of the first cookie named `name_to_find`.
    pub fn get(&self, name_to_find: &str) -> (r: Option<&'s str>)
        ensures
            match cookie_value(reader_pairs(self.src), name_to_find@) {
                Some(v) => r matches Some(s) && s@ == v,
                None => r is None,
            },
    {
        let all = self.iterate_all();
        let n = all.len();
        let mut i: usize = 0;
        assert(str_pairs(all@).subrange(0, n as int) =~= str_pairs(all@));
        while i < n
            invariant
                n == all@.len(),
                i <= n,
                str_pairs(all@) == reader_pairs(self.src),
                cookie_value(str_pairs(all@), name_to_find@) == cookie_value(
                    str_pairs(all@).subrange(i as int, n as int),
                    name_to_find@,
                ),
            decreases n - i,
        {
            let ghost rest = str_pairs(all@).subrange(i as int, n as int);
            assert(rest[0] == (all@[i as int].0@, all@[i as int].1@));
            let (name, value) = all[i];
            if str_equals(name, name_to_find) {
                return Some(value);
            }
            assert(rest.drop_first() =~= str_pairs(all@).subrange(i + 1, n as int));
            i = i + 1;
        }
        None
    }

    /// All cookies, in order: each `;`-separated item split at its first `=`,
    /// the name trimmed, the value as it stands.
    pub fn iterate_all(&self) -> (r: Vec<(&'s str, &'s str)>)
        ensures
            str_pairs(r@) == reader_pairs(self.src),
    {
        let mut result: Vec<(&'s str, &'s str)> = Vec::new();
        let src = match self.src {
            Some(s) => s,
            None => {
                assert(str_pairs(result@) =~= Seq::<(Seq<char>, Seq<char>)>::empty());
                return result;
            },
        };
        assert(reader_pairs(self.src) == cookie_pairs(src@));
        let n = src.unicode_len();
        let mut start: usize = 0;
        assert(str_pairs(result@) + cookie_pairs_from(src@, 0) =~= cookie_pairs(src@));
        loop
            invariant
                n == src@.len(),
                start <= n,
                reader_pairs(self.src) == cookie_pairs(src@),
                str_pairs(result@) + cookie_pairs_from(src@, start as int) == cookie_pairs(src@),
            decreases n - start,
        {
            proof {
                lemma_next_index_of(src@, ';', start as int);
            }
            let ghost before = str_pairs(result@);
            let end = find_char_from(src, ';', start);
            let kv = src.substring_char(start, end);
            let pair = split_pair(kv);
            result.push(pair);
            assert(str_pairs(result@) =~= before.push((pair.0@, pair.1@)));
            if end >= n {
                assert(cookie_pairs_from(src@, start as int) == seq![(pair.0@, pair.1@)]);
                assert(str_pairs(result@) =~= before + cookie_pairs_from(src@, start as int));
                return result;
            }
            assert(str_pairs(result@) + cookie_pairs_from(src@, end + 1) =~= before
                + cookie_pairs_from(src@, start as int));
            start = end + 1;
        }
    }
}

/// Where the next `c` after `k` falls in `p + b` is where it falls in `b`,
/// shifted by `p`'s length.
proof fn lemma_next_index_shift(p: Seq<char>, b: Seq<char>, c: char, k: int)
    requires
        0 <= k <= b.len(),
    ensures
        next_index_of(p + b, c, p.len() + k) == p.len() + next_index_of(b, c, k),
    decreases b.len() - k,
{
    if k < b.len() && b[k] != c {
        assert((p + b)[p.len() + k] == b[k]);
        lemma_next_index_shift(p, b, c, k + 1);
    } else if k < b.len() {
        assert((p + b)[p.len() + k] == b[k]);
    }
}

/// The cookies of `p + b` read from inside `b` are those of `b`.
proof fn lemma_cookie_pairs_shift(p: Seq<char>, b: Seq<char>, k: int)
    requires
        0 <= k <= b.len(),
    ensures
        cookie_pairs_from(p + b, p.len() + k) == cookie_pairs_from(b, k),
    decreases b.len() - k,
{
    let s = p + b;
    lemma_next_index_shift(p, b, ';', k);
    lemma_next_index_of(b, ';', k);
    let end = next_index_of(b, ';', k);
    assert(s.subrange(p.len() + k, p.len() + end) =~= b.subrange(k, end));
    if end < b.len() {
        lemma_cookie_pairs_shift(p, b, end + 1);
    }
}

/// `name=value` splits into that name, trimmed, and that value, whatever `=`
/// the value holds, when the name has no `=`.
proof fn lemma_item_splits_at_first_eq(name: Seq<char>, value: Seq<char>)
    requires
        forall|i: int| 0 <= i < name.len() ==> #[trigger] name[i] != '=',
    ensures
        cookie_pair(name + "="@ + value) == (trimmed(name), value),
{
    reveal_strlit("=");
    let kv = name + "="@ + value;
    let n = name.len() as int;
    assert(kv[n] == '=');
    assert forall|j: int| 0 <= j < n implies kv[j] != '=' by {
        assert(kv[j] == name[j]);
    }
    let i = choose|i: int| 0 <= i < kv.len() && kv[i] == '=' && forall|j: int| 0 <= j < i ==> kv[j] != '=';
    assert(i == n) by {
        if i < n {
            assert(kv[i] == name[i]);
        }
        if i > n {
            assert(kv[n] == '=');
        }
    }
    assert(kv.subrange(0, n) =~= name);
    assert(kv.subrange(n + 1, kv.len() as int) =~= value);
}

/// A cookie `name=value` read from a header is split only at the first `=`:
/// its name loses the white space around it, its value is kept exactly as it
/// stands up to the end of the item, `=` and white space included, and
/// looking the name up gives that value. The name holds no `=` or `;`; the
/// value holds no `;`.
pub proof fn law_cookie_reads_back(name: Seq<char>, value: Seq<char>)
    requires
        forall|i: int| 0 <= i < name.len() ==> #[trigger] name[i] != '=' && name[i] != ';',
        forall|i: int| 0 <= i < value.len() ==> #[trigger] value[i] != ';',
    ensures
        cookie_pairs(name + "="@ + value) == seq![(trimmed(name), value)],
        cookie_value(cookie_pairs(name + "="@ + value), trimmed(name)) == Some(value),
{
    reveal_strlit("=");
    let s = name + "="@ + value;
    lemma_next_index_of(s, ';', 0);
    assert forall|j: int| 0 <= j < s.len() implies s[j] != ';' by {
        if j < name.len() {
            assert(s[j] == name[j]);
        } else if j > name.len() {
            assert(s[j] == value[j - name.len() - 1]);
        }
    }
    assert(next_index_of(s, ';', 0) == s.len()) by {
        if next_index_of(s, ';', 0) < s.len() {
            assert(s[next_index_of(s, ';', 0)] == ';');
        }
    }
    assert(s.subrange(0, s.len() as int) =~= s);
    lemma_item_splits_at_first_eq(name, value);
    assert(cookie_pairs(s) =~= seq![(trimmed(name), value)]);
}

/// A cookie `name=value` followed by `;` and more cookies reads as that cookie
/// followed by the cookies of the rest, and looking its name up gives its own
/// value, whatever cookies of that name come later. Same conditions on name
/// and value.
pub proof fn law_cookies_read_in_order(name: Seq<char>, value: Seq<char>, rest: Seq<char>)
    requires
        forall|i: int| 0 <= i < name.len() ==> #[trigger] name[i] != '=' && name[i] != ';',
        forall|i: int| 0 <= i < value.len() ==> #[trigger] value[i] != ';',
    ensures
        cookie_pairs(name + "="@ + value + ";"@ + rest) == seq![(trimmed(name), value)] + cookie_pairs(
            rest,
        ),
        cookie_value(cookie_pairs(name + "="@ + value + ";"@ + rest), trimmed(name)) == Some(value),
{
    reveal_strlit("=");
    reveal_strlit(";");
    let item = name + "="@ + value;
    let p = item + ";"@;
    let s = p + rest;
    let e = item.len() as int;
    assert forall|j: int| 0 <= j < e implies s[j] != ';' by {
        if j < name.len() {
            assert(s[j] == name[j]);
        } else if j > name.len() {
            assert(s[j] == value[j - name.len() - 1]);
        }
    }
    assert(s[e] == ';');
    lemma_next_index_of(s, ';', 0);
    assert(next_index_of(s, ';', 0) == e) by {
        if next_index_of(s, ';', 0) < e {
            assert(s[next_index_of(s, ';', 0)] == ';');
        }
    }
    assert(s.subrange(0, e) =~= item);
    lemma_item_splits_at_first_eq(name, value);
    lemma_cookie_pairs_shift(p, rest, 0);
    assert(p.len() == e + 1);
    assert(cookie_pairs(s) =~= seq![(trimmed(name), value)] + cookie_pairs(rest));
}

} // verus!
